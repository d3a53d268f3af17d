//! The last message that was logged, kept for display.

use vstd::prelude::*;

verus! {

/// Holds the last message that was logged.
#[derive(Debug, Clone)]
pub struct LogCapture {
    pub last_message: String,
}

impl Default for LogCapture {
    fn default() -> (capture: LogCapture)
        ensures
            capture.last_message@ == Seq::<char>::empty(),
    {
        LogCapture { last_message: String::new() }
    }
}

impl LogCapture {
    /// A capture that holds the empty message.
    pub fn new() -> (capture: LogCapture)
        ensures
            capture.last_message@ == Seq::<char>::empty(),
    {
        LogCapture { last_message: String::new() }
    }

    /// Replaces the message.
    pub fn set_message(&mut self, msg: String)
        ensures
            final(self).last_message == msg,
    {
        self.last_message = msg;
    }

    /// The message that was set last; the empty message where none was.
    pub fn get_message(&self) -> (msg: String)
        ensures
            msg@ == self.last_message@,
    {
        self.last_message.clone()
    }
}

} // verus!
