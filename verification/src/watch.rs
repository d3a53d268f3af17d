//! Watching the workspace: which changes matter, and when a burst of them
//! is over.

use crate::text::{chars_of, same_chars, split, split_on, views};
use vstd::prelude::*;

verus! {

/// A segment names a metadata directory: that of a repository or that of
/// the library.
pub open spec fn is_metadata(segment: Seq<char>) -> bool {
    segment == ".git"@ || segment == ".workset"@
}

/// One of the first `n` of `segments` names a metadata directory.
pub open spec fn touches_metadata(segments: Seq<Seq<char>>, n: int) -> bool
    decreases n,
{
    if n <= 0 || n > segments.len() {
        false
    } else {
        is_metadata(segments[n - 1]) || touches_metadata(segments, n - 1)
    }
}

/// A change at `path` matters: no segment of the path names a metadata
/// directory. What the lifecycle itself moves lies inside these.
pub open spec fn matters(path: Seq<char>) -> bool {
    !touches_metadata(split(path, '/'), split(path, '/').len() as int)
}

/// Whether a change at `path` makes the listing stale.
pub fn is_relevant(path: &str) -> (r: bool)
    ensures
        r == matters(path@),
{
    let text = chars_of(path);
    let segments = split_on(&text, '/');
    let repository = chars_of(".git");
    let library = chars_of(".workset");
    let mut i: usize = 0;
    while i < segments.len()
        invariant
            i <= segments.len(),
            views(segments@) == split(path@, '/'),
            repository@ == ".git"@,
            library@ == ".workset"@,
            !touches_metadata(views(segments@), i as int),
        decreases segments.len() - i,
    {
        proof {
            assert(views(segments@)[i as int] == segments@[i as int]@);
        }
        if same_chars(&segments[i], &repository) || same_chars(&segments[i], &library) {
            proof {
                lemma_touch_stays(views(segments@), i + 1, segments@.len() as int);
            }
            return false;
        }
        i += 1;
    }
    true
}

/// A metadata directory among the first `n` segments is among the first
/// `m`, for `m` beyond `n`.
proof fn lemma_touch_stays(segments: Seq<Seq<char>>, n: int, m: int)
    requires
        0 <= n <= m <= segments.len(),
        touches_metadata(segments, n),
    ensures
        touches_metadata(segments, m),
    decreases m - n,
{
    if n < m {
        lemma_touch_stays(segments, n, m - 1);
    }
}

/// Waits for a burst of changes to end before it calls the listing stale.
#[derive(Debug, Clone, Copy, PartialEq, Eq, Structural)]
pub struct Debounce {
    /// How long no change must have come, in milliseconds.
    pub window: u64,
    /// When the last change came that was not yet signalled.
    pub last_change: Option<u64>,
}

impl Debounce {
    /// The burst is over at `now`: a change is waiting, and none came for
    /// the length of the window.
    pub open spec fn settled(self, now: u64) -> bool {
        match self.last_change {
            Some(at) => now >= at && now - at >= self.window,
            None => false,
        }
    }

    /// A debounce with nothing waiting.
    pub fn new(window: u64) -> (debounce: Debounce)
        ensures
            debounce == (Debounce { window, last_change: None }),
    {
        Debounce { window, last_change: None }
    }

    /// Takes note of a change at the time `at`. Changes coalesce: only the
    /// latest one waits.
    pub fn notice(&mut self, at: u64)
        ensures
            final(self).window == old(self).window,
            final(self).last_change == Some(
                match old(self).last_change {
                    Some(before) => if before > at {
                        before
                    } else {
                        at
                    },
                    None => at,
                },
            ),
    {
        let latest = match self.last_change {
            Some(before) => if before > at {
                before
            } else {
                at
            },
            None => at,
        };
        self.last_change = Some(latest);
    }

    /// Tells at the time `now` whether the listing is stale. It is, once,
    /// when a change is waiting and the window has passed since the latest
    /// one; then nothing is waiting any more.
    pub fn poll(&mut self, now: u64) -> (stale: bool)
        ensures
            stale == old(self).settled(now),
            final(self).window == old(self).window,
            final(self).last_change == if stale {
                None
            } else {
                old(self).last_change
            },
    {
        match self.last_change {
            Some(at) => {
                if now >= at && now - at >= self.window {
                    self.last_change = None;
                    true
                } else {
                    false
                }
            },
            None => false,
        }
    }
}

} // verus!
