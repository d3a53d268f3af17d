//! Points in time as plain values, and the last activity of a repository.

use vstd::prelude::*;

verus! {

/// A point in time: `secs` whole seconds after the Unix epoch (before it,
/// where negative) and `nanos` nanoseconds more.
#[derive(Debug, Clone, Copy, PartialEq, Eq, Structural)]
pub struct Timestamp {
    pub secs: i64,
    pub nanos: u32,
}

impl Timestamp {
    /// `self` is strictly earlier than `other`.
    pub open spec fn before(self, other: Timestamp) -> bool {
        self.secs < other.secs || (self.secs == other.secs && self.nanos < other.nanos)
    }

    /// The later of two points in time.
    pub open spec fn later_of(self, other: Timestamp) -> Timestamp {
        if self.before(other) {
            other
        } else {
            self
        }
    }

    /// The whole seconds from `earlier` to `self`; `None` where `earlier`
    /// is in fact later than `self`.
    pub open spec fn seconds_since(self, earlier: Timestamp) -> Option<nat> {
        if self.before(earlier) {
            None
        } else if self.nanos < earlier.nanos {
            Some((self.secs - earlier.secs - 1) as nat)
        } else {
            Some((self.secs - earlier.secs) as nat)
        }
    }

    /// The Unix epoch.
    pub fn epoch() -> (r: Timestamp)
        ensures
            r == (Timestamp { secs: 0, nanos: 0 }),
    {
        Timestamp { secs: 0, nanos: 0 }
    }

    /// Whether `self` is strictly earlier than `other`.
    pub fn is_before(&self, other: &Timestamp) -> (r: bool)
        ensures
            r == self.before(*other),
    {
        self.secs < other.secs || (self.secs == other.secs && self.nanos < other.nanos)
    }

    /// The later of `self` and `other`; `self` where they are equal.
    pub fn latest(self, other: Timestamp) -> (r: Timestamp)
        ensures
            r == self.later_of(other),
    {
        if self.is_before(&other) {
            other
        } else {
            self
        }
    }

    /// The whole seconds that passed from `earlier` to `self`; `None` where
    /// `earlier` lies after `self`.
    pub fn elapsed_since(&self, earlier: &Timestamp) -> (r: Option<u64>)
        ensures
            r is Some == self.seconds_since(*earlier) is Some,
            r is Some ==> r.unwrap() == self.seconds_since(*earlier).unwrap(),
    {
        if self.is_before(earlier) {
            return None;
        }
        let wide: i128 = self.secs as i128 - earlier.secs as i128;
        let whole: i128 = if self.nanos < earlier.nanos {
            wide - 1
        } else {
            wide
        };
        Some(whole as u64)
    }
}

/// The latest of `times`, and the epoch where none is later than it.
pub open spec fn latest_of(times: Seq<Timestamp>) -> Timestamp
    decreases times.len(),
{
    if times.len() == 0 {
        Timestamp { secs: 0, nanos: 0 }
    } else {
        latest_of(times.drop_last()).later_of(times.last())
    }
}

/// The most recent of the modification times of a repository's changed and
/// untracked files; the epoch where there is none after it.
pub fn latest_time(times: &Vec<Timestamp>) -> (r: Timestamp)
    ensures
        r == latest_of(times@),
        !r.before(Timestamp { secs: 0, nanos: 0 }),
        forall|i: int| 0 <= i < times.len() ==> !r.before(#[trigger] times@[i]),
{
    let mut latest = Timestamp::epoch();
    let mut i: usize = 0;
    assert(times@.take(0) =~= Seq::<Timestamp>::empty());
    while i < times.len()
        invariant
            i <= times.len(),
            latest == latest_of(times@.take(i as int)),
            !latest.before(Timestamp { secs: 0, nanos: 0 }),
            forall|j: int| 0 <= j < i ==> !latest.before(#[trigger] times@[j]),
        decreases times.len() - i,
    {
        assert(times@.take(i + 1).drop_last() =~= times@.take(i as int));
        latest = latest.latest(times[i]);
        i += 1;
    }
    assert(times@.take(times@.len() as int) =~= times@);
    latest
}

/// When a repository was last worked on, as `last_activity` returns it.
pub open spec fn activity(
    is_clean: bool,
    commit_time: Option<Timestamp>,
    file_times: Seq<Timestamp>,
) -> Option<Timestamp> {
    if is_clean {
        commit_time
    } else {
        let commit = match commit_time {
            Some(t) => t,
            None => Timestamp { secs: 0, nanos: 0 },
        };
        Some(commit.later_of(latest_of(file_times)))
    }
}

/// When a repository was last worked on.
///
/// For a clean repository this is the time of the HEAD commit, and `None`
/// where that could not be read. For any other it is the later of the HEAD
/// commit's time and the latest modification time among its changed and
/// untracked files, each taken as the epoch where it is missing.
pub fn last_activity(
    is_clean: bool,
    commit_time: Option<Timestamp>,
    file_times: &Vec<Timestamp>,
) -> (r: Option<Timestamp>)
    ensures
        r == activity(is_clean, commit_time, file_times@),
        is_clean ==> r == commit_time,
        !is_clean ==> r is Some,
        !is_clean && commit_time is Some ==> !r.unwrap().before(commit_time.unwrap()),
        !is_clean ==> forall|i: int|
            0 <= i < file_times.len() ==> !r.unwrap().before(#[trigger] file_times@[i]),
{
    if is_clean {
        commit_time
    } else {
        let commit = match commit_time {
            Some(t) => t,
            None => Timestamp::epoch(),
        };
        Some(commit.latest(latest_time(file_times)))
    }
}

} // verus!
