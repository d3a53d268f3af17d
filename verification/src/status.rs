//! Repository inspection: from what was read of a repository to its status.
//!
//! Reading a repository is the caller's work. The decisions are made here:
//! [`classify`] maps everything that can be read to a status, and
//! [`Inspection`] asks for one reading at a time and stops as soon as the
//! status is settled.

use vstd::prelude::*;

verus! {

/// The state of a repository, as far as dropping it is concerned.
#[derive(Debug, Clone, Copy, PartialEq, Eq, Structural)]
pub enum RepoStatus {
    /// Has commits, no local changes, nothing unpushed.
    Clean,
    /// Has modified or deleted tracked files, or untracked files.
    Dirty,
    /// HEAD names no commit.
    NoCommits,
    /// The local branch and its tracking reference name different commits.
    Unpushed,
}

/// What reading HEAD gave.
#[derive(Debug, Clone, Copy, PartialEq, Eq, Structural)]
pub enum HeadReading {
    /// HEAD could not be read, or names no commit: the repository is new,
    /// or HEAD follows a branch that does not exist.
    Unresolved,
    /// HEAD names a commit and follows no branch.
    Detached,
    /// HEAD follows an existing branch.
    Branch,
}

/// What comparing the index with the working tree gave.
#[derive(Debug, Clone, Copy, PartialEq, Eq, Structural)]
pub enum ChangesReading {
    /// The comparison could not be set up.
    Unavailable,
    /// The comparison was set up and then failed.
    Failed,
    /// The comparison ran.
    Scanned {
        /// A tracked file is modified or deleted.
        modified: bool,
        /// The working tree holds an untracked file.
        untracked: bool,
    },
}

/// What looking up the branch's upstream gave.
#[derive(Debug, Clone, Copy, PartialEq, Eq, Structural)]
pub enum UpstreamReading {
    /// The branch has no upstream.
    NotConfigured,
    /// The configured upstream is not a valid reference name.
    Invalid,
    /// The branch has an upstream with a valid name.
    Configured,
}

/// What resolving the tracking reference and both commits gave.
#[derive(Debug, Clone)]
pub enum TrackingReading {
    /// The tracking reference does not exist.
    Missing,
    /// The tracking reference exists; each commit is `None` where its object
    /// could not be read.
    Found { local: Option<Vec<u8>>, remote: Option<Vec<u8>> },
}

/// Everything the inspector may read of one repository.
#[derive(Debug, Clone)]
pub struct RepoFacts {
    pub head: HeadReading,
    pub changes: ChangesReading,
    pub upstream: UpstreamReading,
    pub tracking: TrackingReading,
}

/// The four readings, in the order in which they are asked for.
#[derive(Debug, Clone, Copy, PartialEq, Eq, Structural)]
pub enum Probe {
    Head,
    Changes,
    Upstream,
    Tracking,
}

/// The answer to one probe.
#[derive(Debug, Clone)]
pub enum Finding {
    Head(HeadReading),
    Changes(ChangesReading),
    Upstream(UpstreamReading),
    Tracking(TrackingReading),
}

impl Finding {
    /// The finding is an answer to `probe`.
    pub open spec fn answers(self, probe: Probe) -> bool {
        match (self, probe) {
            (Finding::Head(_), Probe::Head) => true,
            (Finding::Changes(_), Probe::Changes) => true,
            (Finding::Upstream(_), Probe::Upstream) => true,
            (Finding::Tracking(_), Probe::Tracking) => true,
            _ => false,
        }
    }
}

impl ChangesReading {
    /// The working tree differs from the index, or holds untracked files.
    pub open spec fn has_changes(self) -> bool {
        match self {
            ChangesReading::Scanned { modified, untracked } => modified || untracked,
            _ => false,
        }
    }
}

impl TrackingReading {
    /// Both commits were read and they differ.
    pub open spec fn diverged(self) -> bool {
        match self {
            TrackingReading::Found { local: Some(l), remote: Some(r) } => l@ != r@,
            _ => false,
        }
    }

    /// The status that follows from this reading when nothing before it
    /// settled one.
    pub open spec fn verdict(self) -> RepoStatus {
        if self.diverged() {
            RepoStatus::Unpushed
        } else {
            RepoStatus::Clean
        }
    }
}

impl RepoFacts {
    /// The status of a repository of which these facts hold: no commits
    /// before anything else, then local changes, then unpushed work. A
    /// HEAD that follows no branch has no upstream, so nothing of it is
    /// unpushed.
    pub open spec fn status(self) -> RepoStatus {
        if self.head is Unresolved {
            RepoStatus::NoCommits
        } else if self.changes is Unavailable {
            RepoStatus::Clean
        } else if self.changes.has_changes() {
            RepoStatus::Dirty
        } else if self.head is Detached || !(self.upstream is Configured) {
            RepoStatus::Clean
        } else {
            self.tracking.verdict()
        }
    }

    /// The answer that these facts give to a probe.
    pub open spec fn answer(self, probe: Probe) -> Finding {
        match probe {
            Probe::Head => Finding::Head(self.head),
            Probe::Changes => Finding::Changes(self.changes),
            Probe::Upstream => Finding::Upstream(self.upstream),
            Probe::Tracking => Finding::Tracking(self.tracking),
        }
    }
}

/// Whether two byte strings are equal.
pub fn same_bytes(a: &Vec<u8>, b: &Vec<u8>) -> (r: bool)
    ensures
        r == (a@ == b@),
{
    if a.len() != b.len() {
        return false;
    }
    let mut i: usize = 0;
    while i < a.len()
        invariant
            i <= a.len(),
            a.len() == b.len(),
            forall|j: int| 0 <= j < i ==> a@[j] == b@[j],
        decreases a.len() - i,
    {
        if a[i] != b[i] {
            return false;
        }
        i += 1;
    }
    assert(a@ =~= b@);
    true
}

/// The status that follows from a tracking reading.
pub fn tracking_verdict(tracking: &TrackingReading) -> (r: RepoStatus)
    ensures
        r == tracking.verdict(),
{
    match tracking {
        TrackingReading::Found { local: Some(l), remote: Some(r) } => {
            if same_bytes(l, r) {
                RepoStatus::Clean
            } else {
                RepoStatus::Unpushed
            }
        },
        _ => RepoStatus::Clean,
    }
}

/// Classifies a repository from everything that was read of it.
///
/// A repository whose HEAD names no commit is `NoCommits` whatever its
/// working tree holds; with a commit at HEAD, a modified tracked file or an
/// untracked file makes it `Dirty`; without changes and without an
/// upstream, as for a HEAD that follows no branch, it is `Clean`; and
/// without changes, with a tracking reference whose commit differs from the
/// local one, it is `Unpushed`. A reading that failed counts as "not dirty"
/// and "nothing unpushed".
pub fn classify(facts: &RepoFacts) -> (r: RepoStatus)
    ensures
        r == facts.status(),
        facts.head is Unresolved ==> r == RepoStatus::NoCommits,
        !(facts.head is Unresolved) ==> r != RepoStatus::NoCommits,
        !(facts.head is Unresolved) && facts.changes.has_changes() ==> r == RepoStatus::Dirty,
        facts.head is Branch && !facts.changes.has_changes() && facts.upstream is NotConfigured
            ==> r == RepoStatus::Clean,
        facts.head is Detached && !facts.changes.has_changes() ==> r == RepoStatus::Clean,
        facts.head is Branch && facts.changes is Scanned && !facts.changes.has_changes()
            && facts.upstream is Configured && facts.tracking.diverged() ==> r
            == RepoStatus::Unpushed,
        r == RepoStatus::Unpushed ==> facts.tracking.diverged(),
        r == RepoStatus::Dirty ==> facts.changes.has_changes(),
{
    match facts.head {
        HeadReading::Unresolved => RepoStatus::NoCommits,
        head => match facts.changes {
            ChangesReading::Unavailable => RepoStatus::Clean,
            ChangesReading::Scanned { modified, untracked } if modified || untracked => {
                RepoStatus::Dirty
            },
            _ => match (head, facts.upstream) {
                (HeadReading::Branch, UpstreamReading::Configured) => tracking_verdict(
                    &facts.tracking,
                ),
                _ => RepoStatus::Clean,
            },
        },
    }
}

/// An inspection in progress: which reading it waits for, or the status it
/// settled.
#[derive(Debug, Clone, Copy, PartialEq, Eq, Structural)]
pub enum Inspection {
    /// It waits for the answer to this probe.
    Waiting(Probe),
    /// HEAD follows no branch, and the inspection waits for the comparison
    /// of the index with the working tree, which is all that is left to
    /// read.
    WaitingDetached,
    /// It settled this status.
    Settled(RepoStatus),
}

impl Inspection {
    /// The probe that is pending; `None` once the status is settled.
    pub open spec fn asks(self) -> Option<Probe> {
        match self {
            Inspection::Waiting(probe) => Some(probe),
            Inspection::WaitingDetached => Some(Probe::Changes),
            Inspection::Settled(_) => None,
        }
    }

    /// The state that follows when `finding` arrives. A finding that does
    /// not answer the pending probe changes nothing.
    pub open spec fn after(self, finding: Finding) -> Inspection {
        match (self, finding) {
            (Inspection::Waiting(Probe::Head), Finding::Head(h)) => match h {
                HeadReading::Unresolved => Inspection::Settled(RepoStatus::NoCommits),
                HeadReading::Detached => Inspection::WaitingDetached,
                HeadReading::Branch => Inspection::Waiting(Probe::Changes),
            },
            (Inspection::WaitingDetached, Finding::Changes(c)) => if c.has_changes() {
                Inspection::Settled(RepoStatus::Dirty)
            } else {
                Inspection::Settled(RepoStatus::Clean)
            },
            (Inspection::Waiting(Probe::Changes), Finding::Changes(c)) => if c is Unavailable {
                Inspection::Settled(RepoStatus::Clean)
            } else if c.has_changes() {
                Inspection::Settled(RepoStatus::Dirty)
            } else {
                Inspection::Waiting(Probe::Upstream)
            },
            (Inspection::Waiting(Probe::Upstream), Finding::Upstream(u)) => match u {
                UpstreamReading::Configured => Inspection::Waiting(Probe::Tracking),
                _ => Inspection::Settled(RepoStatus::Clean),
            },
            (Inspection::Waiting(Probe::Tracking), Finding::Tracking(t)) => Inspection::Settled(
                t.verdict(),
            ),
            _ => self,
        }
    }

    /// The number of readings that this state may still ask for.
    pub open spec fn remaining(self) -> nat {
        match self {
            Inspection::Waiting(Probe::Head) => 4,
            Inspection::Waiting(Probe::Changes) => 3,
            Inspection::Waiting(Probe::Upstream) => 2,
            Inspection::Waiting(Probe::Tracking) => 1,
            Inspection::WaitingDetached => 1,
            Inspection::Settled(_) => 0,
        }
    }

    /// The status that the inspection settles when every probe from this
    /// state on is answered from `facts`.
    pub open spec fn outcome(self, facts: RepoFacts) -> RepoStatus
        decreases self.remaining(),
    {
        match self.asks() {
            Some(probe) => self.after(facts.answer(probe)).outcome(facts),
            None => match self {
                Inspection::Settled(status) => status,
                _ => RepoStatus::NoCommits,
            },
        }
    }

    /// An inspection that has read nothing yet.
    pub fn new() -> (r: Inspection)
        ensures
            r == Inspection::Waiting(Probe::Head),
    {
        Inspection::Waiting(Probe::Head)
    }

    /// The reading to make next; `None` once the status is settled.
    pub fn pending(&self) -> (r: Option<Probe>)
        ensures
            r == self.asks(),
    {
        match self {
            Inspection::Waiting(probe) => Some(*probe),
            Inspection::WaitingDetached => Some(Probe::Changes),
            Inspection::Settled(_) => None,
        }
    }

    /// The settled status; `None` while a reading is pending.
    pub fn status(&self) -> (r: Option<RepoStatus>)
        ensures
            r == match *self {
                Inspection::Settled(status) => Some(status),
                _ => None,
            },
    {
        match self {
            Inspection::Settled(status) => Some(*status),
            _ => None,
        }
    }

    /// Takes in one finding and moves on.
    pub fn record(self, finding: &Finding) -> (r: Inspection)
        ensures
            r == self.after(*finding),
            r.remaining() <= self.remaining(),
            forall|probe: Probe|
                self.asks() == Some(probe) && finding.answers(probe) ==> r.remaining()
                    < self.remaining(),
    {
        match self {
            Inspection::Waiting(Probe::Head) => match finding {
                Finding::Head(HeadReading::Unresolved) => Inspection::Settled(
                    RepoStatus::NoCommits,
                ),
                Finding::Head(HeadReading::Detached) => Inspection::WaitingDetached,
                Finding::Head(HeadReading::Branch) => Inspection::Waiting(Probe::Changes),
                _ => self,
            },
            Inspection::WaitingDetached => match finding {
                Finding::Changes(ChangesReading::Scanned { modified, untracked }) => {
                    if *modified || *untracked {
                        Inspection::Settled(RepoStatus::Dirty)
                    } else {
                        Inspection::Settled(RepoStatus::Clean)
                    }
                },
                Finding::Changes(_) => Inspection::Settled(RepoStatus::Clean),
                _ => self,
            },
            Inspection::Waiting(Probe::Changes) => match finding {
                Finding::Changes(ChangesReading::Unavailable) => Inspection::Settled(
                    RepoStatus::Clean,
                ),
                Finding::Changes(ChangesReading::Failed) => Inspection::Waiting(Probe::Upstream),
                Finding::Changes(ChangesReading::Scanned { modified, untracked }) => {
                    if *modified || *untracked {
                        Inspection::Settled(RepoStatus::Dirty)
                    } else {
                        Inspection::Waiting(Probe::Upstream)
                    }
                },
                _ => self,
            },
            Inspection::Waiting(Probe::Upstream) => match finding {
                Finding::Upstream(UpstreamReading::Configured) => Inspection::Waiting(
                    Probe::Tracking,
                ),
                Finding::Upstream(_) => Inspection::Settled(RepoStatus::Clean),
                _ => self,
            },
            Inspection::Waiting(Probe::Tracking) => match finding {
                Finding::Tracking(t) => Inspection::Settled(tracking_verdict(t)),
                _ => self,
            },
            Inspection::Settled(_) => self,
        }
    }
}

/// An inspection that asks one reading at a time settles the status that
/// [`classify`] gives for all readings together, and never asks for a
/// reading that cannot change the status.
pub proof fn lemma_inspection_settles_status(facts: RepoFacts)
    ensures
        Inspection::Waiting(Probe::Head).outcome(facts) == facts.status(),
{
    reveal_with_fuel(Inspection::outcome, 5);
}

} // verus!
