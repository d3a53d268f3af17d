//! The lifecycle of a repository: dropping it from the workspace into the
//! library, restoring it, opening it.
//!
//! Moving files is the caller's work. Each operation is a small machine
//! that names the next step and takes in what the step gave, so that every
//! ordering rule (nothing is removed before it was stored, a refusal stops
//! before anything is touched) is decided and proved here.

use crate::status::RepoStatus;
use vstd::prelude::*;

verus! {

/// How dropping one repository ended.
#[derive(Debug, Clone, Copy, PartialEq, Eq, Structural)]
pub enum DropOutcome {
    /// The repository left the workspace.
    Dropped,
    /// The repository holds work that would be lost and was not touched.
    Skipped(RepoStatus),
    /// Storing failed; nothing was removed.
    StoreFailed,
    /// The directory could not be removed.
    RemoveFailed,
}

/// What is to be done next for a repository that is being dropped.
#[derive(Debug, Clone, Copy, PartialEq, Eq, Structural)]
pub enum DropStep {
    /// Classify the repository.
    Inspect,
    /// Move the repository's metadata into the library.
    Store,
    /// Remove the repository's directory from the workspace.
    Remove,
    /// Nothing more.
    Finish(DropOutcome),
}

/// What a step gave.
#[derive(Debug, Clone, Copy, PartialEq, Eq, Structural)]
pub enum DropEvent {
    Inspected(RepoStatus),
    Stored(bool),
    Removed(bool),
}

/// How the outside world will answer the steps of one drop.
pub struct DropProspect {
    pub status: RepoStatus,
    pub store_succeeds: bool,
    pub remove_succeeds: bool,
}

/// Where a repository is.
pub struct Place {
    /// Its directory is in the workspace.
    pub in_workspace: bool,
    /// Its entry is in the library.
    pub in_library: bool,
}

/// The drop of one repository, in progress.
#[derive(Debug, Clone, Copy, PartialEq, Eq, Structural)]
pub struct DropTask {
    /// Delete for good instead of storing.
    pub delete: bool,
    /// Drop even what holds uncommitted or unpushed work.
    pub force: bool,
    /// The step that is due.
    pub step: DropStep,
}

impl RepoStatus {
    /// Dropping a repository in this state would lose work.
    pub open spec fn holds_work(self) -> bool {
        self == RepoStatus::Dirty || self == RepoStatus::Unpushed
    }
}

impl DropStep {
    /// The step that moves the repository out: removal when deleting for
    /// good, storing otherwise.
    pub open spec fn departure(delete: bool) -> DropStep {
        if delete {
            DropStep::Remove
        } else {
            DropStep::Store
        }
    }

    /// `event` answers this step.
    pub open spec fn takes(self, event: DropEvent) -> bool {
        match (self, event) {
            (DropStep::Inspect, DropEvent::Inspected(_)) => true,
            (DropStep::Store, DropEvent::Stored(_)) => true,
            (DropStep::Remove, DropEvent::Removed(_)) => true,
            _ => false,
        }
    }

    /// The number of steps that may still follow.
    pub open spec fn remaining(self) -> nat {
        match self {
            DropStep::Inspect => 3,
            DropStep::Store => 2,
            DropStep::Remove => 1,
            DropStep::Finish(_) => 0,
        }
    }
}

impl DropProspect {
    /// The event that performing `step` gives.
    pub open spec fn answer(self, step: DropStep) -> DropEvent {
        match step {
            DropStep::Store => DropEvent::Stored(self.store_succeeds),
            DropStep::Remove => DropEvent::Removed(self.remove_succeeds),
            _ => DropEvent::Inspected(self.status),
        }
    }

    /// Where the repository is once `step` was performed. A step that fails
    /// changes nothing.
    pub open spec fn effect(self, step: DropStep, place: Place) -> Place {
        match step {
            DropStep::Store if self.store_succeeds => Place { in_library: true, ..place },
            DropStep::Remove if self.remove_succeeds => Place { in_workspace: false, ..place },
            _ => place,
        }
    }
}

impl DropTask {
    /// The task as it begins: with the inspection, or, when forced, with
    /// the departure.
    pub open spec fn initial(delete: bool, force: bool) -> DropTask {
        DropTask {
            delete,
            force,
            step: if force {
                DropStep::departure(delete)
            } else {
                DropStep::Inspect
            },
        }
    }

    /// The task after `event`. An event that does not answer the step that
    /// is due changes nothing.
    pub open spec fn after(self, event: DropEvent) -> DropTask {
        let step = match (self.step, event) {
            (DropStep::Inspect, DropEvent::Inspected(status)) => if status.holds_work() {
                DropStep::Finish(DropOutcome::Skipped(status))
            } else {
                DropStep::departure(self.delete)
            },
            (DropStep::Store, DropEvent::Stored(ok)) => if ok {
                DropStep::Remove
            } else {
                DropStep::Finish(DropOutcome::StoreFailed)
            },
            (DropStep::Remove, DropEvent::Removed(ok)) => if ok {
                DropStep::Finish(DropOutcome::Dropped)
            } else {
                DropStep::Finish(DropOutcome::RemoveFailed)
            },
            _ => self.step,
        };
        DropTask { step, ..self }
    }

    /// How the task ends when every step from here on is answered by
    /// `world`.
    pub open spec fn outcome(self, world: DropProspect) -> DropOutcome
        decreases self.step.remaining(),
    {
        match self.step {
            DropStep::Finish(outcome) => outcome,
            step => self.after(world.answer(step)).outcome(world),
        }
    }

    /// Where the repository is when the task has ended, every step from
    /// here on performed in `world`, beginning at `place`.
    pub open spec fn place_after(self, world: DropProspect, place: Place) -> Place
        decreases self.step.remaining(),
    {
        match self.step {
            DropStep::Finish(_) => place,
            step => self.after(world.answer(step)).place_after(world, world.effect(step, place)),
        }
    }

    /// Begins the drop of one repository.
    pub fn start(delete: bool, force: bool) -> (task: DropTask)
        ensures
            task == DropTask::initial(delete, force),
            task.step is Remove ==> delete,
    {
        let step = if !force {
            DropStep::Inspect
        } else if delete {
            DropStep::Remove
        } else {
            DropStep::Store
        };
        DropTask { delete, force, step }
    }

    /// The step that is due.
    pub fn step(&self) -> (step: DropStep)
        ensures
            step == self.step,
    {
        self.step
    }

    /// The outcome, once the task has ended.
    pub fn finished(&self) -> (r: Option<DropOutcome>)
        ensures
            r == match self.step {
                DropStep::Finish(outcome) => Some(outcome),
                _ => None,
            },
    {
        match self.step {
            DropStep::Finish(outcome) => Some(outcome),
            _ => None,
        }
    }

    /// Takes in what the due step gave and moves on.
    ///
    /// Removal becomes due only right after a store that succeeded, or when
    /// the caller asked to delete for good; storing never becomes due when
    /// the caller asked to delete; and a repository that holds uncommitted
    /// or unpushed work is finished as skipped before any step touches it.
    pub fn record(&mut self, event: DropEvent)
        ensures
            *final(self) == old(self).after(event),
            old(self).step.takes(event) ==> final(self).step.remaining()
                < old(self).step.remaining(),
            !old(self).step.takes(event) ==> *final(self) == *old(self),
            final(self).step is Remove && !(old(self).step is Remove) ==> old(self).delete
                || (old(self).step is Store && event == DropEvent::Stored(true)),
            final(self).step is Store && !(old(self).step is Store) ==> !old(self).delete,
    {
        let next = match (self.step, event) {
            (DropStep::Inspect, DropEvent::Inspected(status)) => match status {
                RepoStatus::Dirty | RepoStatus::Unpushed => DropStep::Finish(
                    DropOutcome::Skipped(status),
                ),
                _ => if self.delete {
                    DropStep::Remove
                } else {
                    DropStep::Store
                },
            },
            (DropStep::Store, DropEvent::Stored(true)) => DropStep::Remove,
            (DropStep::Store, DropEvent::Stored(false)) => DropStep::Finish(
                DropOutcome::StoreFailed,
            ),
            (DropStep::Remove, DropEvent::Removed(true)) => DropStep::Finish(DropOutcome::Dropped),
            (DropStep::Remove, DropEvent::Removed(false)) => DropStep::Finish(
                DropOutcome::RemoveFailed,
            ),
            (step, _) => step,
        };
        self.step = next;
    }
}

/// A repository leaves the workspace only when it was just stored in the
/// library, or when the caller asked to delete it for good.
pub proof fn lemma_drop_never_loses_a_repository(
    delete: bool,
    force: bool,
    world: DropProspect,
    place: Place,
)
    requires
        place.in_workspace,
    ensures
        ({
            let end = DropTask::initial(delete, force).place_after(world, place);
            !end.in_workspace ==> delete || (world.store_succeeds && end.in_library)
        }),
        ({
            let end = DropTask::initial(delete, force).place_after(world, place);
            !delete ==> end.in_workspace || end.in_library
        }),
        DropTask::initial(delete, force).outcome(world) == DropOutcome::Dropped <==> !DropTask::initial(
            delete,
            force,
        ).place_after(world, place).in_workspace,
{
    reveal_with_fuel(DropTask::place_after, 4);
    reveal_with_fuel(DropTask::outcome, 4);
}

/// Without force, a repository with uncommitted or unpushed work is
/// skipped: its directory stays and the library gets no entry.
pub proof fn lemma_unforced_drop_spares_work(delete: bool, world: DropProspect, place: Place)
    requires
        world.status.holds_work(),
    ensures
        DropTask::initial(delete, false).place_after(world, place) == place,
        DropTask::initial(delete, false).outcome(world) == DropOutcome::Skipped(world.status),
{
    reveal_with_fuel(DropTask::place_after, 4);
    reveal_with_fuel(DropTask::outcome, 4);
}

/// A forced drop that stores: where storing and removing succeed, the
/// repository is gone from the workspace and present in the library,
/// whatever its status was.
pub proof fn lemma_forced_drop_relocates(world: DropProspect, place: Place)
    requires
        world.store_succeeds,
        world.remove_succeeds,
    ensures
        DropTask::initial(false, true).place_after(world, place) == (Place {
            in_workspace: false,
            in_library: true,
        }),
        DropTask::initial(false, true).outcome(world) == DropOutcome::Dropped,
{
    reveal_with_fuel(DropTask::place_after, 4);
    reveal_with_fuel(DropTask::outcome, 4);
}

/// Deleting for good never touches the library.
pub proof fn lemma_delete_leaves_library(force: bool, world: DropProspect, place: Place)
    ensures
        DropTask::initial(true, force).place_after(world, place).in_library == place.in_library,
{
    reveal_with_fuel(DropTask::place_after, 4);
}

/// Counts of how the drops of a batch ended.
#[derive(Debug, Clone, Copy, PartialEq, Eq, Structural)]
pub struct DropSummary {
    pub dropped: usize,
    pub skipped: usize,
    pub failed: usize,
}

/// The number of outcomes among `outcomes` that are `Dropped`.
pub open spec fn count_dropped(outcomes: Seq<DropOutcome>) -> nat
    decreases outcomes.len(),
{
    if outcomes.len() == 0 {
        0
    } else {
        count_dropped(outcomes.drop_last()) + if outcomes.last() is Dropped {
            1nat
        } else {
            0nat
        }
    }
}

/// The number of outcomes among `outcomes` that are `Skipped`.
pub open spec fn count_skipped(outcomes: Seq<DropOutcome>) -> nat
    decreases outcomes.len(),
{
    if outcomes.len() == 0 {
        0
    } else {
        count_skipped(outcomes.drop_last()) + if outcomes.last() is Skipped {
            1nat
        } else {
            0nat
        }
    }
}

/// The number of outcomes among `outcomes` that are failures.
pub open spec fn count_failed(outcomes: Seq<DropOutcome>) -> nat
    decreases outcomes.len(),
{
    if outcomes.len() == 0 {
        0
    } else {
        count_failed(outcomes.drop_last()) + if outcomes.last() is StoreFailed
            || outcomes.last() is RemoveFailed {
            1nat
        } else {
            0nat
        }
    }
}

/// Every outcome is counted once.
pub proof fn lemma_counts_cover(outcomes: Seq<DropOutcome>)
    ensures
        count_dropped(outcomes) + count_skipped(outcomes) + count_failed(outcomes)
            == outcomes.len(),
    decreases outcomes.len(),
{
    if outcomes.len() > 0 {
        lemma_counts_cover(outcomes.drop_last());
    }
}

/// Sums up a batch: a failure or a refusal of one repository is counted
/// and the others are counted all the same.
pub fn summarize(outcomes: &Vec<DropOutcome>) -> (summary: DropSummary)
    ensures
        summary.dropped == count_dropped(outcomes@),
        summary.skipped == count_skipped(outcomes@),
        summary.failed == count_failed(outcomes@),
        summary.dropped + summary.skipped + summary.failed == outcomes.len(),
{
    let mut summary = DropSummary { dropped: 0, skipped: 0, failed: 0 };
    let mut i: usize = 0;
    assert(outcomes@.take(0) =~= Seq::<DropOutcome>::empty());
    while i < outcomes.len()
        invariant
            i <= outcomes.len(),
            summary.dropped == count_dropped(outcomes@.take(i as int)),
            summary.skipped == count_skipped(outcomes@.take(i as int)),
            summary.failed == count_failed(outcomes@.take(i as int)),
            summary.dropped + summary.skipped + summary.failed == i,
        decreases outcomes.len() - i,
    {
        assert(outcomes@.take(i + 1).drop_last() =~= outcomes@.take(i as int));
        match outcomes[i] {
            DropOutcome::Dropped => {
                summary.dropped += 1;
            },
            DropOutcome::Skipped(_) => {
                summary.skipped += 1;
            },
            _ => {
                summary.failed += 1;
            },
        }
        i += 1;
    }
    assert(outcomes@.take(outcomes@.len() as int) =~= outcomes@);
    summary
}

/// A batch of drops in progress: how many repositories it is for, and how
/// the drops ended that are done. Every repository of the batch gets its
/// outcome, whatever the outcomes before it were.
#[derive(Debug, Clone)]
pub struct DropBatch {
    /// The number of repositories in the batch.
    pub total: usize,
    /// The outcomes so far, in the order of the repositories.
    pub outcomes: Vec<DropOutcome>,
}

impl DropBatch {
    /// A batch for `total` repositories, none of them dropped yet.
    pub fn new(total: usize) -> (batch: DropBatch)
        ensures
            batch.total == total,
            batch.outcomes@ == Seq::<DropOutcome>::empty(),
    {
        DropBatch { total, outcomes: Vec::new() }
    }

    /// The index of the repository to drop next: the first that has no
    /// outcome yet, whether or not a drop before it failed or was refused;
    /// `None` when every repository has its outcome.
    pub fn next(&self) -> (index: Option<usize>)
        ensures
            index == if self.outcomes@.len() < self.total {
                Some(self.outcomes@.len() as usize)
            } else {
                None
            },
    {
        if self.outcomes.len() < self.total {
            Some(self.outcomes.len())
        } else {
            None
        }
    }

    /// Takes in how the drop of the next repository ended. Once every
    /// repository has its outcome, nothing changes.
    pub fn record(&mut self, outcome: DropOutcome)
        ensures
            final(self).total == old(self).total,
            final(self).outcomes@ == if old(self).outcomes@.len() < old(self).total {
                old(self).outcomes@.push(outcome)
            } else {
                old(self).outcomes@
            },
    {
        if self.outcomes.len() < self.total {
            self.outcomes.push(outcome);
        }
    }

    /// Sums up the batch so far. Once every repository has its outcome,
    /// the counts add up to the number of repositories.
    pub fn summary(&self) -> (summary: DropSummary)
        ensures
            summary.dropped == count_dropped(self.outcomes@),
            summary.skipped == count_skipped(self.outcomes@),
            summary.failed == count_failed(self.outcomes@),
            summary.dropped + summary.skipped + summary.failed == self.outcomes@.len(),
            self.outcomes@.len() >= self.total ==> summary.dropped + summary.skipped
                + summary.failed >= self.total,
    {
        summarize(&self.outcomes)
    }
}

/// How opening a repository ended.
#[derive(Debug, Clone, Copy, PartialEq, Eq, Structural)]
pub enum OpenOutcome {
    /// The repository was in the workspace already; its status is reported
    /// and blocks nothing.
    Present(RepoStatus),
    /// The repository came back from the library; `fetched` tells whether
    /// the update from its remote went through.
    Restored { fetched: bool },
    /// The repository was cloned from its remote.
    Cloned,
    /// The library entry could not be restored.
    RestoreFailed,
    /// The clone failed.
    CloneFailed,
    /// The pattern names no provider to clone from.
    NoProvider,
}

/// What is to be done next for a repository that is being opened.
#[derive(Debug, Clone, Copy, PartialEq, Eq, Structural)]
pub enum OpenStep {
    /// Look for the repository in the workspace.
    Search,
    /// Classify the repository that was found.
    Inspect,
    /// Look for the repository's entry in the library.
    ProbeLibrary,
    /// Restore the entry into the workspace.
    Restore,
    /// Fetch updates for the restored repository.
    Fetch,
    /// Clone from the remote.
    Clone,
    /// Nothing more.
    Finish(OpenOutcome),
}

/// What a step of opening gave.
#[derive(Debug, Clone, Copy, PartialEq, Eq, Structural)]
pub enum OpenEvent {
    /// Whether the search found a repository.
    Searched(bool),
    Inspected(RepoStatus),
    /// Whether the library holds the entry.
    Probed(bool),
    Restored(bool),
    Fetched(bool),
    Cloned(bool),
}

/// How the outside world will answer the steps of one opening.
pub struct OpenProspect {
    pub in_workspace: bool,
    pub status: RepoStatus,
    pub in_library: bool,
    pub restore_succeeds: bool,
    pub fetch_succeeds: bool,
    pub clone_succeeds: bool,
}

/// The opening of one repository, in progress.
#[derive(Debug, Clone, Copy, PartialEq, Eq, Structural)]
pub struct OpenTask {
    /// The pattern names a provider, so that a clone URL can be inferred.
    pub has_provider: bool,
    /// The step that is due.
    pub step: OpenStep,
}

impl OpenStep {
    /// `event` answers this step.
    pub open spec fn takes(self, event: OpenEvent) -> bool {
        match (self, event) {
            (OpenStep::Search, OpenEvent::Searched(_)) => true,
            (OpenStep::Inspect, OpenEvent::Inspected(_)) => true,
            (OpenStep::ProbeLibrary, OpenEvent::Probed(_)) => true,
            (OpenStep::Restore, OpenEvent::Restored(_)) => true,
            (OpenStep::Fetch, OpenEvent::Fetched(_)) => true,
            (OpenStep::Clone, OpenEvent::Cloned(_)) => true,
            _ => false,
        }
    }

    /// The number of steps that may still follow.
    pub open spec fn remaining(self) -> nat {
        match self {
            OpenStep::Search => 5,
            OpenStep::ProbeLibrary => 4,
            OpenStep::Restore => 3,
            OpenStep::Fetch => 2,
            OpenStep::Inspect => 1,
            OpenStep::Clone => 1,
            OpenStep::Finish(_) => 0,
        }
    }
}

impl OpenProspect {
    /// The event that performing `step` gives.
    pub open spec fn answer(self, step: OpenStep) -> OpenEvent {
        match step {
            OpenStep::Search => OpenEvent::Searched(self.in_workspace),
            OpenStep::ProbeLibrary => OpenEvent::Probed(self.in_library),
            OpenStep::Restore => OpenEvent::Restored(self.restore_succeeds),
            OpenStep::Fetch => OpenEvent::Fetched(self.fetch_succeeds),
            OpenStep::Clone => OpenEvent::Cloned(self.clone_succeeds),
            _ => OpenEvent::Inspected(self.status),
        }
    }
}

impl OpenTask {
    /// The task as it begins.
    pub open spec fn initial(has_provider: bool) -> OpenTask {
        OpenTask { has_provider, step: OpenStep::Search }
    }

    /// The task after `event`. An event that does not answer the step that
    /// is due changes nothing.
    pub open spec fn after(self, event: OpenEvent) -> OpenTask {
        let step = match (self.step, event) {
            (OpenStep::Search, OpenEvent::Searched(found)) => if found {
                OpenStep::Inspect
            } else {
                OpenStep::ProbeLibrary
            },
            (OpenStep::Inspect, OpenEvent::Inspected(status)) => OpenStep::Finish(
                OpenOutcome::Present(status),
            ),
            (OpenStep::ProbeLibrary, OpenEvent::Probed(held)) => if held {
                OpenStep::Restore
            } else if self.has_provider {
                OpenStep::Clone
            } else {
                OpenStep::Finish(OpenOutcome::NoProvider)
            },
            (OpenStep::Restore, OpenEvent::Restored(ok)) => if ok {
                OpenStep::Fetch
            } else {
                OpenStep::Finish(OpenOutcome::RestoreFailed)
            },
            (OpenStep::Fetch, OpenEvent::Fetched(ok)) => OpenStep::Finish(
                OpenOutcome::Restored { fetched: ok },
            ),
            (OpenStep::Clone, OpenEvent::Cloned(ok)) => if ok {
                OpenStep::Finish(OpenOutcome::Cloned)
            } else {
                OpenStep::Finish(OpenOutcome::CloneFailed)
            },
            _ => self.step,
        };
        OpenTask { step, ..self }
    }

    /// How the task ends when every step from here on is answered by
    /// `world`.
    pub open spec fn outcome(self, world: OpenProspect) -> OpenOutcome
        decreases self.step.remaining(),
    {
        match self.step {
            OpenStep::Finish(outcome) => outcome,
            step => self.after(world.answer(step)).outcome(world),
        }
    }

    /// Whether a clone is attempted when every step from here on is
    /// answered by `world`.
    pub open spec fn clones(self, world: OpenProspect) -> bool
        decreases self.step.remaining(),
    {
        match self.step {
            OpenStep::Finish(_) => false,
            OpenStep::Clone => true,
            step => self.after(world.answer(step)).clones(world),
        }
    }

    /// Begins the opening of a repository; `has_provider` tells whether its
    /// pattern names a provider.
    pub fn start(has_provider: bool) -> (task: OpenTask)
        ensures
            task == OpenTask::initial(has_provider),
    {
        OpenTask { has_provider, step: OpenStep::Search }
    }

    /// The step that is due.
    pub fn step(&self) -> (step: OpenStep)
        ensures
            step == self.step,
    {
        self.step
    }

    /// The outcome, once the task has ended.
    pub fn finished(&self) -> (r: Option<OpenOutcome>)
        ensures
            r == match self.step {
                OpenStep::Finish(outcome) => Some(outcome),
                _ => None,
            },
    {
        match self.step {
            OpenStep::Finish(outcome) => Some(outcome),
            _ => None,
        }
    }

    /// Takes in what the due step gave and moves on.
    ///
    /// A repository found in the workspace is returned as it is. One that
    /// only the library holds is restored, and a clone becomes due only
    /// when neither holds it. A fetch that fails after a restore does not
    /// undo the restore.
    pub fn record(&mut self, event: OpenEvent)
        ensures
            *final(self) == old(self).after(event),
            old(self).step.takes(event) ==> final(self).step.remaining() < old(self).step.remaining(),
            !old(self).step.takes(event) ==> *final(self) == *old(self),
            final(self).step is Clone && !(old(self).step is Clone) ==> old(self).step
                is ProbeLibrary && event == OpenEvent::Probed(false) && old(self).has_provider,
    {
        let next = match (self.step, event) {
            (OpenStep::Search, OpenEvent::Searched(true)) => OpenStep::Inspect,
            (OpenStep::Search, OpenEvent::Searched(false)) => OpenStep::ProbeLibrary,
            (OpenStep::Inspect, OpenEvent::Inspected(status)) => OpenStep::Finish(
                OpenOutcome::Present(status),
            ),
            (OpenStep::ProbeLibrary, OpenEvent::Probed(true)) => OpenStep::Restore,
            (OpenStep::ProbeLibrary, OpenEvent::Probed(false)) => if self.has_provider {
                OpenStep::Clone
            } else {
                OpenStep::Finish(OpenOutcome::NoProvider)
            },
            (OpenStep::Restore, OpenEvent::Restored(true)) => OpenStep::Fetch,
            (OpenStep::Restore, OpenEvent::Restored(false)) => OpenStep::Finish(
                OpenOutcome::RestoreFailed,
            ),
            (OpenStep::Fetch, OpenEvent::Fetched(ok)) => OpenStep::Finish(
                OpenOutcome::Restored { fetched: ok },
            ),
            (OpenStep::Clone, OpenEvent::Cloned(true)) => OpenStep::Finish(OpenOutcome::Cloned),
            (OpenStep::Clone, OpenEvent::Cloned(false)) => OpenStep::Finish(
                OpenOutcome::CloneFailed,
            ),
            (step, _) => step,
        };
        self.step = next;
    }
}

/// Opening clones only what neither the workspace nor the library holds:
/// a repository in the workspace is returned with its status, and one that
/// only the library holds is restored, whether or not the fetch that
/// follows succeeds.
pub proof fn lemma_open_prefers_local(has_provider: bool, world: OpenProspect)
    ensures
        world.in_workspace ==> OpenTask::initial(has_provider).outcome(world)
            == OpenOutcome::Present(world.status),
        world.in_workspace || world.in_library ==> !OpenTask::initial(has_provider).clones(world),
        !world.in_workspace && world.in_library && world.restore_succeeds ==> OpenTask::initial(
            has_provider,
        ).outcome(world) == (OpenOutcome::Restored { fetched: world.fetch_succeeds }),
        !world.in_workspace && world.in_library && !world.restore_succeeds ==> OpenTask::initial(
            has_provider,
        ).outcome(world) == OpenOutcome::RestoreFailed,
        !world.in_workspace && !world.in_library ==> OpenTask::initial(has_provider).outcome(world)
            == if !has_provider {
            OpenOutcome::NoProvider
        } else if world.clone_succeeds {
            OpenOutcome::Cloned
        } else {
            OpenOutcome::CloneFailed
        },
{
    reveal_with_fuel(OpenTask::outcome, 6);
    reveal_with_fuel(OpenTask::clones, 6);
}

/// A repository that was dropped into the library comes back when it is
/// opened: it is restored from the library, whether or not the fetch that
/// follows succeeds, and nothing is cloned.
pub proof fn lemma_dropped_repository_comes_back(
    force: bool,
    dropping: DropProspect,
    place: Place,
    has_provider: bool,
    opening: OpenProspect,
)
    requires
        place.in_workspace,
        DropTask::initial(false, force).outcome(dropping) == DropOutcome::Dropped,
        opening.in_workspace == DropTask::initial(false, force).place_after(
            dropping,
            place,
        ).in_workspace,
        opening.in_library == DropTask::initial(false, force).place_after(
            dropping,
            place,
        ).in_library,
        opening.restore_succeeds,
    ensures
        OpenTask::initial(has_provider).outcome(opening) == (OpenOutcome::Restored {
            fetched: opening.fetch_succeeds,
        }),
        !OpenTask::initial(has_provider).clones(opening),
{
    lemma_drop_never_loses_a_repository(false, force, dropping, place);
    lemma_open_prefers_local(has_provider, opening);
}

/// How restoring one library entry on request ended.
#[derive(Debug, Clone, Copy, PartialEq, Eq, Structural)]
pub enum RestoreOutcome {
    /// The entry was restored into the workspace.
    Restored,
    /// The workspace holds the repository already.
    Skipped,
    /// The restore failed.
    Failed,
}

/// What is to be done next for a library entry that is being restored.
#[derive(Debug, Clone, Copy, PartialEq, Eq, Structural)]
pub enum RestoreRequest {
    /// Look whether the workspace holds the repository already.
    ProbeWorkspace,
    /// Restore the entry.
    Restore,
    /// Nothing more.
    Finish(RestoreOutcome),
}

/// What a step of restoring gave.
#[derive(Debug, Clone, Copy, PartialEq, Eq, Structural)]
pub enum RestoreEvent {
    /// Whether the workspace holds the repository.
    Probed(bool),
    Restored(bool),
}

impl RestoreRequest {
    /// The step after `event`. An event that does not answer this step
    /// changes nothing.
    pub open spec fn after(self, event: RestoreEvent) -> RestoreRequest {
        match (self, event) {
            (RestoreRequest::ProbeWorkspace, RestoreEvent::Probed(present)) => if present {
                RestoreRequest::Finish(RestoreOutcome::Skipped)
            } else {
                RestoreRequest::Restore
            },
            (RestoreRequest::Restore, RestoreEvent::Restored(ok)) => if ok {
                RestoreRequest::Finish(RestoreOutcome::Restored)
            } else {
                RestoreRequest::Finish(RestoreOutcome::Failed)
            },
            _ => self,
        }
    }

    /// The first step of restoring an entry.
    pub fn start() -> (step: RestoreRequest)
        ensures
            step == RestoreRequest::ProbeWorkspace,
    {
        RestoreRequest::ProbeWorkspace
    }

    /// The step that follows when this one gave `event`. Nothing is
    /// restored over a repository that the workspace holds.
    pub fn next(self, event: RestoreEvent) -> (step: RestoreRequest)
        ensures
            step == self.after(event),
            step is Restore && !(self is Restore) ==> event == RestoreEvent::Probed(false),
    {
        match (self, event) {
            (RestoreRequest::ProbeWorkspace, RestoreEvent::Probed(true)) => RestoreRequest::Finish(
                RestoreOutcome::Skipped,
            ),
            (RestoreRequest::ProbeWorkspace, RestoreEvent::Probed(false)) => RestoreRequest::Restore,
            (RestoreRequest::Restore, RestoreEvent::Restored(true)) => RestoreRequest::Finish(
                RestoreOutcome::Restored,
            ),
            (RestoreRequest::Restore, RestoreEvent::Restored(false)) => RestoreRequest::Finish(
                RestoreOutcome::Failed,
            ),
            (step, _) => step,
        }
    }
}

/// How cloning one repository on request ended.
#[derive(Debug, Clone, Copy, PartialEq, Eq, Structural)]
pub enum CloneOutcome {
    /// The workspace holds the repository already.
    AlreadyPresent,
    /// The library holds the repository; it is to be restored, not cloned.
    InLibrary,
    /// The repository was cloned.
    Cloned,
    /// The clone failed.
    Failed,
    /// The pattern names no provider to clone from.
    NoProvider,
}

/// What is to be done next for a repository that is being cloned.
#[derive(Debug, Clone, Copy, PartialEq, Eq, Structural)]
pub enum CloneStep {
    /// Look whether the workspace holds the repository already.
    ProbeWorkspace,
    /// Look whether the library holds the repository.
    ProbeLibrary,
    /// Clone from the remote.
    Clone,
    /// Nothing more.
    Finish(CloneOutcome),
}

/// What a step of cloning gave.
#[derive(Debug, Clone, Copy, PartialEq, Eq, Structural)]
pub enum CloneEvent {
    /// Whether the workspace holds the repository.
    InWorkspace(bool),
    /// Whether the library holds the repository.
    InLibrary(bool),
    Cloned(bool),
}

impl CloneStep {
    /// The step after `event`, for a pattern with or without provider. An
    /// event that does not answer this step changes nothing.
    pub open spec fn after(self, has_provider: bool, event: CloneEvent) -> CloneStep {
        match (self, event) {
            (CloneStep::ProbeWorkspace, CloneEvent::InWorkspace(present)) => if present {
                CloneStep::Finish(CloneOutcome::AlreadyPresent)
            } else {
                CloneStep::ProbeLibrary
            },
            (CloneStep::ProbeLibrary, CloneEvent::InLibrary(held)) => if held {
                CloneStep::Finish(CloneOutcome::InLibrary)
            } else if has_provider {
                CloneStep::Clone
            } else {
                CloneStep::Finish(CloneOutcome::NoProvider)
            },
            (CloneStep::Clone, CloneEvent::Cloned(ok)) => if ok {
                CloneStep::Finish(CloneOutcome::Cloned)
            } else {
                CloneStep::Finish(CloneOutcome::Failed)
            },
            _ => self,
        }
    }

    /// The first step of cloning a repository.
    pub fn start() -> (step: CloneStep)
        ensures
            step == CloneStep::ProbeWorkspace,
    {
        CloneStep::ProbeWorkspace
    }

    /// The step that follows when this one gave `event`. A clone becomes
    /// due only for a repository that neither the workspace nor the library
    /// holds.
    pub fn next(self, has_provider: bool, event: CloneEvent) -> (step: CloneStep)
        ensures
            step == self.after(has_provider, event),
            step is Clone && !(self is Clone) ==> self is ProbeLibrary && event
                == CloneEvent::InLibrary(false) && has_provider,
    {
        match (self, event) {
            (CloneStep::ProbeWorkspace, CloneEvent::InWorkspace(true)) => CloneStep::Finish(
                CloneOutcome::AlreadyPresent,
            ),
            (CloneStep::ProbeWorkspace, CloneEvent::InWorkspace(false)) => CloneStep::ProbeLibrary,
            (CloneStep::ProbeLibrary, CloneEvent::InLibrary(true)) => CloneStep::Finish(
                CloneOutcome::InLibrary,
            ),
            (CloneStep::ProbeLibrary, CloneEvent::InLibrary(false)) => if has_provider {
                CloneStep::Clone
            } else {
                CloneStep::Finish(CloneOutcome::NoProvider)
            },
            (CloneStep::Clone, CloneEvent::Cloned(true)) => CloneStep::Finish(CloneOutcome::Cloned),
            (CloneStep::Clone, CloneEvent::Cloned(false)) => CloneStep::Finish(CloneOutcome::Failed),
            (step, _) => step,
        }
    }
}

} // verus!
