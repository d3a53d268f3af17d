//! Storing a repository in the library and restoring it: the steps, their
//! order, and where each failure ends them.
//!
//! The caller performs each step on disk and reports what it gave. Storing
//! that fails puts back what it changed: the configuration gets the text
//! that was read, and an entry of the same key, which is set aside and not
//! removed before the move went through, returns to its place.

use crate::library::{
    bare_config, lists_remote, remote_urls_set, with_bare_flag, with_remote_urls, RemoteUrl,
};
use vstd::prelude::*;

verus! {

/// Why a repository could not be stored.
#[derive(Debug, Clone, Copy, PartialEq, Eq, Structural)]
pub enum StoreError {
    /// The library directory could not be made.
    LibraryUnavailable,
    /// The repository has no metadata directory.
    NoMetadata,
    /// The configuration of the repository could not be read.
    ConfigUnreadable,
    /// The configuration of the repository could not be written.
    ConfigUnwritable,
    /// The directory that is to hold the entry could not be made.
    ParentUnavailable,
    /// An entry of the same key could not be set aside.
    EntryInTheWay,
    /// The metadata directory could not be moved.
    MoveFailed,
}

/// What is to be done next to store a repository. From the writing of the
/// configuration on, each step carries the text that was read of it, so
/// that a failure can put it back.
#[derive(Debug, PartialEq, Eq)]
pub enum StoreStep {
    /// Make the library directory, with all that leads to it.
    EnsureLibrary,
    /// Look whether the repository has a metadata directory.
    ProbeMetadata,
    /// Read the configuration of the repository.
    ReadConfig,
    /// Write `text` as the configuration of the repository.
    WriteConfig { text: String, original: String },
    /// Make the directory that is to hold the entry.
    EnsureParent { original: String },
    /// Look whether the library holds an entry of the same key.
    ProbeEntry { original: String },
    /// Move the entry of the same key aside.
    SetAside { original: String },
    /// Move the metadata directory to where the entry belongs. `aside`
    /// tells whether an entry was set aside.
    Move { original: String, aside: bool },
    /// Remove the entry that was set aside.
    RemoveAside,
    /// Move the entry that was set aside back to its place.
    PutBack { original: String, error: StoreError },
    /// Write `original`, the text that was read, as the configuration of
    /// the repository.
    WriteBack { original: String, error: StoreError },
    /// Nothing more.
    Finish(Result<(), StoreError>),
}

/// What a step of storing or restoring gave.
#[derive(Debug, Clone, PartialEq, Eq)]
pub enum StoreEvent {
    /// Whether the step went through.
    Done(bool),
    /// Whether what was looked for is there.
    Found(bool),
    /// The text that was read; `None` where reading failed.
    Text(Option<String>),
    /// The remotes that were read; `None` where reading failed.
    Remotes(Option<Vec<RemoteUrl>>),
}

/// A step of storing, as plain values.
pub enum StoreStepView {
    EnsureLibrary,
    ProbeMetadata,
    ReadConfig,
    WriteConfig { text: Seq<char>, original: Seq<char> },
    EnsureParent { original: Seq<char> },
    ProbeEntry { original: Seq<char> },
    SetAside { original: Seq<char> },
    Move { original: Seq<char>, aside: bool },
    RemoveAside,
    PutBack { original: Seq<char>, error: StoreError },
    WriteBack { original: Seq<char>, error: StoreError },
    Finish(Result<(), StoreError>),
}

/// An event, as plain values.
pub enum StoreEventView {
    Done(bool),
    Found(bool),
    Text(Option<Seq<char>>),
    Remotes(Option<Seq<RemoteUrl>>),
}

impl View for StoreStep {
    type V = StoreStepView;

    open spec fn view(&self) -> StoreStepView {
        match self {
            StoreStep::EnsureLibrary => StoreStepView::EnsureLibrary,
            StoreStep::ProbeMetadata => StoreStepView::ProbeMetadata,
            StoreStep::ReadConfig => StoreStepView::ReadConfig,
            StoreStep::WriteConfig { text, original } => StoreStepView::WriteConfig {
                text: text@,
                original: original@,
            },
            StoreStep::EnsureParent { original } => StoreStepView::EnsureParent {
                original: original@,
            },
            StoreStep::ProbeEntry { original } => StoreStepView::ProbeEntry { original: original@ },
            StoreStep::SetAside { original } => StoreStepView::SetAside { original: original@ },
            StoreStep::Move { original, aside } => StoreStepView::Move {
                original: original@,
                aside: *aside,
            },
            StoreStep::RemoveAside => StoreStepView::RemoveAside,
            StoreStep::PutBack { original, error } => StoreStepView::PutBack {
                original: original@,
                error: *error,
            },
            StoreStep::WriteBack { original, error } => StoreStepView::WriteBack {
                original: original@,
                error: *error,
            },
            StoreStep::Finish(result) => StoreStepView::Finish(*result),
        }
    }
}

impl View for StoreEvent {
    type V = StoreEventView;

    open spec fn view(&self) -> StoreEventView {
        match self {
            StoreEvent::Done(ok) => StoreEventView::Done(*ok),
            StoreEvent::Found(found) => StoreEventView::Found(*found),
            StoreEvent::Text(Some(text)) => StoreEventView::Text(Some(text@)),
            StoreEvent::Text(None) => StoreEventView::Text(None),
            StoreEvent::Remotes(Some(remotes)) => StoreEventView::Remotes(Some(remotes@)),
            StoreEvent::Remotes(None) => StoreEventView::Remotes(None),
        }
    }
}

/// The step that undoes what storing changed, after the failure `error`:
/// the entry that was set aside goes back first, then the configuration.
pub open spec fn undoing(original: Seq<char>, aside: bool, error: StoreError) -> StoreStepView {
    if aside {
        StoreStepView::PutBack { original, error }
    } else {
        StoreStepView::WriteBack { original, error }
    }
}

/// The step after `step` gave `event`. The library directory is made
/// first. A repository without metadata directory is not stored. Its
/// configuration is marked as bare before anything moves; an entry of the
/// same key is set aside; then the metadata directory moves, and only then
/// the entry that was set aside is removed. A step that fails after the
/// configuration was touched is followed by the steps that put back what
/// was changed, and then the storing ends with the error of the step that
/// failed. An event that does not answer the step changes nothing.
pub open spec fn store_after(step: StoreStepView, event: StoreEventView) -> StoreStepView {
    match (step, event) {
        (StoreStepView::EnsureLibrary, StoreEventView::Done(ok)) => if ok {
            StoreStepView::ProbeMetadata
        } else {
            StoreStepView::Finish(Err(StoreError::LibraryUnavailable))
        },
        (StoreStepView::ProbeMetadata, StoreEventView::Found(found)) => if found {
            StoreStepView::ReadConfig
        } else {
            StoreStepView::Finish(Err(StoreError::NoMetadata))
        },
        (StoreStepView::ReadConfig, StoreEventView::Text(text)) => match text {
            Some(config) => StoreStepView::WriteConfig {
                text: bare_config(config),
                original: config,
            },
            None => StoreStepView::Finish(Err(StoreError::ConfigUnreadable)),
        },
        (StoreStepView::WriteConfig { text, original }, StoreEventView::Done(ok)) => if ok {
            StoreStepView::EnsureParent { original }
        } else {
            undoing(original, false, StoreError::ConfigUnwritable)
        },
        (StoreStepView::EnsureParent { original }, StoreEventView::Done(ok)) => if ok {
            StoreStepView::ProbeEntry { original }
        } else {
            undoing(original, false, StoreError::ParentUnavailable)
        },
        (StoreStepView::ProbeEntry { original }, StoreEventView::Found(found)) => if found {
            StoreStepView::SetAside { original }
        } else {
            StoreStepView::Move { original, aside: false }
        },
        (StoreStepView::SetAside { original }, StoreEventView::Done(ok)) => if ok {
            StoreStepView::Move { original, aside: true }
        } else {
            undoing(original, false, StoreError::EntryInTheWay)
        },
        (StoreStepView::Move { original, aside }, StoreEventView::Done(ok)) => if !ok {
            undoing(original, aside, StoreError::MoveFailed)
        } else if aside {
            StoreStepView::RemoveAside
        } else {
            StoreStepView::Finish(Ok(()))
        },
        (StoreStepView::RemoveAside, StoreEventView::Done(_)) => StoreStepView::Finish(Ok(())),
        (StoreStepView::PutBack { original, error }, StoreEventView::Done(_)) => {
            StoreStepView::WriteBack { original, error }
        },
        (StoreStepView::WriteBack { original, error }, StoreEventView::Done(_)) => {
            StoreStepView::Finish(Err(error))
        },
        _ => step,
    }
}

/// The number of steps that may still follow.
pub open spec fn store_left(step: StoreStepView) -> nat {
    match step {
        StoreStepView::EnsureLibrary => 11,
        StoreStepView::ProbeMetadata => 10,
        StoreStepView::ReadConfig => 9,
        StoreStepView::WriteConfig { .. } => 8,
        StoreStepView::EnsureParent { .. } => 7,
        StoreStepView::ProbeEntry { .. } => 6,
        StoreStepView::SetAside { .. } => 5,
        StoreStepView::Move { .. } => 4,
        StoreStepView::PutBack { .. } => 3,
        StoreStepView::WriteBack { .. } => 2,
        StoreStepView::RemoveAside => 1,
        StoreStepView::Finish(_) => 0,
    }
}

/// How the outside world will answer the steps of one storing.
pub struct StoreProspect {
    pub library_made: bool,
    pub has_metadata: bool,
    /// The configuration as it is read; `None` where reading fails.
    pub config: Option<Seq<char>>,
    pub write_succeeds: bool,
    pub parent_made: bool,
    pub entry_held: bool,
    pub set_aside_succeeds: bool,
    pub move_succeeds: bool,
    pub remove_succeeds: bool,
    pub put_back_succeeds: bool,
    pub write_back_succeeds: bool,
}

/// What storing touches on disk.
pub struct StoreDisk {
    /// The text of the repository's configuration.
    pub config: Seq<char>,
    /// The metadata directory is in the repository.
    pub metadata_in_place: bool,
    /// The entry that the library held under the key is in its place.
    pub held_in_place: bool,
    /// The entry that the library held under the key is set aside.
    pub held_aside: bool,
    /// The metadata directory is the entry of the key.
    pub stored: bool,
}

impl StoreProspect {
    /// The event that performing `step` gives.
    pub open spec fn answer(self, step: StoreStepView) -> StoreEventView {
        match step {
            StoreStepView::EnsureLibrary => StoreEventView::Done(self.library_made),
            StoreStepView::ProbeMetadata => StoreEventView::Found(self.has_metadata),
            StoreStepView::ReadConfig => StoreEventView::Text(self.config),
            StoreStepView::WriteConfig { .. } => StoreEventView::Done(self.write_succeeds),
            StoreStepView::EnsureParent { .. } => StoreEventView::Done(self.parent_made),
            StoreStepView::ProbeEntry { .. } => StoreEventView::Found(self.entry_held),
            StoreStepView::SetAside { .. } => StoreEventView::Done(self.set_aside_succeeds),
            StoreStepView::Move { .. } => StoreEventView::Done(self.move_succeeds),
            StoreStepView::RemoveAside => StoreEventView::Done(self.remove_succeeds),
            StoreStepView::PutBack { .. } => StoreEventView::Done(self.put_back_succeeds),
            StoreStepView::WriteBack { .. } => StoreEventView::Done(self.write_back_succeeds),
            StoreStepView::Finish(_) => StoreEventView::Done(true),
        }
    }

    /// The disk once `step` was performed. A step that fails, and one that
    /// only looks, changes nothing.
    pub open spec fn effect(self, step: StoreStepView, disk: StoreDisk) -> StoreDisk {
        match step {
            StoreStepView::WriteConfig { text, .. } if self.write_succeeds => StoreDisk {
                config: text,
                ..disk
            },
            StoreStepView::SetAside { .. } if self.set_aside_succeeds => StoreDisk {
                held_in_place: false,
                held_aside: true,
                ..disk
            },
            StoreStepView::Move { .. } if self.move_succeeds => StoreDisk {
                metadata_in_place: false,
                stored: true,
                ..disk
            },
            StoreStepView::RemoveAside if self.remove_succeeds => StoreDisk {
                held_aside: false,
                ..disk
            },
            StoreStepView::PutBack { .. } if self.put_back_succeeds => StoreDisk {
                held_in_place: true,
                held_aside: false,
                ..disk
            },
            StoreStepView::WriteBack { original, .. } if self.write_back_succeeds => StoreDisk {
                config: original,
                ..disk
            },
            _ => disk,
        }
    }

    /// The world answers as `disk` is: what is read of it is what it
    /// holds.
    pub open spec fn reads(self, disk: StoreDisk) -> bool {
        &&& self.has_metadata == disk.metadata_in_place
        &&& self.entry_held == disk.held_in_place
        &&& self.config is Some ==> self.config == Some(disk.config)
        &&& !disk.held_aside
        &&& !disk.stored
    }
}

/// How the storing ends when every step from `step` on is answered by
/// `world`. Every answer leads on to a step with fewer steps left, as
/// `lemma_store_advances` shows, so the run always goes on to its end.
pub open spec fn store_outcome(step: StoreStepView, world: StoreProspect) -> Result<
    (),
    StoreError,
>
    decreases store_left(step),
{
    match step {
        StoreStepView::Finish(result) => result,
        _ => if store_left(store_after(step, world.answer(step))) < store_left(step) {
            store_outcome(store_after(step, world.answer(step)), world)
        } else {
            Err(StoreError::MoveFailed)
        },
    }
}

/// The disk when the storing has ended, every step from `step` on
/// performed in `world`, beginning at `disk`.
pub open spec fn store_disk(step: StoreStepView, world: StoreProspect, disk: StoreDisk) -> StoreDisk
    decreases store_left(step),
{
    match step {
        StoreStepView::Finish(_) => disk,
        _ => if store_left(store_after(step, world.answer(step))) < store_left(step) {
            store_disk(
                store_after(step, world.answer(step)),
                world,
                world.effect(step, disk),
            )
        } else {
            disk
        },
    }
}

/// The text that the last writing of the configuration asked for, among
/// the steps from `step` on as `world` answers them; `written` where none
/// of them writes.
pub open spec fn last_written(
    step: StoreStepView,
    world: StoreProspect,
    written: Option<Seq<char>>,
) -> Option<Seq<char>>
    decreases store_left(step),
{
    let now = match step {
        StoreStepView::WriteConfig { text, .. } => Some(text),
        StoreStepView::WriteBack { original, .. } => Some(original),
        _ => written,
    };
    match step {
        StoreStepView::Finish(_) => written,
        _ => if store_left(store_after(step, world.answer(step))) < store_left(step) {
            last_written(store_after(step, world.answer(step)), world, now)
        } else {
            now
        },
    }
}

/// Whether the entry that was set aside is asked to be removed, among the
/// steps from `step` on as `world` answers them.
pub open spec fn asks_removal(step: StoreStepView, world: StoreProspect) -> bool
    decreases store_left(step),
{
    match step {
        StoreStepView::Finish(_) => false,
        StoreStepView::RemoveAside => true,
        _ => store_left(store_after(step, world.answer(step))) < store_left(step) && asks_removal(
            store_after(step, world.answer(step)),
            world,
        ),
    }
}

/// Every step but the last is followed by one with fewer steps left.
pub proof fn lemma_store_advances(step: StoreStepView, world: StoreProspect)
    requires
        !(step is Finish),
    ensures
        store_left(store_after(step, world.answer(step))) < store_left(step),
{
}

/// Storing that fails leaves things as they were, as far as it is up to
/// the order of the steps. In any world, a storing that ends with an error
/// has never asked to remove the entry that the library held, and where it
/// wrote the configuration, the last text that it asked to be written is
/// the text that was read. On a disk that is read as it is, where the
/// steps that put things back go through, the disk is as before at the
/// end: the configuration, the metadata directory and the entry that was
/// held.
pub proof fn lemma_failed_store_leaves_all_intact(world: StoreProspect, disk: StoreDisk)
    requires
        store_outcome(StoreStepView::EnsureLibrary, world) is Err,
    ensures
        !asks_removal(StoreStepView::EnsureLibrary, world),
        last_written(StoreStepView::EnsureLibrary, world, None) is Some ==> last_written(
            StoreStepView::EnsureLibrary,
            world,
            None,
        ) == world.config,
        world.reads(disk) && world.put_back_succeeds && world.write_back_succeeds ==> store_disk(
            StoreStepView::EnsureLibrary,
            world,
            disk,
        ) == disk,
{
    reveal_with_fuel(store_outcome, 12);
    reveal_with_fuel(store_disk, 12);
    reveal_with_fuel(last_written, 12);
    reveal_with_fuel(asks_removal, 12);
}

/// Storing that succeeds has moved the metadata directory into the
/// library with the configuration marked as bare, and an entry that the
/// library held under the key is not in its place any more.
pub proof fn lemma_store_relocates(world: StoreProspect, disk: StoreDisk)
    requires
        store_outcome(StoreStepView::EnsureLibrary, world) is Ok,
        world.reads(disk),
    ensures
        ({
            let end = store_disk(StoreStepView::EnsureLibrary, world, disk);
            &&& end.stored
            &&& !end.metadata_in_place
            &&& !end.held_in_place
            &&& world.config is Some
            &&& end.config == bare_config(world.config.unwrap())
        }),
{
    reveal_with_fuel(store_outcome, 12);
    reveal_with_fuel(store_disk, 12);
}

impl StoreStep {
    /// The first step of storing.
    pub fn start() -> (step: StoreStep)
        ensures
            step@ == StoreStepView::EnsureLibrary,
    {
        StoreStep::EnsureLibrary
    }

    /// The step that follows when this one gave `event`.
    ///
    /// The metadata directory moves only after it was found, its
    /// configuration was written as bare, and no entry is in its way. The
    /// entry that was in its way is removed only after the move went
    /// through. After a failure the entry that was set aside is put back
    /// and the configuration is written as it was read, and the storing
    /// succeeds only when the move did.
    pub fn next(self, event: &StoreEvent) -> (step: StoreStep)
        ensures
            step@ == store_after(self@, event@),
            store_left(step@) <= store_left(self@),
            step@ is RemoveAside && !(self@ is RemoveAside) ==> self@ is Move && event@
                == StoreEventView::Done(true),
            step@ == StoreStepView::Finish(Ok(())) && self@ != step@ ==> (self@ is Move && event@
                == StoreEventView::Done(true)) || self@ is RemoveAside,
    {
        match (self, event) {
            (StoreStep::EnsureLibrary, StoreEvent::Done(true)) => StoreStep::ProbeMetadata,
            (StoreStep::EnsureLibrary, StoreEvent::Done(false)) => StoreStep::Finish(
                Err(StoreError::LibraryUnavailable),
            ),
            (StoreStep::ProbeMetadata, StoreEvent::Found(true)) => StoreStep::ReadConfig,
            (StoreStep::ProbeMetadata, StoreEvent::Found(false)) => StoreStep::Finish(
                Err(StoreError::NoMetadata),
            ),
            (StoreStep::ReadConfig, StoreEvent::Text(Some(config))) => StoreStep::WriteConfig {
                text: with_bare_flag(config.as_str()),
                original: config.clone(),
            },
            (StoreStep::ReadConfig, StoreEvent::Text(None)) => StoreStep::Finish(
                Err(StoreError::ConfigUnreadable),
            ),
            (StoreStep::WriteConfig { text: _, original }, StoreEvent::Done(true)) => {
                StoreStep::EnsureParent { original }
            },
            (StoreStep::WriteConfig { text: _, original }, StoreEvent::Done(false)) => {
                StoreStep::WriteBack { original, error: StoreError::ConfigUnwritable }
            },
            (StoreStep::EnsureParent { original }, StoreEvent::Done(true)) => {
                StoreStep::ProbeEntry { original }
            },
            (StoreStep::EnsureParent { original }, StoreEvent::Done(false)) => {
                StoreStep::WriteBack { original, error: StoreError::ParentUnavailable }
            },
            (StoreStep::ProbeEntry { original }, StoreEvent::Found(true)) => StoreStep::SetAside {
                original,
            },
            (StoreStep::ProbeEntry { original }, StoreEvent::Found(false)) => StoreStep::Move {
                original,
                aside: false,
            },
            (StoreStep::SetAside { original }, StoreEvent::Done(true)) => StoreStep::Move {
                original,
                aside: true,
            },
            (StoreStep::SetAside { original }, StoreEvent::Done(false)) => StoreStep::WriteBack {
                original,
                error: StoreError::EntryInTheWay,
            },
            (StoreStep::Move { original: _, aside: true }, StoreEvent::Done(true)) => {
                StoreStep::RemoveAside
            },
            (StoreStep::Move { original: _, aside: false }, StoreEvent::Done(true)) => {
                StoreStep::Finish(Ok(()))
            },
            (StoreStep::Move { original, aside: true }, StoreEvent::Done(false)) => {
                StoreStep::PutBack { original, error: StoreError::MoveFailed }
            },
            (StoreStep::Move { original, aside: false }, StoreEvent::Done(false)) => {
                StoreStep::WriteBack { original, error: StoreError::MoveFailed }
            },
            (StoreStep::RemoveAside, StoreEvent::Done(_)) => StoreStep::Finish(Ok(())),
            (StoreStep::PutBack { original, error }, StoreEvent::Done(_)) => StoreStep::WriteBack {
                original,
                error,
            },
            (StoreStep::WriteBack { original: _, error }, StoreEvent::Done(_)) => StoreStep::Finish(
                Err(error),
            ),
            (step, _) => step,
        }
    }
}

/// Why a repository could not be restored.
#[derive(Debug, Clone, Copy, PartialEq, Eq, Structural)]
pub enum RestoreError {
    /// The library holds no entry of that key.
    NotInLibrary,
    /// The directory that is to hold the working copy could not be made.
    ParentUnavailable,
    /// The entry could not be read.
    EntryUnreadable,
    /// The working copy could not be made from the entry.
    CloneFailed,
    /// The configuration of the working copy could not be read.
    ConfigUnreadable,
    /// The configuration of the working copy could not be written.
    ConfigUnwritable,
}

/// What is to be done next to restore a repository.
#[derive(Debug, PartialEq, Eq)]
pub enum RestoreStep {
    /// Look whether the library holds the entry.
    ProbeEntry,
    /// Make the directory that is to hold the working copy.
    EnsureParent,
    /// Read the remotes of the entry, each with the URL it fetches from.
    ReadRemotes,
    /// Make the working copy from the entry. The remotes that were read
    /// are kept for the configuration.
    Clone(Vec<RemoteUrl>),
    /// Read the configuration of the working copy.
    ReadConfig(Vec<RemoteUrl>),
    /// Write this text as the configuration of the working copy.
    WriteConfig(String),
    /// Nothing more.
    Finish(Result<(), RestoreError>),
}

/// A step of restoring, as plain values.
pub enum RestoreStepView {
    ProbeEntry,
    EnsureParent,
    ReadRemotes,
    Clone(Seq<RemoteUrl>),
    ReadConfig(Seq<RemoteUrl>),
    WriteConfig(Seq<char>),
    Finish(Result<(), RestoreError>),
}

impl View for RestoreStep {
    type V = RestoreStepView;

    open spec fn view(&self) -> RestoreStepView {
        match self {
            RestoreStep::ProbeEntry => RestoreStepView::ProbeEntry,
            RestoreStep::EnsureParent => RestoreStepView::EnsureParent,
            RestoreStep::ReadRemotes => RestoreStepView::ReadRemotes,
            RestoreStep::Clone(remotes) => RestoreStepView::Clone(remotes@),
            RestoreStep::ReadConfig(remotes) => RestoreStepView::ReadConfig(remotes@),
            RestoreStep::WriteConfig(text) => RestoreStepView::WriteConfig(text@),
            RestoreStep::Finish(result) => RestoreStepView::Finish(*result),
        }
    }
}

/// The step after `step` gave `event`. An entry that the library does not
/// hold is not restored. The remotes of the entry are read before the
/// working copy is made from it, and afterwards the configuration of the
/// working copy is written with each of them in it, under its URL. The first
/// step that fails ends the restoring with its error. An event that does
/// not answer the step changes nothing.
pub open spec fn restore_after(step: RestoreStepView, event: StoreEventView) -> RestoreStepView {
    match (step, event) {
        (RestoreStepView::ProbeEntry, StoreEventView::Found(found)) => if found {
            RestoreStepView::EnsureParent
        } else {
            RestoreStepView::Finish(Err(RestoreError::NotInLibrary))
        },
        (RestoreStepView::EnsureParent, StoreEventView::Done(ok)) => if ok {
            RestoreStepView::ReadRemotes
        } else {
            RestoreStepView::Finish(Err(RestoreError::ParentUnavailable))
        },
        (RestoreStepView::ReadRemotes, StoreEventView::Remotes(read)) => match read {
            Some(remotes) => RestoreStepView::Clone(remotes),
            None => RestoreStepView::Finish(Err(RestoreError::EntryUnreadable)),
        },
        (RestoreStepView::Clone(remotes), StoreEventView::Done(ok)) => if ok {
            RestoreStepView::ReadConfig(remotes)
        } else {
            RestoreStepView::Finish(Err(RestoreError::CloneFailed))
        },
        (RestoreStepView::ReadConfig(remotes), StoreEventView::Text(text)) => match text {
            Some(config) => RestoreStepView::WriteConfig(remote_urls_set(config, remotes)),
            None => RestoreStepView::Finish(Err(RestoreError::ConfigUnreadable)),
        },
        (RestoreStepView::WriteConfig(_), StoreEventView::Done(ok)) => if ok {
            RestoreStepView::Finish(Ok(()))
        } else {
            RestoreStepView::Finish(Err(RestoreError::ConfigUnwritable))
        },
        _ => step,
    }
}

/// The place of a step in the order of restoring.
pub open spec fn restore_rank(step: RestoreStepView) -> nat {
    match step {
        RestoreStepView::ProbeEntry => 0,
        RestoreStepView::EnsureParent => 1,
        RestoreStepView::ReadRemotes => 2,
        RestoreStepView::Clone(_) => 3,
        RestoreStepView::ReadConfig(_) => 4,
        RestoreStepView::WriteConfig(_) => 5,
        RestoreStepView::Finish(_) => 6,
    }
}

impl RestoreStep {
    /// The first step of restoring.
    pub fn start() -> (step: RestoreStep)
        ensures
            step@ == RestoreStepView::ProbeEntry,
    {
        RestoreStep::ProbeEntry
    }

    /// The step that follows when this one gave `event`.
    ///
    /// The working copy is made only from an entry that the library holds.
    /// The configuration that is written lists every remote that was read
    /// of the entry, each with its URL, and the restoring succeeds only
    /// when it was written.
    pub fn next(self, event: StoreEvent) -> (step: RestoreStep)
        ensures
            step@ == restore_after(self@, event@),
            restore_rank(step@) >= restore_rank(self@),
            match (self@, step@) {
                (RestoreStepView::ReadConfig(remotes), RestoreStepView::WriteConfig(text)) => forall|
                    i: int,
                |
                    0 <= i < remotes.len() ==> lists_remote(
                        text,
                        (#[trigger] remotes[i]).name@,
                        remotes[i].url@,
                    ),
                _ => true,
            },
            step@ == RestoreStepView::Finish(Ok(())) && self@ != step@ ==> self@ is WriteConfig
                && event@ == StoreEventView::Done(true),
    {
        match (self, event) {
            (RestoreStep::ProbeEntry, StoreEvent::Found(true)) => RestoreStep::EnsureParent,
            (RestoreStep::ProbeEntry, StoreEvent::Found(false)) => RestoreStep::Finish(
                Err(RestoreError::NotInLibrary),
            ),
            (RestoreStep::EnsureParent, StoreEvent::Done(true)) => RestoreStep::ReadRemotes,
            (RestoreStep::EnsureParent, StoreEvent::Done(false)) => RestoreStep::Finish(
                Err(RestoreError::ParentUnavailable),
            ),
            (RestoreStep::ReadRemotes, StoreEvent::Remotes(Some(remotes))) => RestoreStep::Clone(
                remotes,
            ),
            (RestoreStep::ReadRemotes, StoreEvent::Remotes(None)) => RestoreStep::Finish(
                Err(RestoreError::EntryUnreadable),
            ),
            (RestoreStep::Clone(remotes), StoreEvent::Done(true)) => RestoreStep::ReadConfig(
                remotes,
            ),
            (RestoreStep::Clone(_), StoreEvent::Done(false)) => RestoreStep::Finish(
                Err(RestoreError::CloneFailed),
            ),
            (RestoreStep::ReadConfig(remotes), StoreEvent::Text(Some(config))) => {
                RestoreStep::WriteConfig(with_remote_urls(config.as_str(), &remotes))
            },
            (RestoreStep::ReadConfig(_), StoreEvent::Text(None)) => RestoreStep::Finish(
                Err(RestoreError::ConfigUnreadable),
            ),
            (RestoreStep::WriteConfig(_), StoreEvent::Done(true)) => RestoreStep::Finish(Ok(())),
            (RestoreStep::WriteConfig(_), StoreEvent::Done(false)) => RestoreStep::Finish(
                Err(RestoreError::ConfigUnwritable),
            ),
            (step, _) => step,
        }
    }
}

} // verus!
