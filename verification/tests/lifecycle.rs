use workset::lifecycle::{
    summarize, DropBatch, CloneEvent, CloneOutcome, CloneStep, DropEvent, DropOutcome, DropStep, DropSummary,
    DropTask, OpenEvent, OpenOutcome, OpenStep, OpenTask, RestoreEvent, RestoreOutcome,
    RestoreRequest,
};
use workset::pattern::RepoPattern;
use workset::status::RepoStatus;
use workset::workspace::Workspace;

/// A repository as the tests' stand-in for the disk knows it.
#[derive(Clone, Debug, PartialEq)]
struct Disk {
    status: RepoStatus,
    in_workspace: bool,
    in_library: bool,
    store_succeeds: bool,
    remove_succeeds: bool,
}

fn disk(status: RepoStatus) -> Disk {
    Disk { status, in_workspace: true, in_library: false, store_succeeds: true, remove_succeeds: true }
}

/// Runs a drop against the stand-in and returns the outcome and the steps.
fn run_drop(disk: &mut Disk, delete: bool, force: bool) -> (DropOutcome, Vec<DropStep>) {
    let mut task = DropTask::start(delete, force);
    let mut steps = Vec::new();
    loop {
        let step = task.step();
        let event = match step {
            DropStep::Finish(outcome) => return (outcome, steps),
            DropStep::Inspect => DropEvent::Inspected(disk.status),
            DropStep::Store => {
                if disk.store_succeeds {
                    disk.in_library = true;
                }
                DropEvent::Stored(disk.store_succeeds)
            }
            DropStep::Remove => {
                if disk.remove_succeeds {
                    disk.in_workspace = false;
                }
                DropEvent::Removed(disk.remove_succeeds)
            }
        };
        steps.push(step);
        task.record(event);
    }
}

#[test]
fn clean_repository_is_stored_then_removed() {
    let mut d = disk(RepoStatus::Clean);
    let (outcome, steps) = run_drop(&mut d, false, false);
    assert_eq!(outcome, DropOutcome::Dropped);
    assert_eq!(steps, vec![DropStep::Inspect, DropStep::Store, DropStep::Remove]);
    assert!(!d.in_workspace);
    assert!(d.in_library);
}

#[test]
fn drop_without_force_leaves_dirty_repository_intact() {
    for status in [RepoStatus::Dirty, RepoStatus::Unpushed] {
        for delete in [false, true] {
            let mut d = disk(status);
            let before = d.clone();
            let (outcome, steps) = run_drop(&mut d, delete, false);
            assert_eq!(outcome, DropOutcome::Skipped(status));
            assert_eq!(steps, vec![DropStep::Inspect]);
            assert_eq!(d, before);
            assert!(d.in_workspace);
            assert!(!d.in_library);
        }
    }
}

#[test]
fn forced_drop_moves_dirty_repository_to_library() {
    for status in
        [RepoStatus::Clean, RepoStatus::Dirty, RepoStatus::Unpushed, RepoStatus::NoCommits]
    {
        let mut d = disk(status);
        let (outcome, steps) = run_drop(&mut d, false, true);
        assert_eq!(outcome, DropOutcome::Dropped);
        assert_eq!(steps, vec![DropStep::Store, DropStep::Remove]);
        assert!(!d.in_workspace);
        assert!(d.in_library);
    }
}

#[test]
fn delete_removes_without_touching_the_library() {
    let mut d = disk(RepoStatus::Clean);
    let (outcome, steps) = run_drop(&mut d, true, false);
    assert_eq!(outcome, DropOutcome::Dropped);
    assert_eq!(steps, vec![DropStep::Inspect, DropStep::Remove]);
    assert!(!d.in_workspace);
    assert!(!d.in_library);
    let mut forced = disk(RepoStatus::Dirty);
    let (outcome, steps) = run_drop(&mut forced, true, true);
    assert_eq!(outcome, DropOutcome::Dropped);
    assert_eq!(steps, vec![DropStep::Remove]);
    assert!(!forced.in_library);
}

#[test]
fn failed_store_is_never_followed_by_removal() {
    for force in [false, true] {
        let mut d = disk(RepoStatus::Clean);
        d.store_succeeds = false;
        let (outcome, steps) = run_drop(&mut d, false, force);
        assert_eq!(outcome, DropOutcome::StoreFailed);
        assert!(!steps.contains(&DropStep::Remove));
        assert!(d.in_workspace);
        assert!(!d.in_library);
    }
}

#[test]
fn failed_removal_is_reported() {
    let mut d = disk(RepoStatus::Clean);
    d.remove_succeeds = false;
    let (outcome, _) = run_drop(&mut d, false, false);
    assert_eq!(outcome, DropOutcome::RemoveFailed);
    assert!(d.in_workspace);
    assert!(d.in_library);
}

#[test]
fn repository_without_commits_is_dropped_without_force() {
    let mut d = disk(RepoStatus::NoCommits);
    let (outcome, _) = run_drop(&mut d, false, false);
    assert_eq!(outcome, DropOutcome::Dropped);
}

#[test]
fn drop_event_out_of_turn_changes_nothing() {
    let mut task = DropTask::start(false, false);
    task.record(DropEvent::Stored(true));
    assert_eq!(task.step(), DropStep::Inspect);
    task.record(DropEvent::Removed(true));
    assert_eq!(task.step(), DropStep::Inspect);
    assert_eq!(task.finished(), None);
    task.record(DropEvent::Inspected(RepoStatus::Clean));
    assert_eq!(task.step(), DropStep::Store);
    task.record(DropEvent::Removed(true));
    assert_eq!(task.step(), DropStep::Store);
}

#[test]
fn drop_all_drops_the_clean_and_skips_the_dirty() {
    let workspace = Workspace { path: "/ws".to_string() };
    let mut repo_a = disk(RepoStatus::Clean);
    let mut repo_b = disk(RepoStatus::Dirty);
    let mut outcomes = Vec::new();
    let mut stored = Vec::new();
    for (path, repo) in [("/ws/repo-a", &mut repo_a), ("/ws/repo-b", &mut repo_b)] {
        let (outcome, steps) = run_drop(repo, false, false);
        if steps.contains(&DropStep::Store) {
            stored.push(workspace.relative_key(path));
        }
        outcomes.push(outcome);
    }
    assert_eq!(stored, vec!["repo-a".to_string()]);
    assert!(!repo_a.in_workspace);
    assert!(repo_a.in_library);
    assert!(repo_b.in_workspace);
    assert!(!repo_b.in_library);
    assert_eq!(summarize(&outcomes), DropSummary { dropped: 1, skipped: 1, failed: 0 });
}

#[test]
fn summary_counts_every_outcome_once() {
    let outcomes = vec![
        DropOutcome::Dropped,
        DropOutcome::StoreFailed,
        DropOutcome::Skipped(RepoStatus::Unpushed),
        DropOutcome::Dropped,
        DropOutcome::RemoveFailed,
        DropOutcome::Dropped,
    ];
    assert_eq!(summarize(&outcomes), DropSummary { dropped: 3, skipped: 1, failed: 2 });
    assert_eq!(summarize(&Vec::new()), DropSummary { dropped: 0, skipped: 0, failed: 0 });
}

/// Runs an opening against answers and returns the outcome and the steps.
fn run_open(
    has_provider: bool,
    in_workspace: bool,
    in_library: bool,
    restore_ok: bool,
    fetch_ok: bool,
    clone_ok: bool,
) -> (OpenOutcome, Vec<OpenStep>) {
    let mut task = OpenTask::start(has_provider);
    let mut steps = Vec::new();
    loop {
        let step = task.step();
        let event = match step {
            OpenStep::Finish(outcome) => return (outcome, steps),
            OpenStep::Search => OpenEvent::Searched(in_workspace),
            OpenStep::Inspect => OpenEvent::Inspected(RepoStatus::Dirty),
            OpenStep::ProbeLibrary => OpenEvent::Probed(in_library),
            OpenStep::Restore => OpenEvent::Restored(restore_ok),
            OpenStep::Fetch => OpenEvent::Fetched(fetch_ok),
            OpenStep::Clone => OpenEvent::Cloned(clone_ok),
        };
        steps.push(step);
        task.record(event);
    }
}

#[test]
fn open_restores_from_library_without_cloning() {
    let workspace = Workspace { path: "/ws".to_string() };
    let pattern = RepoPattern::parse("github.com/acme/widgets");
    let mut task = workspace.open(&pattern);
    assert_eq!(task.step(), OpenStep::Search);
    task.record(OpenEvent::Searched(false));
    assert_eq!(task.step(), OpenStep::ProbeLibrary);
    let key = pattern.full_path();
    assert_eq!(workspace.library_entry(&key), "/ws/.workset/github.com/acme/widgets");
    task.record(OpenEvent::Probed(true));
    assert_eq!(task.step(), OpenStep::Restore);
    let plan = workspace.restore_from_library(&key);
    assert_eq!(plan.source, "/ws/.workset/github.com/acme/widgets");
    assert_eq!(plan.dest, "/ws/github.com/acme/widgets");
    task.record(OpenEvent::Restored(true));
    assert_eq!(task.step(), OpenStep::Fetch);
    task.record(OpenEvent::Fetched(true));
    assert_eq!(task.finished(), Some(OpenOutcome::Restored { fetched: true }));
    let (_, steps) = run_open(true, false, true, true, true, true);
    assert!(!steps.contains(&OpenStep::Clone));
}

#[test]
fn open_returns_what_the_workspace_holds() {
    let (outcome, steps) = run_open(true, true, true, true, true, true);
    assert_eq!(outcome, OpenOutcome::Present(RepoStatus::Dirty));
    assert_eq!(steps, vec![OpenStep::Search, OpenStep::Inspect]);
}

#[test]
fn open_fetch_failure_keeps_the_restore() {
    let (outcome, steps) = run_open(true, false, true, true, false, true);
    assert_eq!(outcome, OpenOutcome::Restored { fetched: false });
    assert_eq!(
        steps,
        vec![OpenStep::Search, OpenStep::ProbeLibrary, OpenStep::Restore, OpenStep::Fetch]
    );
}

#[test]
fn open_restore_failure_is_fatal() {
    let (outcome, steps) = run_open(true, false, true, false, true, true);
    assert_eq!(outcome, OpenOutcome::RestoreFailed);
    assert!(!steps.contains(&OpenStep::Clone));
    assert!(!steps.contains(&OpenStep::Fetch));
}

#[test]
fn open_clones_what_nobody_holds() {
    let (outcome, steps) = run_open(true, false, false, true, true, true);
    assert_eq!(outcome, OpenOutcome::Cloned);
    assert_eq!(steps, vec![OpenStep::Search, OpenStep::ProbeLibrary, OpenStep::Clone]);
    let (outcome, _) = run_open(true, false, false, true, true, false);
    assert_eq!(outcome, OpenOutcome::CloneFailed);
}

#[test]
fn open_without_provider_cannot_clone() {
    let (outcome, steps) = run_open(false, false, false, true, true, true);
    assert_eq!(outcome, OpenOutcome::NoProvider);
    assert_eq!(steps, vec![OpenStep::Search, OpenStep::ProbeLibrary]);
    let workspace = Workspace { path: "/ws".to_string() };
    let task = workspace.open(&RepoPattern::parse("acme/widgets"));
    assert!(!task.has_provider);
}

#[test]
fn restore_skips_what_the_workspace_holds() {
    let step = RestoreRequest::start();
    assert_eq!(step, RestoreRequest::ProbeWorkspace);
    assert_eq!(
        step.next(RestoreEvent::Probed(true)),
        RestoreRequest::Finish(RestoreOutcome::Skipped)
    );
    let restore = step.next(RestoreEvent::Probed(false));
    assert_eq!(restore, RestoreRequest::Restore);
    assert_eq!(
        restore.next(RestoreEvent::Restored(true)),
        RestoreRequest::Finish(RestoreOutcome::Restored)
    );
    assert_eq!(
        restore.next(RestoreEvent::Restored(false)),
        RestoreRequest::Finish(RestoreOutcome::Failed)
    );
    assert_eq!(step.next(RestoreEvent::Restored(true)), RestoreRequest::ProbeWorkspace);
}

#[test]
fn clone_is_for_what_neither_place_holds() {
    let start = CloneStep::start();
    assert_eq!(
        start.next(true, CloneEvent::InWorkspace(true)),
        CloneStep::Finish(CloneOutcome::AlreadyPresent)
    );
    let probe = start.next(true, CloneEvent::InWorkspace(false));
    assert_eq!(probe, CloneStep::ProbeLibrary);
    assert_eq!(
        probe.next(true, CloneEvent::InLibrary(true)),
        CloneStep::Finish(CloneOutcome::InLibrary)
    );
    assert_eq!(
        probe.next(false, CloneEvent::InLibrary(false)),
        CloneStep::Finish(CloneOutcome::NoProvider)
    );
    let clone = probe.next(true, CloneEvent::InLibrary(false));
    assert_eq!(clone, CloneStep::Clone);
    assert_eq!(clone.next(true, CloneEvent::Cloned(true)), CloneStep::Finish(CloneOutcome::Cloned));
    assert_eq!(clone.next(true, CloneEvent::Cloned(false)), CloneStep::Finish(CloneOutcome::Failed));
    assert_eq!(clone.next(true, CloneEvent::InLibrary(true)), CloneStep::Clone);
}

#[test]
fn dropped_repository_comes_back_when_opened() {
    for status in [RepoStatus::Clean, RepoStatus::NoCommits] {
        let mut d = disk(status);
        let (outcome, _) = run_drop(&mut d, false, false);
        assert_eq!(outcome, DropOutcome::Dropped);
        for fetch_ok in [true, false] {
            let (outcome, steps) =
                run_open(true, d.in_workspace, d.in_library, true, fetch_ok, false);
            assert_eq!(outcome, OpenOutcome::Restored { fetched: fetch_ok });
            assert!(!steps.contains(&OpenStep::Clone));
        }
    }
    let workspace = Workspace { path: "/ws".to_string() };
    let key = workspace.relative_key("/ws/github.com/acme/widgets");
    let store = workspace.store_in_library(&key);
    let restore = workspace.restore_from_library(&key);
    assert_eq!(restore.source, store.dest);
    assert_eq!(restore.dest, "/ws/github.com/acme/widgets");
    assert_eq!(store.source, "/ws/github.com/acme/widgets/.git");
}

#[test]
fn batch_gives_every_repository_its_outcome() {
    let mut batch = DropBatch::new(3);
    assert_eq!(batch.next(), Some(0));
    batch.record(DropOutcome::StoreFailed);
    assert_eq!(batch.next(), Some(1));
    batch.record(DropOutcome::Skipped(RepoStatus::Dirty));
    assert_eq!(batch.next(), Some(2));
    batch.record(DropOutcome::Dropped);
    assert_eq!(batch.next(), None);
    batch.record(DropOutcome::Dropped);
    assert_eq!(batch.outcomes.len(), 3);
    assert_eq!(batch.summary(), DropSummary { dropped: 1, skipped: 1, failed: 1 });
    let empty = DropBatch::new(0);
    assert_eq!(empty.next(), None);
    assert_eq!(empty.summary(), DropSummary { dropped: 0, skipped: 0, failed: 0 });
}
