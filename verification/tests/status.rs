use workset::status::{
    classify, same_bytes, tracking_verdict, ChangesReading, Finding, HeadReading, Inspection,
    Probe, RepoFacts, RepoStatus, TrackingReading, UpstreamReading,
};

fn facts(
    head: HeadReading,
    changes: ChangesReading,
    upstream: UpstreamReading,
    tracking: TrackingReading,
) -> RepoFacts {
    RepoFacts { head, changes, upstream, tracking }
}

fn clean_scan() -> ChangesReading {
    ChangesReading::Scanned { modified: false, untracked: false }
}

fn tips(local: &[u8], remote: &[u8]) -> TrackingReading {
    TrackingReading::Found { local: Some(local.to_vec()), remote: Some(remote.to_vec()) }
}

fn answer(facts: &RepoFacts, probe: Probe) -> Finding {
    match probe {
        Probe::Head => Finding::Head(facts.head),
        Probe::Changes => Finding::Changes(facts.changes),
        Probe::Upstream => Finding::Upstream(facts.upstream),
        Probe::Tracking => Finding::Tracking(facts.tracking.clone()),
    }
}

fn inspect(facts: &RepoFacts) -> (RepoStatus, Vec<Probe>) {
    let mut inspection = Inspection::new();
    let mut asked = Vec::new();
    while let Some(probe) = inspection.pending() {
        asked.push(probe);
        inspection = inspection.record(&answer(facts, probe));
    }
    (inspection.status().unwrap(), asked)
}

#[test]
fn no_commits_whatever_the_working_tree_holds() {
    for changes in [
        ChangesReading::Unavailable,
        ChangesReading::Failed,
        clean_scan(),
        ChangesReading::Scanned { modified: true, untracked: false },
        ChangesReading::Scanned { modified: false, untracked: true },
        ChangesReading::Scanned { modified: true, untracked: true },
    ] {
        for upstream in
            [UpstreamReading::NotConfigured, UpstreamReading::Invalid, UpstreamReading::Configured]
        {
            let f = facts(HeadReading::Unresolved, changes, upstream, tips(b"a", b"b"));
            assert_eq!(classify(&f), RepoStatus::NoCommits);
            assert_eq!(inspect(&f), (RepoStatus::NoCommits, vec![Probe::Head]));
        }
    }
}

#[test]
fn modified_file_makes_dirty() {
    let f = facts(
        HeadReading::Branch,
        ChangesReading::Scanned { modified: true, untracked: false },
        UpstreamReading::Configured,
        tips(b"a", b"a"),
    );
    assert_eq!(classify(&f), RepoStatus::Dirty);
    assert_eq!(inspect(&f), (RepoStatus::Dirty, vec![Probe::Head, Probe::Changes]));
}

#[test]
fn untracked_file_alone_makes_dirty() {
    let f = facts(
        HeadReading::Branch,
        ChangesReading::Scanned { modified: false, untracked: true },
        UpstreamReading::NotConfigured,
        TrackingReading::Missing,
    );
    assert_eq!(classify(&f), RepoStatus::Dirty);
}

#[test]
fn dirty_wins_over_unpushed() {
    let f = facts(
        HeadReading::Branch,
        ChangesReading::Scanned { modified: true, untracked: true },
        UpstreamReading::Configured,
        tips(b"local", b"remote"),
    );
    assert_eq!(classify(&f), RepoStatus::Dirty);
}

#[test]
fn no_upstream_is_clean_never_unpushed() {
    for tracking in [TrackingReading::Missing, tips(b"a", b"b"), tips(b"a", b"a")] {
        for upstream in [UpstreamReading::NotConfigured, UpstreamReading::Invalid] {
            let f = facts(HeadReading::Branch, clean_scan(), upstream, tracking.clone());
            assert_eq!(classify(&f), RepoStatus::Clean);
            assert_eq!(
                inspect(&f),
                (RepoStatus::Clean, vec![Probe::Head, Probe::Changes, Probe::Upstream])
            );
        }
    }
}

#[test]
fn different_tips_make_unpushed() {
    let f = facts(
        HeadReading::Branch,
        clean_scan(),
        UpstreamReading::Configured,
        tips(b"1111", b"2222"),
    );
    assert_eq!(classify(&f), RepoStatus::Unpushed);
    assert_eq!(
        inspect(&f),
        (
            RepoStatus::Unpushed,
            vec![Probe::Head, Probe::Changes, Probe::Upstream, Probe::Tracking]
        )
    );
}

#[test]
fn same_tips_are_clean() {
    let f =
        facts(HeadReading::Branch, clean_scan(), UpstreamReading::Configured, tips(b"1111", b"1111"));
    assert_eq!(classify(&f), RepoStatus::Clean);
}

#[test]
fn never_pushed_branch_is_clean() {
    let f = facts(
        HeadReading::Branch,
        clean_scan(),
        UpstreamReading::Configured,
        TrackingReading::Missing,
    );
    assert_eq!(classify(&f), RepoStatus::Clean);
}

#[test]
fn unreadable_commit_counts_as_nothing_unpushed() {
    let local_lost = TrackingReading::Found { local: None, remote: Some(vec![1]) };
    let remote_lost = TrackingReading::Found { local: Some(vec![1]), remote: None };
    for tracking in [local_lost, remote_lost] {
        let f = facts(HeadReading::Branch, clean_scan(), UpstreamReading::Configured, tracking);
        assert_eq!(classify(&f), RepoStatus::Clean);
    }
}

#[test]
fn unavailable_comparison_is_clean_at_once() {
    let f = facts(
        HeadReading::Branch,
        ChangesReading::Unavailable,
        UpstreamReading::Configured,
        tips(b"a", b"b"),
    );
    assert_eq!(classify(&f), RepoStatus::Clean);
    assert_eq!(inspect(&f), (RepoStatus::Clean, vec![Probe::Head, Probe::Changes]));
}

#[test]
fn failed_comparison_counts_as_no_changes() {
    let f = facts(
        HeadReading::Branch,
        ChangesReading::Failed,
        UpstreamReading::Configured,
        tips(b"a", b"b"),
    );
    assert_eq!(classify(&f), RepoStatus::Unpushed);
    assert_eq!(inspect(&f).0, RepoStatus::Unpushed);
}

#[test]
fn inspection_agrees_with_classify_on_every_combination() {
    let heads = [HeadReading::Unresolved, HeadReading::Detached, HeadReading::Branch];
    let changes = [
        ChangesReading::Unavailable,
        ChangesReading::Failed,
        clean_scan(),
        ChangesReading::Scanned { modified: true, untracked: false },
        ChangesReading::Scanned { modified: false, untracked: true },
    ];
    let upstreams =
        [UpstreamReading::NotConfigured, UpstreamReading::Invalid, UpstreamReading::Configured];
    let trackings = [
        TrackingReading::Missing,
        tips(b"a", b"a"),
        tips(b"a", b"b"),
        TrackingReading::Found { local: None, remote: None },
    ];
    for head in heads {
        for change in changes {
            for upstream in upstreams {
                for tracking in trackings.iter() {
                    let f = facts(head, change, upstream, tracking.clone());
                    assert_eq!(inspect(&f).0, classify(&f));
                }
            }
        }
    }
}

#[test]
fn finding_for_another_probe_changes_nothing() {
    let waiting = Inspection::new();
    let after = waiting.record(&Finding::Upstream(UpstreamReading::Configured));
    assert_eq!(after, Inspection::Waiting(Probe::Head));
    let settled = Inspection::Settled(RepoStatus::Dirty);
    assert_eq!(settled.record(&Finding::Head(HeadReading::Branch)), settled);
    assert_eq!(settled.pending(), None);
    assert_eq!(settled.status(), Some(RepoStatus::Dirty));
    assert_eq!(waiting.status(), None);
}

#[test]
fn same_bytes_compares_contents() {
    assert!(same_bytes(&vec![], &vec![]));
    assert!(same_bytes(&vec![1, 2, 3], &vec![1, 2, 3]));
    assert!(!same_bytes(&vec![1, 2, 3], &vec![1, 2, 4]));
    assert!(!same_bytes(&vec![1, 2], &vec![1, 2, 3]));
}

#[test]
fn tracking_verdict_of_each_reading() {
    assert_eq!(tracking_verdict(&TrackingReading::Missing), RepoStatus::Clean);
    assert_eq!(tracking_verdict(&tips(b"x", b"x")), RepoStatus::Clean);
    assert_eq!(tracking_verdict(&tips(b"x", b"y")), RepoStatus::Unpushed);
}

#[test]
fn detached_head_at_a_commit_is_clean() {
    for upstream in
        [UpstreamReading::NotConfigured, UpstreamReading::Invalid, UpstreamReading::Configured]
    {
        for tracking in [TrackingReading::Missing, tips(b"a", b"b")] {
            let f = facts(HeadReading::Detached, clean_scan(), upstream, tracking);
            assert_eq!(classify(&f), RepoStatus::Clean);
            assert_eq!(inspect(&f), (RepoStatus::Clean, vec![Probe::Head, Probe::Changes]));
        }
    }
    for changes in [ChangesReading::Unavailable, ChangesReading::Failed] {
        let f = facts(
            HeadReading::Detached,
            changes,
            UpstreamReading::Configured,
            tips(b"a", b"b"),
        );
        assert_eq!(classify(&f), RepoStatus::Clean);
        assert_eq!(inspect(&f).0, RepoStatus::Clean);
    }
}

#[test]
fn detached_head_with_changes_is_dirty() {
    for changes in [
        ChangesReading::Scanned { modified: true, untracked: false },
        ChangesReading::Scanned { modified: false, untracked: true },
    ] {
        let f =
            facts(HeadReading::Detached, changes, UpstreamReading::NotConfigured, TrackingReading::Missing);
        assert_eq!(classify(&f), RepoStatus::Dirty);
        assert_eq!(inspect(&f), (RepoStatus::Dirty, vec![Probe::Head, Probe::Changes]));
    }
}

#[test]
fn detached_inspection_ignores_other_findings() {
    let waiting = Inspection::new().record(&Finding::Head(HeadReading::Detached));
    assert_eq!(waiting, Inspection::WaitingDetached);
    assert_eq!(waiting.pending(), Some(Probe::Changes));
    assert_eq!(waiting.status(), None);
    assert_eq!(waiting.record(&Finding::Upstream(UpstreamReading::Configured)), waiting);
}
