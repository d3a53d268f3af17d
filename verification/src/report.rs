//! What the listing and the summary of a workspace say of its
//! repositories.

use crate::status::RepoStatus;
use crate::text::{chars_of, push_all, string_from};
use vstd::prelude::*;

verus! {

/// How many repositories of a workspace are in which state.
#[derive(Debug, Clone, Copy, PartialEq, Eq, Structural)]
pub struct StatusCounts {
    pub clean: usize,
    /// With uncommitted changes, or without any commit.
    pub modified: usize,
    pub unpushed: usize,
}

/// The label of a status in the listing; `None` stands for a repository
/// whose status could not be told.
pub open spec fn label_of(status: Option<RepoStatus>) -> Seq<char> {
    match status {
        Some(RepoStatus::Clean) => "✓ clean"@,
        Some(RepoStatus::Dirty) => "⚠ modified"@,
        Some(RepoStatus::Unpushed) => "⚠ unpushed"@,
        Some(RepoStatus::NoCommits) => "⚠ no commits"@,
        None => "✗ error"@,
    }
}

/// The label of a status in the listing.
pub fn status_label(status: Option<RepoStatus>) -> (label: &'static str)
    ensures
        label@ == label_of(status),
{
    match status {
        Some(RepoStatus::Clean) => "✓ clean",
        Some(RepoStatus::Dirty) => "⚠ modified",
        Some(RepoStatus::Unpushed) => "⚠ unpushed",
        Some(RepoStatus::NoCommits) => "⚠ no commits",
        None => "✗ error",
    }
}

/// The word for a status in the description of a completion.
pub open spec fn word_of(status: RepoStatus) -> Seq<char> {
    match status {
        RepoStatus::Clean => "clean"@,
        RepoStatus::Dirty => "dirty"@,
        RepoStatus::Unpushed => "unpushed"@,
        RepoStatus::NoCommits => "no commits"@,
    }
}

/// What a completion says of a repository: its status and its age, as far
/// as they are known, with `, ` between; `repository` where neither is.
pub open spec fn description_of(status: Option<RepoStatus>, age: Option<Seq<char>>) -> Seq<char> {
    match (status, age) {
        (Some(s), Some(a)) => word_of(s) + ", "@ + a,
        (Some(s), None) => word_of(s),
        (None, Some(a)) => a,
        (None, None) => "repository"@,
    }
}

/// Describes a repository for a completion.
pub fn describe(status: Option<RepoStatus>, age: Option<&str>) -> (out: String)
    ensures
        out@ == description_of(
            status,
            match age {
                Some(a) => Some(a@),
                None => None,
            },
        ),
{
    let mut out: Vec<char> = Vec::new();
    match status {
        Some(s) => {
            let word = match s {
                RepoStatus::Clean => chars_of("clean"),
                RepoStatus::Dirty => chars_of("dirty"),
                RepoStatus::Unpushed => chars_of("unpushed"),
                RepoStatus::NoCommits => chars_of("no commits"),
            };
            push_all(&mut out, &word);
            if let Some(a) = age {
                let comma = chars_of(", ");
                let rest = chars_of(a);
                push_all(&mut out, &comma);
                push_all(&mut out, &rest);
            }
        },
        None => {
            let rest = match age {
                Some(a) => chars_of(a),
                None => chars_of("repository"),
            };
            push_all(&mut out, &rest);
            assert(out@ =~= rest@);
        },
    }
    string_from(&out)
}

/// The number of the first `n` of `statuses` that count as clean.
pub open spec fn clean_among(statuses: Seq<Option<RepoStatus>>, n: int) -> nat
    decreases n,
{
    if n <= 0 || n > statuses.len() {
        0
    } else {
        clean_among(statuses, n - 1) + if statuses[n - 1] == Some(RepoStatus::Clean) {
            1nat
        } else {
            0nat
        }
    }
}

/// The number of the first `n` of `statuses` that count as modified: the
/// dirty ones and those without commits.
pub open spec fn modified_among(statuses: Seq<Option<RepoStatus>>, n: int) -> nat
    decreases n,
{
    if n <= 0 || n > statuses.len() {
        0
    } else {
        modified_among(statuses, n - 1) + if statuses[n - 1] == Some(RepoStatus::Dirty)
            || statuses[n - 1] == Some(RepoStatus::NoCommits) {
            1nat
        } else {
            0nat
        }
    }
}

/// The number of the first `n` of `statuses` that are unpushed.
pub open spec fn unpushed_among(statuses: Seq<Option<RepoStatus>>, n: int) -> nat
    decreases n,
{
    if n <= 0 || n > statuses.len() {
        0
    } else {
        unpushed_among(statuses, n - 1) + if statuses[n - 1] == Some(RepoStatus::Unpushed) {
            1nat
        } else {
            0nat
        }
    }
}

/// No status is counted twice, and one that could not be told is not
/// counted.
pub proof fn lemma_counts_within(statuses: Seq<Option<RepoStatus>>, n: int)
    requires
        0 <= n <= statuses.len(),
    ensures
        clean_among(statuses, n) + modified_among(statuses, n) + unpushed_among(statuses, n) <= n,
    decreases n,
{
    if n > 0 {
        lemma_counts_within(statuses, n - 1);
    }
}

/// Counts the repositories of a workspace by state. A repository without
/// commits counts as modified; one whose status could not be told counts
/// nowhere.
pub fn count_statuses(statuses: &Vec<Option<RepoStatus>>) -> (counts: StatusCounts)
    ensures
        counts.clean == clean_among(statuses@, statuses@.len() as int),
        counts.modified == modified_among(statuses@, statuses@.len() as int),
        counts.unpushed == unpushed_among(statuses@, statuses@.len() as int),
        counts.clean + counts.modified + counts.unpushed <= statuses@.len(),
{
    let mut counts = StatusCounts { clean: 0, modified: 0, unpushed: 0 };
    let mut i: usize = 0;
    while i < statuses.len()
        invariant
            i <= statuses.len(),
            counts.clean == clean_among(statuses@, i as int),
            counts.modified == modified_among(statuses@, i as int),
            counts.unpushed == unpushed_among(statuses@, i as int),
            counts.clean + counts.modified + counts.unpushed <= i,
        decreases statuses.len() - i,
    {
        match statuses[i] {
            Some(RepoStatus::Clean) => {
                counts.clean += 1;
            },
            Some(RepoStatus::Dirty) | Some(RepoStatus::NoCommits) => {
                counts.modified += 1;
            },
            Some(RepoStatus::Unpushed) => {
                counts.unpushed += 1;
            },
            None => {},
        }
        i += 1;
    }
    counts
}

} // verus!
