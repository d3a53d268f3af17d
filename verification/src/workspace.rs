//! The workspace: where its repositories and its library are, and how a
//! repository's place in one mirrors its place in the other.

use crate::discovery::Discovery;
use crate::lifecycle::{DropTask, OpenTask};
use crate::pattern::{join_with_slash, slash_joined, RepoPattern};
use crate::text::{
    chars_of, dedup_names, deduped, sort_names, sorted_names, string_from, texts, trim_leading,
    without_leading,
};
use std::path::Path;
use vstd::prelude::*;
use vstd::string::StringExecFns;

verus! {

/// A directory of checked-out repositories, each at the path that its
/// remote has: `<workspace>/github.com/owner/name`. The library of the
/// workspace is its directory `.workset`.
#[derive(Debug)]
pub struct Workspace {
    /// The path of the workspace directory.
    pub path: String,
}

/// What storing a repository moves: the metadata directory `source`, whose
/// configuration file is `config`, to `dest` in the library. An entry that
/// is at `dest` already waits at `aside` until the move went through.
#[derive(Debug)]
pub struct StorePlan {
    pub source: String,
    pub config: String,
    pub dest: String,
    pub aside: String,
}

/// What restoring a repository makes: a working copy at `dest` from the
/// library entry `source`; `config` is the configuration file of the copy.
#[derive(Debug)]
pub struct RestorePlan {
    pub source: String,
    pub dest: String,
    pub config: String,
}

/// What is left of `path` when the leading components `base` are taken
/// from it, as `Path::strip_prefix` computes it; `None` where `base` is no
/// prefix of `path`.
pub uninterp spec fn path_stripped(path: Seq<char>, base: Seq<char>) -> Option<Seq<char>>;

/// The character sequence of an optional string.
pub open spec fn opt_text(s: Option<String>) -> Option<Seq<char>> {
    match s {
        Some(text) => Some(text@),
        None => None,
    }
}

/// `Path::strip_prefix`, on paths given as text: the path that, joined
/// onto `base`, gives `path`; `None` where `base` is no prefix of `path`.
/// It compares whole components and reads nothing from disk.
#[verifier::external_body]
fn strip_path_prefix(path: &str, base: &str) -> (rest: Option<String>)
    ensures
        opt_text(rest) == path_stripped(path@, base@),
{
    match Path::new(path).strip_prefix(base) {
        Ok(rest) => Some(rest.to_string_lossy().into_owned()),
        Err(_) => None,
    }
}

/// The path of the library of the workspace at `workspace`.
pub open spec fn library_of(workspace: Seq<char>) -> Seq<char> {
    workspace + "/.workset"@
}

/// Where the repository with the key `key` stands in the workspace at
/// `workspace`.
pub open spec fn working_copy_of(workspace: Seq<char>, key: Seq<char>) -> Seq<char> {
    slash_joined(workspace, key)
}

/// Where the metadata of the repository with the key `key` is while it
/// stands in the workspace at `workspace`.
pub open spec fn metadata_of(workspace: Seq<char>, key: Seq<char>) -> Seq<char> {
    working_copy_of(workspace, key) + "/.git"@
}

/// Where the entry with the key `key` is in the library of the workspace
/// at `workspace`.
pub open spec fn entry_of(workspace: Seq<char>, key: Seq<char>) -> Seq<char> {
    slash_joined(library_of(workspace), key)
}

/// The key of the repository at `repo` in the workspace at `workspace`:
/// its path relative to the workspace, or all of its path where it is not
/// below the workspace, without leading `/`.
pub open spec fn key_of(workspace: Seq<char>, repo: Seq<char>) -> Seq<char> {
    match path_stripped(repo, workspace) {
        Some(rest) => trim_leading(rest, '/'),
        None => trim_leading(repo, '/'),
    }
}

/// The keys of the library entries at the paths `found`, in their order:
/// each path relative to `library`, but for those that are not below it and
/// for the library itself.
pub open spec fn keys_of(library: Seq<char>, found: Seq<Seq<char>>) -> Seq<Seq<char>>
    decreases found.len(),
{
    if found.len() == 0 {
        Seq::empty()
    } else {
        let before = keys_of(library, found.drop_last());
        match path_stripped(found.last(), library) {
            Some(rest) => if rest.len() > 0 {
                before.push(rest)
            } else {
                before
            },
            None => before,
        }
    }
}

/// The names offered to complete a repository: each path of `found`
/// relative to `workspace`, but for those that are not below it; sorted,
/// and each only once.
pub open spec fn names_below(workspace: Seq<char>, found: Seq<Seq<char>>) -> Seq<Seq<char>>
    decreases found.len(),
{
    if found.len() == 0 {
        Seq::empty()
    } else {
        let before = names_below(workspace, found.drop_last());
        match path_stripped(found.last(), workspace) {
            Some(rest) => before.push(rest),
            None => before,
        }
    }
}

impl Workspace {
    /// The path of the library.
    pub fn library_path(&self) -> (out: String)
        ensures
            out@ == library_of(self.path@),
    {
        self.path.clone().concat("/.workset")
    }

    /// The path of the library, as `library_path` gives it.
    pub fn library_path_buf(&self) -> (out: String)
        ensures
            out@ == library_of(self.path@),
    {
        self.library_path()
    }

    /// The path in the workspace of the repository with the key
    /// `relative_path`.
    pub fn repo_path(&self, relative_path: &str) -> (out: String)
        ensures
            out@ == working_copy_of(self.path@, relative_path@),
    {
        join_with_slash(self.path.as_str(), relative_path)
    }

    /// The path in the library of the entry with the key `relative_path`.
    pub fn library_entry(&self, relative_path: &str) -> (out: String)
        ensures
            out@ == entry_of(self.path@, relative_path@),
    {
        let library = self.library_path();
        join_with_slash(library.as_str(), relative_path)
    }

    /// The key under which the repository at `repo` is stored.
    pub fn relative_key(&self, repo: &str) -> (key: String)
        ensures
            key@ == key_of(self.path@, repo@),
    {
        let rest = match strip_path_prefix(repo, self.path.as_str()) {
            Some(rest) => chars_of(rest.as_str()),
            None => chars_of(repo),
        };
        let key = without_leading(&rest, '/');
        string_from(&key)
    }

    /// What storing the repository with the key `relative_path` moves: its
    /// metadata directory, into the library under the same key.
    pub fn store_in_library(&self, relative_path: &str) -> (plan: StorePlan)
        ensures
            plan.source@ == metadata_of(self.path@, relative_path@),
            plan.config@ == plan.source@ + "/config"@,
            plan.dest@ == entry_of(self.path@, relative_path@),
            plan.aside@ == plan.dest@ + ".replaced"@,
    {
        let source = self.repo_path(relative_path).concat("/.git");
        let config = source.clone().concat("/config");
        let dest = self.library_entry(relative_path);
        let aside = dest.clone().concat(".replaced");
        StorePlan { source, config, dest, aside }
    }

    /// What restoring the entry with the key `relative_path` makes: a
    /// working copy in the workspace under the same key.
    pub fn restore_from_library(&self, relative_path: &str) -> (plan: RestorePlan)
        ensures
            plan.source@ == entry_of(self.path@, relative_path@),
            plan.dest@ == working_copy_of(self.path@, relative_path@),
            plan.config@ == plan.dest@ + "/.git/config"@,
    {
        let source = self.library_entry(relative_path);
        let dest = self.repo_path(relative_path);
        let config = dest.clone().concat("/.git/config");
        RestorePlan { source, dest, config }
    }

    /// The keys of the library, sorted, from the paths at which the search
    /// of the library found a repository.
    pub fn list_library(&self, found: &Vec<String>) -> (keys: Vec<String>)
        ensures
            texts(keys@) == sorted_names(keys_of(library_of(self.path@), texts(found@))),
    {
        let library = self.library_path();
        let mut keys: Vec<String> = Vec::new();
        let ghost all = texts(found@);
        let mut i: usize = 0;
        proof {
            assert(all.take(0) =~= Seq::<Seq<char>>::empty());
            assert(texts(keys@) =~= Seq::<Seq<char>>::empty());
        }
        while i < found.len()
            invariant
                i <= found.len(),
                all == texts(found@),
                library@ == library_of(self.path@),
                texts(keys@) == keys_of(library@, all.take(i as int)),
            decreases found.len() - i,
        {
            let ghost done = texts(keys@);
            proof {
                assert(all.take(i + 1).drop_last() =~= all.take(i as int));
                assert(all.take(i + 1).last() == found@[i as int]@);
            }
            if let Some(rest) = strip_path_prefix(found[i].as_str(), library.as_str()) {
                if rest.as_str().unicode_len() > 0 {
                    proof {
                        assert(texts(keys@.push(rest)) =~= done.push(rest@));
                    }
                    keys.push(rest);
                }
            }
            i += 1;
        }
        proof {
            assert(all.take(found@.len() as int) =~= all);
        }
        sort_names(&keys)
    }

    /// The names to offer for a repository of the workspace, from the paths
    /// at which the search found one: relative to the workspace, sorted,
    /// each once.
    pub fn completion_names(&self, found: &Vec<String>) -> (names: Vec<String>)
        ensures
            texts(names@) == deduped(sorted_names(names_below(self.path@, texts(found@)))),
    {
        let mut names: Vec<String> = Vec::new();
        let ghost all = texts(found@);
        let mut i: usize = 0;
        proof {
            assert(all.take(0) =~= Seq::<Seq<char>>::empty());
            assert(texts(names@) =~= Seq::<Seq<char>>::empty());
        }
        while i < found.len()
            invariant
                i <= found.len(),
                all == texts(found@),
                texts(names@) == names_below(self.path@, all.take(i as int)),
            decreases found.len() - i,
        {
            let ghost done = texts(names@);
            proof {
                assert(all.take(i + 1).drop_last() =~= all.take(i as int));
                assert(all.take(i + 1).last() == found@[i as int]@);
            }
            if let Some(rest) = strip_path_prefix(found[i].as_str(), self.path.as_str()) {
                proof {
                    assert(texts(names@.push(rest)) =~= done.push(rest@));
                }
                names.push(rest);
            }
            i += 1;
        }
        proof {
            assert(all.take(found@.len() as int) =~= all);
        }
        let sorted = sort_names(&names);
        dedup_names(&sorted)
    }

    /// Begins the search of the workspace for the repositories that
    /// `pattern` means: those at or below `<workspace>/<pattern>`.
    pub fn search(&self, pattern: &RepoPattern) -> (search: Discovery)
        ensures
            search.pending_view() == seq![slash_joined(self.path@, pattern.full_path_view())],
            search.found_view() == Seq::<Seq<char>>::empty(),
            search.skip_metadata,
    {
        let full = pattern.full_path();
        Discovery::new(self.repo_path(full.as_str()))
    }

    /// Begins opening the repository that `pattern` names: what the
    /// workspace holds is used, what only the library holds is restored,
    /// and anything else is cloned, which takes a provider.
    pub fn open(&self, pattern: &RepoPattern) -> (task: OpenTask)
        ensures
            task == OpenTask::initial(pattern.provider is Some),
    {
        OpenTask::start(pattern.provider.is_some())
    }

    /// Begins dropping one repository of the workspace.
    pub fn drop(&self, delete: bool, force: bool) -> (task: DropTask)
        ensures
            task == DropTask::initial(delete, force),
    {
        DropTask::start(delete, force)
    }
}

/// The URL from which the repository that `pattern` names is cloned:
/// `https://<provider>/<path>`; `None` for a pattern without provider.
pub open spec fn clone_url_of(pattern: &RepoPattern) -> Option<Seq<char>> {
    match pattern.provider {
        Some(provider) => Some("https://"@ + slash_joined(provider@, pattern.path@)),
        None => None,
    }
}

/// The URL from which the repository that `pattern` names is cloned.
pub fn clone_url(pattern: &RepoPattern) -> (url: Option<String>)
    ensures
        opt_text(url) == clone_url_of(pattern),
{
    match &pattern.provider {
        Some(provider) => {
            let tail = join_with_slash(provider.as_str(), pattern.path.as_str());
            Some("https://".to_string().concat(tail.as_str()))
        },
        None => None,
    }
}

/// Restoring is the inverse of storing, as far as places go: for one key,
/// the entry that storing writes is the entry that restoring reads, and the
/// working copy that restoring makes stands where storing took the
/// metadata from. What the working copy holds is up to git.
pub proof fn lemma_restore_mirrors_store(
    workspace: &Workspace,
    key: &str,
    store: StorePlan,
    restore: RestorePlan,
)
    requires
        store.source@ == metadata_of(workspace.path@, key@),
        store.dest@ == entry_of(workspace.path@, key@),
        restore.source@ == entry_of(workspace.path@, key@),
        restore.dest@ == working_copy_of(workspace.path@, key@),
    ensures
        restore.source@ == store.dest@,
        store.source@ == restore.dest@ + "/.git"@,
{
}

/// The workspace that governs a directory: the nearest of the directory
/// and its ancestors that holds the marker.
pub open spec fn governing(candidates: Seq<(String, bool)>, from: int) -> Option<Seq<char>>
    decreases candidates.len() - from,
{
    if from < 0 || from >= candidates.len() {
        None
    } else if candidates[from].1 {
        Some(candidates[from].0@)
    } else {
        governing(candidates, from + 1)
    }
}

/// Finds the workspace that governs a directory. `candidates` holds the
/// directory and then each of its ancestors up to the root, each with
/// whether it holds the marker directory. The first that holds it is the
/// workspace; where none does, there is no workspace.
pub fn locate(candidates: &Vec<(String, bool)>) -> (workspace: Option<Workspace>)
    ensures
        match workspace {
            Some(w) => governing(candidates@, 0) == Some(w.path@),
            None => governing(candidates@, 0) is None,
        },
{
    let mut i: usize = 0;
    while i < candidates.len()
        invariant
            i <= candidates.len(),
            governing(candidates@, 0) == governing(candidates@, i as int),
        decreases candidates.len() - i,
    {
        if candidates[i].1 {
            return Some(Workspace { path: candidates[i].0.clone() });
        }
        i += 1;
    }
    None
}

} // verus!
