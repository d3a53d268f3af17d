//! Discovery of top-level repositories under a directory.
//!
//! Reading directories is the caller's work. A [`Discovery`] names the
//! directory to read next and takes in what was read; it decides what is a
//! result and where the search descends.

use crate::text::same_text;
use vstd::prelude::*;

verus! {

/// One entry of a directory.
#[derive(Debug, Clone)]
pub struct DirEntry {
    /// The file name of the entry.
    pub name: String,
    /// The path of the entry.
    pub path: String,
    /// Whether the entry is a directory.
    pub is_dir: bool,
}

/// An entry as plain values.
pub struct DirEntryView {
    pub name: Seq<char>,
    pub path: Seq<char>,
    pub is_dir: bool,
}

impl View for DirEntry {
    type V = DirEntryView;

    open spec fn view(&self) -> DirEntryView {
        DirEntryView { name: self.name@, path: self.path@, is_dir: self.is_dir }
    }
}

/// What reading one directory gave.
#[derive(Debug, Clone)]
pub struct DirListing {
    /// The directory is a repository.
    pub is_repository: bool,
    /// The entries of the directory; none where it could not be read.
    pub entries: Vec<DirEntry>,
}

/// A search for repositories, in progress.
#[derive(Debug, Clone)]
pub struct Discovery {
    /// The directories that are still to be read; the last one is next.
    pub pending: Vec<String>,
    /// The repositories found so far.
    pub found: Vec<String>,
    /// Whether entries named `.git` are passed over.
    pub skip_metadata: bool,
}

/// The views of the entries.
pub open spec fn entry_views(entries: Seq<DirEntry>) -> Seq<DirEntryView> {
    entries.map_values(|e: DirEntry| e@)
}

/// The character sequences of the paths.
pub open spec fn paths(strings: Seq<String>) -> Seq<Seq<char>> {
    strings.map_values(|s: String| s@)
}

/// The search goes into `entry`: it is a directory, and it is not the
/// metadata directory `.git` where that is passed over.
pub open spec fn descends(entry: DirEntryView, skip_metadata: bool) -> bool {
    entry.is_dir && !(skip_metadata && entry.name == ".git"@)
}

/// The paths of the first `n` of `entries` that the search goes into, in
/// their order.
pub open spec fn descents(entries: Seq<DirEntryView>, n: int, skip_metadata: bool) -> Seq<
    Seq<char>,
>
    decreases n,
{
    if n <= 0 || n > entries.len() {
        Seq::empty()
    } else if descends(entries[n - 1], skip_metadata) {
        descents(entries, n - 1, skip_metadata).push(entries[n - 1].path)
    } else {
        descents(entries, n - 1, skip_metadata)
    }
}

impl Discovery {
    /// The directories still to be read, the next one last.
    pub open spec fn pending_view(&self) -> Seq<Seq<char>> {
        paths(self.pending@)
    }

    /// The repositories found so far, in the order in which they were
    /// found.
    pub open spec fn found_view(&self) -> Seq<Seq<char>> {
        paths(self.found@)
    }

    /// A search below `root` for the working trees of repositories:
    /// entries named `.git` are passed over.
    pub fn new(root: String) -> (search: Discovery)
        ensures
            search.pending_view() == seq![root@],
            search.found_view() == Seq::<Seq<char>>::empty(),
            search.skip_metadata,
    {
        let search = Discovery { pending: vec![root], found: Vec::new(), skip_metadata: true };
        proof {
            assert(search.pending_view() =~= seq![root@]);
            assert(search.found_view() =~= Seq::<Seq<char>>::empty());
        }
        search
    }

    /// A search below `root` for stored repositories: every directory is
    /// looked into.
    pub fn in_library(root: String) -> (search: Discovery)
        ensures
            search.pending_view() == seq![root@],
            search.found_view() == Seq::<Seq<char>>::empty(),
            !search.skip_metadata,
    {
        let search = Discovery { pending: vec![root], found: Vec::new(), skip_metadata: false };
        proof {
            assert(search.pending_view() =~= seq![root@]);
            assert(search.found_view() =~= Seq::<Seq<char>>::empty());
        }
        search
    }

    /// The directory to read next; `None` when the search is over.
    pub fn next(&self) -> (dir: Option<&String>)
        ensures
            match dir {
                Some(d) => self.pending@.len() > 0 && d@ == self.pending_view().last(),
                None => self.pending@.len() == 0,
            },
    {
        if self.pending.len() == 0 {
            None
        } else {
            Some(&self.pending[self.pending.len() - 1])
        }
    }

    /// Takes in what reading the next directory gave.
    ///
    /// A directory that is a repository is a result, and nothing below it
    /// is looked at. Of any other directory, every entry that is a
    /// directory is read in turn, first entry first and each with all that
    /// is below it before the next, but for `.git` where that is passed
    /// over. Without a directory pending, nothing changes.
    pub fn record(&mut self, listing: &DirListing)
        ensures
            old(self).pending@.len() == 0 ==> *final(self) == *old(self),
            old(self).pending@.len() > 0 ==> final(self).found_view() == if listing.is_repository {
                old(self).found_view().push(old(self).pending_view().last())
            } else {
                old(self).found_view()
            },
            old(self).pending@.len() > 0 ==> final(self).pending_view() == if listing.is_repository {
                old(self).pending_view().drop_last()
            } else {
                old(self).pending_view().drop_last() + descents(
                    entry_views(listing.entries@),
                    listing.entries@.len() as int,
                    old(self).skip_metadata,
                ).reverse()
            },
            final(self).skip_metadata == old(self).skip_metadata,
    {
        if self.pending.len() == 0 {
            return ;
        }
        let dir = match self.pending.pop() {
            Some(dir) => dir,
            None => {
                return ;
            },
        };
        let ghost rest = paths(self.pending@);
        let ghost before = paths(self.found@);
        proof {
            assert(rest =~= old(self).pending_view().drop_last());
        }
        if listing.is_repository {
            proof {
                assert(paths(self.found@.push(dir)) =~= before.push(dir@));
            }
            self.found.push(dir);
            return ;
        }
        let ghost entries = entry_views(listing.entries@);
        let ghost skip = self.skip_metadata;
        let mut n: usize = listing.entries.len();
        proof {
            assert(rest + Seq::<Seq<char>>::empty() =~= rest);
            assert(descents(entries, n as int, skip).subrange(
                descents(entries, n as int, skip).len() as int,
                descents(entries, n as int, skip).len() as int,
            ) =~= Seq::<Seq<char>>::empty());
        }
        let ghost all = descents(entries, n as int, skip);
        let ghost mut done: int = all.len() as int;
        proof {
            assert(all.skip(done).reverse() =~= Seq::<Seq<char>>::empty());
        }
        while n > 0
            invariant
                n <= listing.entries.len(),
                entries == entry_views(listing.entries@),
                skip == self.skip_metadata,
                self.found == old(self).found,
                all == descents(entries, listing.entries@.len() as int, skip),
                0 <= done <= all.len(),
                all.take(done) == descents(entries, n as int, skip),
                paths(self.pending@) == rest + all.skip(done).reverse(),
            decreases n,
        {
            let entry = &listing.entries[n - 1];
            proof {
                assert(entries[n - 1] == entry@);
            }
            let passed_over = self.skip_metadata && same_text(entry.name.as_str(), ".git");
            if entry.is_dir && !passed_over {
                let path = entry.path.clone();
                proof {
                    let shorter = descents(entries, n - 1, skip);
                    assert(all.take(done) == shorter.push(entry.path@));
                    assert(all.take(done).len() == done);
                    assert(shorter.push(entry.path@)[done - 1] == entry.path@);
                    assert(all.take(done)[done - 1] == all[done - 1]);
                    assert(all[done - 1] == entry.path@);
                    assert(all.take(done - 1) =~= shorter);
                    assert(all.skip(done - 1).reverse() =~= all.skip(done).reverse().push(
                        all[done - 1],
                    ));
                    assert(paths(self.pending@.push(path)) =~= paths(self.pending@).push(path@));
                    done = done - 1;
                }
                self.pending.push(path);
            }
            n -= 1;
        }
        proof {
            assert(done == 0);
            assert(all.skip(0) =~= all);
        }
    }

    /// Whether the search is over.
    pub fn is_done(&self) -> (done: bool)
        ensures
            done == (self.pending@.len() == 0),
    {
        self.pending.len() == 0
    }

    /// The repositories that were found, in the order in which they were
    /// found.
    pub fn into_found(self) -> (found: Vec<String>)
        ensures
            paths(found@) == self.found_view(),
    {
        self.found
    }
}

/// A directory tree, as the search may meet it: an entry with its name and
/// path, and, for a directory, whether it is a repository and what it
/// holds.
pub struct DirTree {
    pub name: Seq<char>,
    pub path: Seq<char>,
    pub is_dir: bool,
    pub is_repository: bool,
    pub entries: Seq<DirTree>,
}

impl DirTree {
    /// The tree as an entry of the directory that holds it.
    pub open spec fn entry(self) -> DirEntryView {
        DirEntryView { name: self.name, path: self.path, is_dir: self.is_dir }
    }

    /// The entries of the tree, as reading it gives them.
    pub open spec fn listed(self) -> Seq<DirEntryView> {
        self.entries.map_values(|t: DirTree| t.entry())
    }
}

/// The top-level repositories at and below `tree`: the tree itself where it
/// is a repository, and nothing below it; else those of each entry that the
/// search goes into, in their order.
pub open spec fn repos_below(tree: DirTree, skip_metadata: bool) -> Seq<Seq<char>>
    decreases tree, 0nat,
{
    if tree.is_repository {
        seq![tree.path]
    } else {
        repos_among(tree.entries, tree.entries.len() as int, skip_metadata)
    }
}

/// The top-level repositories below those of the first `n` of `entries`
/// that the search goes into.
pub open spec fn repos_among(entries: Seq<DirTree>, n: int, skip_metadata: bool) -> Seq<Seq<char>>
    decreases entries, n,
{
    if n <= 0 || n > entries.len() {
        Seq::empty()
    } else if descends(entries[n - 1].entry(), skip_metadata) {
        repos_among(entries, n - 1, skip_metadata) + repos_below(entries[n - 1], skip_metadata)
    } else {
        repos_among(entries, n - 1, skip_metadata)
    }
}

/// Those of the first `n` of `entries` that the search goes into, in their
/// order.
pub open spec fn visited_among(entries: Seq<DirTree>, n: int, skip_metadata: bool) -> Seq<DirTree>
    decreases n,
{
    if n <= 0 || n > entries.len() {
        Seq::empty()
    } else if descends(entries[n - 1].entry(), skip_metadata) {
        visited_among(entries, n - 1, skip_metadata).push(entries[n - 1])
    } else {
        visited_among(entries, n - 1, skip_metadata)
    }
}

/// The paths of the trees.
pub open spec fn tree_paths(trees: Seq<DirTree>) -> Seq<Seq<char>> {
    trees.map_values(|t: DirTree| t.path)
}

/// The repositories that a search will still find when the first `n` of
/// `pending` are the trees that it has yet to read, the last one next.
pub open spec fn to_come(pending: Seq<DirTree>, n: int, skip_metadata: bool) -> Seq<Seq<char>>
    decreases n,
{
    if n <= 0 || n > pending.len() {
        Seq::empty()
    } else {
        repos_below(pending[n - 1], skip_metadata) + to_come(pending, n - 1, skip_metadata)
    }
}

/// The trees that are pending once the last of `pending` was read.
pub open spec fn pending_after(pending: Seq<DirTree>, skip_metadata: bool) -> Seq<DirTree> {
    let tree = pending.last();
    if tree.is_repository {
        pending.drop_last()
    } else {
        pending.drop_last() + visited_among(
            tree.entries,
            tree.entries.len() as int,
            skip_metadata,
        ).reverse()
    }
}

/// The paths of the entries that the search goes into are the paths of the
/// trees that it goes into.
pub proof fn lemma_descents_are_visited(entries: Seq<DirTree>, n: int, skip_metadata: bool)
    requires
        0 <= n <= entries.len(),
    ensures
        descents(entries.map_values(|t: DirTree| t.entry()), n, skip_metadata) == tree_paths(
            visited_among(entries, n, skip_metadata),
        ),
    decreases n,
{
    let listed = entries.map_values(|t: DirTree| t.entry());
    if n > 0 {
        lemma_descents_are_visited(entries, n - 1, skip_metadata);
        assert(listed[n - 1] == entries[n - 1].entry());
        let before = visited_among(entries, n - 1, skip_metadata);
        assert(tree_paths(before.push(entries[n - 1])) =~= tree_paths(before).push(
            entries[n - 1].path,
        ));
    } else {
        assert(tree_paths(Seq::<DirTree>::empty()) =~= Seq::<Seq<char>>::empty());
    }
}

/// What is to come of trees put behind others comes first.
proof fn lemma_to_come_stacked(base: Seq<DirTree>, more: Seq<DirTree>, skip_metadata: bool)
    ensures
        to_come(base + more, (base + more).len() as int, skip_metadata) == to_come(
            more,
            more.len() as int,
            skip_metadata,
        ) + to_come(base, base.len() as int, skip_metadata),
    decreases more.len(),
{
    let all = base + more;
    if more.len() == 0 {
        assert(all =~= base);
        assert(Seq::<Seq<char>>::empty() + to_come(base, base.len() as int, skip_metadata)
            =~= to_come(base, base.len() as int, skip_metadata));
    } else {
        let shorter = more.drop_last();
        lemma_to_come_stacked(base, shorter, skip_metadata);
        lemma_to_come_prefix(all, (base + shorter).len() as int, base + shorter, skip_metadata);
        lemma_to_come_prefix(more, shorter.len() as int, shorter, skip_metadata);
        assert(all[all.len() - 1] == more.last());
        assert(repos_below(more.last(), skip_metadata) + (to_come(
            shorter,
            shorter.len() as int,
            skip_metadata,
        ) + to_come(base, base.len() as int, skip_metadata)) =~= (repos_below(
            more.last(),
            skip_metadata,
        ) + to_come(shorter, shorter.len() as int, skip_metadata)) + to_come(
            base,
            base.len() as int,
            skip_metadata,
        ));
    }
}

/// What is to come of the first `n` trees does not depend on the others.
proof fn lemma_to_come_prefix(all: Seq<DirTree>, n: int, first: Seq<DirTree>, skip_metadata: bool)
    requires
        0 <= n <= all.len(),
        n <= first.len(),
        forall|k: int| 0 <= k < n ==> first[k] == all[k],
    ensures
        to_come(all, n, skip_metadata) == to_come(first, n, skip_metadata),
    decreases n,
{
    if n > 0 {
        lemma_to_come_prefix(all, n - 1, first, skip_metadata);
    }
}

/// What is to come of the visited entries of a directory, the first one
/// read first, is what is among the entries.
proof fn lemma_to_come_of_visited(entries: Seq<DirTree>, n: int, skip_metadata: bool)
    requires
        0 <= n <= entries.len(),
    ensures
        to_come(
            visited_among(entries, n, skip_metadata).reverse(),
            visited_among(entries, n, skip_metadata).len() as int,
            skip_metadata,
        ) == repos_among(entries, n, skip_metadata),
    decreases n,
{
    if n > 0 {
        lemma_to_come_of_visited(entries, n - 1, skip_metadata);
        if descends(entries[n - 1].entry(), skip_metadata) {
            let before = visited_among(entries, n - 1, skip_metadata);
            let tree = entries[n - 1];
            assert(before.push(tree).reverse() =~= seq![tree] + before.reverse());
            lemma_to_come_stacked(seq![tree], before.reverse(), skip_metadata);
            assert(to_come(seq![tree], 1, skip_metadata) =~= repos_below(tree, skip_metadata)) by {
                assert(to_come(seq![tree], 0, skip_metadata) =~= Seq::<Seq<char>>::empty());
            }
        }
    } else {
        assert(visited_among(entries, 0, skip_metadata).reverse() =~= Seq::<DirTree>::empty());
    }
}

/// Reading the next directory neither loses nor adds a result: what was
/// found and what is to come are together the same before and after.
/// With it, a search that begins at a tree and runs until nothing is
/// pending has found the top-level repositories of that tree, each once
/// and in the order of the tree: at the beginning they are all to come, and
/// at the end nothing is.
pub proof fn lemma_search_keeps_results(
    pending: Seq<DirTree>,
    found: Seq<Seq<char>>,
    skip_metadata: bool,
)
    requires
        pending.len() > 0,
    ensures
        ({
            let tree = pending.last();
            let after = pending_after(pending, skip_metadata);
            let found_after = if tree.is_repository {
                found.push(tree.path)
            } else {
                found
            };
            &&& found_after + to_come(after, after.len() as int, skip_metadata) == found + to_come(
                pending,
                pending.len() as int,
                skip_metadata,
            )
            &&& tree_paths(after) == if tree.is_repository {
                tree_paths(pending).drop_last()
            } else {
                tree_paths(pending).drop_last() + descents(
                    tree.listed(),
                    tree.listed().len() as int,
                    skip_metadata,
                ).reverse()
            }
        }),
        to_come(seq![pending.last()], 1, skip_metadata) == repos_below(pending.last(), skip_metadata),
{
    let tree = pending.last();
    let rest = pending.drop_last();
    let n = pending.len() as int;
    lemma_to_come_prefix(pending, n - 1, rest, skip_metadata);
    assert(tree_paths(rest) =~= tree_paths(pending).drop_last());
    assert(to_come(seq![tree], 1, skip_metadata) =~= repos_below(tree, skip_metadata)) by {
        assert(to_come(seq![tree], 0, skip_metadata) =~= Seq::<Seq<char>>::empty());
    }
    if tree.is_repository {
        assert(found.push(tree.path) + to_come(rest, n - 1, skip_metadata) =~= found + (seq![
            tree.path,
        ] + to_come(rest, n - 1, skip_metadata)));
    } else {
        let visited = visited_among(tree.entries, tree.entries.len() as int, skip_metadata);
        lemma_to_come_stacked(rest, visited.reverse(), skip_metadata);
        lemma_to_come_of_visited(tree.entries, tree.entries.len() as int, skip_metadata);
        lemma_descents_are_visited(tree.entries, tree.entries.len() as int, skip_metadata);
        assert(tree_paths(rest + visited.reverse()) =~= tree_paths(rest) + tree_paths(
            visited,
        ).reverse());
        assert(found + (repos_among(tree.entries, tree.entries.len() as int, skip_metadata)
            + to_come(rest, n - 1, skip_metadata)) =~= found + (repos_below(tree, skip_metadata)
            + to_come(rest, n - 1, skip_metadata)));
    }
}

/// One entry of a directory, with its size.
#[derive(Debug, Clone)]
pub struct SizedEntry {
    /// The file name of the entry.
    pub name: String,
    /// The path of the entry.
    pub path: String,
    /// Whether the entry is a directory.
    pub is_dir: bool,
    /// The size of the entry in bytes, for a file.
    pub size: u64,
}

/// A sized entry as plain values.
pub struct SizedEntryView {
    pub name: Seq<char>,
    pub path: Seq<char>,
    pub is_dir: bool,
    pub size: u64,
}

impl View for SizedEntry {
    type V = SizedEntryView;

    open spec fn view(&self) -> SizedEntryView {
        SizedEntryView { name: self.name@, path: self.path@, is_dir: self.is_dir, size: self.size }
    }
}

/// The measuring of a repository's size on disk, in progress.
#[derive(Debug, Clone)]
pub struct SizeScan {
    /// The directories that are still to be read; the last one is next.
    pub pending: Vec<String>,
    /// The bytes counted so far; counting ends at `u64::MAX`.
    pub total: u64,
}

/// The views of the sized entries.
pub open spec fn sized_views(entries: Seq<SizedEntry>) -> Seq<SizedEntryView> {
    entries.map_values(|e: SizedEntry| e@)
}

/// The bytes of the files among the first `n` of `entries`, those named
/// `.git` left out.
pub open spec fn bytes_in(entries: Seq<SizedEntryView>, n: int) -> nat
    decreases n,
{
    if n <= 0 || n > entries.len() {
        0
    } else if entries[n - 1].is_dir || entries[n - 1].name == ".git"@ {
        bytes_in(entries, n - 1)
    } else {
        bytes_in(entries, n - 1) + entries[n - 1].size as nat
    }
}

/// The paths of the directories among the first `n` of `entries`, those
/// named `.git` left out, in their order.
pub open spec fn folders_in(entries: Seq<SizedEntryView>, n: int) -> Seq<Seq<char>>
    decreases n,
{
    if n <= 0 || n > entries.len() {
        Seq::empty()
    } else if entries[n - 1].is_dir && entries[n - 1].name != ".git"@ {
        folders_in(entries, n - 1).push(entries[n - 1].path)
    } else {
        folders_in(entries, n - 1)
    }
}

/// A count of bytes as a `u64`: itself, or `u64::MAX` where it is larger.
pub open spec fn capped_bytes(count: int) -> u64 {
    if count > u64::MAX {
        u64::MAX
    } else {
        count as u64
    }
}

impl SizeScan {
    /// The measuring of what is below `root`.
    pub fn new(root: String) -> (scan: SizeScan)
        ensures
            paths(scan.pending@) == seq![root@],
            scan.total == 0,
    {
        let scan = SizeScan { pending: vec![root], total: 0 };
        assert(paths(scan.pending@) =~= seq![root@]);
        scan
    }

    /// The directory to read next; `None` when all are read.
    pub fn next(&self) -> (dir: Option<&String>)
        ensures
            match dir {
                Some(d) => self.pending@.len() > 0 && d@ == paths(self.pending@).last(),
                None => self.pending@.len() == 0,
            },
    {
        if self.pending.len() == 0 {
            None
        } else {
            Some(&self.pending[self.pending.len() - 1])
        }
    }

    /// Takes in the entries of the next directory: the sizes of its files
    /// are added, and its directories are read later. Entries named `.git`
    /// count for nothing. Without a directory pending, nothing changes.
    pub fn record(&mut self, entries: &Vec<SizedEntry>)
        ensures
            old(self).pending@.len() == 0 ==> *final(self) == *old(self),
            old(self).pending@.len() > 0 ==> final(self).total == capped_bytes(
                old(self).total + bytes_in(sized_views(entries@), entries@.len() as int),
            ),
            old(self).pending@.len() > 0 ==> paths(final(self).pending@) == paths(
                old(self).pending@,
            ).drop_last() + folders_in(sized_views(entries@), entries@.len() as int),
    {
        if self.pending.len() == 0 {
            return ;
        }
        let _ = self.pending.pop();
        let ghost rest = paths(self.pending@);
        let ghost all = sized_views(entries@);
        let mut i: usize = 0;
        proof {
            assert(rest =~= paths(old(self).pending@).drop_last());
            assert(rest + Seq::<Seq<char>>::empty() =~= rest);
        }
        while i < entries.len()
            invariant
                i <= entries.len(),
                all == sized_views(entries@),
                self.total == capped_bytes(old(self).total + bytes_in(all, i as int)),
                paths(self.pending@) == rest + folders_in(all, i as int),
            decreases entries.len() - i,
        {
            let entry = &entries[i];
            proof {
                assert(all[i as int] == entry@);
            }
            if !same_text(entry.name.as_str(), ".git") {
                if entry.is_dir {
                    let path = entry.path.clone();
                    proof {
                        assert(paths(self.pending@.push(path)) =~= paths(self.pending@).push(path@));
                        assert(rest + folders_in(all, i as int).push(path@) =~= (rest + folders_in(
                            all,
                            i as int,
                        )).push(path@));
                    }
                    self.pending.push(path);
                } else {
                    self.total = self.total.saturating_add(entry.size);
                }
            }
            i += 1;
        }
    }
}

} // verus!
