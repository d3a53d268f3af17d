//! The tree model: repositories grouped by the segments of their names.
//!
//! A forest is built fresh from a flat list of records and afterwards only
//! changed by toggling a node and by marking the state of an operation.
//! Contracts speak of the views of nodes: plain values with sequences in
//! place of vectors and strings.

use crate::text::{
    chars_of, last_index, lemma_lex_total, lemma_lex_transitive, lex_lt, rfind_char, same_chars,
    same_text, split, split_on, str_before, string_from, string_of, views,
};
use crate::timestamp::Timestamp;
use vstd::prelude::*;
use vstd::string::StringExecFns;

verus! {

/// Which row of a flattened forest is selected.
#[derive(Debug, Clone, Copy, PartialEq, Eq)]
pub struct TreeState {
    selected: Option<usize>,
}

impl TreeState {
    /// The selected row.
    pub closed spec fn selection(&self) -> Option<usize> {
        self.selected
    }

    /// A state with nothing selected.
    pub fn new() -> (state: TreeState)
        ensures
            state.selection() is None,
    {
        TreeState { selected: None }
    }

    /// Selects the row `index`, or nothing.
    pub fn select(&mut self, index: Option<usize>)
        ensures
            final(self).selection() == index,
    {
        self.selected = index;
    }

    /// The selected row.
    pub fn selected(&self) -> (index: Option<usize>)
        ensures
            index == self.selection(),
    {
        self.selected
    }
}

/// The state of a drop or restore that is under way for a repository.
#[derive(Debug, Clone, Copy, PartialEq, Eq, Structural)]
pub enum RepoOperationStatus {
    Idle,
    InProgress,
    Succeeded,
    Failed,
}

/// A repository record, as listed.
#[derive(Debug, Clone)]
pub struct RepoInfo {
    /// Where the repository is on disk.
    pub path: String,
    /// The name relative to the workspace, its segments separated by `/`.
    pub display_name: String,
    pub is_clean: bool,
    /// When the repository was last worked on.
    pub modification_time: Option<Timestamp>,
    /// The size on disk in bytes.
    pub size_bytes: Option<u64>,
    /// The state of an operation on the repository, for display.
    pub operation_status: RepoOperationStatus,
}

/// A repository record as plain values.
pub struct RepoInfoView {
    pub path: Seq<char>,
    pub display_name: Seq<char>,
    pub is_clean: bool,
    pub modification_time: Option<Timestamp>,
    pub size_bytes: Option<u64>,
    pub operation_status: RepoOperationStatus,
}

impl View for RepoInfo {
    type V = RepoInfoView;

    open spec fn view(&self) -> RepoInfoView {
        RepoInfoView {
            path: self.path@,
            display_name: self.display_name@,
            is_clean: self.is_clean,
            modification_time: self.modification_time,
            size_bytes: self.size_bytes,
            operation_status: self.operation_status,
        }
    }
}

impl RepoInfo {
    /// A copy of the record.
    pub fn duplicate(&self) -> (copy: RepoInfo)
        ensures
            copy@ == self@,
    {
        RepoInfo {
            path: self.path.clone(),
            display_name: self.display_name.clone(),
            is_clean: self.is_clean,
            modification_time: self.modification_time,
            size_bytes: self.size_bytes,
            operation_status: self.operation_status,
        }
    }
}

/// A node of the tree: a directory, a repository, or both.
#[derive(Debug)]
pub struct TreeNode {
    /// One segment of a display name.
    pub name: String,
    /// The record, where a repository ends at this node.
    pub repo_info: Option<RepoInfo>,
    /// The nodes below, in the order in which they were inserted.
    pub children: Vec<TreeNode>,
    /// Whether the children are shown.
    pub expanded: bool,
}

/// A node as plain values.
pub struct TreeNodeView {
    pub name: Seq<char>,
    pub repo_info: Option<RepoInfoView>,
    pub children: Seq<TreeNodeView>,
    pub expanded: bool,
}

/// One row of a flattened forest.
pub struct FlatRow {
    pub node: TreeNodeView,
    /// The number of ancestors of the node.
    pub depth: nat,
    /// The index of each ancestor among its siblings, from the root down,
    /// and then that of the node itself.
    pub index_path: Seq<usize>,
    /// The display name of a repository; for a directory the names from
    /// the root down, joined by `/`.
    pub full_path: Seq<char>,
}

impl View for TreeNode {
    type V = TreeNodeView;

    open spec fn view(&self) -> TreeNodeView {
        self.model()
    }
}

impl Clone for TreeNode {
    fn clone(&self) -> (copy: TreeNode)
        ensures
            copy@ == self@,
    {
        self.duplicate()
    }
}

/// The views of the nodes of a forest.
pub open spec fn forest_view(nodes: Seq<TreeNode>) -> Seq<TreeNodeView> {
    nodes.map_values(|n: TreeNode| n@)
}

/// The views of the records.
pub open spec fn repo_views(repos: Seq<RepoInfo>) -> Seq<RepoInfoView> {
    repos.map_values(|r: RepoInfo| r@)
}

/// The view of an optional record.
pub open spec fn repo_view(repo: Option<RepoInfo>) -> Option<RepoInfoView> {
    match repo {
        Some(r) => Some(r@),
        None => None,
    }
}

/// The view of an optional node.
pub open spec fn node_view(node: Option<TreeNode>) -> Option<TreeNodeView> {
    match node {
        Some(n) => Some(n@),
        None => None,
    }
}

/// The character sequences of the strings.
pub open spec fn string_views(strings: Seq<String>) -> Seq<Seq<char>> {
    strings.map_values(|s: String| s@)
}

/// The rows as plain values.
pub open spec fn row_views(rows: Seq<(TreeNode, usize, Vec<usize>, String)>) -> Seq<FlatRow> {
    rows.map_values(
        |row: (TreeNode, usize, Vec<usize>, String)|
            FlatRow { node: row.0@, depth: row.1 as nat, index_path: row.2@, full_path: row.3@ },
    )
}

/// What follows the last `/` of `name`; all of `name` where it has none.
pub open spec fn last_segment(name: Seq<char>) -> Seq<char> {
    name.skip(last_index(name, '/') + 1)
}

/// The leaf node for a repository: named by the last segment of the
/// display name, without children, collapsed.
pub open spec fn repo_node(repo: RepoInfoView) -> TreeNodeView {
    TreeNodeView {
        name: last_segment(repo.display_name),
        repo_info: Some(repo),
        children: Seq::empty(),
        expanded: false,
    }
}

/// The node for a directory: without record and children, expanded.
pub open spec fn directory_node(name: Seq<char>) -> TreeNodeView {
    TreeNodeView { name, repo_info: None, children: Seq::empty(), expanded: true }
}

/// The full path of a node below a parent with the full path `parent`.
pub open spec fn node_path(node: TreeNodeView, parent: Seq<char>) -> Seq<char> {
    match node.repo_info {
        Some(repo) => repo.display_name,
        None => if parent.len() == 0 {
            node.name
        } else {
            parent + seq!['/'] + node.name
        },
    }
}

/// The depth one level below `depth`. A depth is a `usize`, and the
/// depths end at `usize::MAX`; the rows of a forest never get there, as
/// `flatten_trees` states.
pub open spec fn deeper(depth: nat) -> nat {
    if depth < usize::MAX {
        depth + 1
    } else {
        depth
    }
}

/// The rows of a node and of what is shown below it, in depth-first
/// pre-order: the node itself, then, if it is expanded, the rows of each
/// child in turn. The children of a collapsed node give no rows.
pub open spec fn flat(
    node: TreeNodeView,
    depth: nat,
    index_path: Seq<usize>,
    parent: Seq<char>,
) -> Seq<FlatRow>
    decreases node, 0nat,
{
    let full_path = node_path(node, parent);
    seq![FlatRow { node, depth, index_path, full_path }] + if node.expanded {
        flat_list(node.children, node.children.len(), deeper(depth), index_path, full_path)
    } else {
        Seq::empty()
    }
}

/// The rows of the first `n` of `nodes`, which stand at `depth` below a
/// parent with the index path `prefix` and the full path `parent`.
pub open spec fn flat_list(
    nodes: Seq<TreeNodeView>,
    n: nat,
    depth: nat,
    prefix: Seq<usize>,
    parent: Seq<char>,
) -> Seq<FlatRow>
    decreases nodes, n,
{
    if n == 0 || n > nodes.len() {
        Seq::empty()
    } else {
        flat_list(nodes, (n - 1) as nat, depth, prefix, parent) + flat(
            nodes[n - 1],
            depth,
            prefix.push((n - 1) as usize),
            parent,
        )
    }
}

/// The rows of a forest: those of each root, at depth 0.
pub open spec fn flat_forest(forest: Seq<TreeNodeView>) -> Seq<FlatRow> {
    flat_list(forest, forest.len(), 0, Seq::empty(), Seq::empty())
}

/// The display names of the repositories in a node and below it, collapsed
/// or not, in depth-first pre-order.
pub open spec fn repo_paths(node: TreeNodeView) -> Seq<Seq<char>>
    decreases node, 0nat,
{
    let own = match node.repo_info {
        Some(repo) => seq![repo.display_name],
        None => Seq::empty(),
    };
    own + repo_paths_of(node.children, node.children.len())
}

/// The display names of the repositories in the first `n` of `nodes`.
pub open spec fn repo_paths_of(nodes: Seq<TreeNodeView>, n: nat) -> Seq<Seq<char>>
    decreases nodes, n,
{
    if n == 0 || n > nodes.len() {
        Seq::empty()
    } else {
        repo_paths_of(nodes, (n - 1) as nat) + repo_paths(nodes[n - 1])
    }
}

/// The number of repositories in a node and below it.
pub open spec fn repo_count(node: TreeNodeView) -> nat
    decreases node, 0nat,
{
    let own: nat = if node.repo_info is Some {
        1
    } else {
        0
    };
    own + repo_count_of(node.children, node.children.len())
}

/// The number of repositories in the first `n` of `nodes`.
pub open spec fn repo_count_of(nodes: Seq<TreeNodeView>, n: nat) -> nat
    decreases nodes, n,
{
    if n == 0 || n > nodes.len() {
        0
    } else {
        repo_count_of(nodes, (n - 1) as nat) + repo_count(nodes[n - 1])
    }
}

/// A count as a `usize`: itself, or `usize::MAX` where it is larger.
pub open spec fn capped(count: nat) -> usize {
    if count > usize::MAX {
        usize::MAX
    } else {
        count as usize
    }
}

/// The node with `expanded` flipped, where it has children; a node without
/// children stays as it is.
pub open spec fn toggled(node: TreeNodeView) -> TreeNodeView {
    if node.children.len() > 0 {
        TreeNodeView { expanded: !node.expanded, ..node }
    } else {
        node
    }
}

/// The forest with the node at the index path `path` toggled. An empty
/// path, or one that leads to no node, changes nothing.
pub open spec fn toggled_at(nodes: Seq<TreeNodeView>, path: Seq<usize>) -> Seq<TreeNodeView>
    decreases path.len(),
{
    if path.len() == 0 || path[0] >= nodes.len() {
        nodes
    } else if path.len() == 1 {
        nodes.update(path[0] as int, toggled(nodes[path[0] as int]))
    } else {
        let node = nodes[path[0] as int];
        nodes.update(
            path[0] as int,
            TreeNodeView { children: toggled_at(node.children, path.skip(1)), ..node },
        )
    }
}

impl TreeNode {
    /// The node as plain values.
    pub open spec fn model(&self) -> TreeNodeView
        decreases self,
    {
        TreeNodeView {
            name: self.name@,
            repo_info: repo_view(self.repo_info),
            children: Seq::new(
                self.children@.len(),
                |i: int|
                    if 0 <= i < self.children@.len() {
                        self.children@[i].model()
                    } else {
                        arbitrary()
                    },
            ),
            expanded: self.expanded,
        }
    }

    /// The view of a node is made of the views of its fields.
    pub proof fn lemma_view(&self)
        ensures
            self@.name == self.name@,
            self@.repo_info == repo_view(self.repo_info),
            self@.children == forest_view(self.children@),
            self@.children.len() == self.children@.len(),
            self@.expanded == self.expanded,
    {
        assert(self@.children =~= forest_view(self.children@));
    }

    /// The leaf node for a repository.
    pub fn new_repo(repo: RepoInfo) -> (node: TreeNode)
        ensures
            node@ == repo_node(repo@),
    {
        let chars = chars_of(repo.display_name.as_str());
        let start: usize = match rfind_char(&chars, '/') {
            Some(i) => i + 1,
            None => 0,
        };
        let name = string_of(&chars, start, chars.len());
        let node = TreeNode { name, repo_info: Some(repo), children: Vec::new(), expanded: false };
        proof {
            node.lemma_view();
            assert(chars@.subrange(start as int, chars@.len() as int) == chars@.skip(start as int));
            assert(node@.children =~= Seq::<TreeNodeView>::empty());
        }
        node
    }

    /// The node for a directory.
    pub fn new_directory(name: String) -> (node: TreeNode)
        ensures
            node@ == directory_node(name@),
    {
        let node = TreeNode { name, repo_info: None, children: Vec::new(), expanded: true };
        proof {
            node.lemma_view();
            assert(node@.children =~= Seq::<TreeNodeView>::empty());
        }
        node
    }

    /// A copy of the node and of everything below it.
    pub fn duplicate(&self) -> (copy: TreeNode)
        ensures
            copy@ == self@,
        decreases self,
    {
        let mut children: Vec<TreeNode> = Vec::new();
        let mut i: usize = 0;
        while i < self.children.len()
            invariant
                i <= self.children.len(),
                forest_view(children@) =~= forest_view(self.children@).take(i as int),
            decreases self.children.len() - i,
        {
            let child = self.children[i].duplicate();
            proof {
                let done = forest_view(children@);
                let all = forest_view(self.children@);
                assert(all[i as int] == child@);
                assert(forest_view(children@.push(child)) =~= done.push(child@));
                assert(all.take(i + 1) =~= all.take(i as int).push(all[i as int]));
            }
            children.push(child);
            i += 1;
        }
        let repo_info = match &self.repo_info {
            Some(repo) => Some(repo.duplicate()),
            None => None,
        };
        let copy = TreeNode {
            name: self.name.clone(),
            repo_info,
            children,
            expanded: self.expanded,
        };
        proof {
            copy.lemma_view();
            self.lemma_view();
            assert(forest_view(self.children@).take(self.children@.len() as int) =~= forest_view(
                self.children@,
            ));
        }
        copy
    }

    /// Flattens the node and what is shown below it into rows of node,
    /// depth, index path and full path, in depth-first pre-order. The
    /// children of a collapsed node are left out.
    ///
    /// Each row is one level deeper than the row of its parent. Where the
    /// depth that is handed in is not more than the length of the index
    /// path, as it is for the roots of a forest, every row is as much
    /// deeper than the node as its index path is longer.
    pub fn flatten(&self, depth: usize, index_path: Vec<usize>, parent_path: &str) -> (rows: Vec<
        (TreeNode, usize, Vec<usize>, String),
    >)
        ensures
            row_views(rows@) == flat(self@, depth as nat, index_path@, parent_path@),
            depth <= index_path@.len() ==> forall|k: int|
                0 <= k < rows@.len() ==> (#[trigger] rows@[k]).1 + index_path@.len() == depth
                    + rows@[k].2@.len(),
        decreases self,
    {
        proof {
            self.lemma_view();
        }
        let full_path: String = match &self.repo_info {
            Some(repo) => repo.display_name.clone(),
            None => {
                if parent_path.unicode_len() == 0 {
                    self.name.clone()
                } else {
                    proof {
                        reveal_strlit("/");
                        assert("/"@ =~= seq!['/']);
                    }
                    parent_path.to_string().concat("/").concat(self.name.as_str())
                }
            },
        };
        let ghost own = FlatRow {
            node: self@,
            depth: depth as nat,
            index_path: index_path@,
            full_path: full_path@,
        };
        let mut rows: Vec<(TreeNode, usize, Vec<usize>, String)> = Vec::new();
        let path_copy = index_path.clone();
        assert(path_copy@ =~= index_path@);
        rows.push((self.duplicate(), depth, path_copy, full_path.clone()));
        assert(row_views(rows@) =~= seq![own]);
        if self.expanded {
            let below: usize = if depth < usize::MAX {
                depth + 1
            } else {
                depth
            };
            let mut i: usize = 0;
            assert(seq![own] + Seq::<FlatRow>::empty() =~= seq![own]);
            while i < self.children.len()
                invariant
                    i <= self.children.len(),
                    below == deeper(depth as nat),
                    self@.children == forest_view(self.children@),
                    row_views(rows@) == seq![own] + flat_list(
                        self@.children,
                        i as nat,
                        below as nat,
                        index_path@,
                        full_path@,
                    ),
                    depth <= index_path@.len() ==> forall|k: int|
                        0 <= k < rows@.len() ==> (#[trigger] rows@[k]).1 + index_path@.len()
                            == depth + rows@[k].2@.len(),
                decreases self.children.len() - i,
            {
                let mut child_path = index_path.clone();
                assert(child_path@ =~= index_path@);
                child_path.push(i);
                let longer = child_path.len();
                let mut more = self.children[i].flatten(below, child_path, full_path.as_str());
                let ghost before = row_views(rows@);
                let ghost added = row_views(more@);
                let ghost old_rows = rows@;
                proof {
                    assert(row_views(rows@ + more@) =~= before + added);
                    assert(before + added =~= seq![own] + flat_list(
                        self@.children,
                        (i + 1) as nat,
                        below as nat,
                        index_path@,
                        full_path@,
                    ));
                }
                rows.append(&mut more);
                proof {
                    if depth <= index_path@.len() {
                        assert(longer == index_path@.len() + 1);
                        assert(below == depth + 1);
                        assert forall|k: int| 0 <= k < rows@.len() implies (#[trigger] rows@[k]).1
                            + index_path@.len() == depth + rows@[k].2@.len() by {
                            if k < old_rows.len() {
                                assert(rows@[k] == old_rows[k]);
                            }
                        }
                    }
                }
                i += 1;
            }
        } else {
            assert(seq![own] + Seq::<FlatRow>::empty() =~= seq![own]);
        }
        rows
    }

    /// Flips `expanded`, where the node has children.
    pub fn toggle_expand(&mut self)
        ensures
            final(self)@ == toggled(old(self)@),
    {
        proof {
            self.lemma_view();
        }
        if self.children.len() > 0 {
            self.expanded = !self.expanded;
        }
        proof {
            self.lemma_view();
        }
    }

    /// The display names of all repositories in this node and below it,
    /// shown or not.
    pub fn collect_repo_paths(&self) -> (paths: Vec<String>)
        ensures
            string_views(paths@) == repo_paths(self@),
        decreases self,
    {
        proof {
            self.lemma_view();
        }
        let mut paths: Vec<String> = Vec::new();
        if let Some(repo) = &self.repo_info {
            paths.push(repo.display_name.clone());
        }
        let ghost own = string_views(paths@);
        assert(own =~= match self@.repo_info {
            Some(repo) => seq![repo.display_name],
            None => Seq::empty(),
        });
        let mut i: usize = 0;
        assert(own + Seq::<Seq<char>>::empty() =~= own);
        while i < self.children.len()
            invariant
                i <= self.children.len(),
                self@.children == forest_view(self.children@),
                string_views(paths@) == own + repo_paths_of(self@.children, i as nat),
            decreases self.children.len() - i,
        {
            let mut more = self.children[i].collect_repo_paths();
            proof {
                assert(string_views(paths@ + more@) =~= string_views(paths@) + string_views(more@));
                assert(string_views(paths@) + string_views(more@) =~= own + repo_paths_of(
                    self@.children,
                    (i + 1) as nat,
                ));
            }
            paths.append(&mut more);
            i += 1;
        }
        paths
    }

    /// The number of repositories in this node and below it, shown or not.
    pub fn count_repos(&self) -> (count: usize)
        ensures
            count == capped(repo_count(self@)),
        decreases self,
    {
        proof {
            self.lemma_view();
        }
        let mut count: usize = if self.repo_info.is_some() {
            1
        } else {
            0
        };
        let ghost own: nat = count as nat;
        let mut i: usize = 0;
        while i < self.children.len()
            invariant
                i <= self.children.len(),
                self@.children == forest_view(self.children@),
                count == capped(own + repo_count_of(self@.children, i as nat)),
            decreases self.children.len() - i,
        {
            let below = self.children[i].count_repos();
            count = count.saturating_add(below);
            i += 1;
        }
        count
    }
}

/// Flattens a forest into rows, root after root.
pub fn flatten_trees(trees: &[TreeNode]) -> (rows: Vec<(TreeNode, usize, Vec<usize>, String)>)
    ensures
        row_views(rows@) == flat_forest(forest_view(trees@)),
        forall|k: int|
            0 <= k < rows@.len() ==> (#[trigger] rows@[k]).1 + 1 == rows@[k].2@.len(),
{
    let mut rows: Vec<(TreeNode, usize, Vec<usize>, String)> = Vec::new();
    let ghost forest = forest_view(trees@);
    let mut i: usize = 0;
    assert(row_views(rows@) =~= Seq::<FlatRow>::empty());
    while i < trees.len()
        invariant
            i <= trees.len(),
            forest == forest_view(trees@),
            row_views(rows@) == flat_list(forest, i as nat, 0, Seq::empty(), Seq::empty()),
            forall|k: int|
                0 <= k < rows@.len() ==> (#[trigger] rows@[k]).1 + 1 == rows@[k].2@.len(),
        decreases trees.len() - i,
    {
        let root_path: Vec<usize> = vec![i];
        proof {
            assert(root_path@ =~= Seq::<usize>::empty().push(i));
            reveal_strlit("");
            assert(""@ =~= Seq::<char>::empty());
        }
        let mut more = trees[i].flatten(0, root_path, "");
        let ghost old_rows = rows@;
        proof {
            assert(row_views(rows@ + more@) =~= row_views(rows@) + row_views(more@));
        }
        rows.append(&mut more);
        proof {
            assert forall|k: int| 0 <= k < rows@.len() implies (#[trigger] rows@[k]).1 + 1
                == rows@[k].2@.len() by {
                if k < old_rows.len() {
                    assert(rows@[k] == old_rows[k]);
                }
            }
        }
        i += 1;
    }
    rows
}

/// The number of repositories in a forest.
pub fn count_repos_in_trees(trees: &[TreeNode]) -> (count: usize)
    ensures
        count == capped(repo_count_of(forest_view(trees@), trees@.len())),
{
    let mut count: usize = 0;
    let mut i: usize = 0;
    while i < trees.len()
        invariant
            i <= trees.len(),
            count == capped(repo_count_of(forest_view(trees@), i as nat)),
        decreases trees.len() - i,
    {
        let below = trees[i].count_repos();
        count = count.saturating_add(below);
        i += 1;
    }
    count
}

/// The node with the node below it at the index path `rest` toggled; the
/// node itself where `rest` is empty.
pub open spec fn toggled_below(node: TreeNodeView, rest: Seq<usize>) -> TreeNodeView {
    if rest.len() == 0 {
        toggled(node)
    } else {
        TreeNodeView { children: toggled_at(node.children, rest), ..node }
    }
}

/// Toggles the node of a forest that the index path `path` leads to: the
/// first index picks a root, each further one a child. Nothing changes
/// where the path is empty, leads to no node, or leads to a node without
/// children.
pub fn toggle_node_at_path(trees: &mut [TreeNode], path: &[usize])
    ensures
        forest_view(final(trees)@) == toggled_at(forest_view(old(trees)@), path@),
{
    if path.len() == 0 {
        return ;
    }
    let idx = path[0];
    if idx >= trees.len() {
        return ;
    }
    let ghost before = forest_view(trees@);
    toggle_node_at_path_impl(&mut trees[idx], path, 1);
    proof {
        assert(forest_view(trees@) =~= before.update(
            idx as int,
            toggled_below(before[idx as int], path@.skip(1)),
        ));
    }
}

fn toggle_node_at_path_impl(node: &mut TreeNode, path: &[usize], from: usize)
    requires
        from <= path.len(),
    ensures
        final(node)@ == toggled_below(old(node)@, path@.skip(from as int)),
    decreases path.len() - from,
{
    if from == path.len() {
        node.toggle_expand();
        return ;
    }
    let idx = path[from];
    let ghost rest = path@.skip(from as int);
    proof {
        node.lemma_view();
        assert(rest[0] == idx);
        assert(rest.skip(1) == path@.skip(from + 1));
    }
    if idx < node.children.len() {
        let ghost before = forest_view(node.children@);
        toggle_node_at_path_impl(&mut node.children[idx], path, from + 1);
        proof {
            node.lemma_view();
            assert(forest_view(node.children@) =~= before.update(
                idx as int,
                toggled_below(before[idx as int], rest.skip(1)),
            ));
        }
    }
}

/// The record with its operation status set to `status`, where its
/// display name is `name`.
pub open spec fn record_marked(
    repo: Option<RepoInfoView>,
    name: Seq<char>,
    status: RepoOperationStatus,
) -> Option<RepoInfoView> {
    match repo {
        Some(r) => if r.display_name == name {
            Some(RepoInfoView { operation_status: status, ..r })
        } else {
            repo
        },
        None => None,
    }
}

/// The node with the operation status of every repository named `name`,
/// in it and below it, set to `status`.
pub open spec fn marked(node: TreeNodeView, name: Seq<char>, status: RepoOperationStatus) -> TreeNodeView
    decreases node,
{
    TreeNodeView {
        repo_info: record_marked(node.repo_info, name, status),
        children: Seq::new(
            node.children.len(),
            |i: int|
                if 0 <= i < node.children.len() {
                    marked(node.children[i], name, status)
                } else {
                    arbitrary()
                },
        ),
        ..node
    }
}

/// The forest with every repository named `name` marked with `status`.
pub open spec fn marked_all(
    nodes: Seq<TreeNodeView>,
    name: Seq<char>,
    status: RepoOperationStatus,
) -> Seq<TreeNodeView> {
    nodes.map_values(|n: TreeNodeView| marked(n, name, status))
}

/// Sets the operation status of every repository with the display name
/// `display_name`, anywhere in the forest.
pub fn update_repo_status_in_tree(
    nodes: &mut [TreeNode],
    display_name: &str,
    status: RepoOperationStatus,
)
    ensures
        forest_view(final(nodes)@) == marked_all(forest_view(old(nodes)@), display_name@, status),
{
    let ghost before = forest_view(nodes@);
    let ghost start = nodes@;
    let mut i: usize = 0;
    while i < nodes.len()
        invariant
            i <= nodes.len(),
            nodes@.len() == start.len(),
            before == forest_view(start),
            forall|k: int|
                0 <= k < i ==> (#[trigger] nodes@[k])@ == marked(before[k], display_name@, status),
            forall|k: int| i <= k < nodes.len() ==> nodes@[k] == start[k],
        decreases nodes.len() - i,
    {
        mark_node(&mut nodes[i], display_name, status);
        i += 1;
    }
    assert(forest_view(nodes@) =~= marked_all(before, display_name@, status));
}

fn mark_node(node: &mut TreeNode, display_name: &str, status: RepoOperationStatus)
    ensures
        final(node)@ == marked(old(node)@, display_name@, status),
    decreases *old(node),
{
    proof {
        node.lemma_view();
    }
    let ghost before = node@;
    let ghost start = node.children@;
    match &mut node.repo_info {
        Some(repo) => {
            if same_text(repo.display_name.as_str(), display_name) {
                repo.operation_status = status;
            }
        },
        None => {},
    }
    let mut i: usize = 0;
    while i < node.children.len()
        invariant
            i <= node.children.len(),
            node.children@.len() == start.len(),
            start == old(node).children@,
            before.children == forest_view(start),
            node.name == old(node).name,
            node.expanded == old(node).expanded,
            repo_view(node.repo_info) == record_marked(before.repo_info, display_name@, status),
            forall|k: int|
                0 <= k < i ==> (#[trigger] node.children@[k])@ == marked(
                    before.children[k],
                    display_name@,
                    status,
                ),
            forall|k: int| i <= k < node.children.len() ==> node.children@[k] == start[k],
        decreases node.children.len() - i,
    {
        mark_node(&mut node.children[i], display_name, status);
        i += 1;
    }
    proof {
        node.lemma_view();
        assert(node@.children =~= marked(before, display_name@, status).children);
    }
}

/// `a` is listed strictly before `b`: it was worked on more recently; or it
/// has a time and `b` has none; or the two are even in this, both with the
/// same time or both without one, and the display name of `a` comes first.
pub open spec fn listed_before(a: RepoInfoView, b: RepoInfoView) -> bool {
    match (a.modification_time, b.modification_time) {
        (Some(ta), Some(tb)) => tb.before(ta) || (ta == tb && lex_lt(
            a.display_name,
            b.display_name,
        )),
        (Some(_), None) => true,
        (None, Some(_)) => false,
        (None, None) => lex_lt(a.display_name, b.display_name),
    }
}

/// Where `x` goes into the listing `sorted`: behind every record but the
/// ones at the end that it is listed strictly before.
pub open spec fn insertion_point(sorted: Seq<RepoInfoView>, x: RepoInfoView) -> nat
    decreases sorted.len(),
{
    if sorted.len() == 0 {
        0
    } else if listed_before(x, sorted.last()) {
        insertion_point(sorted.drop_last(), x)
    } else {
        sorted.len()
    }
}

/// The records in the order of the listing: most recently worked on
/// first, those without a time last, and by name among those of the same
/// time and among those without one. Records that the order does not tell
/// apart, which have the same time and display name, keep the order in
/// which they came.
pub open spec fn listing(repos: Seq<RepoInfoView>) -> Seq<RepoInfoView>
    decreases repos.len(),
{
    if repos.len() == 0 {
        Seq::empty()
    } else {
        let sorted = listing(repos.drop_last());
        sorted.insert(insertion_point(sorted, repos.last()) as int, repos.last())
    }
}

/// The insertion point lies within the listing: `x` is listed strictly
/// before every record from there on, and not before the record right
/// ahead of it.
pub proof fn lemma_insertion_point(sorted: Seq<RepoInfoView>, x: RepoInfoView)
    ensures
        insertion_point(sorted, x) <= sorted.len(),
        forall|k: int|
            insertion_point(sorted, x) <= k < sorted.len() ==> listed_before(
                x,
                #[trigger] sorted[k],
            ),
        insertion_point(sorted, x) > 0 ==> !listed_before(
            x,
            sorted[insertion_point(sorted, x) - 1],
        ),
    decreases sorted.len(),
{
    if sorted.len() > 0 && listed_before(x, sorted.last()) {
        let shorter = sorted.drop_last();
        lemma_insertion_point(shorter, x);
        assert forall|k: int| insertion_point(sorted, x) <= k < sorted.len() implies listed_before(
            x,
            #[trigger] sorted[k],
        ) by {
            if k < shorter.len() {
                assert(shorter[k] == sorted[k]);
            }
        }
    }
}

/// Of two records, never each is listed strictly before the other.
pub proof fn lemma_listed_before_asymmetric(a: RepoInfoView, b: RepoInfoView)
    ensures
        !(listed_before(a, b) && listed_before(b, a)),
{
    lemma_lex_total(a.display_name, b.display_name, 0);
}

/// Where `a` is not listed after `b`, nor `b` after `c`, `a` is not listed
/// after `c`.
pub proof fn lemma_listed_order_transitive(a: RepoInfoView, b: RepoInfoView, c: RepoInfoView)
    requires
        !listed_before(b, a),
        !listed_before(c, b),
    ensures
        !listed_before(c, a),
{
    lemma_lex_total(a.display_name, b.display_name, 0);
    lemma_lex_total(b.display_name, c.display_name, 0);
    lemma_lex_total(a.display_name, c.display_name, 0);
    if lex_lt(a.display_name, b.display_name) && lex_lt(b.display_name, c.display_name) {
        lemma_lex_transitive(a.display_name, b.display_name, c.display_name, 0);
    }
}

/// No record of `repos` is listed strictly before one that stands earlier.
pub open spec fn in_listing_order(repos: Seq<RepoInfoView>) -> bool {
    forall|i: int, j: int| 0 <= i < j < repos.len() ==> !listed_before(repos[j], repos[i])
}

/// The listing is in order, and it holds the records that it was made of,
/// each as often.
pub proof fn lemma_listing_sorts(repos: Seq<RepoInfoView>)
    ensures
        in_listing_order(listing(repos)),
        listing(repos).to_multiset() == repos.to_multiset(),
        listing(repos).len() == repos.len(),
    decreases repos.len(),
{
    broadcast use vstd::seq_lib::group_to_multiset_ensures;

    if repos.len() > 0 {
        let sorted = listing(repos.drop_last());
        let x = repos.last();
        lemma_listing_sorts(repos.drop_last());
        lemma_insertion_point(sorted, x);
        let at = insertion_point(sorted, x) as int;
        let longer = sorted.insert(at, x);
        assert(longer.remove(at) =~= sorted);
        assert(longer[at] == x);
        assert(longer.contains(x));
        assert(longer.to_multiset() =~= sorted.to_multiset().insert(x));
        assert(repos =~= repos.drop_last().push(x));
        assert forall|i: int, j: int| 0 <= i < j < longer.len() implies !listed_before(
            longer[j],
            longer[i],
        ) by {
            if j == at {
                let near = sorted[at - 1];
                let far = sorted[i];
                assert(longer[i] == far);
                if i < at - 1 {
                    assert(!listed_before(near, far));
                }
                if far != near {
                    lemma_listed_order_transitive(far, near, x);
                }
            } else if i == at {
                assert(longer[j] == sorted[j - 1]);
                assert(listed_before(x, sorted[j - 1]));
                lemma_listed_before_asymmetric(x, sorted[j - 1]);
            } else {
                let oi = if i < at {
                    i
                } else {
                    i - 1
                };
                let oj = if j < at {
                    j
                } else {
                    j - 1
                };
                assert(longer[i] == sorted[oi]);
                assert(longer[j] == sorted[oj]);
            }
        }
    }
}

/// The index of the first of `nodes` named `name`; `nodes.len()` where
/// there is none.
pub open spec fn position_of(nodes: Seq<TreeNodeView>, name: Seq<char>, from: int) -> int
    decreases nodes.len() - from,
{
    if from >= nodes.len() {
        nodes.len() as int
    } else if nodes[from].name == name {
        from
    } else {
        position_of(nodes, name, from + 1)
    }
}

/// The forest with the record `repo` inserted along the segments `parts`
/// of its display name. Each segment but the last is the first node of
/// that name at its level, or a new directory at the end of the level. The
/// last segment gives `repo` to the first node of that name, or adds a new
/// leaf for it at the end.
pub open spec fn inserted(
    forest: Seq<TreeNodeView>,
    parts: Seq<Seq<char>>,
    repo: RepoInfoView,
) -> Seq<TreeNodeView>
    decreases parts.len(),
{
    if parts.len() == 0 {
        forest
    } else {
        let at = position_of(forest, parts[0], 0);
        if 0 <= at < forest.len() {
            let node = forest[at];
            if parts.len() == 1 {
                forest.update(at, TreeNodeView { repo_info: Some(repo), ..node })
            } else {
                forest.update(
                    at,
                    TreeNodeView { children: inserted(node.children, parts.skip(1), repo), ..node },
                )
            }
        } else if parts.len() == 1 {
            forest.push(repo_node(repo))
        } else {
            forest.push(
                TreeNodeView {
                    children: inserted(Seq::empty(), parts.skip(1), repo),
                    ..directory_node(parts[0])
                },
            )
        }
    }
}

/// The forest with each of `repos` inserted, in their order.
pub open spec fn grown(forest: Seq<TreeNodeView>, repos: Seq<RepoInfoView>) -> Seq<TreeNodeView>
    decreases repos.len(),
{
    if repos.len() == 0 {
        forest
    } else {
        grown(
            inserted(forest, split(repos[0].display_name, '/'), repos[0]),
            repos.drop_first(),
        )
    }
}

/// The forest of the records `repos`: they are put in the order of the
/// listing and then inserted one by one, each along the segments of its
/// display name.
pub open spec fn built(repos: Seq<RepoInfoView>) -> Seq<TreeNodeView> {
    grown(Seq::empty(), listing(repos))
}

/// Whether `a` is listed strictly before `b`.
pub fn is_listed_before(a: &RepoInfo, b: &RepoInfo) -> (r: bool)
    ensures
        r == listed_before(a@, b@),
{
    match (&a.modification_time, &b.modification_time) {
        (Some(ta), Some(tb)) => tb.is_before(ta) || (!ta.is_before(tb) && str_before(
            a.display_name.as_str(),
            b.display_name.as_str(),
        )),
        (Some(_), None) => true,
        (None, Some(_)) => false,
        (None, None) => str_before(a.display_name.as_str(), b.display_name.as_str()),
    }
}

/// Puts the records in the order of the listing.
pub fn sort_for_listing(repos: Vec<RepoInfo>) -> (sorted: Vec<RepoInfo>)
    ensures
        repo_views(sorted@) == listing(repo_views(repos@)),
        sorted@.len() == repos@.len(),
        in_listing_order(repo_views(sorted@)),
        repo_views(sorted@).to_multiset() == repo_views(repos@).to_multiset(),
{
    proof {
        lemma_listing_sorts(repo_views(repos@));
    }
    let mut sorted: Vec<RepoInfo> = Vec::new();
    let ghost all = repo_views(repos@);
    let mut i: usize = 0;
    proof {
        assert(all.take(0) =~= Seq::<RepoInfoView>::empty());
        assert(repo_views(sorted@) =~= Seq::<RepoInfoView>::empty());
    }
    while i < repos.len()
        invariant
            i <= repos.len(),
            all == repo_views(repos@),
            sorted@.len() == i,
            repo_views(sorted@) == listing(all.take(i as int)),
        decreases repos.len() - i,
    {
        let x = repos[i].duplicate();
        let ghost done = repo_views(sorted@);
        let mut at: usize = sorted.len();
        assert(done.take(at as int) =~= done);
        while at > 0 && is_listed_before(&x, &sorted[at - 1])
            invariant
                at <= sorted.len(),
                done == repo_views(sorted@),
                insertion_point(done, x@) == insertion_point(done.take(at as int), x@),
            decreases at,
        {
            proof {
                assert(done.take(at as int).drop_last() =~= done.take(at - 1));
                assert(done.take(at as int).last() == sorted@[at - 1]@);
            }
            at -= 1;
        }
        proof {
            assert(done.take(sorted@.len() as int) =~= done);
            if at > 0 {
                assert(done.take(at as int).last() == sorted@[at - 1]@);
            }
            assert(all.take(i + 1).drop_last() =~= all.take(i as int));
            assert(all.take(i + 1).last() == x@);
            assert(repo_views(sorted@.insert(at as int, x)) =~= done.insert(at as int, x@));
        }
        sorted.insert(at, x);
        i += 1;
    }
    assert(all.take(repos@.len() as int) =~= all);
    sorted
}

/// The index of the first of `nodes` named `name`; `nodes.len()` where
/// there is none.
fn find_node(nodes: &Vec<TreeNode>, name: &Vec<char>) -> (at: usize)
    ensures
        at == position_of(forest_view(nodes@), name@, 0),
        at <= nodes.len(),
{
    let mut at: usize = 0;
    while at < nodes.len()
        invariant
            at <= nodes.len(),
            position_of(forest_view(nodes@), name@, 0) == position_of(
                forest_view(nodes@),
                name@,
                at as int,
            ),
        decreases nodes.len() - at,
    {
        proof {
            nodes@[at as int].lemma_view();
        }
        let own = chars_of(nodes[at].name.as_str());
        if same_chars(&own, name) {
            return at;
        }
        at += 1;
    }
    at
}

/// Inserts `repo` into `level` along `parts[from..]`, the segments of its
/// display name that are still to go.
fn insert_repo(level: &mut Vec<TreeNode>, parts: &Vec<Vec<char>>, from: usize, repo: &RepoInfo)
    requires
        from <= parts.len(),
    ensures
        forest_view(final(level)@) == inserted(
            forest_view(old(level)@),
            views(parts@).skip(from as int),
            repo@,
        ),
    decreases parts.len() - from,
{
    if from == parts.len() {
        return ;
    }
    let ghost before = forest_view(level@);
    let ghost rest = views(parts@).skip(from as int);
    proof {
        assert(rest[0] == parts@[from as int]@);
        assert(rest.skip(1) == views(parts@).skip(from + 1));
    }
    let is_last = from + 1 == parts.len();
    let at = find_node(level, &parts[from]);
    if at < level.len() {
        proof {
            level@[at as int].lemma_view();
        }
        if is_last {
            level[at].repo_info = Some(repo.duplicate());
            proof {
                level@[at as int].lemma_view();
                let node = before[at as int];
                assert(level@[at as int]@.children =~= node.children);
                assert(forest_view(level@) =~= before.update(
                    at as int,
                    TreeNodeView { repo_info: Some(repo@), ..node },
                ));
            }
        } else {
            insert_repo(&mut level[at].children, parts, from + 1, repo);
            proof {
                level@[at as int].lemma_view();
                let node = before[at as int];
                assert(forest_view(level@) =~= before.update(
                    at as int,
                    TreeNodeView { children: inserted(node.children, rest.skip(1), repo@), ..node },
                ));
            }
        }
    } else if is_last {
        let leaf = TreeNode::new_repo(repo.duplicate());
        proof {
            assert(forest_view(level@.push(leaf)) =~= before.push(repo_node(repo@)));
        }
        level.push(leaf);
    } else {
        let mut node = TreeNode::new_directory(string_from(&parts[from]));
        proof {
            node.lemma_view();
        }
        insert_repo(&mut node.children, parts, from + 1, repo);
        proof {
            node.lemma_view();
            assert(forest_view(level@.push(node)) =~= before.push(
                TreeNodeView {
                    children: inserted(Seq::empty(), rest.skip(1), repo@),
                    ..directory_node(parts@[from as int]@)
                },
            ));
        }
        level.push(node);
    }
}

/// Builds the forest of a flat list of records.
///
/// The records are listed most recently worked on first, those without a
/// time last, and by name where the times do not decide; then each is
/// inserted along the `/`-separated
/// segments of its display name, which makes a directory node for every
/// segment that is new at its level and gives the record to the node of
/// the last segment.
pub fn build_tree(repos: Vec<RepoInfo>) -> (forest: Vec<TreeNode>)
    ensures
        forest_view(forest@) == built(repo_views(repos@)),
        repo_count_of(forest_view(forest@), forest@.len()) <= repos@.len(),
{
    proof {
        crate::holding::lemma_built_counts_the_records(repo_views(repos@));
    }
    let sorted = sort_for_listing(repos);
    let mut forest: Vec<TreeNode> = Vec::new();
    let ghost order = repo_views(sorted@);
    let mut i: usize = 0;
    proof {
        assert(order.skip(0) == order);
        assert(forest_view(forest@) =~= Seq::<TreeNodeView>::empty());
    }
    while i < sorted.len()
        invariant
            i <= sorted.len(),
            order == repo_views(sorted@),
            grown(Seq::empty(), order) == grown(forest_view(forest@), order.skip(i as int)),
        decreases sorted.len() - i,
    {
        let name = chars_of(sorted[i].display_name.as_str());
        let parts = split_on(&name, '/');
        proof {
            assert(order.skip(i as int)[0] == sorted@[i as int]@);
            assert(order.skip(i as int).drop_first() == order.skip(i + 1));
            assert(views(parts@).skip(0) == views(parts@));
        }
        insert_repo(&mut forest, &parts, 0, &sorted[i]);
        i += 1;
    }
    forest
}

/// The records of `library` whose display name none of `workspace` has.
pub open spec fn only_in_library(
    library: Seq<RepoInfoView>,
    workspace: Seq<RepoInfoView>,
) -> Seq<RepoInfoView> {
    library.filter(|r: RepoInfoView| !named_in(workspace, r.display_name))
}

/// One of `repos` has the display name `name`.
pub open spec fn named_in(repos: Seq<RepoInfoView>, name: Seq<char>) -> bool {
    exists|i: int| 0 <= i < repos.len() && (#[trigger] repos[i]).display_name == name
}

/// Whether one of `repos` has the display name `name`.
fn is_named_in(repos: &[RepoInfo], name: &str) -> (r: bool)
    ensures
        r == named_in(repo_views(repos@), name@),
{
    let mut i: usize = 0;
    while i < repos.len()
        invariant
            i <= repos.len(),
            forall|k: int| 0 <= k < i ==> (#[trigger] repo_views(repos@)[k]).display_name != name@,
        decreases repos.len() - i,
    {
        if same_text(repos[i].display_name.as_str(), name) {
            assert(repo_views(repos@)[i as int].display_name == name@);
            return true;
        }
        i += 1;
    }
    false
}

/// Builds the forest of the library: of those of its records that the
/// workspace does not hold under the same display name.
pub fn build_library_tree(library_repos: Vec<RepoInfo>, workspace_repos: &[RepoInfo]) -> (forest:
    Vec<TreeNode>)
    ensures
        forest_view(forest@) == built(
            only_in_library(repo_views(library_repos@), repo_views(workspace_repos@)),
        ),
{
    let mut kept: Vec<RepoInfo> = Vec::new();
    let ghost library = repo_views(library_repos@);
    let ghost workspace = repo_views(workspace_repos@);
    let ghost keep = |r: RepoInfoView| !named_in(workspace, r.display_name);
    let mut i: usize = 0;
    proof {
        assert(library.take(0) =~= Seq::<RepoInfoView>::empty());
        assert(repo_views(kept@) =~= Seq::<RepoInfoView>::empty());
    }
    while i < library_repos.len()
        invariant
            i <= library_repos.len(),
            library == repo_views(library_repos@),
            workspace == repo_views(workspace_repos@),
            keep == |r: RepoInfoView| !named_in(workspace, r.display_name),
            repo_views(kept@) == library.take(i as int).filter(keep),
        decreases library_repos.len() - i,
    {
        let ghost done = repo_views(kept@);
        proof {
            assert(library.take(i + 1).drop_last() =~= library.take(i as int));
            assert(library.take(i + 1).last() == library_repos@[i as int]@);
            reveal(Seq::filter);
        }
        if !is_named_in(workspace_repos, library_repos[i].display_name.as_str()) {
            let copy = library_repos[i].duplicate();
            proof {
                assert(repo_views(kept@.push(copy)) =~= done.push(copy@));
            }
            kept.push(copy);
        }
        i += 1;
    }
    proof {
        assert(library.take(library_repos@.len() as int) =~= library);
    }
    build_tree(kept)
}

} // verus!
