//! The state of the interactive browser: two forests, a query that filters
//! them, and a cursor that moves over their rows.

use crate::fuzzy::{fuzzy_matches, matches_query};
use crate::tree::{
    build_library_tree, build_tree, built, capped, count_repos_in_trees, flat_forest,
    flatten_trees, forest_view, marked_all, node_view, only_in_library, repo_count_of,
    repo_views, row_views, toggle_node_at_path, toggled_at, update_repo_status_in_tree, FlatRow,
    RepoInfo, RepoInfoView, RepoOperationStatus, TreeNode, TreeNodeView, TreeState,
};
use vstd::prelude::*;

verus! {

/// What the keys mean at the moment.
#[derive(Debug, Clone, Copy, PartialEq, Eq, Structural)]
pub enum AppMode {
    Normal,
    AddRepo,
}

/// The two panels.
#[derive(Debug, Clone, Copy, PartialEq, Eq, Structural)]
pub enum Section {
    Workspace,
    Library,
}

/// Where the cursor is: the active panel and the selected row of each.
pub struct Cursor {
    pub section: Section,
    pub workspace: Option<usize>,
    pub library: Option<usize>,
}

/// The browser.
pub struct App {
    /// The forest of all workspace records.
    pub workspace_tree: Vec<TreeNode>,
    /// The forest of all library records that the workspace does not hold.
    pub library_tree: Vec<TreeNode>,
    pub workspace_repos_list: Vec<RepoInfo>,
    pub library_repos_list: Vec<RepoInfo>,
    /// The workspace forest as filtered by the query.
    pub filtered_workspace: Vec<TreeNode>,
    /// The library forest as filtered by the query.
    pub filtered_library: Vec<TreeNode>,
    pub workspace_state: TreeState,
    pub library_state: TreeState,
    pub search_query: String,
    pub active_section: Section,
    pub last_log_message: String,
    pub mode: AppMode,
    pub add_repo_input: String,
    pub add_repo_suggestions: Vec<String>,
    pub add_repo_state: TreeState,
}

/// The records among `repos` whose display name matches `query`, in their
/// order.
pub open spec fn matching(repos: Seq<RepoInfoView>, query: Seq<char>) -> Seq<RepoInfoView> {
    repos.filter(|r: RepoInfoView| fuzzy_matches(r.display_name, query))
}

/// The cursor after a filter gave `workspace_rows` and `library_rows`
/// rows: on the first row of the workspace, else on the first row of the
/// library, else nowhere.
pub open spec fn cursor_reset(section: Section, workspace_rows: nat, library_rows: nat) -> Cursor {
    if workspace_rows > 0 {
        Cursor { section: Section::Workspace, workspace: Some(0), library: None }
    } else if library_rows > 0 {
        Cursor { section: Section::Library, workspace: None, library: Some(0) }
    } else {
        Cursor { section, workspace: None, library: None }
    }
}

/// The cursor one row further down. Below the last row of a panel it goes
/// to the first row of the other panel, or, where that has no rows, back to
/// the first row of its own. A panel without rows holds it still.
pub open spec fn cursor_down(cursor: Cursor, workspace_rows: nat, library_rows: nat) -> Cursor {
    match cursor.section {
        Section::Workspace => if workspace_rows == 0 {
            cursor
        } else {
            match cursor.workspace {
                Some(i) => if i >= workspace_rows - 1 {
                    if library_rows > 0 {
                        Cursor { section: Section::Library, workspace: None, library: Some(0) }
                    } else {
                        Cursor { workspace: Some(0), ..cursor }
                    }
                } else {
                    Cursor { workspace: Some((i + 1) as usize), ..cursor }
                },
                None => Cursor { workspace: Some(0), ..cursor },
            }
        },
        Section::Library => if library_rows == 0 {
            cursor
        } else {
            match cursor.library {
                Some(i) => if i >= library_rows - 1 {
                    if workspace_rows > 0 {
                        Cursor { section: Section::Workspace, workspace: Some(0), library: None }
                    } else {
                        Cursor { library: Some(0), ..cursor }
                    }
                } else {
                    Cursor { library: Some((i + 1) as usize), ..cursor }
                },
                None => Cursor { library: Some(0), ..cursor },
            }
        },
    }
}

/// The cursor one row further up. Above the first row of a panel it goes
/// to the last row of the other panel, or, where that has no rows, to the
/// last row of its own. A panel without rows holds it still.
pub open spec fn cursor_up(cursor: Cursor, workspace_rows: nat, library_rows: nat) -> Cursor {
    match cursor.section {
        Section::Workspace => if workspace_rows == 0 {
            cursor
        } else {
            match cursor.workspace {
                Some(i) => if i == 0 {
                    if library_rows > 0 {
                        Cursor {
                            section: Section::Library,
                            workspace: None,
                            library: Some((library_rows - 1) as usize),
                        }
                    } else {
                        Cursor { workspace: Some((workspace_rows - 1) as usize), ..cursor }
                    }
                } else {
                    Cursor { workspace: Some((i - 1) as usize), ..cursor }
                },
                None => Cursor { workspace: Some(0), ..cursor },
            }
        },
        Section::Library => if library_rows == 0 {
            cursor
        } else {
            match cursor.library {
                Some(i) => if i == 0 {
                    if workspace_rows > 0 {
                        Cursor {
                            section: Section::Workspace,
                            workspace: Some((workspace_rows - 1) as usize),
                            library: None,
                        }
                    } else {
                        Cursor { library: Some((library_rows - 1) as usize), ..cursor }
                    }
                } else {
                    Cursor { library: Some((i - 1) as usize), ..cursor }
                },
                None => Cursor { library: Some(0), ..cursor },
            }
        },
    }
}

/// The node of the row that `selected` picks among `rows`.
pub open spec fn selected_of(rows: Seq<FlatRow>, selected: Option<usize>) -> Option<TreeNodeView> {
    match selected {
        Some(i) => if i < rows.len() {
            Some(rows[i as int].node)
        } else {
            None
        },
        None => None,
    }
}

/// The forest with the node of the selected row toggled; the forest itself
/// where no row is selected.
pub open spec fn toggled_selected(forest: Seq<TreeNodeView>, selected: Option<usize>) -> Seq<
    TreeNodeView,
> {
    let rows = flat_forest(forest);
    match selected {
        Some(i) => if i < rows.len() {
            toggled_at(forest, rows[i as int].index_path)
        } else {
            forest
        },
        None => forest,
    }
}

/// A copy of a forest.
pub fn duplicate_forest(trees: &Vec<TreeNode>) -> (copy: Vec<TreeNode>)
    ensures
        forest_view(copy@) == forest_view(trees@),
{
    let mut copy: Vec<TreeNode> = Vec::new();
    let mut i: usize = 0;
    while i < trees.len()
        invariant
            i <= trees.len(),
            forest_view(copy@) =~= forest_view(trees@).take(i as int),
        decreases trees.len() - i,
    {
        let node = trees[i].duplicate();
        proof {
            let all = forest_view(trees@);
            assert(all[i as int] == node@);
            assert(forest_view(copy@.push(node)) =~= forest_view(copy@).push(node@));
            assert(all.take(i + 1) =~= all.take(i as int).push(all[i as int]));
        }
        copy.push(node);
        i += 1;
    }
    assert(forest_view(trees@).take(trees@.len() as int) =~= forest_view(trees@));
    copy
}

/// A copy of a list of records.
pub fn duplicate_repos(repos: &Vec<RepoInfo>) -> (copy: Vec<RepoInfo>)
    ensures
        repo_views(copy@) == repo_views(repos@),
{
    let mut copy: Vec<RepoInfo> = Vec::new();
    let mut i: usize = 0;
    while i < repos.len()
        invariant
            i <= repos.len(),
            repo_views(copy@) =~= repo_views(repos@).take(i as int),
        decreases repos.len() - i,
    {
        let repo = repos[i].duplicate();
        proof {
            let all = repo_views(repos@);
            assert(repo_views(copy@.push(repo)) =~= repo_views(copy@).push(repo@));
            assert(all.take(i + 1) =~= all.take(i as int).push(all[i as int]));
        }
        copy.push(repo);
        i += 1;
    }
    assert(repo_views(repos@).take(repos@.len() as int) =~= repo_views(repos@));
    copy
}

/// The records among `repos` whose display name matches `query`.
pub fn filter_matching(repos: &Vec<RepoInfo>, query: &str) -> (kept: Vec<RepoInfo>)
    ensures
        repo_views(kept@) == matching(repo_views(repos@), query@),
{
    let mut kept: Vec<RepoInfo> = Vec::new();
    let ghost all = repo_views(repos@);
    let ghost keep = |r: RepoInfoView| fuzzy_matches(r.display_name, query@);
    let mut i: usize = 0;
    proof {
        assert(all.take(0) =~= Seq::<RepoInfoView>::empty());
        assert(repo_views(kept@) =~= Seq::<RepoInfoView>::empty());
    }
    while i < repos.len()
        invariant
            i <= repos.len(),
            all == repo_views(repos@),
            keep == |r: RepoInfoView| fuzzy_matches(r.display_name, query@),
            repo_views(kept@) == all.take(i as int).filter(keep),
        decreases repos.len() - i,
    {
        let ghost done = repo_views(kept@);
        proof {
            assert(all.take(i + 1).drop_last() =~= all.take(i as int));
            assert(all.take(i + 1).last() == repos@[i as int]@);
            reveal(Seq::filter);
        }
        if matches_query(repos[i].display_name.as_str(), query) {
            let copy = repos[i].duplicate();
            proof {
                assert(repo_views(kept@.push(copy)) =~= done.push(copy@));
            }
            kept.push(copy);
        }
        i += 1;
    }
    proof {
        assert(all.take(repos@.len() as int) =~= all);
    }
    kept
}

/// The empty query is the identity filter.
pub proof fn lemma_empty_query_keeps_all(repos: Seq<RepoInfoView>)
    ensures
        matching(repos, Seq::empty()) == repos,
    decreases repos.len(),
{
    reveal(Seq::filter);
    if repos.len() > 0 {
        lemma_empty_query_keeps_all(repos.drop_last());
        assert(repos.drop_last().push(repos.last()) =~= repos);
    }
}

impl App {
    /// The cursor.
    pub open spec fn cursor(&self) -> Cursor {
        Cursor {
            section: self.active_section,
            workspace: self.workspace_state.selection(),
            library: self.library_state.selection(),
        }
    }

    /// The rows of the workspace panel.
    pub open spec fn workspace_rows(&self) -> Seq<FlatRow> {
        flat_forest(forest_view(self.filtered_workspace@))
    }

    /// The rows of the library panel.
    pub open spec fn library_rows(&self) -> Seq<FlatRow> {
        flat_forest(forest_view(self.filtered_library@))
    }

    /// The node of the selected row of the workspace panel.
    pub open spec fn workspace_selection(&self) -> Option<TreeNodeView> {
        selected_of(self.workspace_rows(), self.workspace_state.selection())
    }

    /// The node of the selected row of the library panel.
    pub open spec fn library_selection(&self) -> Option<TreeNodeView> {
        selected_of(self.library_rows(), self.library_state.selection())
    }

    /// The panels of `self` are those of `before` with the node of the
    /// selected row of the active panel toggled.
    pub open spec fn toggled_from(&self, before: &App) -> bool {
        &&& forest_view(self.filtered_workspace@) == if before.active_section
            == Section::Workspace {
            toggled_selected(
                forest_view(before.filtered_workspace@),
                before.workspace_state.selection(),
            )
        } else {
            forest_view(before.filtered_workspace@)
        }
        &&& forest_view(self.filtered_library@) == if before.active_section == Section::Library {
            toggled_selected(
                forest_view(before.filtered_library@),
                before.library_state.selection(),
            )
        } else {
            forest_view(before.filtered_library@)
        }
    }

    /// The panels show what the query leaves of the records.
    pub open spec fn shows_query(&self) -> bool {
        &&& forest_view(self.filtered_workspace@) == if self.search_query@.len() == 0 {
            forest_view(self.workspace_tree@)
        } else {
            built(matching(repo_views(self.workspace_repos_list@), self.search_query@))
        }
        &&& forest_view(self.filtered_library@) == if self.search_query@.len() == 0 {
            forest_view(self.library_tree@)
        } else {
            built(
                only_in_library(
                    matching(repo_views(self.library_repos_list@), self.search_query@),
                    repo_views(self.workspace_repos_list@),
                ),
            )
        }
    }

    /// The records and the full forests are those of `before`.
    pub open spec fn same_records(&self, before: &App) -> bool {
        &&& self.workspace_tree == before.workspace_tree
        &&& self.library_tree == before.library_tree
        &&& self.workspace_repos_list == before.workspace_repos_list
        &&& self.library_repos_list == before.library_repos_list
    }

    /// The cursor after a filter of the panels of `self`.
    pub open spec fn reset_cursor(&self, section: Section) -> Cursor {
        cursor_reset(section, self.workspace_rows().len(), self.library_rows().len())
    }

    /// The dialog is as in `before`.
    pub open spec fn same_dialog(&self, before: &App) -> bool {
        &&& self.add_repo_input == before.add_repo_input
        &&& self.add_repo_suggestions == before.add_repo_suggestions
        &&& self.add_repo_state == before.add_repo_state
    }

    /// The records, the full forests, the query, the message, the mode and
    /// the dialog of `self` are those of `before`.
    pub open spec fn same_setting(&self, before: &App) -> bool {
        &&& self.workspace_tree == before.workspace_tree
        &&& self.library_tree == before.library_tree
        &&& self.workspace_repos_list == before.workspace_repos_list
        &&& self.library_repos_list == before.library_repos_list
        &&& self.search_query == before.search_query
        &&& self.last_log_message == before.last_log_message
        &&& self.mode == before.mode
        &&& self.add_repo_input == before.add_repo_input
        &&& self.add_repo_suggestions == before.add_repo_suggestions
        &&& self.add_repo_state == before.add_repo_state
    }

    /// Everything but what moving the cursor changes stays as it was.
    pub open spec fn same_content(&self, other: &App) -> bool {
        &&& self.workspace_tree == other.workspace_tree
        &&& self.library_tree == other.library_tree
        &&& self.workspace_repos_list == other.workspace_repos_list
        &&& self.library_repos_list == other.library_repos_list
        &&& self.filtered_workspace == other.filtered_workspace
        &&& self.filtered_library == other.filtered_library
        &&& self.search_query == other.search_query
        &&& self.last_log_message == other.last_log_message
        &&& self.mode == other.mode
        &&& self.add_repo_input == other.add_repo_input
        &&& self.add_repo_suggestions == other.add_repo_suggestions
        &&& self.add_repo_state == other.add_repo_state
    }

    /// A browser over the records of the workspace and of the library. The
    /// library panel leaves out what the workspace holds. The cursor is on
    /// the first root of the workspace, else on the first root of the
    /// library.
    pub fn new(workspace_repos: Vec<RepoInfo>, library_repos: Vec<RepoInfo>) -> (app: App)
        ensures
            forest_view(app.workspace_tree@) == built(repo_views(workspace_repos@)),
            forest_view(app.library_tree@) == built(
                only_in_library(repo_views(library_repos@), repo_views(workspace_repos@)),
            ),
            forest_view(app.filtered_workspace@) == forest_view(app.workspace_tree@),
            forest_view(app.filtered_library@) == forest_view(app.library_tree@),
            repo_views(app.workspace_repos_list@) == repo_views(workspace_repos@),
            repo_views(app.library_repos_list@) == repo_views(library_repos@),
            app.search_query@.len() == 0,
            app.last_log_message@.len() == 0,
            app.add_repo_input@.len() == 0,
            app.add_repo_suggestions@.len() == 0,
            app.add_repo_state.selection() is None,
            app.mode == AppMode::Normal,
            app.cursor() == cursor_reset(
                Section::Workspace,
                app.workspace_tree@.len() as nat,
                app.library_tree@.len() as nat,
            ),
    {
        let workspace_tree = build_tree(duplicate_repos(&workspace_repos));
        let library_tree = build_library_tree(
            duplicate_repos(&library_repos),
            workspace_repos.as_slice(),
        );
        let filtered_workspace = duplicate_forest(&workspace_tree);
        let filtered_library = duplicate_forest(&library_tree);
        let mut workspace_state = TreeState::new();
        let mut library_state = TreeState::new();
        let active_section = if workspace_tree.len() > 0 {
            workspace_state.select(Some(0));
            Section::Workspace
        } else if library_tree.len() > 0 {
            library_state.select(Some(0));
            Section::Library
        } else {
            Section::Workspace
        };
        App {
            workspace_tree,
            library_tree,
            workspace_repos_list: workspace_repos,
            library_repos_list: library_repos,
            filtered_workspace,
            filtered_library,
            workspace_state,
            library_state,
            search_query: String::new(),
            active_section,
            last_log_message: String::new(),
            mode: AppMode::Normal,
            add_repo_input: String::new(),
            add_repo_suggestions: Vec::new(),
            add_repo_state: TreeState::new(),
        }
    }

    /// Filters both panels by the query and puts the cursor on the first
    /// row that is left. With the empty query the panels show the full
    /// forests; with any other, each is built anew from the records whose
    /// display name matches it.
    pub fn filter_repos(&mut self)
        ensures
            final(self).shows_query(),
            final(self).cursor() == final(self).reset_cursor(old(self).active_section),
            final(self).same_records(old(self)),
            final(self).search_query == old(self).search_query,
            final(self).last_log_message == old(self).last_log_message,
            final(self).mode == old(self).mode,
            final(self).same_dialog(old(self)),
    {
        if self.search_query.as_str().unicode_len() == 0 {
            self.filtered_workspace = duplicate_forest(&self.workspace_tree);
            self.filtered_library = duplicate_forest(&self.library_tree);
        } else {
            let kept_workspace = filter_matching(
                &self.workspace_repos_list,
                self.search_query.as_str(),
            );
            self.filtered_workspace = build_tree(kept_workspace);
            let kept_library = filter_matching(&self.library_repos_list, self.search_query.as_str());
            self.filtered_library = build_library_tree(
                kept_library,
                self.workspace_repos_list.as_slice(),
            );
        }
        let workspace_flat = flatten_trees(self.filtered_workspace.as_slice());
        let library_flat = flatten_trees(self.filtered_library.as_slice());
        if workspace_flat.len() > 0 {
            self.workspace_state.select(Some(0));
            self.library_state.select(None);
            self.active_section = Section::Workspace;
        } else if library_flat.len() > 0 {
            self.workspace_state.select(None);
            self.library_state.select(Some(0));
            self.active_section = Section::Library;
        } else {
            self.workspace_state.select(None);
            self.library_state.select(None);
        }
    }

    /// The rows of the workspace panel.
    pub fn get_flattened_workspace(&self) -> (rows: Vec<(TreeNode, usize, Vec<usize>, String)>)
        ensures
            row_views(rows@) == self.workspace_rows(),
    {
        flatten_trees(self.filtered_workspace.as_slice())
    }

    /// The rows of the library panel.
    pub fn get_flattened_library(&self) -> (rows: Vec<(TreeNode, usize, Vec<usize>, String)>)
        ensures
            row_views(rows@) == self.library_rows(),
    {
        flatten_trees(self.filtered_library.as_slice())
    }

    /// The number of repositories in the workspace panel, shown or not.
    pub fn count_workspace_repos(&self) -> (count: usize)
        ensures
            count == capped(
                repo_count_of(
                    forest_view(self.filtered_workspace@),
                    self.filtered_workspace@.len(),
                ),
            ),
    {
        count_repos_in_trees(self.filtered_workspace.as_slice())
    }

    /// The number of repositories in the library panel, shown or not.
    pub fn count_library_repos(&self) -> (count: usize)
        ensures
            count == capped(
                repo_count_of(forest_view(self.filtered_library@), self.filtered_library@.len()),
            ),
    {
        count_repos_in_trees(self.filtered_library.as_slice())
    }

    /// Moves the cursor one row down, into the other panel at the end.
    pub fn next(&mut self)
        ensures
            final(self).cursor() == cursor_down(
                old(self).cursor(),
                old(self).workspace_rows().len(),
                old(self).library_rows().len(),
            ),
            final(self).same_content(old(self)),
    {
        let workspace_rows = self.get_flattened_workspace().len();
        let library_rows = self.get_flattened_library().len();
        match self.active_section {
            Section::Workspace => {
                if workspace_rows == 0 {
                    return ;
                }
                match self.workspace_state.selected() {
                    Some(i) => {
                        if i >= workspace_rows - 1 {
                            if library_rows > 0 {
                                self.workspace_state.select(None);
                                self.library_state.select(Some(0));
                                self.active_section = Section::Library;
                            } else {
                                self.workspace_state.select(Some(0));
                            }
                        } else {
                            self.workspace_state.select(Some(i + 1));
                        }
                    },
                    None => {
                        self.workspace_state.select(Some(0));
                    },
                }
            },
            Section::Library => {
                if library_rows == 0 {
                    return ;
                }
                match self.library_state.selected() {
                    Some(i) => {
                        if i >= library_rows - 1 {
                            if workspace_rows > 0 {
                                self.library_state.select(None);
                                self.workspace_state.select(Some(0));
                                self.active_section = Section::Workspace;
                            } else {
                                self.library_state.select(Some(0));
                            }
                        } else {
                            self.library_state.select(Some(i + 1));
                        }
                    },
                    None => {
                        self.library_state.select(Some(0));
                    },
                }
            },
        }
    }

    /// Moves the cursor one row up, into the other panel at the beginning.
    pub fn previous(&mut self)
        ensures
            final(self).cursor() == cursor_up(
                old(self).cursor(),
                old(self).workspace_rows().len(),
                old(self).library_rows().len(),
            ),
            final(self).same_content(old(self)),
    {
        let workspace_rows = self.get_flattened_workspace().len();
        let library_rows = self.get_flattened_library().len();
        match self.active_section {
            Section::Workspace => {
                if workspace_rows == 0 {
                    return ;
                }
                match self.workspace_state.selected() {
                    Some(i) => {
                        if i == 0 {
                            if library_rows > 0 {
                                self.workspace_state.select(None);
                                self.library_state.select(Some(library_rows - 1));
                                self.active_section = Section::Library;
                            } else {
                                self.workspace_state.select(Some(workspace_rows - 1));
                            }
                        } else {
                            self.workspace_state.select(Some(i - 1));
                        }
                    },
                    None => {
                        self.workspace_state.select(Some(0));
                    },
                }
            },
            Section::Library => {
                if library_rows == 0 {
                    return ;
                }
                match self.library_state.selected() {
                    Some(i) => {
                        if i == 0 {
                            if workspace_rows > 0 {
                                self.library_state.select(None);
                                self.workspace_state.select(Some(workspace_rows - 1));
                                self.active_section = Section::Workspace;
                            } else {
                                self.library_state.select(Some(library_rows - 1));
                            }
                        } else {
                            self.library_state.select(Some(i - 1));
                        }
                    },
                    None => {
                        self.library_state.select(Some(0));
                    },
                }
            },
        }
    }

    /// The node of the selected row of the workspace panel.
    pub fn selected_workspace_node(&self) -> (node: Option<TreeNode>)
        ensures
            node_view(node) == self.workspace_selection(),
    {
        let rows = self.get_flattened_workspace();
        match self.workspace_state.selected() {
            Some(i) => {
                if i < rows.len() {
                    Some(rows[i].0.duplicate())
                } else {
                    None
                }
            },
            None => None,
        }
    }

    /// The node of the selected row of the library panel.
    pub fn selected_library_node(&self) -> (node: Option<TreeNode>)
        ensures
            node_view(node) == self.library_selection(),
    {
        let rows = self.get_flattened_library();
        match self.library_state.selected() {
            Some(i) => {
                if i < rows.len() {
                    Some(rows[i].0.duplicate())
                } else {
                    None
                }
            },
            None => None,
        }
    }

    /// Toggles the node of the selected row of the active panel.
    pub fn toggle_expand(&mut self)
        ensures
            final(self).toggled_from(old(self)),
            final(self).cursor() == old(self).cursor(),
            final(self).same_setting(old(self)),
    {
        match self.active_section {
            Section::Workspace => {
                let rows = self.get_flattened_workspace();
                if let Some(selected) = self.workspace_state.selected() {
                    if selected < rows.len() {
                        toggle_node_at_path(
                            self.filtered_workspace.as_mut_slice(),
                            rows[selected].2.as_slice(),
                        );
                    }
                }
            },
            Section::Library => {
                let rows = self.get_flattened_library();
                if let Some(selected) = self.library_state.selected() {
                    if selected < rows.len() {
                        toggle_node_at_path(
                            self.filtered_library.as_mut_slice(),
                            rows[selected].2.as_slice(),
                        );
                    }
                }
            },
        }
    }

    /// Marks every repository named `display_name`, in the full and in the
    /// filtered forests, with the state of an operation.
    pub fn update_repo_status(&mut self, display_name: &str, status: RepoOperationStatus)
        ensures
            forest_view(final(self).workspace_tree@) == marked_all(
                forest_view(old(self).workspace_tree@),
                display_name@,
                status,
            ),
            forest_view(final(self).filtered_workspace@) == marked_all(
                forest_view(old(self).filtered_workspace@),
                display_name@,
                status,
            ),
            forest_view(final(self).library_tree@) == marked_all(
                forest_view(old(self).library_tree@),
                display_name@,
                status,
            ),
            forest_view(final(self).filtered_library@) == marked_all(
                forest_view(old(self).filtered_library@),
                display_name@,
                status,
            ),
            final(self).cursor() == old(self).cursor(),
            final(self).workspace_repos_list == old(self).workspace_repos_list,
            final(self).library_repos_list == old(self).library_repos_list,
            final(self).search_query == old(self).search_query,
            final(self).mode == old(self).mode,
            final(self).last_log_message == old(self).last_log_message,
            final(self).add_repo_input == old(self).add_repo_input,
            final(self).add_repo_suggestions == old(self).add_repo_suggestions,
            final(self).add_repo_state == old(self).add_repo_state,
    {
        update_repo_status_in_tree(self.workspace_tree.as_mut_slice(), display_name, status);
        update_repo_status_in_tree(self.filtered_workspace.as_mut_slice(), display_name, status);
        update_repo_status_in_tree(self.library_tree.as_mut_slice(), display_name, status);
        update_repo_status_in_tree(self.filtered_library.as_mut_slice(), display_name, status);
    }
}

} // verus!
