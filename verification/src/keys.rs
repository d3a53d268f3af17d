//! What the keys do in the browser: each key changes the state and may ask
//! the caller to act.

use crate::browser::{cursor_down, cursor_up, App, AppMode, Cursor, Section};
use crate::text::{
    contains, dedup_names, deduped, sort_names, sorted_names, str_contains, texts,
};
use crate::tree::{repo_paths, string_views, TreeNodeView};
use vstd::prelude::*;

verus! {

/// `String::pop` takes the last character off the string and returns it;
/// `None` for the empty string, which stays empty.
pub assume_specification[ String::pop ](s: &mut String) -> (last: Option<char>)
    ensures
        old(s)@.len() > 0 ==> last == Some(old(s)@.last()) && final(s)@ == old(s)@.drop_last(),
        old(s)@.len() == 0 ==> last is None && final(s)@ == old(s)@,
;

/// `text` in lower case, as `str::to_lowercase` gives it.
pub uninterp spec fn lowercase(text: Seq<char>) -> Seq<char>;

/// `str::to_lowercase`: the text with each character replaced by its
/// lower-case form according to Unicode. It depends on the text alone.
#[verifier::external_body]
fn to_lower(text: &str) -> (out: String)
    ensures
        out@ == lowercase(text@),
{
    text.to_lowercase()
}

/// A key, as far as the browser tells keys apart.
#[derive(Debug, Clone, Copy, PartialEq, Eq, Structural)]
pub enum Key {
    /// A character, with or without the control key.
    Char { c: char, ctrl: bool },
    Right,
    Left,
    Esc,
    Tab,
    Down,
    Up,
    Enter,
    Backspace,
    /// Any other key.
    Other,
}

/// What the browser asks of the caller after a key.
#[derive(Debug, Clone, PartialEq, Eq)]
pub enum Reaction {
    /// Nothing; the browser goes on.
    Stay,
    /// Load the suggestions for the dialog and hand them to
    /// `set_suggestions`; the browser goes on.
    LoadSuggestions,
    /// Leave the browser.
    Quit,
    /// Leave the browser and open a shell in the repository at this path.
    OpenShell(String),
    /// Leave the browser and drop these repositories into the library.
    DropToLibrary(Vec<String>),
    /// Leave the browser and restore these repositories from the library.
    RestoreFromLibrary(Vec<String>),
    /// Leave the browser and add the repository that this pattern names.
    AddRepo(String),
}

/// A reaction as plain values.
pub enum ReactionView {
    Stay,
    LoadSuggestions,
    Quit,
    OpenShell(Seq<char>),
    DropToLibrary(Seq<Seq<char>>),
    RestoreFromLibrary(Seq<Seq<char>>),
    AddRepo(Seq<char>),
}

impl View for Reaction {
    type V = ReactionView;

    open spec fn view(&self) -> ReactionView {
        match self {
            Reaction::Stay => ReactionView::Stay,
            Reaction::LoadSuggestions => ReactionView::LoadSuggestions,
            Reaction::Quit => ReactionView::Quit,
            Reaction::OpenShell(path) => ReactionView::OpenShell(path@),
            Reaction::DropToLibrary(names) => ReactionView::DropToLibrary(texts(names@)),
            Reaction::RestoreFromLibrary(names) => ReactionView::RestoreFromLibrary(texts(names@)),
            Reaction::AddRepo(pattern) => ReactionView::AddRepo(pattern@),
        }
    }
}

/// The cursor after a switch to the other panel: on the first row there,
/// or where it was if the other panel has no rows.
pub open spec fn cursor_switched(cursor: Cursor, workspace_rows: nat, library_rows: nat) -> Cursor {
    match cursor.section {
        Section::Workspace => if library_rows > 0 {
            Cursor { section: Section::Library, workspace: None, library: Some(0) }
        } else {
            cursor
        },
        Section::Library => if workspace_rows > 0 {
            Cursor { section: Section::Workspace, workspace: Some(0), library: None }
        } else {
            cursor
        },
    }
}

/// What a request to drop gives for the selected node of the workspace:
/// the repositories in it and below it, if there are any.
pub open spec fn drop_request(section: Section, selected: Option<TreeNodeView>) -> ReactionView {
    match selected {
        Some(node) => if section == Section::Workspace && repo_paths(node).len() > 0 {
            ReactionView::DropToLibrary(repo_paths(node))
        } else {
            ReactionView::Stay
        },
        None => ReactionView::Stay,
    }
}

/// What the enter key gives for the selected node of the workspace: a shell
/// in a repository; for a directory, and without a selection, the browser
/// is left.
pub open spec fn workspace_activation(selected: Option<TreeNodeView>) -> ReactionView {
    match selected {
        Some(node) => match node.repo_info {
            Some(repo) => ReactionView::OpenShell(repo.path),
            None => ReactionView::Quit,
        },
        None => ReactionView::Quit,
    }
}

/// What the enter key gives for the selected node of the library: the
/// repositories in it and below it are restored; where there are none, and
/// without a selection, the browser is left.
pub open spec fn library_activation(selected: Option<TreeNodeView>) -> ReactionView {
    match selected {
        Some(node) => if repo_paths(node).len() > 0 {
            ReactionView::RestoreFromLibrary(repo_paths(node))
        } else {
            ReactionView::Quit
        },
        None => ReactionView::Quit,
    }
}

/// The suggestions that are shown for what was typed: those that hold it,
/// without regard to case.
pub open spec fn shown_suggestions(suggestions: Seq<String>, typed: Seq<char>) -> Seq<String> {
    suggestions.filter(|s: String| contains(lowercase(s@), lowercase(typed)))
}

/// The selection one suggestion further down among `shown` many, from the
/// last one back to the first.
pub open spec fn suggestion_below(selected: Option<usize>, shown: nat) -> Option<usize> {
    match selected {
        Some(i) => if i >= shown - 1 {
            Some(0)
        } else {
            Some((i + 1) as usize)
        },
        None => Some(0),
    }
}

/// The selection one suggestion further up among `shown` many, from the
/// first one on to the last.
pub open spec fn suggestion_above(selected: Option<usize>, shown: nat) -> Option<usize> {
    match selected {
        Some(i) => if i == 0 {
            Some((shown - 1) as usize)
        } else {
            Some((i - 1) as usize)
        },
        None => Some(0),
    }
}

/// `text` without its last character; the empty text as it is.
pub open spec fn erased(text: Seq<char>) -> Seq<char> {
    if text.len() > 0 {
        text.drop_last()
    } else {
        text
    }
}

/// What confirming the dialog with `pattern` gives: the request to add it,
/// or nothing for the empty pattern.
pub open spec fn confirmation(pattern: Seq<char>) -> ReactionView {
    if pattern.len() > 0 {
        ReactionView::AddRepo(pattern)
    } else {
        ReactionView::Stay
    }
}

/// The pattern that the dialog confirms: the selected one of the shown
/// suggestions, or what was typed where none is selected.
pub open spec fn confirmed_pattern(
    suggestions: Seq<String>,
    typed: Seq<char>,
    selected: Option<usize>,
) -> Seq<char> {
    let shown = shown_suggestions(suggestions, typed);
    match selected {
        Some(i) => if i < shown.len() {
            shown[i as int]@
        } else {
            typed
        },
        None => typed,
    }
}

impl App {
    /// The records, the forests, the panels, the query, the message and the
    /// cursor are those of `before`: all but the mode and the dialog.
    pub open spec fn same_panels(&self, before: &App) -> bool {
        &&& self.same_records(before)
        &&& self.filtered_workspace == before.filtered_workspace
        &&& self.filtered_library == before.filtered_library
        &&& self.search_query == before.search_query
        &&& self.last_log_message == before.last_log_message
        &&& self.cursor() == before.cursor()
    }

    /// The suggestions that the dialog shows, as plain values.
    pub open spec fn shown(&self) -> Seq<String> {
        shown_suggestions(self.add_repo_suggestions@, self.add_repo_input@)
    }

    /// The pattern that the dialog confirms.
    pub open spec fn confirmed(&self) -> Seq<char> {
        confirmed_pattern(
            self.add_repo_suggestions@,
            self.add_repo_input@,
            self.add_repo_state.selection(),
        )
    }

    /// What the enter key gives in the panels.
    pub open spec fn activation(&self) -> ReactionView {
        match self.active_section {
            Section::Workspace => workspace_activation(self.workspace_selection()),
            Section::Library => library_activation(self.library_selection()),
        }
    }

    /// The suggestions that the dialog shows.
    pub fn visible_suggestions(&self) -> (shown: Vec<String>)
        ensures
            shown@ == self.shown(),
    {
        let typed = to_lower(self.add_repo_input.as_str());
        let mut shown: Vec<String> = Vec::new();
        let ghost keep = |s: String| contains(lowercase(s@), lowercase(self.add_repo_input@));
        let mut i: usize = 0;
        assert(self.add_repo_suggestions@.take(0) =~= Seq::<String>::empty());
        while i < self.add_repo_suggestions.len()
            invariant
                i <= self.add_repo_suggestions.len(),
                typed@ == lowercase(self.add_repo_input@),
                keep == |s: String| contains(lowercase(s@), lowercase(self.add_repo_input@)),
                shown@ == self.add_repo_suggestions@.take(i as int).filter(keep),
            decreases self.add_repo_suggestions.len() - i,
        {
            proof {
                assert(self.add_repo_suggestions@.take(i + 1).drop_last()
                    =~= self.add_repo_suggestions@.take(i as int));
                reveal(Seq::filter);
            }
            let lowered = to_lower(self.add_repo_suggestions[i].as_str());
            if str_contains(lowered.as_str(), typed.as_str()) {
                shown.push(self.add_repo_suggestions[i].clone());
            }
            i += 1;
        }
        assert(self.add_repo_suggestions@.take(self.add_repo_suggestions@.len() as int)
            =~= self.add_repo_suggestions@);
        shown
    }

    /// Takes in the suggestions that were loaded for the dialog: sorted,
    /// each once, and the first one selected.
    pub fn set_suggestions(&mut self, suggestions: Vec<String>)
        ensures
            texts(final(self).add_repo_suggestions@) == deduped(sorted_names(texts(suggestions@))),
            final(self).add_repo_state.selection() == if final(self).add_repo_suggestions@.len()
                > 0 {
                Some(0usize)
            } else {
                old(self).add_repo_state.selection()
            },
            final(self).add_repo_input == old(self).add_repo_input,
            final(self).mode == old(self).mode,
            final(self).same_panels(old(self)),
    {
        let sorted = sort_names(&suggestions);
        self.add_repo_suggestions = dedup_names(&sorted);
        if self.add_repo_suggestions.len() > 0 {
            self.add_repo_state.select(Some(0));
        }
    }

    /// Moves the cursor into the other panel, if that has rows.
    pub fn switch_section(&mut self)
        ensures
            final(self).cursor() == cursor_switched(
                old(self).cursor(),
                old(self).workspace_rows().len(),
                old(self).library_rows().len(),
            ),
            final(self).same_content(old(self)),
    {
        match self.active_section {
            Section::Workspace => {
                if self.get_flattened_library().len() > 0 {
                    self.workspace_state.select(None);
                    self.library_state.select(Some(0));
                    self.active_section = Section::Library;
                }
            },
            Section::Library => {
                if self.get_flattened_workspace().len() > 0 {
                    self.library_state.select(None);
                    self.workspace_state.select(Some(0));
                    self.active_section = Section::Workspace;
                }
            },
        }
    }

    /// Asks to drop the repositories of the selected node of the workspace.
    pub fn request_drop(&self) -> (reaction: Reaction)
        ensures
            reaction@ == drop_request(self.active_section, self.workspace_selection()),
    {
        if self.active_section == Section::Workspace {
            if let Some(node) = self.selected_workspace_node() {
                let names = node.collect_repo_paths();
                assert(texts(names@) == string_views(names@));
                if names.len() > 0 {
                    return Reaction::DropToLibrary(names);
                }
            }
        }
        Reaction::Stay
    }

    /// Acts on the selected node of the active panel. A repository of the
    /// workspace gets a shell; the repositories in and below a node of the
    /// library are restored. On any other node the node is toggled and the
    /// browser is left.
    pub fn activate(&mut self) -> (reaction: Reaction)
        ensures
            reaction@ == old(self).activation(),
            !(reaction@ is Quit) ==> *final(self) == *old(self),
            reaction@ is Quit ==> final(self).toggled_from(old(self)),
            reaction@ is Quit ==> final(self).cursor() == old(self).cursor(),
            reaction@ is Quit ==> final(self).same_setting(old(self)),
    {
        match self.active_section {
            Section::Workspace => {
                if let Some(node) = self.selected_workspace_node() {
                    proof {
                        node.lemma_view();
                    }
                    if let Some(repo) = node.repo_info {
                        return Reaction::OpenShell(repo.path);
                    }
                }
            },
            Section::Library => {
                if let Some(node) = self.selected_library_node() {
                    let names = node.collect_repo_paths();
                    assert(texts(names@) == string_views(names@));
                    if names.len() > 0 {
                        return Reaction::RestoreFromLibrary(names);
                    }
                }
            },
        }
        self.toggle_expand();
        Reaction::Quit
    }

    /// Adds a character to the query and filters anew.
    pub fn type_query(&mut self, c: char)
        ensures
            final(self).search_query@ == old(self).search_query@.push(c),
            final(self).shows_query(),
            final(self).cursor() == final(self).reset_cursor(old(self).active_section),
            final(self).same_records(old(self)),
            final(self).last_log_message == old(self).last_log_message,
            final(self).mode == old(self).mode,
            final(self).same_dialog(old(self)),
    {
        self.search_query.push(c);
        self.filter_repos();
    }

    /// Takes the last character off the query and filters anew.
    pub fn erase_query(&mut self)
        ensures
            final(self).search_query@ == erased(old(self).search_query@),
            final(self).shows_query(),
            final(self).cursor() == final(self).reset_cursor(old(self).active_section),
            final(self).same_records(old(self)),
            final(self).last_log_message == old(self).last_log_message,
            final(self).mode == old(self).mode,
            final(self).same_dialog(old(self)),
    {
        let _ = self.search_query.pop();
        self.filter_repos();
    }

    /// Opens the dialog for adding a repository, with nothing typed.
    pub fn begin_add_repo(&mut self)
        ensures
            final(self).mode == AppMode::AddRepo,
            final(self).add_repo_input@ == Seq::<char>::empty(),
            final(self).add_repo_suggestions == old(self).add_repo_suggestions,
            final(self).add_repo_state == old(self).add_repo_state,
            final(self).same_panels(old(self)),
    {
        self.mode = AppMode::AddRepo;
        self.add_repo_input = String::new();
    }

    /// Closes the dialog and forgets what was typed.
    pub fn cancel_add_repo(&mut self)
        ensures
            final(self).mode == AppMode::Normal,
            final(self).add_repo_input@ == Seq::<char>::empty(),
            final(self).add_repo_suggestions == old(self).add_repo_suggestions,
            final(self).add_repo_state == old(self).add_repo_state,
            final(self).same_panels(old(self)),
    {
        self.mode = AppMode::Normal;
        self.add_repo_input = String::new();
    }

    /// Confirms the dialog: with the selected suggestion, or with what was
    /// typed. Nothing happens while there is neither.
    pub fn confirm_add_repo(&mut self) -> (reaction: Reaction)
        ensures
            reaction@ == confirmation(old(self).confirmed()),
            final(self).mode == if reaction@ is Stay {
                old(self).mode
            } else {
                AppMode::Normal
            },
            final(self).same_dialog(old(self)),
            final(self).same_panels(old(self)),
    {
        let shown = self.visible_suggestions();
        let pattern = match self.add_repo_state.selected() {
            Some(i) => {
                if i < shown.len() {
                    shown[i].clone()
                } else {
                    self.add_repo_input.clone()
                }
            },
            None => self.add_repo_input.clone(),
        };
        if pattern.as_str().unicode_len() > 0 {
            self.mode = AppMode::Normal;
            Reaction::AddRepo(pattern)
        } else {
            Reaction::Stay
        }
    }

    /// Selects the next of the shown suggestions, if any is shown.
    pub fn suggestion_down(&mut self)
        ensures
            final(self).add_repo_state.selection() == if old(self).shown().len() > 0 {
                suggestion_below(old(self).add_repo_state.selection(), old(self).shown().len())
            } else {
                old(self).add_repo_state.selection()
            },
            final(self).add_repo_input == old(self).add_repo_input,
            final(self).add_repo_suggestions == old(self).add_repo_suggestions,
            final(self).mode == old(self).mode,
            final(self).same_panels(old(self)),
    {
        let shown = self.visible_suggestions().len();
        if shown > 0 {
            let next: usize = match self.add_repo_state.selected() {
                Some(i) => {
                    if i >= shown - 1 {
                        0
                    } else {
                        i + 1
                    }
                },
                None => 0,
            };
            self.add_repo_state.select(Some(next));
        }
    }

    /// Selects the previous of the shown suggestions, if any is shown.
    pub fn suggestion_up(&mut self)
        ensures
            final(self).add_repo_state.selection() == if old(self).shown().len() > 0 {
                suggestion_above(old(self).add_repo_state.selection(), old(self).shown().len())
            } else {
                old(self).add_repo_state.selection()
            },
            final(self).add_repo_input == old(self).add_repo_input,
            final(self).add_repo_suggestions == old(self).add_repo_suggestions,
            final(self).mode == old(self).mode,
            final(self).same_panels(old(self)),
    {
        let shown = self.visible_suggestions().len();
        if shown > 0 {
            let previous: usize = match self.add_repo_state.selected() {
                Some(i) => {
                    if i == 0 {
                        shown - 1
                    } else {
                        i - 1
                    }
                },
                None => 0,
            };
            self.add_repo_state.select(Some(previous));
        }
    }

    /// Adds a character to what is typed in the dialog and selects the
    /// first suggestion.
    pub fn type_pattern(&mut self, c: char)
        ensures
            final(self).add_repo_input@ == old(self).add_repo_input@.push(c),
            final(self).add_repo_state.selection() == Some(0usize),
            final(self).add_repo_suggestions == old(self).add_repo_suggestions,
            final(self).mode == old(self).mode,
            final(self).same_panels(old(self)),
    {
        self.add_repo_input.push(c);
        self.add_repo_state.select(Some(0));
    }

    /// Takes the last character off what is typed in the dialog.
    pub fn erase_pattern(&mut self)
        ensures
            final(self).add_repo_input@ == erased(old(self).add_repo_input@),
            final(self).add_repo_state == old(self).add_repo_state,
            final(self).add_repo_suggestions == old(self).add_repo_suggestions,
            final(self).mode == old(self).mode,
            final(self).same_panels(old(self)),
    {
        let _ = self.add_repo_input.pop();
    }

    /// What a key does in the panels, as a relation between the browser
    /// before and after it and the reaction.
    pub open spec fn panel_key(&self, before: &App, key: Key, reaction: ReactionView) -> bool {
        match key {
            Key::Char { c: 'c', ctrl: true } | Key::Esc | Key::Other => {
                &&& reaction == if key == Key::Other {
                    ReactionView::Stay
                } else {
                    ReactionView::Quit
                }
                &&& *self == *before
            },
            Key::Char { c: 'd', ctrl: true } => {
                &&& reaction == drop_request(before.active_section, before.workspace_selection())
                &&& *self == *before
            },
            Key::Char { c: 'a', ctrl: true } => {
                &&& reaction is LoadSuggestions
                &&& self.mode == AppMode::AddRepo
                &&& self.add_repo_input@.len() == 0
                &&& self.same_panels(before)
            },
            Key::Right | Key::Left => {
                &&& reaction is Stay
                &&& self.toggled_from(before)
                &&& self.cursor() == before.cursor()
                &&& self.same_setting(before)
            },
            Key::Tab => {
                &&& reaction is Stay
                &&& self.cursor() == cursor_switched(
                    before.cursor(),
                    before.workspace_rows().len(),
                    before.library_rows().len(),
                )
                &&& self.same_content(before)
            },
            Key::Down => {
                &&& reaction is Stay
                &&& self.cursor() == cursor_down(
                    before.cursor(),
                    before.workspace_rows().len(),
                    before.library_rows().len(),
                )
                &&& self.same_content(before)
            },
            Key::Up => {
                &&& reaction is Stay
                &&& self.cursor() == cursor_up(
                    before.cursor(),
                    before.workspace_rows().len(),
                    before.library_rows().len(),
                )
                &&& self.same_content(before)
            },
            Key::Enter => {
                &&& reaction == before.activation()
                &&& !(reaction is Quit) ==> *self == *before
                &&& reaction is Quit ==> self.toggled_from(before) && self.cursor()
                    == before.cursor() && self.same_setting(before)
            },
            Key::Char { c, ctrl: _ } => {
                &&& reaction is Stay
                &&& self.search_query@ == before.search_query@.push(c)
                &&& self.shows_query()
                &&& self.cursor() == self.reset_cursor(before.active_section)
                &&& self.last_log_message == before.last_log_message
                &&& self.mode == before.mode
                &&& self.same_dialog(before)
            },
            Key::Backspace => {
                &&& reaction is Stay
                &&& self.search_query@ == erased(before.search_query@)
                &&& self.shows_query()
                &&& self.cursor() == self.reset_cursor(before.active_section)
                &&& self.last_log_message == before.last_log_message
                &&& self.mode == before.mode
                &&& self.same_dialog(before)
            },
        }
    }

    /// What a key does in the dialog, as a relation between the browser
    /// before and after it and the reaction.
    pub open spec fn dialog_key(&self, before: &App, key: Key, reaction: ReactionView) -> bool {
        &&& self.same_panels(before)
        &&& self.add_repo_suggestions == before.add_repo_suggestions
        &&& match key {
            Key::Esc => {
                &&& reaction is Stay
                &&& self.mode == AppMode::Normal
                &&& self.add_repo_input@.len() == 0
                &&& self.add_repo_state == before.add_repo_state
            },
            Key::Enter => {
                &&& reaction == confirmation(before.confirmed())
                &&& self.mode == if reaction is Stay {
                    AppMode::AddRepo
                } else {
                    AppMode::Normal
                }
                &&& self.same_dialog(before)
            },
            Key::Down => {
                &&& reaction is Stay
                &&& self.mode == before.mode
                &&& self.add_repo_input == before.add_repo_input
                &&& self.add_repo_state.selection() == if before.shown().len() > 0 {
                    suggestion_below(before.add_repo_state.selection(), before.shown().len())
                } else {
                    before.add_repo_state.selection()
                }
            },
            Key::Up => {
                &&& reaction is Stay
                &&& self.mode == before.mode
                &&& self.add_repo_input == before.add_repo_input
                &&& self.add_repo_state.selection() == if before.shown().len() > 0 {
                    suggestion_above(before.add_repo_state.selection(), before.shown().len())
                } else {
                    before.add_repo_state.selection()
                }
            },
            Key::Char { c, ctrl: _ } => {
                &&& reaction is Stay
                &&& self.mode == before.mode
                &&& self.add_repo_input@ == before.add_repo_input@.push(c)
                &&& self.add_repo_state.selection() == Some(0usize)
            },
            Key::Backspace => {
                &&& reaction is Stay
                &&& self.mode == before.mode
                &&& self.add_repo_input@ == erased(before.add_repo_input@)
                &&& self.add_repo_state == before.add_repo_state
            },
            _ => reaction is Stay && *self == *before,
        }
    }

    /// Handles one key and tells what the caller is to do.
    ///
    /// In the panels: Ctrl+C and Esc leave; Ctrl+D asks to drop; Ctrl+A
    /// opens the dialog and asks for its suggestions; the arrows move the
    /// cursor and toggle; Tab switches panels; Enter acts on the selected
    /// node; any other character goes into the query and Backspace takes
    /// one off. In the dialog: Esc closes it; Enter confirms; the arrows
    /// move over the suggestions; characters, with the control key or
    /// without, and Backspace edit what is typed.
    pub fn handle_key(&mut self, key: Key) -> (reaction: Reaction)
        ensures
            old(self).mode == AppMode::Normal ==> final(self).panel_key(old(self), key, reaction@),
            old(self).mode == AppMode::AddRepo ==> final(self).dialog_key(
                old(self),
                key,
                reaction@,
            ),
            final(self).same_records(old(self)),
    {
        match self.mode {
            AppMode::Normal => match key {
                Key::Char { c: 'c', ctrl: true } => Reaction::Quit,
                Key::Char { c: 'd', ctrl: true } => self.request_drop(),
                Key::Char { c: 'a', ctrl: true } => {
                    self.begin_add_repo();
                    Reaction::LoadSuggestions
                },
                Key::Right | Key::Left => {
                    self.toggle_expand();
                    Reaction::Stay
                },
                Key::Esc => Reaction::Quit,
                Key::Tab => {
                    self.switch_section();
                    Reaction::Stay
                },
                Key::Down => {
                    self.next();
                    Reaction::Stay
                },
                Key::Up => {
                    self.previous();
                    Reaction::Stay
                },
                Key::Enter => self.activate(),
                Key::Char { c, ctrl: _ } => {
                    self.type_query(c);
                    Reaction::Stay
                },
                Key::Backspace => {
                    self.erase_query();
                    Reaction::Stay
                },
                Key::Other => Reaction::Stay,
            },
            AppMode::AddRepo => match key {
                Key::Esc => {
                    self.cancel_add_repo();
                    Reaction::Stay
                },
                Key::Enter => self.confirm_add_repo(),
                Key::Down => {
                    self.suggestion_down();
                    Reaction::Stay
                },
                Key::Up => {
                    self.suggestion_up();
                    Reaction::Stay
                },
                Key::Char { c, ctrl: _ } => {
                    self.type_pattern(c);
                    Reaction::Stay
                },
                Key::Backspace => {
                    self.erase_pattern();
                    Reaction::Stay
                },
                _ => Reaction::Stay,
            },
        }
    }
}

} // verus!
