use workset::browser::{duplicate_forest, filter_matching, App, AppMode, Section};
use workset::fuzzy::{fuzzy_score, matches_query};
use workset::timestamp::Timestamp;
use workset::tree::{RepoInfo, RepoOperationStatus};

fn repo(name: &str, secs: Option<i64>) -> RepoInfo {
    RepoInfo {
        path: format!("/ws/{}", name),
        display_name: name.to_string(),
        is_clean: true,
        modification_time: secs.map(|secs| Timestamp { secs, nanos: 0 }),
        size_bytes: None,
        operation_status: RepoOperationStatus::Idle,
    }
}

fn app() -> App {
    App::new(
        vec![repo("github.com/acme/widgets", Some(3)), repo("github.com/acme/gears", Some(2))],
        vec![repo("github.com/acme/widgets", None), repo("gitlab.com/team/api", None)],
    )
}

fn cursor(app: &App) -> (bool, Option<usize>, Option<usize>) {
    (
        app.active_section == Section::Workspace,
        app.workspace_state.selected(),
        app.library_state.selected(),
    )
}

fn names(rows: Vec<(workset::tree::TreeNode, usize, Vec<usize>, String)>) -> Vec<String> {
    rows.into_iter().map(|(_, _, _, full_path)| full_path).collect()
}

#[test]
fn matcher_accepts_subsequences_only() {
    assert!(matches_query("github.com/acme/widgets", "gawi"));
    assert!(matches_query("github.com/acme/widgets", "widgets"));
    assert!(!matches_query("github.com/acme/widgets", "widgetz"));
    assert!(!matches_query("abc", "cab"));
    assert!(!matches_query("", "a"));
    assert!(matches_query("", ""));
    assert!(matches_query("anything", ""));
}

#[test]
fn matcher_is_case_sensitive_only_for_capitals_in_the_query() {
    assert!(matches_query("GitHub", "github"));
    assert!(matches_query("GitHub", "GH"));
    assert!(!matches_query("github", "GH"));
    assert!(!matches_query("github", "gitHub"));
    assert!(matches_query("gitHub", "gitHub"));
}

#[test]
fn matcher_gives_a_score_exactly_where_it_matches() {
    assert!(fuzzy_score("axbycz", "abc").is_some());
    assert_eq!(fuzzy_score("abc", "abx"), None);
    assert_eq!(fuzzy_score("abcdefaghi", ""), Some(0));
    assert!(fuzzy_score("abc", "abc").unwrap() > fuzzy_score("axbxc", "abc").unwrap());
}

#[test]
fn filter_matching_keeps_the_order() {
    let repos = vec![repo("zeta/app", None), repo("alpha/app", None), repo("beta/lib", None)];
    let kept = filter_matching(&repos, "app");
    let kept: Vec<_> = kept.iter().map(|r| r.display_name.as_str()).collect();
    assert_eq!(kept, vec!["zeta/app", "alpha/app"]);
    assert_eq!(filter_matching(&repos, "").len(), 3);
    assert!(filter_matching(&repos, "nothing-like-it").is_empty());
}

#[test]
fn new_app_shows_everything_and_selects_the_first_root() {
    let app = app();
    assert_eq!(cursor(&app), (true, Some(0), None));
    assert!(app.mode == AppMode::Normal);
    assert_eq!(app.search_query, "");
    assert_eq!(
        names(app.get_flattened_workspace()),
        vec![
            "github.com",
            "github.com/acme",
            "github.com/acme/widgets",
            "github.com/acme/gears"
        ]
    );
    assert_eq!(
        names(app.get_flattened_library()),
        vec!["gitlab.com", "gitlab.com/team", "gitlab.com/team/api"]
    );
    assert_eq!(app.count_workspace_repos(), 2);
    assert_eq!(app.count_library_repos(), 1);
}

#[test]
fn new_app_with_only_a_library_selects_there() {
    let app = App::new(Vec::new(), vec![repo("a", None)]);
    assert_eq!(cursor(&app), (false, None, Some(0)));
    let empty = App::new(Vec::new(), Vec::new());
    assert_eq!(cursor(&empty), (true, None, None));
}

#[test]
fn filter_rebuilds_both_panels() {
    let mut app = app();
    app.search_query = "gears".to_string();
    app.filter_repos();
    assert_eq!(
        names(app.get_flattened_workspace()),
        vec!["github.com", "github.com/acme", "github.com/acme/gears"]
    );
    assert!(app.get_flattened_library().is_empty());
    assert_eq!(cursor(&app), (true, Some(0), None));
    app.search_query = "api".to_string();
    app.filter_repos();
    assert!(app.get_flattened_workspace().is_empty());
    assert_eq!(app.count_library_repos(), 1);
    assert_eq!(cursor(&app), (false, None, Some(0)));
    app.search_query = "zzz".to_string();
    app.filter_repos();
    assert_eq!(cursor(&app), (false, None, None));
}

#[test]
fn empty_query_is_the_identity_filter() {
    let mut app = app();
    let workspace = names(app.get_flattened_workspace());
    let library = names(app.get_flattened_library());
    app.search_query = "widgets".to_string();
    app.filter_repos();
    app.search_query = String::new();
    app.filter_repos();
    assert_eq!(names(app.get_flattened_workspace()), workspace);
    assert_eq!(names(app.get_flattened_library()), library);
    assert_eq!(cursor(&app), (true, Some(0), None));
}

#[test]
fn filtered_library_still_leaves_out_the_workspace() {
    let mut app = app();
    app.search_query = "widgets".to_string();
    app.filter_repos();
    assert_eq!(app.count_workspace_repos(), 1);
    assert_eq!(app.count_library_repos(), 0);
}

#[test]
fn next_walks_down_and_into_the_library() {
    let mut app = app();
    let mut seen = vec![cursor(&app)];
    for _ in 0..8 {
        app.next();
        seen.push(cursor(&app));
    }
    assert_eq!(
        seen,
        vec![
            (true, Some(0), None),
            (true, Some(1), None),
            (true, Some(2), None),
            (true, Some(3), None),
            (false, None, Some(0)),
            (false, None, Some(1)),
            (false, None, Some(2)),
            (true, Some(0), None),
            (true, Some(1), None),
        ]
    );
}

#[test]
fn previous_walks_up_and_into_the_library() {
    let mut app = app();
    app.previous();
    assert_eq!(cursor(&app), (false, None, Some(2)));
    app.previous();
    assert_eq!(cursor(&app), (false, None, Some(1)));
    app.previous();
    app.previous();
    assert_eq!(cursor(&app), (true, Some(3), None));
    app.previous();
    assert_eq!(cursor(&app), (true, Some(2), None));
}

#[test]
fn cursor_wraps_within_the_only_panel() {
    let mut app = App::new(vec![repo("a", None), repo("b", None)], Vec::new());
    app.next();
    assert_eq!(cursor(&app), (true, Some(1), None));
    app.next();
    assert_eq!(cursor(&app), (true, Some(0), None));
    app.previous();
    assert_eq!(cursor(&app), (true, Some(1), None));
    let mut empty = App::new(Vec::new(), Vec::new());
    empty.next();
    empty.previous();
    assert_eq!(cursor(&empty), (true, None, None));
}

#[test]
fn cursor_without_selection_starts_at_the_top() {
    let mut app = app();
    app.workspace_state.select(None);
    app.next();
    assert_eq!(cursor(&app), (true, Some(0), None));
    app.workspace_state.select(None);
    app.previous();
    assert_eq!(cursor(&app), (true, Some(0), None));
}

#[test]
fn selected_node_is_the_node_of_the_row() {
    let mut app = app();
    assert_eq!(app.selected_workspace_node().unwrap().name, "github.com");
    assert!(app.selected_library_node().is_none());
    app.next();
    app.next();
    let node = app.selected_workspace_node().unwrap();
    assert_eq!(node.name, "widgets");
    assert_eq!(node.repo_info.unwrap().display_name, "github.com/acme/widgets");
    app.workspace_state.select(Some(99));
    assert!(app.selected_workspace_node().is_none());
    app.library_state.select(Some(2));
    assert_eq!(app.selected_library_node().unwrap().name, "api");
}

#[test]
fn toggle_collapses_the_selected_directory() {
    let mut app = app();
    app.next();
    app.toggle_expand();
    assert_eq!(names(app.get_flattened_workspace()), vec!["github.com", "github.com/acme"]);
    assert_eq!(app.count_workspace_repos(), 2);
    assert_eq!(cursor(&app), (true, Some(1), None));
    app.toggle_expand();
    assert_eq!(app.get_flattened_workspace().len(), 4);
    assert_eq!(app.get_flattened_library().len(), 3);
}

#[test]
fn toggle_in_the_library_leaves_the_workspace() {
    let mut app = app();
    app.active_section = Section::Library;
    app.library_state.select(Some(0));
    app.toggle_expand();
    assert_eq!(names(app.get_flattened_library()), vec!["gitlab.com"]);
    assert_eq!(app.get_flattened_workspace().len(), 4);
}

#[test]
fn status_update_reaches_full_and_filtered_forests() {
    let mut app = app();
    app.update_repo_status("github.com/acme/gears", RepoOperationStatus::InProgress);
    let shown = app.get_flattened_workspace();
    let gears = shown.iter().find(|row| row.3 == "github.com/acme/gears").unwrap();
    assert_eq!(
        gears.0.repo_info.as_ref().unwrap().operation_status,
        RepoOperationStatus::InProgress
    );
    let kept = duplicate_forest(&app.workspace_tree);
    let full = workset::tree::flatten_trees(&kept);
    let gears = full.iter().find(|row| row.3 == "github.com/acme/gears").unwrap();
    assert_eq!(
        gears.0.repo_info.as_ref().unwrap().operation_status,
        RepoOperationStatus::InProgress
    );
    let widgets = full.iter().find(|row| row.3 == "github.com/acme/widgets").unwrap();
    assert_eq!(widgets.0.repo_info.as_ref().unwrap().operation_status, RepoOperationStatus::Idle);
}
