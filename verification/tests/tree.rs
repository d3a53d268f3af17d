use workset::timestamp::Timestamp;
use workset::tree::{
    build_library_tree, build_tree, count_repos_in_trees, flatten_trees, is_listed_before,
    sort_for_listing, toggle_node_at_path, update_repo_status_in_tree, RepoInfo,
    RepoOperationStatus, TreeNode, TreeState,
};

fn repo(name: &str, secs: Option<i64>) -> RepoInfo {
    RepoInfo {
        path: format!("/ws/{}", name),
        display_name: name.to_string(),
        is_clean: true,
        modification_time: secs.map(|secs| Timestamp { secs, nanos: 0 }),
        size_bytes: None,
        operation_status: RepoOperationStatus::Idle,
    }
}

fn names(repos: &[RepoInfo]) -> Vec<&str> {
    repos.iter().map(|r| r.display_name.as_str()).collect()
}

/// The rows of a forest as (name, depth, index path, full path).
fn rows(forest: &[TreeNode]) -> Vec<(String, usize, Vec<usize>, String)> {
    flatten_trees(forest)
        .into_iter()
        .map(|(node, depth, index_path, full_path)| (node.name, depth, index_path, full_path))
        .collect()
}

fn row(name: &str, depth: usize, index_path: &[usize], full_path: &str) -> (String, usize, Vec<usize>, String) {
    (name.to_string(), depth, index_path.to_vec(), full_path.to_string())
}

#[test]
fn tree_state_selects() {
    let mut state = TreeState::new();
    assert_eq!(state.selected(), None);
    state.select(Some(3));
    assert_eq!(state.selected(), Some(3));
    state.select(None);
    assert_eq!(state.selected(), None);
}

#[test]
fn new_repo_is_named_by_the_last_segment() {
    let node = TreeNode::new_repo(repo("github.com/acme/widgets", None));
    assert_eq!(node.name, "widgets");
    assert!(!node.expanded);
    assert!(node.children.is_empty());
    assert_eq!(node.repo_info.unwrap().display_name, "github.com/acme/widgets");
    assert_eq!(TreeNode::new_repo(repo("solo", None)).name, "solo");
    assert_eq!(TreeNode::new_repo(repo("trailing/", None)).name, "");
}

#[test]
fn new_directory_is_expanded_and_empty() {
    let node = TreeNode::new_directory("acme".to_string());
    assert_eq!(node.name, "acme");
    assert!(node.expanded);
    assert!(node.repo_info.is_none());
    assert!(node.children.is_empty());
}

#[test]
fn listing_is_most_recent_first_then_untimed_by_name() {
    let sorted = sort_for_listing(vec![
        repo("old", Some(100)),
        repo("zeta", None),
        repo("new", Some(300)),
        repo("alpha", None),
        repo("mid", Some(200)),
    ]);
    assert_eq!(names(&sorted), vec!["new", "mid", "old", "alpha", "zeta"]);
}

#[test]
fn listing_orders_equal_times_by_name() {
    let sorted = sort_for_listing(vec![
        repo("b", Some(5)),
        repo("a", Some(5)),
        repo("c", Some(5)),
        repo("first", Some(9)),
    ]);
    assert_eq!(names(&sorted), vec!["first", "a", "b", "c"]);
    let forest = build_tree(vec![repo("b", Some(100)), repo("a", Some(100))]);
    assert_eq!(forest.len(), 2);
    assert_eq!(forest[0].name, "a");
    assert_eq!(forest[1].name, "b");
}

#[test]
fn listing_keeps_the_order_of_records_that_are_even() {
    let mut first = repo("same", Some(5));
    first.path = "/one".to_string();
    let mut second = repo("same", Some(5));
    second.path = "/two".to_string();
    let sorted = sort_for_listing(vec![first, repo("other", Some(5)), second]);
    let paths: Vec<&str> = sorted.iter().map(|r| r.path.as_str()).collect();
    assert_eq!(paths, vec!["/ws/other", "/one", "/two"]);
}

#[test]
fn listing_compares_nanoseconds() {
    let mut early = repo("early", Some(7));
    early.modification_time = Some(Timestamp { secs: 7, nanos: 1 });
    let mut late = repo("late", Some(7));
    late.modification_time = Some(Timestamp { secs: 7, nanos: 2 });
    assert!(is_listed_before(&late, &early));
    assert!(!is_listed_before(&early, &late));
    assert!(is_listed_before(&early, &repo("untimed", None)));
    assert!(!is_listed_before(&repo("untimed", None), &early));
    assert!(is_listed_before(&repo("a", Some(7)), &repo("b", Some(7))));
    assert!(!is_listed_before(&repo("b", Some(7)), &repo("a", Some(7))));
    assert!(!is_listed_before(&repo("a", Some(7)), &repo("a", Some(7))));
    assert!(is_listed_before(&repo("a", None), &repo("b", None)));
    assert!(!is_listed_before(&repo("a", None), &repo("a", None)));
}

#[test]
fn build_tree_groups_by_segments() {
    let forest = build_tree(vec![
        repo("github.com/acme/widgets", Some(10)),
        repo("solo", Some(30)),
        repo("github.com/acme/gears", Some(20)),
        repo("github.com/other/thing", None),
    ]);
    assert_eq!(
        rows(&forest),
        vec![
            row("solo", 0, &[0], "solo"),
            row("github.com", 0, &[1], "github.com"),
            row("acme", 1, &[1, 0], "github.com/acme"),
            row("gears", 2, &[1, 0, 0], "github.com/acme/gears"),
            row("widgets", 2, &[1, 0, 1], "github.com/acme/widgets"),
            row("other", 1, &[1, 1], "github.com/other"),
            row("thing", 2, &[1, 1, 0], "github.com/other/thing"),
        ]
    );
    assert!(forest[1].repo_info.is_none());
    assert!(forest[1].expanded);
    assert!(forest[0].repo_info.is_some());
    assert_eq!(count_repos_in_trees(&forest), 4);
}

#[test]
fn build_tree_of_nothing_is_empty() {
    assert!(build_tree(Vec::new()).is_empty());
    assert!(flatten_trees(&[]).is_empty());
    assert_eq!(count_repos_in_trees(&[]), 0);
}

#[test]
fn build_tree_gives_the_record_to_an_existing_node() {
    let forest = build_tree(vec![repo("a/b", Some(2)), repo("a", Some(1))]);
    assert_eq!(forest.len(), 1);
    assert_eq!(forest[0].name, "a");
    assert_eq!(forest[0].repo_info.as_ref().unwrap().display_name, "a");
    assert!(forest[0].expanded);
    assert_eq!(forest[0].children.len(), 1);
    assert_eq!(forest[0].count_repos(), 2);
    assert_eq!(forest[0].collect_repo_paths(), vec!["a".to_string(), "a/b".to_string()]);
}

#[test]
fn build_tree_below_a_repository_keeps_it_collapsed() {
    let forest = build_tree(vec![repo("a", Some(2)), repo("a/b", Some(1))]);
    assert_eq!(forest.len(), 1);
    assert!(!forest[0].expanded);
    assert_eq!(rows(&forest), vec![row("a", 0, &[0], "a")]);
    assert_eq!(count_repos_in_trees(&forest), 2);
}

#[test]
fn build_tree_replaces_a_record_of_the_same_name() {
    let mut second = repo("x/y", Some(1));
    second.is_clean = false;
    let forest = build_tree(vec![repo("x/y", Some(2)), second]);
    assert_eq!(count_repos_in_trees(&forest), 1);
    assert!(!forest[0].children[0].repo_info.as_ref().unwrap().is_clean);
}

#[test]
fn flatten_skips_the_children_of_a_collapsed_node() {
    let mut forest = build_tree(vec![repo("d/one", Some(2)), repo("d/two", Some(1)), repo("e/x", None)]);
    forest[0].expanded = false;
    assert_eq!(
        rows(&forest),
        vec![row("d", 0, &[0], "d"), row("e", 0, &[1], "e"), row("x", 1, &[1, 0], "e/x")]
    );
    assert_eq!(forest[0].count_repos(), 2);
    assert_eq!(forest[0].collect_repo_paths(), vec!["d/one".to_string(), "d/two".to_string()]);
}

#[test]
fn flatten_carries_depth_path_and_parent() {
    let forest = build_tree(vec![repo("p/q/r", None)]);
    let below = &forest[0].children[0];
    let flat: Vec<_> = below
        .flatten(2, vec![7, 8], "over/there")
        .into_iter()
        .map(|(node, depth, index_path, full_path)| (node.name, depth, index_path, full_path))
        .collect();
    assert_eq!(
        flat,
        vec![row("q", 2, &[7, 8], "over/there/q"), row("r", 3, &[7, 8, 0], "p/q/r")]
    );
}

#[test]
fn flatten_of_a_leaf_is_one_row() {
    let leaf = TreeNode::new_repo(repo("x/leaf", None));
    let flat = leaf.flatten(0, Vec::new(), "ignored");
    assert_eq!(flat.len(), 1);
    assert_eq!(flat[0].1, 0);
    assert!(flat[0].2.is_empty());
    assert_eq!(flat[0].3, "x/leaf");
}

#[test]
fn toggle_flips_a_directory_and_spares_a_leaf() {
    let mut forest = build_tree(vec![repo("d/one", None)]);
    assert!(forest[0].expanded);
    toggle_node_at_path(&mut forest, &[0]);
    assert!(!forest[0].expanded);
    assert_eq!(rows(&forest), vec![row("d", 0, &[0], "d")]);
    toggle_node_at_path(&mut forest, &[0]);
    assert!(forest[0].expanded);
    toggle_node_at_path(&mut forest, &[0, 0]);
    assert!(!forest[0].children[0].expanded);
    let mut leaf = TreeNode::new_repo(repo("leaf", None));
    leaf.toggle_expand();
    assert!(!leaf.expanded);
    let mut empty_directory = TreeNode::new_directory("d".to_string());
    empty_directory.toggle_expand();
    assert!(empty_directory.expanded);
}

#[test]
fn toggle_reaches_a_nested_node() {
    let mut forest = build_tree(vec![repo("a/b/c", None), repo("a/x", None), repo("z/y", None)]);
    toggle_node_at_path(&mut forest, &[0, 0]);
    assert!(forest[0].expanded);
    assert!(!forest[0].children[0].expanded);
    assert!(forest[1].expanded);
    assert_eq!(
        rows(&forest),
        vec![
            row("a", 0, &[0], "a"),
            row("b", 1, &[0, 0], "a/b"),
            row("x", 1, &[0, 1], "a/x"),
            row("z", 0, &[1], "z"),
            row("y", 1, &[1, 0], "z/y"),
        ]
    );
}

#[test]
fn toggle_with_a_path_to_nowhere_changes_nothing() {
    let mut forest = build_tree(vec![repo("a/b", None)]);
    let before = rows(&forest);
    toggle_node_at_path(&mut forest, &[]);
    toggle_node_at_path(&mut forest, &[5]);
    toggle_node_at_path(&mut forest, &[0, 9]);
    toggle_node_at_path(&mut forest, &[0, 0, 0]);
    assert_eq!(rows(&forest), before);
    assert!(forest[0].expanded);
}

#[test]
fn library_tree_leaves_out_what_the_workspace_holds() {
    let workspace = vec![repo("github.com/acme/widgets", Some(1))];
    let library = vec![
        repo("github.com/acme/widgets", None),
        repo("github.com/acme/gears", None),
        repo("solo", None),
    ];
    let forest = build_library_tree(library, &workspace);
    let mut held: Vec<String> = forest.iter().flat_map(|n| n.collect_repo_paths()).collect();
    held.sort();
    assert_eq!(held, vec!["github.com/acme/gears".to_string(), "solo".to_string()]);
    assert_eq!(build_library_tree(vec![repo("a", None)], &[]).len(), 1);
}

#[test]
fn status_update_marks_every_node_of_that_name() {
    let mut forest = build_tree(vec![repo("a/b", None), repo("a/c", None), repo("d", None)]);
    update_repo_status_in_tree(&mut forest, "a/c", RepoOperationStatus::InProgress);
    let status = |forest: &[TreeNode], i: usize, j: usize| {
        forest[i].children[j].repo_info.as_ref().unwrap().operation_status
    };
    assert_eq!(status(&forest, 0, 0), RepoOperationStatus::Idle);
    assert_eq!(status(&forest, 0, 1), RepoOperationStatus::InProgress);
    assert_eq!(forest[1].repo_info.as_ref().unwrap().operation_status, RepoOperationStatus::Idle);
    update_repo_status_in_tree(&mut forest, "nobody", RepoOperationStatus::Failed);
    assert_eq!(status(&forest, 0, 1), RepoOperationStatus::InProgress);
    update_repo_status_in_tree(&mut forest, "d", RepoOperationStatus::Succeeded);
    assert_eq!(forest[1].repo_info.as_ref().unwrap().operation_status, RepoOperationStatus::Succeeded);
}

#[test]
fn duplicate_copies_the_whole_subtree() {
    let forest = build_tree(vec![repo("a/b/c", Some(4)), repo("a/d", None)]);
    let copy = forest[0].duplicate();
    assert_eq!(rows(&[copy.clone()]), rows(&forest));
    assert_eq!(copy.collect_repo_paths(), forest[0].collect_repo_paths());
    let record = repo("a/b/c", Some(4));
    let twin = record.duplicate();
    assert_eq!(twin.path, record.path);
    assert_eq!(twin.modification_time, record.modification_time);
}

#[test]
fn forest_holds_the_display_names_of_the_records_and_no_other() {
    let records = vec![
        repo("a/b", Some(3)),
        repo("a", None),
        repo("c/d/e", Some(1)),
        repo("a/b", Some(9)),
        repo("c", Some(2)),
        repo("x//y", None),
    ];
    let mut wanted: Vec<String> = records.iter().map(|r| r.display_name.clone()).collect();
    wanted.sort();
    wanted.dedup();
    let forest = build_tree(records);
    let mut held: Vec<String> = forest.iter().flat_map(|n| n.collect_repo_paths()).collect();
    held.sort();
    assert_eq!(held, wanted);
    assert_eq!(count_repos_in_trees(&forest), 5);
}

#[test]
fn flatten_takes_any_depth() {
    let forest = build_tree(vec![repo("p/q", None)]);
    let deep = forest[0].flatten(7, vec![0], "");
    assert_eq!(deep[0].1, 7);
    assert_eq!(deep[1].1, 8);
    let last = forest[0].flatten(usize::MAX, vec![0], "");
    assert_eq!(last[0].1, usize::MAX);
    assert_eq!(last[1].1, usize::MAX);
}

#[test]
fn rows_of_a_forest_are_as_deep_as_their_index_paths_are_long() {
    let forest = build_tree(vec![repo("a/b/c/d", None), repo("a/x", None), repo("z", None)]);
    for (_, depth, index_path, _) in flatten_trees(&forest) {
        assert_eq!(depth + 1, index_path.len());
    }
}
