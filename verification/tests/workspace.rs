use workset::lifecycle::DropStep;
use workset::pattern::RepoPattern;
use workset::workspace::{clone_url, locate, Workspace};

fn workspace() -> Workspace {
    Workspace { path: "/home/me/ws".to_string() }
}

#[test]
fn library_is_the_workset_directory() {
    assert_eq!(workspace().library_path(), "/home/me/ws/.workset");
    assert_eq!(workspace().library_path_buf(), "/home/me/ws/.workset");
    assert_eq!(Workspace { path: String::new() }.library_path(), "/.workset");
}

#[test]
fn paths_of_a_key() {
    let ws = workspace();
    assert_eq!(ws.repo_path("github.com/acme/widgets"), "/home/me/ws/github.com/acme/widgets");
    assert_eq!(
        ws.library_entry("github.com/acme/widgets"),
        "/home/me/ws/.workset/github.com/acme/widgets"
    );
}

#[test]
fn relative_key_is_the_path_below_the_workspace() {
    let ws = workspace();
    assert_eq!(ws.relative_key("/home/me/ws/github.com/acme/widgets"), "github.com/acme/widgets");
    assert_eq!(ws.relative_key("/home/me/ws/repo-a"), "repo-a");
    assert_eq!(ws.relative_key("/home/me/ws"), "");
    assert_eq!(ws.relative_key("/home/me/ws//a/./b"), "a/./b");
    assert_eq!(ws.relative_key("/home/me/ws/"), "");
}

#[test]
fn relative_key_outside_the_workspace_is_the_path_without_leading_slash() {
    let ws = workspace();
    assert_eq!(ws.relative_key("/elsewhere/repo"), "elsewhere/repo");
    assert_eq!(ws.relative_key("/home/me/wsx/repo"), "home/me/wsx/repo");
    assert_eq!(ws.relative_key("relative/repo"), "relative/repo");
}

#[test]
fn store_and_restore_plans_mirror_each_other() {
    let ws = workspace();
    let store = ws.store_in_library("github.com/acme/widgets");
    assert_eq!(store.source, "/home/me/ws/github.com/acme/widgets/.git");
    assert_eq!(store.config, "/home/me/ws/github.com/acme/widgets/.git/config");
    assert_eq!(store.dest, "/home/me/ws/.workset/github.com/acme/widgets");
    assert_eq!(store.aside, "/home/me/ws/.workset/github.com/acme/widgets.replaced");
    let restore = ws.restore_from_library("github.com/acme/widgets");
    assert_eq!(restore.source, store.dest);
    assert_eq!(format!("{}/.git", restore.dest), store.source);
    assert_eq!(restore.config, store.config);
}

#[test]
fn stored_key_round_trips_through_the_paths() {
    let ws = workspace();
    let key = ws.relative_key("/home/me/ws/a/b");
    let restore = ws.restore_from_library(&key);
    assert_eq!(restore.dest, "/home/me/ws/a/b");
    assert_eq!(ws.relative_key(&restore.dest), key);
}

#[test]
fn list_library_gives_sorted_keys() {
    let ws = workspace();
    let found: Vec<String> = [
        "/home/me/ws/.workset/gitlab.com/team/api",
        "/home/me/ws/.workset",
        "/home/me/ws/.workset/github.com/acme/widgets",
        "/somewhere/else",
        "/home/me/ws/.workset/github.com/acme/gears",
    ]
    .iter()
    .map(|p| p.to_string())
    .collect();
    assert_eq!(
        ws.list_library(&found),
        vec![
            "github.com/acme/gears".to_string(),
            "github.com/acme/widgets".to_string(),
            "gitlab.com/team/api".to_string()
        ]
    );
    assert!(ws.list_library(&Vec::new()).is_empty());
}

#[test]
fn completion_names_are_sorted_and_unique() {
    let ws = workspace();
    let found: Vec<String> = [
        "/home/me/ws/b",
        "/home/me/ws/a/x",
        "/other/c",
        "/home/me/ws/b",
        "/home/me/ws/a",
    ]
    .iter()
    .map(|p| p.to_string())
    .collect();
    assert_eq!(
        ws.completion_names(&found),
        vec!["a".to_string(), "a/x".to_string(), "b".to_string()]
    );
}

#[test]
fn clone_url_takes_a_provider() {
    assert_eq!(
        clone_url(&RepoPattern::parse("github.com/acme/widgets")),
        Some("https://github.com/acme/widgets".to_string())
    );
    assert_eq!(clone_url(&RepoPattern::parse("acme/widgets")), None);
}

#[test]
fn locate_takes_the_nearest_marked_ancestor() {
    let candidates = vec![
        ("/a/b/c".to_string(), false),
        ("/a/b".to_string(), true),
        ("/a".to_string(), true),
        ("/".to_string(), false),
    ];
    assert_eq!(locate(&candidates).unwrap().path, "/a/b");
    let unmarked = vec![("/a/b".to_string(), false), ("/a".to_string(), false), ("/".to_string(), false)];
    assert!(locate(&unmarked).is_none());
    assert!(locate(&Vec::new()).is_none());
}

#[test]
fn drop_starts_with_the_inspection_unless_forced() {
    let ws = workspace();
    assert_eq!(ws.drop(false, false).step(), DropStep::Inspect);
    assert_eq!(ws.drop(true, false).step(), DropStep::Inspect);
    assert_eq!(ws.drop(false, true).step(), DropStep::Store);
    assert_eq!(ws.drop(true, true).step(), DropStep::Remove);
}
