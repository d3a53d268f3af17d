use workset::batch::{
    github_names, is_mass_clone, listed_names, pattern_at, present_names, preview, ListingError,
};
use workset::completion::{complete_bash, complete_fish, fish_line, Offer};
use workset::log::LogCapture;
use workset::pattern::RepoPattern;
use workset::report::{count_statuses, describe, status_label, StatusCounts};
use workset::status::RepoStatus;
use workset::text::words_of;

#[test]
fn words_are_as_split_whitespace_gives_them() {
    for text in ["", "  ", "a", " a  b\tc\n", "workset drop ", "x\u{a0}y", "\u{3000}"] {
        let chars: Vec<char> = text.chars().collect();
        let found: Vec<String> = words_of(&chars).iter().map(|w| w.iter().collect()).collect();
        let expected: Vec<String> = text.split_whitespace().map(|w| w.to_string()).collect();
        assert_eq!(found, expected, "words of {:?}", text);
    }
}

#[test]
fn bash_offers_subcommands_for_the_first_word() {
    assert_eq!(complete_bash("", true), Offer::Subcommands);
    assert_eq!(complete_bash("workset", true), Offer::Subcommands);
    assert_eq!(complete_bash("workset ", true), Offer::Subcommands);
    assert_eq!(complete_bash("", false), Offer::Init);
    assert_eq!(complete_bash("workset ", false), Offer::Init);
}

#[test]
fn bash_offers_names_behind_the_subcommand() {
    assert_eq!(complete_bash("workset drop ", true), Offer::WorkspaceRepos);
    assert_eq!(complete_bash("workset drop git", true), Offer::WorkspaceRepos);
    assert_eq!(complete_bash("workset dr", true), Offer::WorkspaceRepos);
    assert_eq!(complete_bash("workset list ", true), Offer::WorkspaceRepos);
    assert_eq!(complete_bash("workset restore ", true), Offer::LibraryEntries);
    assert_eq!(complete_bash("workset   restore   gi", true), Offer::LibraryEntries);
    assert_eq!(complete_bash("workset drop ", false), Offer::Nothing);
}

#[test]
fn fish_offers_subcommands_until_a_space_follows() {
    assert_eq!(complete_fish("", true), Offer::Subcommands);
    assert_eq!(complete_fish("workset", true), Offer::Subcommands);
    assert_eq!(complete_fish("workset dr", true), Offer::Subcommands);
    assert_eq!(complete_fish("workset dr", false), Offer::Init);
    assert_eq!(complete_fish("workset drop ", true), Offer::WorkspaceRepos);
    assert_eq!(complete_fish("workset restore ", true), Offer::LibraryEntries);
    assert_eq!(complete_fish("workset restore a b", true), Offer::LibraryEntries);
    assert_eq!(complete_fish("workset drop\t", true), Offer::Subcommands);
    assert_eq!(complete_fish("workset drop ", false), Offer::Nothing);
}

#[test]
fn fish_line_is_tab_separated() {
    assert_eq!(fish_line("a/b", "clean, 2h"), "a/b\tclean, 2h");
    assert_eq!(fish_line("", ""), "\t");
}

#[test]
fn description_joins_status_and_age() {
    assert_eq!(describe(Some(RepoStatus::Clean), Some("2h")), "clean, 2h");
    assert_eq!(describe(Some(RepoStatus::Dirty), None), "dirty");
    assert_eq!(describe(Some(RepoStatus::Unpushed), Some("5d")), "unpushed, 5d");
    assert_eq!(describe(Some(RepoStatus::NoCommits), None), "no commits");
    assert_eq!(describe(None, Some("1y")), "1y");
    assert_eq!(describe(None, None), "repository");
}

#[test]
fn labels_of_the_listing() {
    assert_eq!(status_label(Some(RepoStatus::Clean)), "✓ clean");
    assert_eq!(status_label(Some(RepoStatus::Dirty)), "⚠ modified");
    assert_eq!(status_label(Some(RepoStatus::Unpushed)), "⚠ unpushed");
    assert_eq!(status_label(Some(RepoStatus::NoCommits)), "⚠ no commits");
    assert_eq!(status_label(None), "✗ error");
}

#[test]
fn statuses_are_counted_by_state() {
    let statuses = vec![
        Some(RepoStatus::Clean),
        Some(RepoStatus::Dirty),
        None,
        Some(RepoStatus::NoCommits),
        Some(RepoStatus::Unpushed),
        Some(RepoStatus::Clean),
    ];
    assert_eq!(count_statuses(&statuses), StatusCounts { clean: 2, modified: 2, unpushed: 1 });
    assert_eq!(count_statuses(&Vec::new()), StatusCounts { clean: 0, modified: 0, unpushed: 0 });
}

#[test]
fn mass_clone_is_for_an_owner_at_a_known_provider() {
    assert!(is_mass_clone(&RepoPattern::parse("github.com/acme")));
    assert!(is_mass_clone(&RepoPattern::parse("gitlab.com/team")));
    assert!(is_mass_clone(&RepoPattern::parse("github.com/")));
    assert!(!is_mass_clone(&RepoPattern::parse("github.com/acme/widgets")));
    assert!(!is_mass_clone(&RepoPattern::parse("example.com/acme")));
    assert!(!is_mass_clone(&RepoPattern::parse("acme")));
    assert!(!is_mass_clone(&RepoPattern::parse("acme/widgets")));
}

#[test]
fn listed_names_are_the_lines_that_are_not_blank() {
    assert_eq!(
        listed_names("team/a\n  team/b  \r\n\n\t\nteam/c"),
        vec!["team/a".to_string(), "team/b".to_string(), "team/c".to_string()]
    );
    assert!(listed_names("").is_empty());
    assert!(listed_names(" \n \n").is_empty());
}

#[test]
fn github_names_are_read_from_the_json_listing() {
    let json = r#"[{"nameWithOwner":"acme/widgets"},{"nameWithOwner":"acme/gears","isFork":true}]"#;
    assert_eq!(
        github_names(json),
        Ok(vec!["acme/widgets".to_string(), "acme/gears".to_string()])
    );
    assert_eq!(github_names("[]"), Ok(Vec::new()));
    assert_eq!(github_names("  [ ]\n"), Ok(Vec::new()));
}

#[test]
fn github_names_skip_elements_without_a_name() {
    let json = r#"[{"name":"x"}, 7, {"nameWithOwner": 5}, null, {"nameWithOwner":"acme/é"}, "s", []]"#;
    assert_eq!(github_names(json), Ok(vec!["acme/é".to_string()]));
}

#[test]
fn github_names_of_malformed_text() {
    assert_eq!(github_names(""), Err(ListingError::Malformed));
    assert_eq!(github_names("{}"), Err(ListingError::Malformed));
    assert_eq!(github_names("[{]"), Err(ListingError::Malformed));
    assert_eq!(github_names("[] x"), Err(ListingError::Malformed));
    assert_eq!(github_names("acme/widgets"), Err(ListingError::Malformed));
}

#[test]
fn present_names_keep_their_order() {
    let items = vec![None, Some("b".to_string()), None, Some("a".to_string())];
    assert_eq!(present_names(&items), vec!["b".to_string(), "a".to_string()]);
    assert!(present_names(&vec![None, None]).is_empty());
}

#[test]
fn pattern_at_a_provider() {
    let pattern = pattern_at("github.com", "acme/widgets");
    assert_eq!(pattern.provider, Some("github.com".to_string()));
    assert_eq!(pattern.path, "acme/widgets");
    let odd = pattern_at("localhost", "acme/widgets");
    assert_eq!(odd.provider, None);
    assert_eq!(odd.path, "localhost/acme/widgets");
}

#[test]
fn preview_shows_up_to_the_limit() {
    assert_eq!(preview(3, 10), (3, 0));
    assert_eq!(preview(10, 10), (10, 0));
    assert_eq!(preview(25, 10), (10, 15));
    assert_eq!(preview(0, 10), (0, 0));
    assert_eq!(preview(5, 0), (0, 5));
}

#[test]
fn log_capture_holds_the_last_message() {
    let mut capture = LogCapture::new();
    assert_eq!(capture.get_message(), "");
    capture.set_message("first".to_string());
    capture.set_message("second".to_string());
    assert_eq!(capture.get_message(), "second");
    assert_eq!(LogCapture::default().get_message(), "");
}
