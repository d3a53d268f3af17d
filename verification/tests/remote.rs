use workset::remote::{
    default_gitlab_url, GithubRemote, GithubRepo, GitlabRemote, ListRepos, Listing, Metadata,
    NoneRemote, Remote,
};

#[test]
fn test_github_remote_display() {
    let remote = GithubRemote {
        user: "testuser".to_string(),
        include_forks: false,
        include_archived: false,
    };
    assert_eq!(remote.display_text(), "Github(testuser)");
}

#[test]
fn test_github_remote_name() {
    let remote = GithubRemote {
        user: "octocat".to_string(),
        include_forks: false,
        include_archived: false,
    };
    assert_eq!(remote.name(), "github.com/octocat");
}

#[test]
fn test_gitlab_remote_display() {
    let remote = GitlabRemote {
        user: "testuser".to_string(),
        url: "https://gitlab.com".to_string(),
        include_forks: false,
        include_archived: false,
    };
    assert_eq!(remote.display_text(), "Gitlab(testuser)");
}

#[test]
fn test_gitlab_remote_name() {
    let remote = GitlabRemote {
        user: "testuser".to_string(),
        url: "https://gitlab.com".to_string(),
        include_forks: false,
        include_archived: false,
    };
    assert_eq!(remote.name(), "gitlab.com/testuser");
}

#[test]
fn test_gitlab_remote_name_custom_instance() {
    let remote = GitlabRemote {
        user: "testuser".to_string(),
        url: "https://gitlab.example.com".to_string(),
        include_forks: false,
        include_archived: false,
    };
    assert_eq!(remote.name(), "gitlab.example.com/testuser");
}

fn gitlab(url: &str) -> GitlabRemote {
    GitlabRemote {
        user: "team".to_string(),
        url: url.to_string(),
        include_forks: true,
        include_archived: true,
    }
}

fn repo(name: &str, is_fork: bool, is_archived: bool) -> GithubRepo {
    GithubRepo { name_with_owner: name.to_string(), is_fork, is_archived }
}

#[test]
fn gitlab_domain_strips_the_scheme() {
    assert_eq!(gitlab("https://gitlab.com").domain(), "gitlab.com");
    assert_eq!(gitlab("http://git.local").domain(), "git.local");
    assert_eq!(gitlab("git.local").domain(), "git.local");
    assert_eq!(gitlab("ftp://git.local").domain(), "ftp://git.local");
}

#[test]
fn default_gitlab_url_is_gitlab_com() {
    assert_eq!(default_gitlab_url(), "https://gitlab.com");
}

#[test]
fn none_remote_has_no_name_and_lists_nothing() {
    assert_eq!(NoneRemote.name(), "");
    assert!(NoneRemote.list_repo_paths(&Listing::Gitlab("a/b\n".to_string())).is_empty());
    assert_eq!(Remote::Unset(NoneRemote).name(), "");
}

#[test]
fn remote_dispatches_to_its_provider() {
    let remote = Remote::Gitlab(gitlab("https://gitlab.example.com"));
    assert_eq!(remote.name(), "gitlab.example.com/team");
    let listing = Listing::Gitlab("team/a\tfirst\n\nteam/b\n".to_string());
    assert_eq!(
        remote.list_repo_paths(&listing),
        vec!["gitlab.example.com/team/a".to_string(), "gitlab.example.com/team/b".to_string()]
    );
}

#[test]
fn github_listing_leaves_out_forks_and_archived() {
    let listing = Listing::Github(vec![
        repo("octo/a", false, false),
        repo("octo/fork", true, false),
        repo("octo/old", false, true),
        repo("octo/b", false, false),
    ]);
    let strict = GithubRemote {
        user: "octo".to_string(),
        include_forks: false,
        include_archived: false,
    };
    assert_eq!(
        strict.list_repo_paths(&listing),
        vec!["github.com/octo/a".to_string(), "github.com/octo/b".to_string()]
    );
    let forks = GithubRemote {
        user: "octo".to_string(),
        include_forks: true,
        include_archived: false,
    };
    assert_eq!(
        forks.list_repo_paths(&listing),
        vec![
            "github.com/octo/a".to_string(),
            "github.com/octo/fork".to_string(),
            "github.com/octo/b".to_string()
        ]
    );
    let everything = GithubRemote {
        user: "octo".to_string(),
        include_forks: true,
        include_archived: true,
    };
    assert_eq!(everything.list_repo_paths(&listing).len(), 4);
}

#[test]
fn github_remote_ignores_a_gitlab_listing() {
    let remote = GithubRemote {
        user: "octo".to_string(),
        include_forks: true,
        include_archived: true,
    };
    assert!(remote.list_repo_paths(&Listing::Gitlab("octo/a\n".to_string())).is_empty());
}

#[test]
fn gitlab_listing_takes_the_first_column_of_each_line() {
    let remote = gitlab("https://gitlab.com");
    let listing = Listing::Gitlab("team/a\tdescription\turl\n   \nteam/sub/b\r\n".to_string());
    assert_eq!(
        remote.list_repo_paths(&listing),
        vec!["gitlab.com/team/a".to_string(), "gitlab.com/team/sub/b".to_string()]
    );
}
