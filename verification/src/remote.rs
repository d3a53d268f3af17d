//! Remote providers: how each names itself and which repository paths the
//! listing of its command-line client holds.

use crate::pattern::{join_with_slash, slash_joined};
use crate::text::{
    chars_of, find_char, first_index, lines, lines_of, starts_with, string_from, string_of,
    texts, trim, trimmed, views,
};
use vstd::prelude::*;
use vstd::string::StringExecFns;

verus! {

/// A user or an organization on GitHub.
#[derive(Debug)]
pub struct GithubRemote {
    /// The user or organization name.
    pub user: String,
    /// Whether forks are listed.
    pub include_forks: bool,
    /// Whether archived repositories are listed.
    pub include_archived: bool,
}

/// A user or a group on a GitLab instance.
#[derive(Debug)]
pub struct GitlabRemote {
    /// The user or group name.
    pub user: String,
    /// The URL of the instance.
    pub url: String,
    /// Whether forks are listed.
    pub include_forks: bool,
    /// Whether archived repositories are listed.
    pub include_archived: bool,
}

/// No provider.
#[derive(Debug)]
pub struct NoneRemote;

/// One repository in the listing of the GitHub client.
#[derive(Debug, Clone)]
pub struct GithubRepo {
    /// `owner/name`.
    pub name_with_owner: String,
    pub is_fork: bool,
    pub is_archived: bool,
}

/// What a provider's client listed.
#[derive(Debug)]
pub enum Listing {
    /// The repositories that the GitHub client listed.
    Github(Vec<GithubRepo>),
    /// The text that the GitLab client printed: one line per project, the
    /// project's path first, then tab-separated columns.
    Gitlab(String),
}

/// A provider.
#[derive(Debug)]
pub enum Remote {
    Github(GithubRemote),
    Gitlab(GitlabRemote),
    Unset(NoneRemote),
}

/// A provider that can tell the repository paths in a listing.
pub trait ListRepos {
    /// The repository paths that the provider takes from `listing`.
    spec fn listed(&self, listing: &Listing) -> Seq<Seq<char>>;

    /// The paths of the repositories in `listing` that the provider
    /// offers, each with the provider's domain in front.
    fn list_repo_paths(&self, listing: &Listing) -> (found: Vec<String>)
        ensures
            texts(found@) == self.listed(listing),
    ;
}

/// A provider that has a name.
pub trait Metadata {
    /// The name of the provider.
    spec fn named(&self) -> Seq<char>;

    /// The name of the provider: its domain and the user.
    fn name(&self) -> (out: String)
        ensures
            out@ == self.named(),
    ;
}

/// The URL of the instance of a remote that names none.
pub fn default_gitlab_url() -> (url: String)
    ensures
        url@ == "https://gitlab.com"@,
{
    "https://gitlab.com".to_string()
}

/// The domain of an instance: its URL without a leading `https://` or
/// `http://`.
pub open spec fn domain_of(url: Seq<char>) -> Seq<char> {
    if "https://"@.is_prefix_of(url) {
        url.skip("https://"@.len() as int)
    } else if "http://"@.is_prefix_of(url) {
        url.skip("http://"@.len() as int)
    } else {
        url
    }
}

/// The paths of the repositories among the first `n` of `repos` that a
/// GitHub remote with these settings offers.
pub open spec fn github_paths(
    repos: Seq<GithubRepo>,
    n: int,
    include_forks: bool,
    include_archived: bool,
) -> Seq<Seq<char>>
    decreases n,
{
    if n <= 0 || n > repos.len() {
        Seq::empty()
    } else {
        let before = github_paths(repos, n - 1, include_forks, include_archived);
        let repo = repos[n - 1];
        if (!include_forks && repo.is_fork) || (!include_archived && repo.is_archived) {
            before
        } else {
            before.push(slash_joined("github.com"@, repo.name_with_owner@))
        }
    }
}

/// The paths of the projects in the first `n` of the lines that the GitLab
/// client printed: for each line that is not blank, its first
/// tab-separated column behind the domain.
pub open spec fn gitlab_paths(domain: Seq<char>, printed: Seq<Seq<char>>, n: int) -> Seq<Seq<char>>
    decreases n,
{
    if n <= 0 || n > printed.len() {
        Seq::empty()
    } else {
        let before = gitlab_paths(domain, printed, n - 1);
        let line = printed[n - 1];
        if trim(line).len() == 0 {
            before
        } else {
            before.push(slash_joined(domain, line.take(first_index(line, '\t'))))
        }
    }
}

impl GithubRemote {
    /// The remote as shown to the user: `Github(<user>)`.
    pub fn display_text(&self) -> (out: String)
        ensures
            out@ == "Github("@ + self.user@ + ")"@,
    {
        "Github(".to_string().concat(self.user.as_str()).concat(")")
    }
}

impl GitlabRemote {
    /// The remote as shown to the user: `Gitlab(<user>)`.
    pub fn display_text(&self) -> (out: String)
        ensures
            out@ == "Gitlab("@ + self.user@ + ")"@,
    {
        "Gitlab(".to_string().concat(self.user.as_str()).concat(")")
    }

    /// The domain of the instance.
    pub fn domain(&self) -> (out: String)
        ensures
            out@ == domain_of(self.url@),
    {
        let url = chars_of(self.url.as_str());
        let secure = chars_of("https://");
        let plain = chars_of("http://");
        let out = if starts_with(&url, &secure) {
            string_of(&url, secure.len(), url.len())
        } else if starts_with(&url, &plain) {
            string_of(&url, plain.len(), url.len())
        } else {
            string_from(&url)
        };
        proof {
            assert(url@.subrange(secure@.len() as int, url@.len() as int) == url@.skip(
                secure@.len() as int,
            ));
            assert(url@.subrange(plain@.len() as int, url@.len() as int) == url@.skip(
                plain@.len() as int,
            ));
        }
        out
    }
}

impl Metadata for GithubRemote {
    open spec fn named(&self) -> Seq<char> {
        slash_joined("github.com"@, self.user@)
    }

    fn name(&self) -> (out: String) {
        join_with_slash("github.com", self.user.as_str())
    }
}

impl Metadata for GitlabRemote {
    open spec fn named(&self) -> Seq<char> {
        slash_joined(domain_of(self.url@), self.user@)
    }

    fn name(&self) -> (out: String) {
        let domain = self.domain();
        join_with_slash(domain.as_str(), self.user.as_str())
    }
}

impl Metadata for NoneRemote {
    open spec fn named(&self) -> Seq<char> {
        Seq::empty()
    }

    fn name(&self) -> (out: String) {
        String::new()
    }
}

impl Metadata for Remote {
    open spec fn named(&self) -> Seq<char> {
        match self {
            Remote::Github(remote) => remote.named(),
            Remote::Gitlab(remote) => remote.named(),
            Remote::Unset(remote) => remote.named(),
        }
    }

    fn name(&self) -> (out: String) {
        match self {
            Remote::Github(remote) => remote.name(),
            Remote::Gitlab(remote) => remote.name(),
            Remote::Unset(remote) => remote.name(),
        }
    }
}

impl ListRepos for GithubRemote {
    open spec fn listed(&self, listing: &Listing) -> Seq<Seq<char>> {
        match listing {
            Listing::Github(repos) => github_paths(
                repos@,
                repos@.len() as int,
                self.include_forks,
                self.include_archived,
            ),
            _ => Seq::empty(),
        }
    }

    fn list_repo_paths(&self, listing: &Listing) -> (found: Vec<String>) {
        let mut found: Vec<String> = Vec::new();
        assert(texts(found@) =~= Seq::<Seq<char>>::empty());
        if let Listing::Github(repos) = listing {
            let mut i: usize = 0;
            while i < repos.len()
                invariant
                    i <= repos.len(),
                    texts(found@) == github_paths(
                        repos@,
                        i as int,
                        self.include_forks,
                        self.include_archived,
                    ),
                decreases repos.len() - i,
            {
                let repo = &repos[i];
                let skipped = (!self.include_forks && repo.is_fork) || (!self.include_archived
                    && repo.is_archived);
                if !skipped {
                    let path = join_with_slash("github.com", repo.name_with_owner.as_str());
                    proof {
                        assert(texts(found@.push(path)) =~= texts(found@).push(path@));
                    }
                    found.push(path);
                }
                i += 1;
            }
        }
        found
    }
}

impl ListRepos for GitlabRemote {
    open spec fn listed(&self, listing: &Listing) -> Seq<Seq<char>> {
        match listing {
            Listing::Gitlab(printed) => gitlab_paths(
                domain_of(self.url@),
                lines(printed@),
                lines(printed@).len() as int,
            ),
            _ => Seq::empty(),
        }
    }

    fn list_repo_paths(&self, listing: &Listing) -> (found: Vec<String>) {
        let mut found: Vec<String> = Vec::new();
        assert(texts(found@) =~= Seq::<Seq<char>>::empty());
        if let Listing::Gitlab(printed) = listing {
            let domain = self.domain();
            let text = chars_of(printed.as_str());
            let all = lines_of(&text);
            let mut i: usize = 0;
            while i < all.len()
                invariant
                    i <= all.len(),
                    views(all@) == lines(printed@),
                    domain@ == domain_of(self.url@),
                    texts(found@) == gitlab_paths(domain@, views(all@), i as int),
                decreases all.len() - i,
            {
                let line = &all[i];
                proof {
                    assert(views(all@)[i as int] == line@);
                }
                if trimmed(line).len() > 0 {
                    let tab = find_char(line, '\t', 0);
                    let project = string_of(line, 0, tab);
                    let path = join_with_slash(domain.as_str(), project.as_str());
                    proof {
                        assert(line@.subrange(0, tab as int) == line@.take(tab as int));
                        assert(texts(found@.push(path)) =~= texts(found@).push(path@));
                    }
                    found.push(path);
                }
                i += 1;
            }
        }
        found
    }
}

impl ListRepos for NoneRemote {
    open spec fn listed(&self, listing: &Listing) -> Seq<Seq<char>> {
        Seq::empty()
    }

    fn list_repo_paths(&self, listing: &Listing) -> (found: Vec<String>) {
        let found: Vec<String> = Vec::new();
        assert(texts(found@) =~= Seq::<Seq<char>>::empty());
        found
    }
}

impl ListRepos for Remote {
    open spec fn listed(&self, listing: &Listing) -> Seq<Seq<char>> {
        match self {
            Remote::Github(remote) => remote.listed(listing),
            Remote::Gitlab(remote) => remote.listed(listing),
            Remote::Unset(remote) => remote.listed(listing),
        }
    }

    fn list_repo_paths(&self, listing: &Listing) -> (found: Vec<String>) {
        match self {
            Remote::Github(remote) => remote.list_repo_paths(listing),
            Remote::Gitlab(remote) => remote.list_repo_paths(listing),
            Remote::Unset(remote) => remote.list_repo_paths(listing),
        }
    }
}

} // verus!
