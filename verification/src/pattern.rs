//! Repository patterns of the form `[provider/]path`.

use crate::text::{chars_of, find_char, first_index, lemma_first_from, string_of};
use std::str::FromStr;
use vstd::prelude::*;
use vstd::string::StringExecFns;

verus! {

/// A pattern that matches one or more repositories: `[provider/]path`.
#[derive(Debug, PartialEq, Eq)]
pub struct RepoPattern {
    /// The provider, such as `github.com`.
    pub provider: Option<String>,
    /// The repository path below the provider.
    pub path: String,
}

/// The error type that `FromStr` asks for. Every text is a pattern, so no
/// parse returns it.
#[derive(Debug, Clone, Copy, PartialEq, Eq)]
pub struct PatternError;

/// `s` begins with a provider: its first `/`-delimited segment is followed
/// by a `/` and holds a `.`.
pub open spec fn has_provider(s: Seq<char>) -> bool {
    first_index(s, '/') < s.len() && first_index(s, '.') < first_index(s, '/')
}

/// The provider that `s` begins with, if any.
pub open spec fn provider_of(s: Seq<char>) -> Option<Seq<char>> {
    if has_provider(s) {
        Some(s.take(first_index(s, '/')))
    } else {
        None
    }
}

/// The path of the pattern `s`: what follows the provider and its `/`, or
/// all of `s` where it has no provider.
pub open spec fn path_of(s: Seq<char>) -> Seq<char> {
    if has_provider(s) {
        s.skip(first_index(s, '/') + 1)
    } else {
        s
    }
}

/// `a/b`.
pub open spec fn slash_joined(a: Seq<char>, b: Seq<char>) -> Seq<char> {
    a + seq!['/'] + b
}

/// The string `a/b`.
pub fn join_with_slash(a: &str, b: &str) -> (out: String)
    ensures
        out@ == slash_joined(a@, b@),
{
    proof {
        reveal_strlit("/");
        assert("/"@ =~= seq!['/']);
    }
    a.to_string().concat("/").concat(b)
}

impl RepoPattern {
    /// The provider as a sequence of characters.
    pub open spec fn provider_view(&self) -> Option<Seq<char>> {
        match self.provider {
            Some(p) => Some(p@),
            None => None,
        }
    }

    /// The text that parses to this pattern's repositories: `provider/path`,
    /// or `path` alone.
    pub open spec fn full_path_view(&self) -> Seq<char> {
        match self.provider {
            Some(p) => slash_joined(p@, self.path@),
            None => self.path@,
        }
    }

    /// Parses `[provider/]path`. The first segment is the provider only if
    /// a `/` follows it and it holds a `.`, which marks a domain name; every
    /// other text is a path without provider.
    pub fn parse(text: &str) -> (r: RepoPattern)
        ensures
            r.provider_view() == provider_of(text@),
            r.path@ == path_of(text@),
            r.provider is None ==> r.path@ == text@,
            r.provider is Some ==> r.full_path_view() == text@,
    {
        let chars = chars_of(text);
        let slash = find_char(&chars, '/', 0);
        let dot = find_char(&chars, '.', 0);
        if slash < chars.len() && dot < slash {
            let provider = string_of(&chars, 0, slash);
            let path = string_of(&chars, slash + 1, chars.len());
            proof {
                let s = text@;
                assert(s.subrange(0, slash as int) == s.take(slash as int));
                assert(s.subrange(slash + 1, s.len() as int) == s.skip(slash + 1));
                lemma_first_from(s, '/', 0);
                assert(s.take(slash as int) + seq!['/'] + s.skip(slash + 1) =~= s);
            }
            RepoPattern { provider: Some(provider), path }
        } else {
            RepoPattern { provider: None, path: text.to_string() }
        }
    }

    /// The provider and the path, where the pattern has a provider.
    pub fn provider_and_path(&self) -> (r: Option<(&str, &str)>)
        ensures
            r is Some == self.provider is Some,
            r is Some ==> r.unwrap().0@ == self.provider.unwrap()@ && r.unwrap().1@
                == self.path@,
    {
        match &self.provider {
            Some(p) => Some((p.as_str(), self.path.as_str())),
            None => None,
        }
    }

    /// The pattern as text: `provider/path`, or `path` where there is no
    /// provider.
    pub fn full_path(&self) -> (out: String)
        ensures
            out@ == self.full_path_view(),
    {
        match &self.provider {
            Some(provider) => join_with_slash(provider.as_str(), self.path.as_str()),
            None => self.path.clone(),
        }
    }
}

impl FromStr for RepoPattern {
    type Err = PatternError;

    /// Parses `[provider/]path`, as `RepoPattern::parse` does. Every text
    /// is a pattern: the result is never an error.
    fn from_str(text: &str) -> (r: Result<Self, Self::Err>)
        ensures
            r is Ok,
            r.unwrap().provider_view() == provider_of(text@),
            r.unwrap().path@ == path_of(text@),
            r.unwrap().provider is None ==> r.unwrap().path@ == text@,
            r.unwrap().provider is Some ==> r.unwrap().full_path_view() == text@,
    {
        Ok(RepoPattern::parse(text))
    }
}

/// Parsing the text of a pattern gives the pattern back: no text is lost or
/// changed between `parse` and `full_path`.
pub proof fn lemma_parse_round_trip(text: Seq<char>)
    ensures
        match provider_of(text) {
            Some(p) => slash_joined(p, path_of(text)) == text,
            None => path_of(text) == text,
        },
{
    if has_provider(text) {
        lemma_first_from(text, '/', 0);
        let i = first_index(text, '/');
        assert(text.take(i) + seq!['/'] + text.skip(i + 1) =~= text);
    }
}

} // verus!
