//! Requests that mean many repositories: cloning all of a user's
//! repositories, and what is shown of a long list.

use crate::pattern::{join_with_slash, path_of, provider_of, slash_joined, RepoPattern};
use crate::text::{
    chars_of, find_char, first_index, lines, lines_of, same_text, string_from, texts, trim,
    trimmed, views,
};
use vstd::prelude::*;

verus! {

/// The pattern names all repositories of a user or an organization: its
/// provider is `github.com` or `gitlab.com`, and its path is one segment.
pub open spec fn names_an_owner(pattern: &RepoPattern) -> bool {
    match pattern.provider {
        Some(provider) => (provider@ == "github.com"@ || provider@ == "gitlab.com"@) && first_index(
            pattern.path@,
            '/',
        ) >= pattern.path@.len(),
        None => false,
    }
}

/// Whether the pattern names all repositories of a user or an
/// organization, which are then cloned one by one.
pub fn is_mass_clone(pattern: &RepoPattern) -> (r: bool)
    ensures
        r == names_an_owner(pattern),
{
    match &pattern.provider {
        Some(provider) => {
            let known = same_text(provider.as_str(), "github.com") || same_text(
                provider.as_str(),
                "gitlab.com",
            );
            let path = chars_of(pattern.path.as_str());
            known && find_char(&path, '/', 0) >= path.len()
        },
        None => false,
    }
}

/// The names among the first `n` of `printed`, the lines of a listing: each
/// line without surrounding whitespace, but for the blank ones.
pub open spec fn names_printed(printed: Seq<Seq<char>>, n: int) -> Seq<Seq<char>>
    decreases n,
{
    if n <= 0 || n > printed.len() {
        Seq::empty()
    } else if trim(printed[n - 1]).len() == 0 {
        names_printed(printed, n - 1)
    } else {
        names_printed(printed, n - 1).push(trim(printed[n - 1]))
    }
}

/// The repository names in a listing that holds one name per line.
pub fn listed_names(output: &str) -> (names: Vec<String>)
    ensures
        texts(names@) == names_printed(lines(output@), lines(output@).len() as int),
{
    let text = chars_of(output);
    let all = lines_of(&text);
    let mut names: Vec<String> = Vec::new();
    let mut i: usize = 0;
    assert(texts(names@) =~= Seq::<Seq<char>>::empty());
    while i < all.len()
        invariant
            i <= all.len(),
            views(all@) == lines(output@),
            texts(names@) == names_printed(views(all@), i as int),
        decreases all.len() - i,
    {
        let name = trimmed(&all[i]);
        proof {
            assert(views(all@)[i as int] == all@[i as int]@);
        }
        if name.len() > 0 {
            let owned = string_from(&name);
            proof {
                assert(texts(names@.push(owned)) =~= texts(names@).push(owned@));
            }
            names.push(owned);
        }
        i += 1;
    }
    names
}

/// The pattern of the repository `name` at `provider`.
pub fn pattern_at(provider: &str, name: &str) -> (pattern: RepoPattern)
    ensures
        pattern.provider_view() == provider_of(slash_joined(provider@, name@)),
        pattern.path@ == path_of(slash_joined(provider@, name@)),
{
    let text = join_with_slash(provider, name);
    RepoPattern::parse(text.as_str())
}

/// How many of `total` entries are shown when at most `limit` are, and
/// how many are left out.
pub fn preview(total: usize, limit: usize) -> (shown: (usize, usize))
    ensures
        shown.0 == if total <= limit {
            total
        } else {
            limit
        },
        shown.0 + shown.1 == total,
{
    if total <= limit {
        (total, 0)
    } else {
        (limit, total - limit)
    }
}

/// The error of `serde_json`.
#[verifier::external_type_specification]
#[verifier::external_body]
pub struct ExJsonError(serde_json::Error);

/// A listing that cannot be read.
#[derive(Debug, Clone, Copy, PartialEq, Eq, Structural)]
pub enum ListingError {
    /// The text is not a JSON array.
    Malformed,
}

/// For the JSON array `json`, what each of its elements holds under the key
/// `key`: the string there, or `None` where the element is no object, lacks
/// the key, or holds something else than a string under it. `None` for a
/// text that is not a JSON array.
pub uninterp spec fn json_strings_at(json: Seq<char>, key: Seq<char>) -> Option<
    Seq<Option<Seq<char>>>,
>;

/// The character sequences of optional strings.
pub open spec fn opt_texts(items: Seq<Option<String>>) -> Seq<Option<Seq<char>>> {
    items.map_values(
        |item: Option<String>|
            match item {
                Some(text) => Some(text@),
                None => None,
            },
    )
}

/// `serde_json::from_str` to a vector of `serde_json::Value`, and of each
/// value the string under `key`, as indexing a value and `Value::as_str`
/// give it. The result depends on the text and the key alone.
#[verifier::external_body]
fn read_strings_at(json: &str, key: &str) -> (read: Result<Vec<Option<String>>, serde_json::Error>)
    ensures
        match read {
            Ok(items) => json_strings_at(json@, key@) == Some(opt_texts(items@)),
            Err(_) => json_strings_at(json@, key@) is None,
        },
{
    let items = serde_json::from_str::<Vec<serde_json::Value>>(json)?;
    Ok(items.iter().map(|item| item[key].as_str().map(|name| name.to_string())).collect())
}

/// The names among the first `n` of `items`: those that are there.
pub open spec fn names_present(items: Seq<Option<Seq<char>>>, n: int) -> Seq<Seq<char>>
    decreases n,
{
    if n <= 0 || n > items.len() {
        Seq::empty()
    } else {
        match items[n - 1] {
            Some(name) => names_present(items, n - 1).push(name),
            None => names_present(items, n - 1),
        }
    }
}

/// The names that remain of what was read of a listing: those that are
/// there, in their order.
pub fn present_names(items: &Vec<Option<String>>) -> (names: Vec<String>)
    ensures
        texts(names@) == names_present(opt_texts(items@), items@.len() as int),
{
    let mut names: Vec<String> = Vec::new();
    let mut i: usize = 0;
    assert(texts(names@) =~= Seq::<Seq<char>>::empty());
    while i < items.len()
        invariant
            i <= items.len(),
            texts(names@) == names_present(opt_texts(items@), i as int),
        decreases items.len() - i,
    {
        if let Some(name) = &items[i] {
            let owned = name.clone();
            proof {
                assert(texts(names@.push(owned)) =~= texts(names@).push(owned@));
            }
            names.push(owned);
        }
        i += 1;
    }
    names
}

/// The repository names, each `owner/name`, in the JSON listing of the
/// GitHub client: of every element of the array that has a string under
/// `nameWithOwner`, that string. A text that is not a JSON array is
/// malformed.
pub fn github_names(json: &str) -> (names: Result<Vec<String>, ListingError>)
    ensures
        match json_strings_at(json@, "nameWithOwner"@) {
            Some(items) => names is Ok && texts(names.unwrap()@) == names_present(
                items,
                items.len() as int,
            ),
            None => names == Err::<Vec<String>, ListingError>(ListingError::Malformed),
        },
{
    match read_strings_at(json, "nameWithOwner") {
        Ok(items) => Ok(present_names(&items)),
        Err(_) => Err(ListingError::Malformed),
    }
}

} // verus!
