//! Fuzzy matching of a name against a query.

use crate::text::chars_of;
use fuzzy_matcher::skim::SkimMatcherV2;
use fuzzy_matcher::FuzzyMatcher;
use vstd::prelude::*;
use vstd::string::StrSliceExecFns;

verus! {

/// The longest name or query that is handed to the matcher. The matcher
/// adds up its scores in 32 bits: a character adds at most 32 points, 16
/// for the match and 16 as a bonus, and takes at most 4 off. Texts of up
/// to 2^26 characters keep every sum within 32 bits; beyond that a sum may
/// overflow.
pub const MATCHER_LIMIT: usize = 67108864;

/// An ASCII capital letter.
pub open spec fn is_upper(c: char) -> bool {
    'A' <= c && c <= 'Z'
}

/// `c` with an ASCII capital letter made small.
pub open spec fn lowered(c: char) -> char {
    if is_upper(c) {
        ((c as u8) + 32) as char
    } else {
        c
    }
}

/// The query holds an ASCII capital letter from index `i` on.
pub open spec fn has_upper_from(query: Seq<char>, i: int) -> bool
    decreases query.len() - i,
{
    if i >= query.len() {
        false
    } else {
        is_upper(query[i]) || has_upper_from(query, i + 1)
    }
}

/// A character of a name matches one of the query: they are equal, or, for
/// a query without capital letters, equal but for the case of ASCII
/// letters.
pub open spec fn char_matches(c: char, q: char, exact: bool) -> bool {
    if exact {
        c == q
    } else {
        lowered(c) == lowered(q)
    }
}

/// The characters of `query` from `j` on occur in `name` from `i` on, in
/// their order, each matched by the first character that fits.
pub open spec fn subsequence_from(
    name: Seq<char>,
    query: Seq<char>,
    i: int,
    j: int,
    exact: bool,
) -> bool
    decreases name.len() - i,
{
    if j >= query.len() {
        true
    } else if i >= name.len() {
        false
    } else if char_matches(name[i], query[j], exact) {
        subsequence_from(name, query, i + 1, j + 1, exact)
    } else {
        subsequence_from(name, query, i + 1, j, exact)
    }
}

/// `name` matches `query`: the characters of the query occur in the name
/// in their order. Case counts only where the query holds a capital letter.
/// The empty query matches every name.
pub open spec fn fuzzy_matches(name: Seq<char>, query: Seq<char>) -> bool {
    subsequence_from(name, query, 0, 0, has_upper_from(query, 0))
}

/// The score that the skim matcher, as it is by default, gives to `name`
/// for `query`; `None` where it does not match.
pub uninterp spec fn skim_score(name: Seq<char>, query: Seq<char>) -> Option<i64>;

/// `SkimMatcherV2::fuzzy_match` on a matcher made by `default()`: the
/// score of `name` for `query`. It depends on the two texts alone, and it
/// is `Some` exactly where the query's characters occur in the name in
/// their order, compared exactly if the query holds an ASCII capital
/// letter and without regard to ASCII case otherwise. Texts longer than
/// the limit are kept away, as a sum of scores may overflow for them.
#[verifier::external_body]
fn skim_fuzzy_match(name: &str, query: &str) -> (score: Option<i64>)
    requires
        name@.len() <= MATCHER_LIMIT,
        query@.len() <= MATCHER_LIMIT,
    ensures
        score == skim_score(name@, query@),
        score is Some <==> fuzzy_matches(name@, query@),
{
    SkimMatcherV2::default().fuzzy_match(name, query)
}

/// Whether `v` holds an ASCII capital letter.
fn has_upper(v: &Vec<char>) -> (r: bool)
    ensures
        r == has_upper_from(v@, 0),
{
    let mut i: usize = 0;
    while i < v.len()
        invariant
            i <= v.len(),
            has_upper_from(v@, 0) == has_upper_from(v@, i as int),
        decreases v.len() - i,
    {
        if 'A' <= v[i] && v[i] <= 'Z' {
            return true;
        }
        i += 1;
    }
    false
}

/// `c` with an ASCII capital letter made small.
fn lower(c: char) -> (r: char)
    ensures
        r == lowered(c),
{
    if 'A' <= c && c <= 'Z' {
        ((c as u8) + 32) as char
    } else {
        c
    }
}

/// Whether the query's characters occur in the name in their order.
fn scan_matches(name: &Vec<char>, query: &Vec<char>) -> (r: bool)
    ensures
        r == fuzzy_matches(name@, query@),
{
    let exact = has_upper(query);
    let mut i: usize = 0;
    let mut j: usize = 0;
    while i < name.len() && j < query.len()
        invariant
            i <= name.len(),
            j <= query.len(),
            fuzzy_matches(name@, query@) == subsequence_from(
                name@,
                query@,
                i as int,
                j as int,
                exact,
            ),
        decreases name.len() - i,
    {
        let fits = if exact {
            name[i] == query[j]
        } else {
            lower(name[i]) == lower(query[j])
        };
        if fits {
            j += 1;
        }
        i += 1;
    }
    j >= query.len()
}

/// The score of `name` for `query`, where both are within the matcher's
/// limit; `None` where the name does not match, and for longer texts.
pub fn fuzzy_score(name: &str, query: &str) -> (score: Option<i64>)
    ensures
        name@.len() <= MATCHER_LIMIT && query@.len() <= MATCHER_LIMIT ==> score == skim_score(
            name@,
            query@,
        ) && (score is Some <==> fuzzy_matches(name@, query@)),
        name@.len() > MATCHER_LIMIT || query@.len() > MATCHER_LIMIT ==> score is None,
{
    if name.unicode_len() <= MATCHER_LIMIT && query.unicode_len() <= MATCHER_LIMIT {
        skim_fuzzy_match(name, query)
    } else {
        None
    }
}

/// Whether `name` matches `query`: whether the characters of the query
/// occur in the name in their order. Case counts only where the query
/// holds a capital letter, and the empty query matches every name.
pub fn matches_query(name: &str, query: &str) -> (r: bool)
    ensures
        r == fuzzy_matches(name@, query@),
        query@.len() == 0 ==> r,
{
    if name.unicode_len() <= MATCHER_LIMIT && query.unicode_len() <= MATCHER_LIMIT {
        skim_fuzzy_match(name, query).is_some()
    } else {
        let n = chars_of(name);
        let q = chars_of(query);
        scan_matches(&n, &q)
    }
}

} // verus!
