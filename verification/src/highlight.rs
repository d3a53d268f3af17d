//! Which parts of a node's name are highlighted for a query.

use crate::fuzzy::{fuzzy_matches, MATCHER_LIMIT};
use crate::text::{chars_of, contains, find_sub, string_of};
use fuzzy_matcher::skim::SkimMatcherV2;
use fuzzy_matcher::FuzzyMatcher;
use vstd::prelude::*;

verus! {

/// The matcher can lay out its table for a path and a query of these
/// lengths. For positions it makes a table with a cell of 16 bytes for each
/// pair of a character of the path and one of the query, and one row and
/// one column more; what it computes the size with, and the vector that
/// holds the table, overflow where the table is larger than `isize::MAX`
/// bytes. The sums of scores are within 32 bits up to the matcher's limit.
pub open spec fn table_fits(path_len: nat, query_len: nat) -> bool {
    &&& path_len <= MATCHER_LIMIT
    &&& query_len <= MATCHER_LIMIT
    &&& (path_len + 1) * (query_len + 1) * 16 <= isize::MAX
}

/// Whether the matcher can lay out its table for these lengths.
pub fn fits_table(path_len: usize, query_len: usize) -> (r: bool)
    ensures
        r == table_fits(path_len as nat, query_len as nat),
{
    if path_len > MATCHER_LIMIT || query_len > MATCHER_LIMIT {
        return false;
    }
    let rows: u128 = path_len as u128 + 1;
    let columns: u128 = query_len as u128 + 1;
    assert(rows * columns <= 67108865 * 67108865) by (nonlinear_arith)
        requires
            0 <= rows <= 67108865,
            0 <= columns <= 67108865,
    ;
    let cells: u128 = rows * columns;
    cells * 16 <= isize::MAX as u128
}

/// A part of a name, highlighted or not.
#[derive(Debug, Clone, PartialEq, Eq)]
pub struct Segment {
    pub text: String,
    pub highlighted: bool,
}

/// A segment as plain values.
pub struct SegmentView {
    pub text: Seq<char>,
    pub highlighted: bool,
}

impl View for Segment {
    type V = SegmentView;

    open spec fn view(&self) -> SegmentView {
        SegmentView { text: self.text@, highlighted: self.highlighted }
    }
}

/// The views of the segments.
pub open spec fn segment_views(segments: Seq<Segment>) -> Seq<SegmentView> {
    segments.map_values(|s: Segment| s@)
}

/// The indices of the characters of `name` that the skim matcher, as it is
/// by default, matched to the characters of `query`; `None` where the name
/// does not match.
pub uninterp spec fn skim_positions(name: Seq<char>, query: Seq<char>) -> Option<Seq<usize>>;

/// The view of an optional vector of indices.
pub open spec fn opt_positions(positions: Option<Vec<usize>>) -> Option<Seq<usize>> {
    match positions {
        Some(p) => Some(p@),
        None => None,
    }
}

/// `SkimMatcherV2::fuzzy_indices` on a matcher made by `default()`,
/// without the score: the indices of the matched characters of `name`.
/// They depend on the two texts alone, and there are some exactly where
/// the name matches the query. Texts for which the table of the matcher
/// would overflow are kept away.
#[verifier::external_body]
fn skim_fuzzy_indices(name: &str, query: &str) -> (positions: Option<Vec<usize>>)
    requires
        table_fits(name@.len(), query@.len()),
    ensures
        opt_positions(positions) == skim_positions(name@, query@),
        positions is Some <==> fuzzy_matches(name@, query@),
{
    SkimMatcherV2::default().fuzzy_indices(name, query).map(|(_, indices)| indices)
}

/// A segment that is not highlighted.
pub open spec fn plain(text: Seq<char>) -> SegmentView {
    SegmentView { text, highlighted: false }
}

/// A highlighted segment.
pub open spec fn lit(text: Seq<char>) -> SegmentView {
    SegmentView { text, highlighted: true }
}

/// What follows the last highlighted character: the rest of the name, or
/// the whole name where it is empty.
pub open spec fn rest_of(name: Seq<char>, last: int) -> Seq<SegmentView> {
    if 0 <= last < name.len() {
        seq![plain(name.subrange(last, name.len() as int))]
    } else if last == 0 {
        seq![plain(name)]
    } else {
        Seq::empty()
    }
}

/// The segments of `name` from the character `last` on, for the positions
/// from the `k`-th on. A position counts from `offset` characters before
/// the name; one that falls outside the name is passed over. Each other
/// one gives the text before it, if there is any that was not yet given,
/// and then its own character, highlighted.
pub open spec fn segments_from(
    name: Seq<char>,
    offset: int,
    positions: Seq<usize>,
    k: int,
    last: int,
) -> Seq<SegmentView>
    decreases positions.len() - k,
{
    if k < 0 || k >= positions.len() {
        rest_of(name, last)
    } else {
        let local = positions[k] - offset;
        if local < 0 || local >= name.len() {
            segments_from(name, offset, positions, k + 1, last)
        } else {
            let before = if 0 <= last < local {
                seq![plain(name.subrange(last, local))]
            } else {
                Seq::empty()
            };
            before + seq![lit(name.subrange(local, local + 1))] + segments_from(
                name,
                offset,
                positions,
                k + 1,
                local + 1,
            )
        }
    }
}

/// Cuts `name` into segments with the matched characters highlighted.
pub fn mark_positions(name: &Vec<char>, offset: usize, positions: &Vec<usize>) -> (segments: Vec<
    Segment,
>)
    ensures
        segment_views(segments@) == segments_from(name@, offset as int, positions@, 0, 0),
{
    let mut segments: Vec<Segment> = Vec::new();
    let mut last: usize = 0;
    let mut k: usize = 0;
    let ghost want = segments_from(name@, offset as int, positions@, 0, 0);
    proof {
        assert(segment_views(segments@) =~= Seq::<SegmentView>::empty());
        assert(Seq::<SegmentView>::empty() + want =~= want);
    }
    while k < positions.len()
        invariant
            k <= positions.len(),
            last <= name.len(),
            want == segment_views(segments@) + segments_from(
                name@,
                offset as int,
                positions@,
                k as int,
                last as int,
            ),
        decreases positions.len() - k,
    {
        let position = positions[k];
        if position >= offset && position - offset < name.len() {
            let local: usize = position - offset;
            let ghost done = segment_views(segments@);
            let ghost tail = segments_from(
                name@,
                offset as int,
                positions@,
                k + 1,
                local as int + 1,
            );
            if local > last {
                let text = string_of(name, last, local);
                let segment = Segment { text, highlighted: false };
                proof {
                    assert(segment_views(segments@.push(segment)) =~= done.push(segment@));
                }
                segments.push(segment);
            }
            let ghost middle = segment_views(segments@);
            let text = string_of(name, local, local + 1);
            let segment = Segment { text, highlighted: true };
            proof {
                assert(segment_views(segments@.push(segment)) =~= middle.push(segment@));
                let before = if last < local {
                    seq![plain(name@.subrange(last as int, local as int))]
                } else {
                    Seq::<SegmentView>::empty()
                };
                assert(middle =~= done + before);
                assert(middle.push(segment@) + tail =~= done + (before + seq![segment@] + tail));
            }
            segments.push(segment);
            last = local + 1;
        }
        k += 1;
    }
    let ghost done = segment_views(segments@);
    if last < name.len() {
        let text = string_of(name, last, name.len());
        let segment = Segment { text, highlighted: false };
        proof {
            assert(segment_views(segments@.push(segment)) =~= done + rest_of(name@, last as int));
        }
        segments.push(segment);
    } else if last == 0 {
        let text = string_of(name, 0, name.len());
        let segment = Segment { text, highlighted: false };
        proof {
            assert(name@.subrange(0, name@.len() as int) == name@);
            assert(segment_views(segments@.push(segment)) =~= done + rest_of(name@, last as int));
        }
        segments.push(segment);
    } else {
        assert(done + rest_of(name@, last as int) =~= done);
    }
    segments
}

/// How far the name of a node begins behind the beginning of its full
/// path, counted in bytes of UTF-8: the length of the path less that of
/// the name, and zero where the name is the longer one.
pub open spec fn name_offset(name: Seq<char>, full_path: Seq<char>) -> int {
    let path_len = vstd::utf8::encode_utf8(full_path).len();
    let name_len = vstd::utf8::encode_utf8(name).len();
    if path_len >= name_len {
        path_len - name_len
    } else {
        0
    }
}

/// The segments of the name of a node for a query: the name as it is for
/// the empty query; the matched characters highlighted where the full path
/// matches the query; all of the name highlighted for a directory whose
/// name, with a `/` behind it, occurs in the query; the name as it is
/// otherwise.
pub open spec fn name_segments(
    name: Seq<char>,
    full_path: Seq<char>,
    query: Seq<char>,
    is_directory: bool,
) -> Seq<SegmentView> {
    if query.len() == 0 {
        seq![plain(name)]
    } else if table_fits(full_path.len(), query.len()) && skim_positions(full_path, query)
        is Some {
        segments_from(
            name,
            name_offset(name, full_path),
            skim_positions(full_path, query).unwrap(),
            0,
            0,
        )
    } else if is_directory && contains(query, name + seq!['/']) {
        seq![lit(name)]
    } else {
        seq![plain(name)]
    }
}

/// Cuts the name of a node into segments for display, for the query that
/// filters the panel.
pub fn highlight(name: &str, full_path: &str, query: &str, is_directory: bool) -> (segments: Vec<
    Segment,
>)
    ensures
        segment_views(segments@) == name_segments(name@, full_path@, query@, is_directory),
{
    let name_chars = chars_of(name);
    if query.unicode_len() == 0 {
        let segment = Segment { text: name.to_string(), highlighted: false };
        let segments = vec![segment];
        assert(segment_views(segments@) =~= seq![plain(name@)]);
        return segments;
    }
    if fits_table(full_path.unicode_len(), query.unicode_len()) {
        if let Some(positions) = skim_fuzzy_indices(full_path, query) {
            let path_len = full_path.as_bytes().len();
            let name_len = name.as_bytes().len();
            let offset: usize = if path_len >= name_len {
                path_len - name_len
            } else {
                0
            };
            return mark_positions(&name_chars, offset, &positions);
        }
    }
    let mut wanted = chars_of(name);
    wanted.push('/');
    let typed = chars_of(query);
    let hit = is_directory && find_sub(&typed, &wanted, 0).is_some();
    let segment = Segment { text: name.to_string(), highlighted: hit };
    let segments = vec![segment];
    proof {
        assert(wanted@ =~= name@ + seq!['/']);
        assert(segment_views(segments@) =~= seq![segment@]);
    }
    segments
}

} // verus!
