//! Character-level text utilities shared by the parsers of this crate.
//!
//! Executable code works on `Vec<char>`; every contract is stated over the
//! `Seq<char>` that a string or a vector of characters denotes.

use vstd::prelude::*;

verus! {

/// `String::push` appends one character to the end of the string.
pub assume_specification[ String::push ](s: &mut String, c: char)
    ensures
        final(s)@ == old(s)@.push(c),
;

/// The characters of `s`, in order.
pub fn chars_of(s: &str) -> (out: Vec<char>)
    ensures
        out@ == s@,
{
    let mut out: Vec<char> = Vec::new();
    for c in it: s.chars()
        invariant
            out@ == it.seq().take(it.index() as int),
            it.seq() == s@,
    {
        out.push(c);
    }
    out
}

/// The string whose characters are `v[from..to]`.
pub fn string_of(v: &Vec<char>, from: usize, to: usize) -> (out: String)
    requires
        from <= to <= v.len(),
    ensures
        out@ == v@.subrange(from as int, to as int),
{
    let mut out = String::new();
    let mut i: usize = from;
    while i < to
        invariant
            from <= i <= to <= v.len(),
            out@ == v@.subrange(from as int, i as int),
        decreases to - i,
    {
        out.push(v[i]);
        i += 1;
    }
    out
}

/// The string whose characters are those of `v`.
pub fn string_from(v: &Vec<char>) -> (out: String)
    ensures
        out@ == v@,
{
    let out = string_of(v, 0, v.len());
    assert(v@.subrange(0, v@.len() as int) == v@);
    out
}

/// A copy of `v[from..to]`.
pub fn slice_of(v: &Vec<char>, from: usize, to: usize) -> (out: Vec<char>)
    requires
        from <= to <= v.len(),
    ensures
        out@ == v@.subrange(from as int, to as int),
{
    let mut out: Vec<char> = Vec::new();
    let mut i: usize = from;
    while i < to
        invariant
            from <= i <= to <= v.len(),
            out@ == v@.subrange(from as int, i as int),
        decreases to - i,
    {
        out.push(v[i]);
        i += 1;
    }
    out
}

/// Appends the characters of `src` to `dst`.
pub fn push_all(dst: &mut Vec<char>, src: &Vec<char>)
    ensures
        final(dst)@ == old(dst)@ + src@,
{
    let mut i: usize = 0;
    while i < src.len()
        invariant
            i <= src.len(),
            dst@ == old(dst)@ + src@.take(i as int),
        decreases src.len() - i,
    {
        dst.push(src[i]);
        i += 1;
    }
    assert(src@.take(src@.len() as int) == src@);
}

/// Index of the first occurrence of `c` in `s` at or after `i`; `s.len()` if
/// there is none.
pub open spec fn first_from(s: Seq<char>, c: char, i: int) -> int
    decreases s.len() - i,
{
    if i >= s.len() {
        s.len() as int
    } else if s[i] == c {
        i
    } else {
        first_from(s, c, i + 1)
    }
}

/// Index of the first occurrence of `c` in `s`; `s.len()` if there is none.
pub open spec fn first_index(s: Seq<char>, c: char) -> int {
    first_from(s, c, 0)
}

/// `first_from` returns the least index at or after `i` that holds `c`.
pub proof fn lemma_first_from(s: Seq<char>, c: char, i: int)
    requires
        0 <= i <= s.len(),
    ensures
        i <= first_from(s, c, i) <= s.len(),
        first_from(s, c, i) < s.len() ==> s[first_from(s, c, i)] == c,
        forall|j: int| i <= j < first_from(s, c, i) ==> s[j] != c,
    decreases s.len() - i,
{
    if i < s.len() && s[i] != c {
        lemma_first_from(s, c, i + 1);
    }
}

/// An index that holds `c` with none before it (from `i` on) is `first_from`.
pub proof fn lemma_first_from_is(s: Seq<char>, c: char, i: int, r: int)
    requires
        0 <= i <= r <= s.len(),
        r < s.len() ==> s[r] == c,
        forall|j: int| i <= j < r ==> s[j] != c,
    ensures
        first_from(s, c, i) == r,
    decreases r - i,
{
    if i < r {
        lemma_first_from_is(s, c, i + 1, r);
    }
}

/// Finds the first occurrence of `c` in `v` at or after `from`.
pub fn find_char(v: &Vec<char>, c: char, from: usize) -> (r: usize)
    requires
        from <= v.len(),
    ensures
        r == first_from(v@, c, from as int),
        from <= r <= v.len(),
{
    let mut i: usize = from;
    while i < v.len() && v[i] != c
        invariant
            from <= i <= v.len(),
            first_from(v@, c, from as int) == first_from(v@, c, i as int),
        decreases v.len() - i,
    {
        i += 1;
    }
    i
}

/// Index of the last occurrence of `c` among the first `n` characters of
/// `s`; `-1` if there is none.
pub open spec fn last_before(s: Seq<char>, c: char, n: int) -> int
    decreases n,
{
    if n <= 0 {
        -1
    } else if s[n - 1] == c {
        n - 1
    } else {
        last_before(s, c, n - 1)
    }
}

/// Index of the last occurrence of `c` in `s`; `-1` if there is none.
pub open spec fn last_index(s: Seq<char>, c: char) -> int {
    last_before(s, c, s.len() as int)
}

/// `last_before` returns the greatest index below `n` that holds `c`.
pub proof fn lemma_last_before(s: Seq<char>, c: char, n: int)
    requires
        0 <= n <= s.len(),
    ensures
        -1 <= last_before(s, c, n) < n,
        last_before(s, c, n) >= 0 ==> s[last_before(s, c, n)] == c,
        forall|j: int| last_before(s, c, n) < j < n ==> s[j] != c,
    decreases n,
{
    if n > 0 && s[n - 1] != c {
        lemma_last_before(s, c, n - 1);
    }
}

/// Finds the last occurrence of `c` in `v`.
pub fn rfind_char(v: &Vec<char>, c: char) -> (r: Option<usize>)
    ensures
        match r {
            Some(i) => i == last_index(v@, c) && i < v.len() && v@[i as int] == c,
            None => last_index(v@, c) == -1,
        },
{
    let mut n: usize = v.len();
    while n > 0 && v[n - 1] != c
        invariant
            n <= v.len(),
            last_index(v@, c) == last_before(v@, c, n as int),
        decreases n,
    {
        n -= 1;
    }
    if n == 0 {
        None
    } else {
        Some(n - 1)
    }
}

/// `pat` occurs in `s` at index `i`.
pub open spec fn occurs_at(s: Seq<char>, pat: Seq<char>, i: int) -> bool {
    0 <= i && i + pat.len() <= s.len() && s.subrange(i, i + pat.len()) == pat
}

/// Index of the first occurrence of `pat` in `s` at or after `i`; `-1` if
/// there is none.
pub open spec fn find_from(s: Seq<char>, pat: Seq<char>, i: int) -> int
    decreases s.len() + 1 - i,
{
    if i < 0 || i + pat.len() > s.len() {
        -1
    } else if occurs_at(s, pat, i) {
        i
    } else {
        find_from(s, pat, i + 1)
    }
}

/// Index of the first occurrence of `pat` in `s`; `-1` if there is none.
pub open spec fn find(s: Seq<char>, pat: Seq<char>) -> int {
    find_from(s, pat, 0)
}

/// `pat` occurs somewhere in `s`.
pub open spec fn contains(s: Seq<char>, pat: Seq<char>) -> bool {
    find(s, pat) >= 0
}

/// `find_from` returns the least index at or after `i` where `pat` occurs.
pub proof fn lemma_find_from(s: Seq<char>, pat: Seq<char>, i: int)
    requires
        0 <= i,
    ensures
        find_from(s, pat, i) == -1 || (i <= find_from(s, pat, i) && occurs_at(
            s,
            pat,
            find_from(s, pat, i),
        )),
        forall|j: int|
            i <= j && (j < find_from(s, pat, i) || find_from(s, pat, i) == -1) ==> !occurs_at(
                s,
                pat,
                j,
            ),
    decreases s.len() + 1 - i,
{
    if i + pat.len() <= s.len() && !occurs_at(s, pat, i) {
        lemma_find_from(s, pat, i + 1);
    }
}

/// Whether `pat` occurs in `v` at index `i`.
pub fn matches_at(v: &Vec<char>, pat: &Vec<char>, i: usize) -> (r: bool)
    ensures
        r == occurs_at(v@, pat@, i as int),
{
    if pat.len() > v.len() || i > v.len() - pat.len() {
        return false;
    }
    let mut k: usize = 0;
    while k < pat.len()
        invariant
            k <= pat.len(),
            i + pat.len() <= v.len(),
            forall|j: int| 0 <= j < k ==> v@[i + j] == pat@[j],
        decreases pat.len() - k,
    {
        if v[i + k] != pat[k] {
            assert(v@.subrange(i as int, i + pat.len())[k as int] == v@[i + k]);
            return false;
        }
        k += 1;
    }
    assert(v@.subrange(i as int, i + pat.len()) =~= pat@);
    true
}

/// Finds the first occurrence of `pat` in `v` at or after `from`.
pub fn find_sub(v: &Vec<char>, pat: &Vec<char>, from: usize) -> (r: Option<usize>)
    ensures
        match r {
            Some(i) => i == find_from(v@, pat@, from as int) && from <= i && i + pat.len()
                <= v.len() && occurs_at(v@, pat@, i as int),
            None => find_from(v@, pat@, from as int) == -1,
        },
{
    proof {
        lemma_find_from(v@, pat@, from as int);
    }
    if pat.len() > v.len() || from > v.len() - pat.len() {
        return None;
    }
    let last: usize = v.len() - pat.len();
    let mut i: usize = from;
    while i <= last
        invariant
            from <= i <= last + 1,
            last == v.len() - pat.len(),
            find_from(v@, pat@, from as int) == find_from(v@, pat@, i as int),
        decreases last + 1 - i,
    {
        if matches_at(v, pat, i) {
            return Some(i);
        }
        if i == last {
            assert(find_from(v@, pat@, i + 1) == -1);
            return None;
        }
        i += 1;
    }
    None
}

/// Whether `v` begins with `pat`.
pub fn starts_with(v: &Vec<char>, pat: &Vec<char>) -> (r: bool)
    ensures
        r == pat@.is_prefix_of(v@),
{
    let r = matches_at(v, pat, 0);
    proof {
        if pat@.len() <= v@.len() {
            assert(v@.subrange(0, pat@.len() as int) == pat@ <==> pat@.is_prefix_of(v@)) by {
                if pat@.is_prefix_of(v@) {
                    assert(v@.subrange(0, pat@.len() as int) =~= pat@);
                }
            }
        }
    }
    r
}

/// Whether two vectors hold the same characters.
pub fn same_chars(a: &Vec<char>, b: &Vec<char>) -> (r: bool)
    ensures
        r == (a@ == b@),
{
    if a.len() != b.len() {
        return false;
    }
    let r = matches_at(a, b, 0);
    proof {
        assert(a@.subrange(0, a@.len() as int) == a@);
    }
    r
}

/// The character sequences that a vector of character vectors denotes.
pub open spec fn views(parts: Seq<Vec<char>>) -> Seq<Seq<char>> {
    parts.map_values(|p: Vec<char>| p@)
}

/// Pushing a vector pushes its view.
pub proof fn lemma_views_push(parts: Seq<Vec<char>>, p: Vec<char>)
    ensures
        views(parts.push(p)) == views(parts).push(p@),
{
    assert(views(parts.push(p)) =~= views(parts).push(p@));
}

/// Searching a suffix of `s` is searching `s` from where the suffix begins.
pub proof fn lemma_first_in_suffix(s: Seq<char>, c: char, k: int)
    requires
        0 <= k <= s.len(),
    ensures
        first_index(s.skip(k), c) == first_from(s, c, k) - k,
{
    lemma_first_from(s, c, k);
    let r = first_from(s, c, k);
    lemma_first_from_is(s.skip(k), c, 0, r - k);
}

/// The pieces of `s` between occurrences of `c`, as `str::split` yields
/// them: one piece more than there are occurrences.
pub open spec fn split(s: Seq<char>, c: char) -> Seq<Seq<char>>
    decreases s.len(),
{
    let i = first_index(s, c);
    if i < 0 || i >= s.len() {
        seq![s]
    } else {
        seq![s.take(i)] + split(s.skip(i + 1), c)
    }
}

/// Splits `v` at every occurrence of `c`.
pub fn split_on(v: &Vec<char>, c: char) -> (parts: Vec<Vec<char>>)
    ensures
        views(parts@) == split(v@, c),
        parts@.len() >= 1,
{
    let mut parts: Vec<Vec<char>> = Vec::new();
    let mut start: usize = 0;
    assert(v@.skip(0) == v@);
    assert(views(parts@) =~= Seq::<Seq<char>>::empty());
    loop
        invariant
            start <= v.len(),
            split(v@, c) == views(parts@) + split(v@.skip(start as int), c),
        decreases v.len() - start,
    {
        let i = find_char(v, c, start);
        proof {
            lemma_first_in_suffix(v@, c, start as int);
        }
        let piece = slice_of(v, start, i);
        proof {
            lemma_views_push(parts@, piece);
            assert(v@.skip(start as int).take(i - start) == v@.subrange(start as int, i as int));
        }
        if i >= v.len() {
            proof {
                assert(v@.skip(start as int) == v@.subrange(start as int, v@.len() as int));
                assert(split(v@.skip(start as int), c) == seq![v@.skip(start as int)]);
                assert(views(parts@) + seq![piece@] =~= views(parts@).push(piece@));
            }
            parts.push(piece);
            return parts;
        }
        proof {
            assert(v@.skip(start as int).skip(i - start + 1) == v@.skip(i + 1));
            assert(views(parts@) + (seq![piece@] + split(v@.skip(i + 1), c)) =~= views(
                parts@,
            ).push(piece@) + split(v@.skip(i + 1), c));
        }
        parts.push(piece);
        start = i + 1;
    }
}

/// `s` without one trailing carriage return.
pub open spec fn strip_cr(s: Seq<char>) -> Seq<char> {
    if s.len() > 0 && s.last() == '\r' {
        s.drop_last()
    } else {
        s
    }
}

/// The lines of `s`, as `str::lines` yields them: split after every line
/// feed, each line without its `\n` or `\r\n` ending, and no empty last line.
pub open spec fn lines(s: Seq<char>) -> Seq<Seq<char>>
    decreases s.len(),
{
    if s.len() == 0 {
        Seq::empty()
    } else {
        let i = first_index(s, '\n');
        if i < 0 || i >= s.len() {
            seq![s]
        } else {
            seq![strip_cr(s.take(i))] + lines(s.skip(i + 1))
        }
    }
}

/// Splits `v` into its lines.
pub fn lines_of(v: &Vec<char>) -> (parts: Vec<Vec<char>>)
    ensures
        views(parts@) == lines(v@),
{
    let mut parts: Vec<Vec<char>> = Vec::new();
    let mut start: usize = 0;
    assert(v@.skip(0) == v@);
    assert(views(parts@) =~= Seq::<Seq<char>>::empty());
    while start < v.len()
        invariant
            start <= v.len(),
            lines(v@) == views(parts@) + lines(v@.skip(start as int)),
        decreases v.len() - start,
    {
        let i = find_char(v, '\n', start);
        proof {
            lemma_first_in_suffix(v@, '\n', start as int);
        }
        if i >= v.len() {
            let piece = slice_of(v, start, i);
            proof {
                lemma_views_push(parts@, piece);
                assert(v@.skip(start as int) == v@.subrange(start as int, v@.len() as int));
                assert(views(parts@) + seq![piece@] =~= views(parts@).push(piece@));
            }
            parts.push(piece);
            return parts;
        }
        let end: usize = if i > start && v[i - 1] == '\r' {
            i - 1
        } else {
            i
        };
        let piece = slice_of(v, start, end);
        proof {
            lemma_views_push(parts@, piece);
            let line = v@.skip(start as int).take(i - start);
            assert(line == v@.subrange(start as int, i as int));
            assert(strip_cr(line) =~= piece@);
            assert(v@.skip(start as int).skip(i - start + 1) == v@.skip(i + 1));
            assert(views(parts@) + (seq![piece@] + lines(v@.skip(i + 1))) =~= views(
                parts@,
            ).push(piece@) + lines(v@.skip(i + 1)));
        }
        parts.push(piece);
        start = i + 1;
    }
    assert(lines(v@.skip(start as int)) == Seq::<Seq<char>>::empty());
    assert(views(parts@) + Seq::<Seq<char>>::empty() =~= views(parts@));
    parts
}

/// The characters that `char::is_whitespace` accepts: the code points with
/// the Unicode property `White_Space`.
pub open spec fn is_space(c: char) -> bool {
    let n = c as u32;
    (0x09 <= n <= 0x0d) || n == 0x20 || n == 0x85 || n == 0xa0 || n == 0x1680 || (0x2000 <= n
        <= 0x200a) || n == 0x2028 || n == 0x2029 || n == 0x202f || n == 0x205f || n == 0x3000
}

/// Whether `c` is whitespace.
pub fn is_whitespace(c: char) -> (r: bool)
    ensures
        r == is_space(c),
{
    let n: u32 = c as u32;
    (0x09 <= n && n <= 0x0d) || n == 0x20 || n == 0x85 || n == 0xa0 || n == 0x1680 || (0x2000 <= n
        && n <= 0x200a) || n == 0x2028 || n == 0x2029 || n == 0x202f || n == 0x205f || n == 0x3000
}

/// Index of the first character of `s` at or after `i` that is not
/// whitespace; `s.len()` if there is none.
pub open spec fn text_start(s: Seq<char>, i: int) -> int
    decreases s.len() - i,
{
    if i >= s.len() {
        s.len() as int
    } else if !is_space(s[i]) {
        i
    } else {
        text_start(s, i + 1)
    }
}

/// One past the last character among the first `n` of `s` that is not
/// whitespace; `0` if there is none.
pub open spec fn text_end(s: Seq<char>, n: int) -> int
    decreases n,
{
    if n <= 0 {
        0
    } else if !is_space(s[n - 1]) {
        n
    } else {
        text_end(s, n - 1)
    }
}

/// `s` without leading and trailing whitespace, as `str::trim` returns it.
pub open spec fn trim(s: Seq<char>) -> Seq<char> {
    let a = text_start(s, 0);
    let b = text_end(s, s.len() as int);
    if a >= b {
        Seq::empty()
    } else {
        s.subrange(a, b)
    }
}

/// Removes leading and trailing whitespace.
pub fn trimmed(v: &Vec<char>) -> (out: Vec<char>)
    ensures
        out@ == trim(v@),
{
    let mut a: usize = 0;
    while a < v.len() && is_whitespace(v[a])
        invariant
            a <= v.len(),
            text_start(v@, 0) == text_start(v@, a as int),
        decreases v.len() - a,
    {
        a += 1;
    }
    let mut b: usize = v.len();
    while b > 0 && is_whitespace(v[b - 1])
        invariant
            b <= v.len(),
            text_end(v@, v@.len() as int) == text_end(v@, b as int),
        decreases b,
    {
        b -= 1;
    }
    if a >= b {
        Vec::new()
    } else {
        slice_of(v, a, b)
    }
}

/// `s` without its leading occurrences of `c`, as `str::trim_start_matches`
/// returns it for a single character.
pub open spec fn trim_leading(s: Seq<char>, c: char) -> Seq<char>
    decreases s.len(),
{
    if s.len() > 0 && s[0] == c {
        trim_leading(s.drop_first(), c)
    } else {
        s
    }
}

/// Removes the leading occurrences of `c`.
pub fn without_leading(v: &Vec<char>, c: char) -> (out: Vec<char>)
    ensures
        out@ == trim_leading(v@, c),
{
    let mut a: usize = 0;
    assert(v@.skip(0) == v@);
    while a < v.len() && v[a] == c
        invariant
            a <= v.len(),
            trim_leading(v@, c) == trim_leading(v@.skip(a as int), c),
        decreases v.len() - a,
    {
        assert(v@.skip(a as int).drop_first() == v@.skip(a + 1));
        a += 1;
    }
    assert(v@.skip(a as int) == v@.subrange(a as int, v@.len() as int));
    slice_of(v, a, v.len())
}

/// The decimal digit for `d`, which is below ten.
pub open spec fn digit(d: nat) -> char {
    ((48 + d) as u8) as char
}

/// The decimal numeral of `n`, without leading zeros.
pub open spec fn decimal(n: nat) -> Seq<char>
    decreases n,
{
    if n < 10 {
        seq![digit(n)]
    } else {
        decimal(n / 10).push(digit(n % 10))
    }
}

/// Appends the decimal numeral of `n` to `out`.
pub fn push_decimal(out: &mut Vec<char>, n: u64)
    ensures
        final(out)@ == old(out)@ + decimal(n as nat),
    decreases n,
{
    if n >= 10 {
        push_decimal(out, n / 10);
    }
    let d: u8 = (n % 10) as u8;
    out.push((48u8 + d) as char);
    proof {
        if n >= 10 {
            assert(old(out)@ + decimal((n / 10) as nat).push(digit((n % 10) as nat)) =~= (old(out)@
                + decimal((n / 10) as nat)).push(digit((n % 10) as nat)));
        } else {
            assert(old(out)@ + seq![digit(n as nat)] =~= old(out)@.push(digit(n as nat)));
        }
    }
}

/// `a` comes before `b` in the order of `str`: at the first index where
/// they differ `a` has the smaller character, or `a` is a proper prefix of
/// `b`.
pub open spec fn lex_lt_from(a: Seq<char>, b: Seq<char>, i: int) -> bool
    decreases a.len() - i,
{
    if i >= b.len() {
        false
    } else if i >= a.len() {
        true
    } else if a[i] != b[i] {
        a[i] < b[i]
    } else {
        lex_lt_from(a, b, i + 1)
    }
}

/// `a` comes strictly before `b` in the order of `str`.
pub open spec fn lex_lt(a: Seq<char>, b: Seq<char>) -> bool {
    lex_lt_from(a, b, 0)
}

/// `a` comes before `b` in the order of `str`, or equals it.
pub open spec fn lex_le(a: Seq<char>, b: Seq<char>) -> bool {
    !lex_lt(b, a)
}

/// Whether `a` comes strictly before `b` in the order of `str`.
pub fn is_before(a: &Vec<char>, b: &Vec<char>) -> (r: bool)
    ensures
        r == lex_lt(a@, b@),
{
    let mut i: usize = 0;
    while i < a.len() && i < b.len()
        invariant
            i <= a.len(),
            i <= b.len(),
            lex_lt(a@, b@) == lex_lt_from(a@, b@, i as int),
        decreases a.len() - i,
    {
        if a[i] != b[i] {
            return a[i] < b[i];
        }
        i += 1;
    }
    i < b.len()
}

/// The parts with `sep` between each two neighbours, as `join` returns
/// them.
pub open spec fn join(parts: Seq<Seq<char>>, sep: Seq<char>) -> Seq<char>
    decreases parts.len(),
{
    if parts.len() == 0 {
        Seq::empty()
    } else if parts.len() == 1 {
        parts[0]
    } else {
        join(parts.drop_last(), sep) + sep + parts.last()
    }
}

/// Joins the parts with `sep` between each two neighbours.
pub fn joined(parts: &Vec<Vec<char>>, sep: &Vec<char>) -> (out: Vec<char>)
    ensures
        out@ == join(views(parts@), sep@),
{
    let mut out: Vec<char> = Vec::new();
    let mut i: usize = 0;
    assert(views(parts@).take(0) =~= Seq::<Seq<char>>::empty());
    while i < parts.len()
        invariant
            i <= parts.len(),
            out@ == join(views(parts@).take(i as int), sep@),
        decreases parts.len() - i,
    {
        proof {
            let next = views(parts@).take(i + 1);
            assert(next.drop_last() =~= views(parts@).take(i as int));
            assert(next.last() == parts@[i as int]@);
            if i == 0 {
                assert(Seq::<char>::empty() + parts@[0]@ =~= parts@[0]@);
            }
        }
        if i > 0 {
            push_all(&mut out, sep);
        }
        push_all(&mut out, &parts[i]);
        i += 1;
    }
    assert(views(parts@).take(parts@.len() as int) =~= views(parts@));
    out
}

/// Whether `a` comes strictly before `b` in the order of `str`.
pub fn str_before(a: &str, b: &str) -> (r: bool)
    ensures
        r == lex_lt(a@, b@),
{
    let x = chars_of(a);
    let y = chars_of(b);
    is_before(&x, &y)
}

/// Whether `pat` occurs in `s`.
pub fn str_contains(s: &str, pat: &str) -> (r: bool)
    ensures
        r == contains(s@, pat@),
{
    let x = chars_of(s);
    let y = chars_of(pat);
    find_sub(&x, &y, 0).is_some()
}

/// Whether two strings hold the same characters.
pub fn same_text(a: &str, b: &str) -> (r: bool)
    ensures
        r == (a@ == b@),
{
    let x = chars_of(a);
    let y = chars_of(b);
    same_chars(&x, &y)
}

/// The character sequences of the strings.
pub open spec fn texts(strings: Seq<String>) -> Seq<Seq<char>> {
    strings.map_values(|s: String| s@)
}

/// Where `x` goes into the sorted names `sorted`: behind every name but the
/// ones at the end that it comes strictly before.
pub open spec fn name_slot(sorted: Seq<Seq<char>>, x: Seq<char>) -> nat
    decreases sorted.len(),
{
    if sorted.len() == 0 {
        0
    } else if lex_lt(x, sorted.last()) {
        name_slot(sorted.drop_last(), x)
    } else {
        sorted.len()
    }
}

/// The names in the order of `str`, as `sort` puts them.
pub open spec fn sorted_names(names: Seq<Seq<char>>) -> Seq<Seq<char>>
    decreases names.len(),
{
    if names.len() == 0 {
        Seq::empty()
    } else {
        let sorted = sorted_names(names.drop_last());
        sorted.insert(name_slot(sorted, names.last()) as int, names.last())
    }
}

/// The slot lies within the names: `x` comes strictly before every name
/// from the slot on, and not before the name right ahead of the slot.
pub proof fn lemma_name_slot(sorted: Seq<Seq<char>>, x: Seq<char>)
    ensures
        name_slot(sorted, x) <= sorted.len(),
        forall|k: int| name_slot(sorted, x) <= k < sorted.len() ==> lex_lt(x, #[trigger] sorted[k]),
        name_slot(sorted, x) > 0 ==> !lex_lt(x, sorted[name_slot(sorted, x) - 1]),
    decreases sorted.len(),
{
    if sorted.len() > 0 && lex_lt(x, sorted.last()) {
        let shorter = sorted.drop_last();
        lemma_name_slot(shorter, x);
        assert forall|k: int| name_slot(sorted, x) <= k < sorted.len() implies lex_lt(
            x,
            #[trigger] sorted[k],
        ) by {
            if k < shorter.len() {
                assert(shorter[k] == sorted[k]);
            }
        }
    }
}

/// Of two texts that agree below `i`, one comes before the other or they
/// are equal, and never both come before each other.
pub proof fn lemma_lex_total(a: Seq<char>, b: Seq<char>, i: int)
    requires
        0 <= i <= a.len(),
        i <= b.len(),
        forall|k: int| 0 <= k < i ==> a[k] == b[k],
    ensures
        lex_lt_from(a, b, i) || lex_lt_from(b, a, i) || a == b,
        !(lex_lt_from(a, b, i) && lex_lt_from(b, a, i)),
    decreases a.len() - i,
{
    if i < a.len() && i < b.len() {
        if a[i] == b[i] {
            lemma_lex_total(a, b, i + 1);
        }
    } else if i >= a.len() && i >= b.len() {
        assert(a =~= b);
    }
}

/// The order of `str` is transitive.
pub proof fn lemma_lex_transitive(a: Seq<char>, b: Seq<char>, c: Seq<char>, i: int)
    requires
        0 <= i,
        lex_lt_from(a, b, i),
        lex_lt_from(b, c, i),
    ensures
        lex_lt_from(a, c, i),
    decreases a.len() - i,
{
    if i < a.len() && i < b.len() && i < c.len() && a[i] == b[i] && b[i] == c[i] {
        lemma_lex_transitive(a, b, c, i + 1);
    }
}

/// No name of `names` comes strictly before one that stands earlier.
pub open spec fn names_ascend(names: Seq<Seq<char>>) -> bool {
    forall|i: int, j: int| 0 <= i < j < names.len() ==> !lex_lt(names[j], names[i])
}

/// Sorted names ascend, and are the names that were given, each as often.
pub proof fn lemma_sorted_names(names: Seq<Seq<char>>)
    ensures
        names_ascend(sorted_names(names)),
        sorted_names(names).to_multiset() == names.to_multiset(),
        sorted_names(names).len() == names.len(),
    decreases names.len(),
{
    broadcast use vstd::seq_lib::group_to_multiset_ensures;

    if names.len() > 0 {
        let sorted = sorted_names(names.drop_last());
        let x = names.last();
        lemma_sorted_names(names.drop_last());
        lemma_name_slot(sorted, x);
        let at = name_slot(sorted, x) as int;
        let longer = sorted.insert(at, x);
        assert(longer.remove(at) =~= sorted);
        assert(longer[at] == x);
        assert(longer.contains(x));
        assert(longer.to_multiset() =~= sorted.to_multiset().insert(x));
        assert(names =~= names.drop_last().push(x));
        assert forall|i: int, j: int| 0 <= i < j < longer.len() implies !lex_lt(
            longer[j],
            longer[i],
        ) by {
            if j == at {
                let near = sorted[at - 1];
                let far = sorted[i];
                assert(longer[i] == far);
                if lex_lt(x, far) {
                    lemma_lex_total(far, near, 0);
                    if far != near {
                        assert(!lex_lt(near, far));
                        lemma_lex_transitive(x, far, near, 0);
                    }
                }
            } else if i == at {
                assert(longer[j] == sorted[j - 1]);
                assert(lex_lt(x, sorted[j - 1]));
                lemma_lex_total(x, sorted[j - 1], 0);
            } else {
                let oi = if i < at {
                    i
                } else {
                    i - 1
                };
                let oj = if j < at {
                    j
                } else {
                    j - 1
                };
                assert(longer[i] == sorted[oi]);
                assert(longer[j] == sorted[oj]);
            }
        }
    }
}

/// Sorts names in the order of `str`.
pub fn sort_names(names: &Vec<String>) -> (sorted: Vec<String>)
    ensures
        texts(sorted@) == sorted_names(texts(names@)),
        sorted@.len() == names@.len(),
        names_ascend(texts(sorted@)),
        texts(sorted@).to_multiset() == texts(names@).to_multiset(),
{
    proof {
        lemma_sorted_names(texts(names@));
    }
    let mut sorted: Vec<String> = Vec::new();
    let ghost all = texts(names@);
    let mut i: usize = 0;
    proof {
        assert(all.take(0) =~= Seq::<Seq<char>>::empty());
        assert(texts(sorted@) =~= Seq::<Seq<char>>::empty());
    }
    while i < names.len()
        invariant
            i <= names.len(),
            all == texts(names@),
            sorted@.len() == i,
            texts(sorted@) == sorted_names(all.take(i as int)),
        decreases names.len() - i,
    {
        let x = names[i].clone();
        let ghost done = texts(sorted@);
        let mut at: usize = sorted.len();
        assert(done.take(at as int) =~= done);
        while at > 0 && str_before(x.as_str(), sorted[at - 1].as_str())
            invariant
                at <= sorted.len(),
                done == texts(sorted@),
                name_slot(done, x@) == name_slot(done.take(at as int), x@),
            decreases at,
        {
            proof {
                assert(done.take(at as int).drop_last() =~= done.take(at - 1));
                assert(done.take(at as int).last() == sorted@[at - 1]@);
            }
            at -= 1;
        }
        proof {
            if at > 0 {
                assert(done.take(at as int).last() == sorted@[at - 1]@);
            }
            assert(all.take(i + 1).drop_last() =~= all.take(i as int));
            assert(all.take(i + 1).last() == x@);
            assert(texts(sorted@.insert(at as int, x)) =~= done.insert(at as int, x@));
        }
        sorted.insert(at, x);
        i += 1;
    }
    assert(all.take(names@.len() as int) =~= all);
    sorted
}

/// The names without those that repeat the name right before them, as
/// `dedup` leaves them.
pub open spec fn deduped(names: Seq<Seq<char>>) -> Seq<Seq<char>>
    decreases names.len(),
{
    if names.len() <= 1 {
        names
    } else if names.last() == names[names.len() - 2] {
        deduped(names.drop_last())
    } else {
        deduped(names.drop_last()).push(names.last())
    }
}

/// Drops every name that repeats the name right before it.
pub fn dedup_names(names: &Vec<String>) -> (kept: Vec<String>)
    ensures
        texts(kept@) == deduped(texts(names@)),
{
    let mut kept: Vec<String> = Vec::new();
    let ghost all = texts(names@);
    let mut i: usize = 0;
    proof {
        assert(all.take(0) =~= Seq::<Seq<char>>::empty());
        assert(texts(kept@) =~= Seq::<Seq<char>>::empty());
    }
    while i < names.len()
        invariant
            i <= names.len(),
            all == texts(names@),
            texts(kept@) == deduped(all.take(i as int)),
        decreases names.len() - i,
    {
        let ghost done = texts(kept@);
        proof {
            assert(all.take(i + 1).drop_last() =~= all.take(i as int));
            assert(all.take(i + 1).last() == names@[i as int]@);
            if i > 0 {
                assert(all.take(i + 1)[i - 1] == names@[i - 1]@);
            } else {
                assert(all.take(1) =~= Seq::<Seq<char>>::empty().push(names@[0]@));
            }
        }
        if i == 0 || !same_text(names[i].as_str(), names[i - 1].as_str()) {
            let copy = names[i].clone();
            proof {
                assert(texts(kept@.push(copy)) =~= done.push(copy@));
            }
            kept.push(copy);
        }
        i += 1;
    }
    proof {
        assert(all.take(names@.len() as int) =~= all);
    }
    kept
}

/// Index of the first whitespace character of `s` at or after `i`;
/// `s.len()` if there is none.
pub open spec fn space_from(s: Seq<char>, i: int) -> int
    decreases s.len() - i,
{
    if i >= s.len() {
        s.len() as int
    } else if is_space(s[i]) {
        i
    } else {
        space_from(s, i + 1)
    }
}

/// The first whitespace at or after `i` is not before `i`, nor behind the
/// end of `s`.
pub proof fn lemma_space_from(s: Seq<char>, i: int)
    requires
        0 <= i <= s.len(),
    ensures
        i <= space_from(s, i) <= s.len(),
    decreases s.len() - i,
{
    if i < s.len() && !is_space(s[i]) {
        lemma_space_from(s, i + 1);
    }
}

/// The words of `s` from index `i` on: the longest runs of characters
/// that are not whitespace, as `str::split_whitespace` yields them. A word
/// ends at the first whitespace behind its first character, which by
/// `lemma_space_from` is always behind that character.
pub open spec fn words_from(s: Seq<char>, i: int) -> Seq<Seq<char>>
    decreases s.len() - i,
{
    if i < 0 || i >= s.len() {
        Seq::empty()
    } else if is_space(s[i]) {
        words_from(s, i + 1)
    } else {
        let end = space_from(s, i + 1);
        if i < end <= s.len() {
            seq![s.subrange(i, end)] + words_from(s, end)
        } else {
            Seq::empty()
        }
    }
}

/// The words of `s`.
pub open spec fn words(s: Seq<char>) -> Seq<Seq<char>> {
    words_from(s, 0)
}

/// Splits `v` into its words.
pub fn words_of(v: &Vec<char>) -> (parts: Vec<Vec<char>>)
    ensures
        views(parts@) == words(v@),
{
    let mut parts: Vec<Vec<char>> = Vec::new();
    let mut i: usize = 0;
    assert(views(parts@) =~= Seq::<Seq<char>>::empty());
    assert(Seq::<Seq<char>>::empty() + words(v@) =~= words(v@));
    while i < v.len()
        invariant
            i <= v.len(),
            words(v@) == views(parts@) + words_from(v@, i as int),
        decreases v.len() - i,
    {
        if is_whitespace(v[i]) {
            i += 1;
        } else {
            let mut end: usize = i + 1;
            while end < v.len() && !is_whitespace(v[end])
                invariant
                    i < end <= v.len(),
                    space_from(v@, i + 1) == space_from(v@, end as int),
                decreases v.len() - end,
            {
                end += 1;
            }
            let word = slice_of(v, i, end);
            proof {
                lemma_views_push(parts@, word);
                assert(views(parts@) + (seq![word@] + words_from(v@, end as int)) =~= views(
                    parts@,
                ).push(word@) + words_from(v@, end as int));
            }
            parts.push(word);
            i = end;
        }
    }
    assert(views(parts@) + Seq::<Seq<char>>::empty() =~= views(parts@));
    parts
}

} // verus!
