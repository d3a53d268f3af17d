use workset::text::{
    chars_of, dedup_names, find_char, find_sub, is_before, is_whitespace, joined, lines_of,
    matches_at, push_all, push_decimal, rfind_char, same_chars, same_text, slice_of, sort_names,
    split_on, starts_with, str_before, str_contains, string_from, string_of, trimmed,
    without_leading,
};

fn cs(s: &str) -> Vec<char> {
    s.chars().collect()
}

fn strs(parts: &[Vec<char>]) -> Vec<String> {
    parts.iter().map(|p| p.iter().collect()).collect()
}

fn owned(names: &[&str]) -> Vec<String> {
    names.iter().map(|n| n.to_string()).collect()
}

#[test]
fn chars_and_strings_convert_both_ways() {
    assert_eq!(chars_of("héllo"), vec!['h', 'é', 'l', 'l', 'o']);
    assert_eq!(string_from(&cs("héllo")), "héllo");
    assert_eq!(string_of(&cs("héllo"), 1, 3), "él");
    assert_eq!(string_of(&cs("abc"), 2, 2), "");
    assert_eq!(slice_of(&cs("abcdef"), 2, 5), cs("cde"));
    let mut buf = cs("ab");
    push_all(&mut buf, &cs("cd"));
    assert_eq!(buf, cs("abcd"));
}

#[test]
fn find_char_gives_the_first_index_or_the_length() {
    assert_eq!(find_char(&cs("a/b/c"), '/', 0), 1);
    assert_eq!(find_char(&cs("a/b/c"), '/', 2), 3);
    assert_eq!(find_char(&cs("a/b/c"), '/', 4), 5);
    assert_eq!(find_char(&cs("abc"), '/', 0), 3);
    assert_eq!(find_char(&cs(""), '/', 0), 0);
}

#[test]
fn rfind_char_gives_the_last_index() {
    assert_eq!(rfind_char(&cs("a/b/c"), '/'), Some(3));
    assert_eq!(rfind_char(&cs("/"), '/'), Some(0));
    assert_eq!(rfind_char(&cs("abc"), '/'), None);
    assert_eq!(rfind_char(&cs(""), '/'), None);
}

#[test]
fn find_sub_gives_the_first_occurrence() {
    assert_eq!(find_sub(&cs("abcabc"), &cs("bc"), 0), Some(1));
    assert_eq!(find_sub(&cs("abcabc"), &cs("bc"), 2), Some(4));
    assert_eq!(find_sub(&cs("abcabc"), &cs("bc"), 5), None);
    assert_eq!(find_sub(&cs("abc"), &cs("abcd"), 0), None);
    assert_eq!(find_sub(&cs("abc"), &cs(""), 0), Some(0));
    assert_eq!(find_sub(&cs("abc"), &cs(""), 3), Some(3));
    assert_eq!(find_sub(&cs("abc"), &cs(""), 4), None);
    assert_eq!(find_sub(&cs("aab"), &cs("ab"), 0), Some(1));
    assert!(matches_at(&cs("abc"), &cs("bc"), 1));
    assert!(!matches_at(&cs("abc"), &cs("bc"), 2));
    assert!(!matches_at(&cs("abc"), &cs("bc"), usize::MAX));
}

#[test]
fn contains_and_prefix() {
    assert!(str_contains("github.com/acme", "acme"));
    assert!(str_contains("abc", ""));
    assert!(!str_contains("abc", "abd"));
    assert!(starts_with(&cs("https://x"), &cs("https://")));
    assert!(!starts_with(&cs("http://x"), &cs("https://")));
    assert!(starts_with(&cs("x"), &cs("")));
    assert!(!starts_with(&cs(""), &cs("x")));
    assert!(same_chars(&cs("ab"), &cs("ab")));
    assert!(!same_chars(&cs("ab"), &cs("abc")));
    assert!(same_text("é", "é"));
    assert!(!same_text("a", "b"));
}

#[test]
fn split_gives_one_piece_more_than_separators() {
    assert_eq!(strs(&split_on(&cs("a/b/c"), '/')), vec!["a", "b", "c"]);
    assert_eq!(strs(&split_on(&cs("abc"), '/')), vec!["abc"]);
    assert_eq!(strs(&split_on(&cs(""), '/')), vec![""]);
    assert_eq!(strs(&split_on(&cs("/a//"), '/')), vec!["", "a", "", ""]);
}

#[test]
fn lines_are_split_as_str_lines_does() {
    for text in [
        "",
        "\n",
        "a",
        "a\n",
        "a\nb",
        "a\r\nb\r\n",
        "a\n\nb",
        "\r\n",
        "a\r",
        "a\rb\n",
        "a\r\r\n",
        "\n\n",
    ] {
        let expected: Vec<String> = text.lines().map(|l| l.to_string()).collect();
        assert_eq!(strs(&lines_of(&cs(text))), expected, "lines of {:?}", text);
    }
}

#[test]
fn trim_is_as_str_trim_does() {
    for text in ["", "  ", "a", "  a b \t\n", "\u{a0}x\u{3000}", "\u{200b}x", "x\u{85}", "\t=\t"] {
        assert_eq!(string_from(&trimmed(&cs(text))), text.trim(), "trim of {:?}", text);
    }
}

#[test]
fn whitespace_is_as_char_is_whitespace() {
    for code in 0..0x3100u32 {
        if let Some(c) = char::from_u32(code) {
            assert_eq!(is_whitespace(c), c.is_whitespace(), "U+{:04X}", code);
        }
    }
    assert!(!is_whitespace('\u{feff}'));
    assert!(!is_whitespace('\u{10ffff}'));
}

#[test]
fn without_leading_drops_the_run_at_the_front() {
    assert_eq!(string_from(&without_leading(&cs("///a/b/"), '/')), "a/b/");
    assert_eq!(string_from(&without_leading(&cs("a/b"), '/')), "a/b");
    assert_eq!(string_from(&without_leading(&cs("//"), '/')), "");
    assert_eq!(string_from(&without_leading(&cs(""), '/')), "");
}

#[test]
fn decimal_numerals() {
    for n in [0u64, 7, 10, 99, 100, 12345, u64::MAX] {
        let mut buf = cs("n=");
        push_decimal(&mut buf, n);
        assert_eq!(string_from(&buf), format!("n={}", n));
    }
}

#[test]
fn join_puts_the_separator_between() {
    assert_eq!(string_from(&joined(&vec![cs("a"), cs("b"), cs("c")], &cs(", "))), "a, b, c");
    assert_eq!(string_from(&joined(&vec![cs("a")], &cs(", "))), "a");
    assert_eq!(string_from(&joined(&vec![], &cs(", "))), "");
    assert_eq!(string_from(&joined(&vec![cs(""), cs("")], &cs("-"))), "-");
}

#[test]
fn order_is_as_str_order() {
    let texts = ["", "a", "ab", "b", "B", "é", "z", "a/b", "a-b", "aa", "\u{10000}", "\u{ffff}"];
    for a in texts {
        for b in texts {
            assert_eq!(str_before(a, b), a < b, "{:?} < {:?}", a, b);
            assert_eq!(is_before(&cs(a), &cs(b)), a < b);
        }
    }
}

#[test]
fn sort_names_is_as_sort() {
    let names = owned(&["b/x", "a", "c", "a/b", "B", "a", ""]);
    let mut expected = names.clone();
    expected.sort();
    assert_eq!(sort_names(&names), expected);
    assert!(sort_names(&Vec::new()).is_empty());
}

#[test]
fn dedup_names_is_as_dedup() {
    let names = owned(&["a", "a", "b", "a", "a", "a", "c", "c"]);
    let mut expected = names.clone();
    expected.dedup();
    assert_eq!(dedup_names(&names), expected);
    assert_eq!(dedup_names(&owned(&["x"])), owned(&["x"]));
    assert!(dedup_names(&Vec::new()).is_empty());
}
