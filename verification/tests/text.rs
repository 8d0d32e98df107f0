use mcserver::names::{contains, insert, same_text};
use mcserver::text::{
    find_char_from, find_first, find_last, from_chars, has_suffix, lines, matches_at, occurs_from,
    push_chars, push_decimal, push_str, slice_chars, to_chars, trim_chars, trim_end_chars,
    whitespace,
};

fn chars(s: &str) -> Vec<char> {
    s.chars().collect()
}

fn decimal(n: u128) -> String {
    let mut out = Vec::new();
    push_decimal(&mut out, n);
    out.into_iter().collect()
}

#[test]
fn strings_and_characters_convert_both_ways() {
    for s in ["", "abc", "größe", "日本語", "a\u{1b}[m"] {
        assert_eq!(to_chars(s), chars(s));
        assert_eq!(from_chars(&chars(s)), s);
    }
}

#[test]
fn numerals_have_no_leading_zero() {
    assert_eq!(decimal(0), "0");
    assert_eq!(decimal(7), "7");
    assert_eq!(decimal(10), "10");
    assert_eq!(decimal(1234567890), "1234567890");
    assert_eq!(decimal(u64::MAX as u128), "18446744073709551615");
    assert_eq!(decimal(u128::MAX), "340282366920938463463374607431768211455");
}

#[test]
fn pushing_appends() {
    let mut out = chars("ab");
    push_str(&mut out, "cd");
    push_chars(&mut out, &chars("ef"));
    push_decimal(&mut out, 42);
    assert_eq!(from_chars(&out), "abcdef42");
}

#[test]
fn patterns_are_found_where_they_stand() {
    let s = chars("abcabc");
    assert!(matches_at(&s, &chars("abc"), 0));
    assert!(matches_at(&s, &chars("abc"), 3));
    assert!(!matches_at(&s, &chars("abc"), 1));
    assert!(!matches_at(&s, &chars("abc"), 4));
    assert!(!matches_at(&s, &chars("abc"), 100));
    assert!(matches_at(&s, &chars(""), 6));
    assert!(!matches_at(&s, &chars(""), 7));
    assert!(!matches_at(&chars("ab"), &chars("abc"), 0));
}

#[test]
fn searching_agrees_with_the_standard_library() {
    for (s, pat) in [
        ("abcabc", "bc"), ("abcabc", "x"), ("", "a"), ("", ""), ("abc", ""), ("aaaa", "aa"),
        ("a[Created b [Created", "[Created"), ("ab", "abc"), ("größe", "ß"),
    ] {
        let char_index = |byte: Option<usize>| byte.map(|b| s[..b].chars().count());
        assert_eq!(find_first(&chars(s), &chars(pat)), char_index(s.find(pat)), "{s:?} {pat:?}");
        assert_eq!(find_last(&chars(s), &chars(pat)), char_index(s.rfind(pat)), "{s:?} {pat:?}");
    }
}

#[test]
fn searching_from_an_index() {
    let s = chars("abcabc");
    assert!(occurs_from(&s, &chars("abc"), 0));
    assert!(occurs_from(&s, &chars("abc"), 3));
    assert!(!occurs_from(&s, &chars("abc"), 4));
    assert!(occurs_from(&s, &chars(""), 6));
    assert_eq!(find_char_from(&s, 'c', 0), 2);
    assert_eq!(find_char_from(&s, 'c', 3), 5);
    assert_eq!(find_char_from(&s, 'a', 4), 6);
    assert_eq!(find_char_from(&s, 'a', 6), 6);
}

#[test]
fn suffixes_and_slices() {
    assert!(has_suffix(&chars("a.template"), &chars(".template")));
    assert!(has_suffix(&chars("a"), &chars("")));
    assert!(!has_suffix(&chars("late"), &chars(".template")));
    assert_eq!(slice_chars(&chars("abcdef"), 2, 4), chars("cd"));
    assert_eq!(slice_chars(&chars("abcdef"), 3, 3), chars(""));
    assert_eq!(slice_chars(&chars("abcdef"), 0, 6), chars("abcdef"));
}

#[test]
fn whitespace_agrees_with_the_standard_library() {
    for code in 0u32..=0x3100 {
        if let Some(c) = char::from_u32(code) {
            assert_eq!(whitespace(c), c.is_whitespace(), "U+{code:04X}");
        }
    }
    for c in ['\u{feff}', '\u{e000}', '\u{10ffff}', '\u{1f600}'] {
        assert_eq!(whitespace(c), c.is_whitespace());
    }
}

#[test]
fn trimming_agrees_with_the_standard_library_on_both_ends() {
    for s in ["", " ", "a", " a ", "\t\na b\r\n", "\u{3000}x\u{a0}", "  ", "a\u{200b} ", " \u{85}ä\u{2003}"] {
        assert_eq!(from_chars(&trim_end_chars(&chars(s))), s.trim_end(), "{s:?}");
        assert_eq!(from_chars(&trim_chars(&chars(s))), s.trim(), "{s:?}");
    }
}

#[test]
fn lines_agree_with_the_standard_library() {
    for s in [
        "", "a", "a\n", "a\nb", "a\nb\n", "\n", "\n\n", "a\r\nb\r\n", "a\rb", "a\r", "a\r\n",
        "\r\n", "\r", "a\n\r\nb", "a\r\r\nb", "x\n\ny\n\n", "größe\nß",
    ] {
        let expected: Vec<String> = s.lines().map(String::from).collect();
        assert_eq!(lines(s), expected, "{s:?}");
    }
}

#[test]
fn texts_compare_by_content() {
    assert!(same_text("", ""));
    assert!(same_text("abc", "abc"));
    assert!(!same_text("abc", "abd"));
    assert!(!same_text("abc", "ab"));
    assert!(!same_text("a", "A"));
}

#[test]
fn name_sets_hold_each_name_once() {
    let mut names: Vec<String> = Vec::new();
    insert(&mut names, "a".to_string());
    insert(&mut names, "b".to_string());
    insert(&mut names, "a".to_string());
    assert_eq!(names, vec!["a", "b"]);
    assert!(contains(&names, "a"));
    assert!(contains(&names, "b"));
    assert!(!contains(&names, "c"));
    assert!(!contains(&Vec::new(), ""));
}
