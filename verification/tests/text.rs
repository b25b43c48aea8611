use kyvyrn::text::{
    ascii_alnum, chars_of, ends_with, find, is_white_space, matches_at, parse_decimal, same_chars,
    same_text, starts_with, string_of, to_ascii_lower,
};
use kyvyrn::url::{ensure_scheme, trimmed, without_trailing_slashes};

fn cs(s: &str) -> Vec<char> {
    s.chars().collect()
}

#[test]
fn characters_and_back() {
    for s in ["", "abc", "h\u{e9}llo \u{2603}", "\u{1f600}"] {
        assert_eq!(chars_of(s), cs(s));
        assert_eq!(string_of(&chars_of(s)), s);
    }
}

#[test]
fn ascii_classes() {
    for c in ['a', 'z', 'A', 'Z', '0', '9'] {
        assert!(ascii_alnum(c));
    }
    for c in ['-', ' ', '_', '/', ':', '@', '[', '`', '{', '\u{e9}', '\u{661}'] {
        assert!(!ascii_alnum(c));
    }
    for c in ['\0', 'a', 'A', 'Z', '[', '@', '0', '\u{c9}', '\u{212a}'] {
        assert_eq!(to_ascii_lower(c), c.to_ascii_lowercase());
        assert_eq!(ascii_alnum(c), c.is_ascii_alphanumeric());
    }
}

#[test]
fn match_at_a_position() {
    assert!(matches_at(&cs("hello"), &cs("ell"), 1));
    assert!(!matches_at(&cs("hello"), &cs("ell"), 0));
    assert!(matches_at(&cs("hello"), &cs(""), 5));
    assert!(!matches_at(&cs("hello"), &cs(""), 6));
    assert!(!matches_at(&cs("hello"), &cs("lo!"), 3));
    assert!(!matches_at(&cs("hello"), &cs("o"), usize::MAX));
}

#[test]
fn prefixes_suffixes_and_parts() {
    for (s, p) in [("https://x", "https://"), ("abc", ""), ("", ""), ("ab", "abc"), ("xab", "ab")] {
        assert_eq!(starts_with(&cs(s), &cs(p)), s.starts_with(p));
        assert_eq!(ends_with(&cs(s), &cs(p)), s.ends_with(p));
        assert_eq!(find(&cs(s), &cs(p)), s.contains(p));
    }
}

#[test]
fn equal_texts() {
    assert!(same_text("abc", "abc"));
    assert!(same_text("", ""));
    assert!(!same_text("abc", "abd"));
    assert!(!same_text("abc", "ab"));
    assert!(same_chars(&cs("x"), &cs("x")));
    assert!(!same_chars(&cs("x"), &cs("y")));
}

#[test]
fn decimal_numbers_within_a_text() {
    let v = cs("ab123cd");
    assert_eq!(parse_decimal(&v, 2, 5), Some(123));
    assert_eq!(parse_decimal(&v, 2, 2), None);
    assert_eq!(parse_decimal(&v, 1, 5), None);
    assert_eq!(parse_decimal(&v, 4, 5), Some(3));
}

#[test]
fn decimal_numbers_as_std_reads_them() {
    for s in ["0", "42", "+42", "-42", "", "+", "4294967295", "4294967296", "00012", " 1", "1 "] {
        let v = cs(s);
        assert_eq!(parse_decimal(&v, 0, v.len()), s.parse::<u32>().ok());
    }
}

#[test]
fn trimming_as_std_does() {
    for s in ["", " ", "  a  ", "a", "\ta b\n", "\u{a0}x\u{2003}", "\u{200b}x", "_x_"] {
        assert_eq!(string_of(&trimmed(&cs(s))), s.trim());
    }
}

#[test]
fn trailing_slashes_as_std_strips_them() {
    for s in ["", "/", "///", "a/", "a//", "/a", "a/b/", "a"] {
        assert_eq!(string_of(&without_trailing_slashes(&cs(s))), s.trim_end_matches('/'));
    }
}

#[test]
fn scheme_is_supplied_where_missing() {
    assert_eq!(string_of(&ensure_scheme(cs("a.b"))), "https://a.b");
    assert_eq!(string_of(&ensure_scheme(cs("http://a.b"))), "http://a.b");
    assert_eq!(string_of(&ensure_scheme(cs("https://a.b"))), "https://a.b");
    assert_eq!(string_of(&ensure_scheme(cs("http:/a.b"))), "https://http:/a.b");
    assert_eq!(string_of(&ensure_scheme(cs(""))), "https://");
}

#[test]
fn white_space_is_what_std_takes_for_it_for_every_character() {
    for n in 0..=0x10ffffu32 {
        if let Some(c) = char::from_u32(n) {
            assert_eq!(is_white_space(c), c.is_whitespace(), "U+{n:04X}");
        }
    }
}

#[test]
fn white_space_characters_by_name() {
    for c in ['\t', '\n', '\u{b}', '\u{c}', '\r', ' ', '\u{85}', '\u{a0}', '\u{1680}'] {
        assert!(is_white_space(c));
    }
    for c in ['\u{2000}', '\u{200a}', '\u{2028}', '\u{2029}', '\u{202f}', '\u{205f}', '\u{3000}'] {
        assert!(is_white_space(c));
    }
    for c in ['\0', '\u{8}', '\u{e}', '\u{1f}', '!', 'a', '\u{180e}', '\u{200b}', '\u{feff}'] {
        assert!(!is_white_space(c));
    }
}
