use kata_pulse::scan::{
    find_in, is_whitespace, parse_i64, replace, split_bounds, strip_bounds, word_bounds, Strip,
};

fn chars(s: &str) -> Vec<char> {
    s.chars().collect()
}

fn text(s: &[char]) -> String {
    s.iter().collect()
}

#[test]
fn whitespace_agrees_with_char_is_whitespace() {
    for u in 0u32..=0x11_0000 {
        if let Some(c) = char::from_u32(u) {
            assert_eq!(is_whitespace(c), c.is_whitespace(), "U+{:04X}", u);
        }
    }
}

#[test]
fn strip_bounds_agrees_with_trim() {
    for s in ["", " ", "a", "  a b \t\n", "\u{3000}x\u{a0}", "   ", "a  ", "  a"] {
        let v = chars(s);
        let (a, b) = strip_bounds(&v, 0, v.len(), Strip::Space);
        assert_eq!(text(&v[a..b]), s.trim(), "{:?}", s);
    }
    for s in ["", "\"", "\"a\"", "\"\"a\"b\"\"\"", "a\"", " \"a\" "] {
        let v = chars(s);
        let (a, b) = strip_bounds(&v, 0, v.len(), Strip::Quote);
        assert_eq!(text(&v[a..b]), s.trim_matches('"'), "{:?}", s);
    }
    let v = chars("xx  ab  yy");
    assert_eq!(strip_bounds(&v, 2, 8, Strip::Space), (4, 6));
    assert_eq!(strip_bounds(&v, 3, 3, Strip::Space), (3, 3));
}

#[test]
fn find_in_looks_inside_the_range_only() {
    let v = chars("a,b,c");
    assert_eq!(find_in(&v, ',', 0, 5), Some(1));
    assert_eq!(find_in(&v, ',', 2, 5), Some(3));
    assert_eq!(find_in(&v, ',', 2, 3), None);
    assert_eq!(find_in(&v, ',', 4, 5), None);
    assert_eq!(find_in(&v, ',', 5, 5), None);
}

#[test]
fn split_bounds_agrees_with_split() {
    for s in ["", ",", "a", "a,b", ",a,,b,", "a,b,c,", ",,"] {
        let v = chars(s);
        let pieces: Vec<String> =
            split_bounds(&v, ',', 0, v.len()).iter().map(|&(a, b)| text(&v[a..b])).collect();
        let expected: Vec<String> = s.split(',').map(|p| p.to_string()).collect();
        assert_eq!(pieces, expected, "{:?}", s);
    }
    let v = chars("x,a,b,y");
    assert_eq!(split_bounds(&v, ',', 2, 5), vec![(2, 3), (4, 5)]);
}

#[test]
fn word_bounds_agrees_with_split_whitespace() {
    for s in ["", "  ", "a", "  ab  cd ", "ab\tcd", "\n x"] {
        let v = chars(s);
        let first = word_bounds(&v, 0, v.len()).map(|(a, b)| text(&v[a..b]));
        assert_eq!(first.as_deref(), s.split_whitespace().next(), "{:?}", s);
    }
    let v = chars("ab  cd ef");
    let (a, b) = word_bounds(&v, 0, v.len()).unwrap();
    assert_eq!((a, b), (0, 2));
    assert_eq!(word_bounds(&v, b, v.len()), Some((4, 6)));
    assert_eq!(word_bounds(&v, 6, 7), None);
}

#[test]
fn replace_agrees_with_str_replace() {
    let cases = [
        ("", "ab", "x"),
        ("ab", "ab", "x"),
        ("aab", "ab", "x"),
        ("ababab", "ab", ""),
        ("aaa", "aa", "b"),
        ("aaaa", "aa", "b"),
        ("abc", "d", "e"),
        ("a\\nb\\n", "\\n", "\n"),
        ("xyz", "xyz", "xyzxyz"),
        ("é✓é", "é", "e"),
    ];
    for (s, from, to) in cases {
        let r = replace(&chars(s), &chars(from), &chars(to));
        assert_eq!(text(&r), s.replace(from, to), "{:?} {:?} {:?}", s, from, to);
    }
    assert_eq!(text(&replace(&chars("abc"), &chars(""), &chars("x"))), "abc");
}

#[test]
fn parse_i64_agrees_with_str_parse() {
    let cases = [
        "", "0", "-0", "+0", "7", "-7", "+7", "007", "--7", "+-7", "-", "+", "1a", "a1", " 1",
        "1 ", "9223372036854775807", "9223372036854775808", "-9223372036854775808",
        "-9223372036854775809", "18446744073709551616", "99999999999999999999a", "1_000", "١",
        "0x10", "1.0", "1e3",
    ];
    for s in cases {
        let v = chars(s);
        assert_eq!(parse_i64(&v, 0, v.len()), s.parse::<i64>().ok(), "{:?}", s);
    }
    let v = chars("ab-12cd");
    assert_eq!(parse_i64(&v, 2, 5), Some(-12));
    assert_eq!(parse_i64(&v, 2, 6), None);
    assert_eq!(parse_i64(&v, 3, 3), None);
}
