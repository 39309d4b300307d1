use furukawa::number::{decimal, parse_i64, parse_u16};
use furukawa::text::{
    chars_eq, concat2, concat3, concat_chars, contains, contains_char, find_from, from_chars, replace,
    rsplit_once, slice, split_once, starts_with, str_eq, strip_prefix, to_chars, trim,
    trim_matches,
};
use furukawa::words::{join, lines, split, split_whitespace};

fn c(s: &str) -> Vec<char> {
    s.chars().collect()
}

fn s(v: &[char]) -> String {
    v.iter().collect()
}

fn all(v: Vec<Vec<char>>) -> Vec<String> {
    v.iter().map(|x| s(x)).collect()
}

#[test]
fn chars_and_strings_convert_both_ways() {
    assert_eq!(to_chars("héllo"), c("héllo"));
    assert_eq!(from_chars(&c("héllo")), "héllo");
    assert_eq!(to_chars(""), Vec::<char>::new());
    assert!(chars_eq(&c("ab"), &c("ab")));
    assert!(!chars_eq(&c("ab"), &c("abc")));
    assert!(!chars_eq(&c("ab"), &c("ac")));
    assert!(str_eq("x", "x") && !str_eq("x", "y"));
    assert_eq!(s(&slice(&c("hello"), 1, 3)), "el");
    assert_eq!(s(&concat_chars(&c("ab"), &c("cd"))), "abcd");
    assert_eq!(concat2("a", "b"), "ab");
    assert_eq!(concat3("a", "b", "c"), "abc");
}

#[test]
fn trim_removes_unicode_white_space() {
    assert_eq!(s(&trim(&c("  \t a b \r\n"))), "a b");
    assert_eq!(s(&trim(&c("\u{a0}\u{2003}x\u{3000}\u{85}"))), "x");
    assert_eq!(s(&trim(&c("\u{200b}x"))), "\u{200b}x");
    assert_eq!(s(&trim(&c("   "))), "");
    assert_eq!(s(&trim(&c(""))), "");
    for text in ["  a  ", "\u{1680}b\u{2028}\u{2029}", "\u{202f}c\u{205f}", "\u{b}\u{c}d\u{1c}"] {
        assert_eq!(s(&trim(&c(text))), text.trim());
    }
    assert_eq!(s(&trim_matches(&c("\"\"a\"b\""), '"')), "a\"b");
    assert_eq!(s(&trim_matches(&c("\"\"\""), '"')), "");
}

#[test]
fn searching_and_splitting() {
    assert_eq!(find_from(&c("a:b:c"), ':', 0), 1);
    assert_eq!(find_from(&c("a:b:c"), ':', 2), 3);
    assert_eq!(find_from(&c("a:b:c"), 'x', 0), 5);
    assert!(contains_char(&c("a/b"), '/') && !contains_char(&c("ab"), '/'));
    let (a, b) = split_once(&c("k=v=w"), '=').unwrap();
    assert_eq!((s(&a), s(&b)), ("k".to_string(), "v=w".to_string()));
    assert!(split_once(&c("kv"), '=').is_none());
    let (a, b) = rsplit_once(&c("/a/b/c"), '/').unwrap();
    assert_eq!((s(&a), s(&b)), ("/a/b".to_string(), "c".to_string()));
    assert!(rsplit_once(&c("abc"), '/').is_none());
    assert!(starts_with(&c("abc"), &c("ab")) && starts_with(&c("abc"), &c("")) && !starts_with(&c("ab"), &c("abc")));
    assert_eq!(strip_prefix(&c("sha256:x"), &c("sha256:")).map(|v| s(&v)), Some("x".to_string()));
    assert!(strip_prefix(&c("md5:x"), &c("sha256:")).is_none());
    assert!(contains(&c("hello world"), &c("lo w")) && contains(&c("a"), &c("")) && !contains(&c("abc"), &c("abd")));
    assert!(contains(&c("abc"), &c("abc")) && contains(&c("abc"), &c("c")) && !contains(&c("ab"), &c("abc")));
    assert_eq!(s(&replace(&c("a:b:c"), ':', '_')), "a_b_c");
    assert_eq!(all(split(&c("a/b//c"), '/')), vec!["a", "b", "", "c"]);
    assert_eq!(all(split(&c(""), '/')), vec![""]);
    assert_eq!(all(split(&c("/"), '/')), vec!["", ""]);
}

#[test]
fn lines_are_cut_like_str_lines() {
    for text in ["", "a", "a\n", "a\nb", "a\r\nb\r\n", "\n", "\n\n", "a\r", "a\n\rb", "\r\n", "x\r\r\ny"] {
        let expected: Vec<String> = text.lines().map(|l| l.to_string()).collect();
        assert_eq!(all(lines(&c(text))), expected, "for {:?}", text);
    }
}

#[test]
fn words_are_cut_like_split_whitespace() {
    for text in ["", " ", "a", " a  b\tc\n", "\u{a0}x\u{3000}y", "one"] {
        let expected: Vec<String> = text.split_whitespace().map(|l| l.to_string()).collect();
        assert_eq!(all(split_whitespace(&c(text))), expected, "for {:?}", text);
    }
    assert_eq!(join(&vec!["a".to_string(), "b".to_string(), "c".to_string()], ", "), "a, b, c");
    assert_eq!(join(&vec!["a".to_string()], ", "), "a");
    assert_eq!(join(&vec![], ", "), "");
}

#[test]
fn numbers_are_read_like_from_str() {
    for text in ["0", "80", "+80", "65535", "65536", "00080", "-1", "-0", "", "+", "8 0", " 80", "80/tcp", "٣", "1e3"] {
        assert_eq!(parse_u16(&c(text)), text.parse::<u16>().ok(), "for {:?}", text);
    }
    for text in [
        "0", "-0", "+5", "-5", "9223372036854775807", "9223372036854775808", "-9223372036854775808",
        "-9223372036854775809", "", "-", "+", "+-1", "1_000", "12a",
    ] {
        assert_eq!(parse_i64(&c(text)), text.parse::<i64>().ok(), "for {:?}", text);
    }
    for n in [0u32, 7, 10, 18080, 65535, 4294967295] {
        assert_eq!(s(&decimal(n)), n.to_string());
    }
}
