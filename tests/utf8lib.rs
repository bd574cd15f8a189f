use weld_jni::utf8lib::{
    utf8_contains, utf8_ends_with, utf8_regex_compile, utf8_regex_destroy, utf8_regex_matches,
    utf8_starts_with, RegexTable, WeldString,
};

fn ws(b: &[u8]) -> WeldString {
    WeldString::from_bytes(b.to_vec())
}

fn starts(t: &[u8], q: &[u8]) -> bool {
    let mut r = false;
    utf8_starts_with(&ws(t), &ws(q), &mut r);
    r
}

fn ends(t: &[u8], q: &[u8]) -> bool {
    let mut r = false;
    utf8_ends_with(&ws(t), &ws(q), &mut r);
    r
}

fn contains(t: &str, q: &str) -> bool {
    let mut r = false;
    utf8_contains(&ws(t.as_bytes()), &ws(q.as_bytes()), &mut r);
    r
}

fn compile(table: &mut RegexTable, pattern: &[u8]) -> i64 {
    let mut h = -1;
    utf8_regex_compile(table, &ws(pattern), &mut h);
    h
}

fn matches(table: &RegexTable, h: i64, text: &str) -> bool {
    let mut r = false;
    utf8_regex_matches(table, &ws(text.as_bytes()), h, &mut r);
    r
}

#[test]
fn affixes_of_self_and_empty() {
    let samples: Vec<Vec<u8>> = vec![vec![], b"abc".to_vec(), vec![0xff, 0x00, 0x80], b"a".to_vec()];
    for t in &samples {
        assert!(starts(t, t));
        assert!(ends(t, t));
        assert!(starts(t, b""));
        assert!(ends(t, b""));
    }
}

#[test]
fn starts_with_examples() {
    assert!(starts(b"hello", b"he"));
    assert!(!starts(b"hello", b"lo"));
    assert!(!starts(b"he", b"hello"));
    assert!(starts(&[0xff, 0xfe, 1], &[0xff, 0xfe]));
    assert!(!starts(b"", b"a"));
}

#[test]
fn ends_with_examples() {
    assert!(ends(b"hello", b"llo"));
    assert!(!ends(b"hello", b"he"));
    assert!(!ends(b"lo", b"hello"));
    assert!(ends(&[1, 0xc0, 0x80], &[0xc0, 0x80]));
}

#[test]
fn contains_examples() {
    assert!(contains("hello world", "o w"));
    assert!(!contains("hello world", "xyz"));
    assert!(contains("hello", ""));
    assert!(contains("", ""));
    assert!(!contains("ab", "abc"));
    assert!(contains("h\u{e9}llo", "\u{e9}l"));
    assert!(contains("abcabd", "abd"));
}

#[test]
fn as_str_reads_text() {
    let s = ws("gr\u{fc}n".as_bytes());
    assert_eq!(s.as_str(), "gr\u{fc}n");
    assert_eq!(s.as_str_unchecked(), "gr\u{fc}n");
    assert_eq!(s.as_slice(), "gr\u{fc}n".as_bytes());
}

#[test]
fn regex_anchored_repetition() {
    let mut table = RegexTable::new();
    let h = compile(&mut table, b"^a+$");
    assert_eq!(h, 1);
    assert!(matches(&table, h, "aaa"));
    assert!(!matches(&table, h, "aab"));
    utf8_regex_destroy(&mut table, h);
    assert!(!table.contains(h));
}

#[test]
fn regex_matches_anywhere() {
    let mut table = RegexTable::new();
    let h = compile(&mut table, b"b+");
    assert!(matches(&table, h, "abbbc"));
    assert!(!matches(&table, h, "acd"));
}

#[test]
fn regex_refused_pattern_gives_null_handle() {
    let mut table = RegexTable::new();
    assert_eq!(compile(&mut table, b"(unclosed"), 0);
    assert_eq!(compile(&mut table, &[0x28, 0xff]), 0);
    let h = compile(&mut table, b"x");
    assert_eq!(h, 1);
}

#[test]
fn regex_handles_are_distinct() {
    let mut table = RegexTable::new();
    let a = compile(&mut table, b"^a$");
    let b = compile(&mut table, b"^b$");
    assert_eq!((a, b), (1, 2));
    assert!(matches(&table, a, "a"));
    assert!(!matches(&table, a, "b"));
    assert!(matches(&table, b, "b"));
}

#[test]
fn regex_destroy_null_and_twice() {
    let mut table = RegexTable::new();
    utf8_regex_destroy(&mut table, 0);
    let h = compile(&mut table, b"a");
    utf8_regex_destroy(&mut table, h);
    utf8_regex_destroy(&mut table, h);
    assert!(!table.contains(h));
    let g = compile(&mut table, b"a");
    assert_eq!(g, (1i64 << 32) | 1);
    assert!(matches(&table, g, "cat"));
    assert!(!table.contains(h));
    utf8_regex_destroy(&mut table, h);
    assert!(table.contains(g));
}
