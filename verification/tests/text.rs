use workbench::matches::Matches;
use workbench::text::{
    count_lines, find_bytes, first_newline, matches_at, same_bytes, same_text, split_first_line,
    split_lines,
};

#[test]
fn find_gives_the_first_offset() {
    assert_eq!(find_bytes(b"abcabc", b"bc"), Some(1));
    assert_eq!(find_bytes(b"abcabc", b"abcabc"), Some(0));
    assert_eq!(find_bytes(b"abcabc", b"c"), Some(2));
    assert_eq!(find_bytes(b"aaab", b"aab"), Some(1));
    assert_eq!(find_bytes(b"abc", b"abcd"), None);
    assert_eq!(find_bytes(b"abc", b"x"), None);
    assert_eq!(find_bytes(b"abc", b""), Some(0));
    assert_eq!(find_bytes(b"", b""), Some(0));
    assert_eq!(find_bytes(b"", b"a"), None);
}

#[test]
fn find_agrees_with_std_on_text() {
    let hay = "na\u{ef}ve caf\u{e9}, na\u{ef}ve";
    for needle in ["na", "\u{ef}", "caf\u{e9}", ", ", "ve", "x", ""] {
        assert_eq!(find_bytes(hay.as_bytes(), needle.as_bytes()), hay.find(needle));
    }
}

#[test]
fn match_is_tested_at_an_offset() {
    assert!(matches_at(b"hello", b"ell", 1));
    assert!(!matches_at(b"hello", b"ell", 0));
    assert!(matches_at(b"hello", b"", 5));
    assert!(!matches_at(b"hello", b"", 6));
    assert!(!matches_at(b"hello", b"lo", 4));
    assert!(!matches_at(b"hello", b"hello!", 0));
    assert!(!matches_at(b"hello", b"o", usize::MAX));
}

#[test]
fn lines_end_at_newlines() {
    assert_eq!(split_lines("a\nb\nc"), vec!["a", "b", "c"]);
    assert_eq!(split_lines("a\nb\n"), vec!["a", "b"]);
    assert_eq!(split_lines("a\n\nb"), vec!["a", "", "b"]);
    assert_eq!(split_lines("\n"), vec![""]);
    assert!(split_lines("").is_empty());
    assert_eq!(split_lines("a\r\nb\r"), vec!["a", "b\r"]);
    assert_eq!(split_lines("a\r\r\nb"), vec!["a\r", "b"]);
    assert_eq!(split_lines("\r\n"), vec![""]);
    assert_eq!(split_lines("\u{e9}\n\u{e8}"), vec!["\u{e9}", "\u{e8}"]);
}

#[test]
fn lines_agree_with_std() {
    for text in ["", "\n", "\r", "\r\n", "a", "a\n", "a\r\n\r\nb", "foo\nbar\n\r\nbaz\r", "x\ry\n"]
    {
        let expected: Vec<&str> = text.lines().collect();
        assert_eq!(split_lines(text), expected, "{:?}", text);
        assert_eq!(count_lines(text.as_bytes()), expected.len(), "{:?}", text);
    }
}

#[test]
fn first_line_is_split_from_the_rest() {
    assert_eq!(split_first_line("ab\ncd\nef"), ("ab", "cd\nef"));
    assert_eq!(split_first_line("ab"), ("ab", ""));
    assert_eq!(split_first_line("ab\r\n"), ("ab", ""));
    assert_eq!(split_first_line("\nab"), ("", "ab"));
    assert_eq!(first_newline(b"ab\ncd"), 2);
    assert_eq!(first_newline(b"abcd"), 4);
    assert_eq!(first_newline(b""), 0);
}

#[test]
fn texts_are_compared_in_full() {
    assert!(same_text("abc", "abc"));
    assert!(!same_text("abc", "abd"));
    assert!(!same_text("abc", "ab"));
    assert!(same_text("", ""));
    assert!(same_bytes(b"\x00\xff", b"\x00\xff"));
    assert!(!same_bytes(b"a", b""));
}

#[test]
fn matches_keep_one_line_per_place() {
    let mut found = Matches::new();
    assert_eq!(found.len(), 0);
    found.insert(1, 2, String::from("first"));
    found.insert(0, 5, String::from("second"));
    found.insert(1, 2, String::from("third"));
    assert_eq!(found.len(), 2);
    assert_eq!(found.keys(), vec![(1, 2), (0, 5)]);
    assert_eq!(found.values(), vec!["third", "second"]);
    assert_eq!(found.get(1, 2).map(|s| s.as_str()), Some("third"));
    assert_eq!(found.get(2, 1), None);
}
