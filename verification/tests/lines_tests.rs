use textbuf::lines::split_lines;
use textbuf::truncate::TruncateGraphemes;

#[test]
fn split_on_line_feed_only() {
    assert_eq!(split_lines(""), Vec::<String>::new());
    assert_eq!(split_lines("a"), vec!["a"]);
    assert_eq!(split_lines("a\nb"), vec!["a", "b"]);
    assert_eq!(split_lines("a\n"), vec!["a"]);
    assert_eq!(split_lines("a\n\n"), vec!["a", ""]);
    assert_eq!(split_lines("\n"), vec![""]);
    assert_eq!(split_lines("\n\n"), vec!["", ""]);
}

#[test]
fn split_keeps_carriage_returns() {
    // No line-ending normalization: CRLF is not stripped.
    assert_eq!(split_lines("a\r\nb"), vec!["a\r", "b"]);
}

#[test]
fn split_keeps_multibyte_text() {
    assert_eq!(split_lines("hé\nwörld"), vec!["hé", "wörld"]);
}

#[test]
fn truncate_counts_graphemes() {
    let mut s = String::from("héllo");
    s.truncate_graphemes(2);
    assert_eq!(s, "hé");
}

#[test]
fn truncate_beyond_length_is_noop() {
    let mut s = String::from("ab");
    s.truncate_graphemes(5);
    assert_eq!(s, "ab");
    s.truncate_graphemes(2);
    assert_eq!(s, "ab");
}

#[test]
fn truncate_keeps_whole_clusters() {
    // Four graphemes; keeping all four keeps the combining mark, keeping
    // three drops the whole final cluster.
    let mut s = String::from("cafe\u{301}");
    s.truncate_graphemes(4);
    assert_eq!(s, "cafe\u{301}");
    let mut s = String::from("cafe\u{301}");
    s.truncate_graphemes(3);
    assert_eq!(s, "caf");
}

#[test]
fn truncate_to_zero_empties() {
    let mut s = String::from("abc");
    s.truncate_graphemes(0);
    assert_eq!(s, "");
}
