use textbuf::pattern::Query;
use textbuf::row::Row;
use textbuf::SearchDirection;

fn row(s: &str) -> Row {
    Row::from_string(String::from(s))
}

#[test]
fn len_counts_graphemes_not_code_points() {
    // "cafe" + combining acute: 5 code points, 4 graphemes.
    let r = row("cafe\u{301}");
    assert_eq!(r.len(), 4);
    assert_eq!(r.len_bytes(), 6);
}

#[test]
fn delete_removes_whole_grapheme_cluster() {
    let mut r = row("cafe\u{301}");
    r.delete(3);
    assert_eq!(r.as_str(), "caf");
    assert_eq!(r.len(), 3);
}

#[test]
fn delete_out_of_range_is_noop() {
    let mut r = row("abc");
    r.delete(3);
    assert_eq!(r.as_str(), "abc");
    r.delete(99);
    assert_eq!(r.as_str(), "abc");
}

#[test]
fn insert_splices_at_grapheme_index() {
    let mut r = row("hello");
    r.insert_or_append(2, 'x');
    assert_eq!(r.as_str(), "hexllo");
    assert_eq!(r.len(), 6);
}

#[test]
fn insert_past_end_appends() {
    let mut r = row("hello");
    r.insert_or_append(99, '!');
    assert_eq!(r.as_str(), "hello!");
}

#[test]
fn insert_then_delete_same_slot_is_identity() {
    for i in 0..=5 {
        let mut r = row("hello");
        r.insert_or_append(i, 'x');
        r.delete(i);
        assert_eq!(r.as_str(), "hello");
    }
    // The empty row, inserting at its end.
    let mut r = row("");
    r.insert_or_append(0, 'x');
    r.delete(0);
    assert_eq!(r.as_str(), "");
}

#[test]
fn split_then_push_reconstructs() {
    for i in 0..=5 {
        let mut r = row("hello");
        let tail = r.split(i);
        r.push(tail);
        assert_eq!(r.as_str(), "hello");
    }
    // Multi-code-point graphemes survive the round trip too.
    for i in 0..=4 {
        let mut r = row("cafe\u{301}");
        let tail = r.split(i);
        r.push(tail);
        assert_eq!(r.as_str(), "cafe\u{301}");
    }
}

#[test]
fn split_at_end_leaves_row_and_empty_tail() {
    let mut r = row("ab");
    let tail = r.split(7);
    assert_eq!(r.as_str(), "ab");
    assert_eq!(tail.as_str(), "");
    assert!(tail.is_empty());
}

#[test]
fn split_in_middle() {
    let mut r = row("hello");
    let tail = r.split(2);
    assert_eq!(r.as_str(), "he");
    assert_eq!(tail.as_str(), "llo");
}

#[test]
fn render_substitutes_tab_and_clamps() {
    let r = row("a\tb");
    assert_eq!(r.render(0..10), "a b");
    let r = row("hello");
    assert_eq!(r.render(1..3), "el");
    assert_eq!(r.render(3..100), "lo");
    assert_eq!(r.render(7..9), "");
    assert_eq!(r.render(4..2), "");
}

#[test]
fn render_does_not_split_grapheme() {
    // One grapheme of several bytes: a window inside it keeps whole clusters.
    let r = row("e\u{301}x");
    assert_eq!(r.render(0..1), "e\u{301}");
}

#[test]
fn as_bytes_is_utf8() {
    let r = row("hé");
    assert_eq!(r.as_bytes(), "hé".as_bytes());
}

#[test]
fn find_forward_and_backward() {
    let r = row("hello");
    let q = Query::compile("l").unwrap();
    assert_eq!(r.find(&q, 0, SearchDirection::Forward), Some(2));
    assert_eq!(r.find(&q, 3, SearchDirection::Forward), Some(3));
    assert_eq!(r.find(&q, 4, SearchDirection::Backward), Some(3));
    assert_eq!(r.find(&q, 2, SearchDirection::Backward), None);
    assert_eq!(r.find(&q, 99, SearchDirection::Forward), None);
}

#[test]
fn find_translates_multibyte_offsets_to_grapheme_indices() {
    let r = row("αβγ");
    let q = Query::compile("γ").unwrap();
    assert_eq!(r.find(&q, 0, SearchDirection::Forward), Some(2));
}

#[test]
fn find_match_inside_cluster_is_none() {
    // The combining mark alone matches at a byte offset that is not a
    // cluster start, so no grapheme index exists for it.
    let r = row("e\u{301}x");
    let q = Query::compile("\u{301}").unwrap();
    assert_eq!(r.find(&q, 0, SearchDirection::Forward), None);
    let qx = Query::compile("x").unwrap();
    assert_eq!(r.find(&qx, 0, SearchDirection::Forward), Some(1));
}

#[test]
fn find_regex_pattern() {
    let r = row("abc123def");
    let q = Query::compile("[0-9]+").unwrap();
    assert_eq!(r.find(&q, 0, SearchDirection::Forward), Some(3));
    // "123" is one non-overlapping match, so backward finds its start.
    assert_eq!(r.find(&q, 9, SearchDirection::Backward), Some(3));
}

#[test]
fn invalid_pattern_does_not_compile() {
    assert!(Query::compile("[").is_none());
    assert!(Query::compile("a(").is_none());
    assert!(Query::compile("hello").is_some());
}
