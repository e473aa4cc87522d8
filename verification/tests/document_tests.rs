use textbuf::document::Document;
use textbuf::lines::split_lines;
use textbuf::pattern::Query;
use textbuf::{Position, SearchDirection};

fn doc(lines: &[&str]) -> Document {
    Document::from_lines(lines.iter().map(|s| String::from(*s)).collect())
}

fn contents(d: &Document) -> Vec<String> {
    let mut v = Vec::new();
    let mut i = 0;
    while let Some(row) = d.get(i) {
        v.push(String::from(row.as_str()));
        i += 1;
    }
    v
}

fn pos(x: usize, y: usize) -> Position {
    Position { x, y }
}

#[test]
fn delete_at_row_end_joins_rows() {
    // Buffer ["hello", "world"], delete at (5, 0) joins the rows.
    let mut d = doc(&["hello", "world"]);
    d.delete(pos(5, 0));
    assert_eq!(contents(&d), vec!["helloworld"]);
    assert_eq!(d.len(), 1);
    assert!(d.is_dirty());
}

#[test]
fn delete_in_row_removes_one_grapheme() {
    let mut d = doc(&["hello", "world"]);
    d.delete(pos(1, 1));
    assert_eq!(contents(&d), vec!["hello", "wrld"]);
}

#[test]
fn delete_at_last_row_end_is_noop_on_rows() {
    let mut d = doc(&["hello"]);
    d.delete(pos(5, 0));
    assert_eq!(contents(&d), vec!["hello"]);
    // It still counts as touching the buffer.
    assert!(d.is_dirty());
}

#[test]
fn delete_past_last_row_is_noop() {
    let mut d = doc(&["hello"]);
    d.delete(pos(0, 1));
    assert_eq!(contents(&d), vec!["hello"]);
    assert!(!d.is_dirty());
}

#[test]
fn insert_newline_splits_row() {
    // Buffer ["ab"], insert newline at (1, 0) gives ["a", "b"].
    let mut d = doc(&["ab"]);
    d.insert_or_append(pos(1, 0), '\n');
    assert_eq!(contents(&d), vec!["a", "b"]);
    assert!(d.is_dirty());
}

#[test]
fn insert_newline_at_document_end_appends() {
    let mut d = doc(&["ab"]);
    d.insert_or_append(pos(0, 1), '\n');
    assert_eq!(contents(&d), vec!["ab", "", ""]);
}

#[test]
fn insert_newline_beyond_end_is_noop() {
    let mut d = doc(&["ab"]);
    d.insert_or_append(pos(0, 2), '\n');
    assert_eq!(contents(&d), vec!["ab"]);
    assert!(!d.is_dirty());
}

#[test]
fn insert_char_in_row() {
    let mut d = doc(&["ab"]);
    d.insert_or_append(pos(1, 0), 'x');
    assert_eq!(contents(&d), vec!["axb"]);
    assert!(d.is_dirty());
}

#[test]
fn insert_char_past_end_appends_new_row() {
    let mut d = doc(&["ab"]);
    d.insert_or_append(pos(0, 5), 'z');
    assert_eq!(contents(&d), vec!["ab", "z"]);
}

#[test]
fn dirty_flag_lifecycle() {
    let mut d = doc(&["a"]);
    assert!(!d.is_dirty());
    d.insert_or_append(pos(0, 0), 'x');
    assert!(d.is_dirty());
    d.mark_saved();
    assert!(!d.is_dirty());
}

#[test]
fn serialize_appends_newline_per_row() {
    let d = doc(&["a", "b"]);
    assert_eq!(d.serialize(), "a\nb\n");
    let empty = doc(&[]);
    assert_eq!(empty.serialize(), "");
}

#[test]
fn save_then_open_roundtrip() {
    // Serialize and split back: the rows come back exactly, a trailing
    // empty row included.
    for rows in [
        vec!["hello", "wörld"],
        vec!["a", "", "b"],
        vec!["hello", ""],
        vec![""],
        vec![],
    ] {
        let d = doc(&rows);
        let text = d.serialize();
        let reopened = Document::from_lines(split_lines(&text));
        assert_eq!(contents(&reopened), contents(&d));
    }
}

#[test]
fn find_forward_across_rows() {
    let d = doc(&["hello", "world"]);
    let q = Query::compile("o").unwrap();
    let p = d.find(&q, pos(0, 0), SearchDirection::Forward).unwrap();
    assert_eq!((p.x, p.y), (4, 0));
    let p = d.find(&q, pos(5, 0), SearchDirection::Forward).unwrap();
    assert_eq!((p.x, p.y), (1, 1));
    assert!(d.find(&q, pos(2, 1), SearchDirection::Forward).is_none());
}

#[test]
fn find_backward_across_rows() {
    let d = doc(&["hello", "world"]);
    let q = Query::compile("o").unwrap();
    let p = d.find(&q, pos(1, 1), SearchDirection::Backward).unwrap();
    assert_eq!((p.x, p.y), (4, 0));
    assert!(d.find(&q, pos(0, 0), SearchDirection::Backward).is_none());
}

#[test]
fn find_respects_direction_bounds() {
    // A backward search never lands at or after its start; a forward search
    // never lands strictly before it.
    let d = doc(&["aba", "aba"]);
    let q = Query::compile("a").unwrap();
    for y in 0..2 {
        for x in 0..=3 {
            if let Some(p) = d.find(&q, pos(x, y), SearchDirection::Forward) {
                assert!(p.y > y || (p.y == y && p.x >= x));
            }
            if let Some(p) = d.find(&q, pos(x, y), SearchDirection::Backward) {
                assert!(p.y < y || (p.y == y && p.x < x));
            }
        }
    }
}

#[test]
fn find_from_beyond_document_is_none() {
    let d = doc(&["abc"]);
    let q = Query::compile("a").unwrap();
    assert!(d.find(&q, pos(0, 2), SearchDirection::Forward).is_none());
    assert!(d.find(&q, pos(0, 2), SearchDirection::Backward).is_none());
}

#[test]
fn path_accessors() {
    let mut d = doc(&["a"]);
    assert!(!d.has_path());
    assert!(d.get_path_string().is_none());
    assert!(d.get_file_name().is_none());
    d.set_path(String::from("some/dir/file.txt"));
    assert!(d.has_path());
    assert_eq!(d.get_path_string().unwrap(), "some/dir/file.txt");
    assert_eq!(d.get_file_name().unwrap(), "file.txt");
}

#[test]
fn file_name_edge_cases() {
    let mut d = doc(&[]);
    d.set_path(String::from("plain"));
    assert_eq!(d.get_file_name().unwrap(), "plain");
    d.set_path(String::from("dir/"));
    assert!(d.get_file_name().is_none());
    d.set_path(String::from(""));
    assert!(d.get_file_name().is_none());
}

#[test]
fn get_len_is_empty() {
    let d = doc(&["a", "b"]);
    assert_eq!(d.len(), 2);
    assert!(!d.is_empty());
    assert!(d.get(1).is_some());
    assert!(d.get(2).is_none());
    let e = Document::new();
    assert!(e.is_empty());
    assert_eq!(e.len(), 0);
}
