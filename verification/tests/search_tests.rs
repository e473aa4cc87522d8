use textbuf::document::Document;
use textbuf::editor::{Editor, Key, Size};
use textbuf::search::{prompt_step, PromptStep};
use textbuf::Position;

fn editor(lines: &[&str]) -> Editor {
    let doc = Document::from_lines(lines.iter().map(|s| String::from(*s)).collect());
    Editor::new(doc, Size { width: 80, height: 20 })
}

fn cursor(e: &Editor) -> (usize, usize) {
    (e.cursor_position.x, e.cursor_position.y)
}

#[test]
fn prompt_collects_characters() {
    let mut buf = String::new();
    assert_eq!(prompt_step(&mut buf, Key::Char('a')), PromptStep::Pending);
    assert_eq!(prompt_step(&mut buf, Key::Char('b')), PromptStep::Pending);
    assert_eq!(buf, "ab");
}

#[test]
fn prompt_backspace_pops() {
    let mut buf = String::from("ab");
    assert_eq!(prompt_step(&mut buf, Key::Backspace), PromptStep::Pending);
    assert_eq!(buf, "a");
    prompt_step(&mut buf, Key::Backspace);
    assert_eq!(prompt_step(&mut buf, Key::Backspace), PromptStep::Pending);
    assert_eq!(buf, "");
}

#[test]
fn prompt_enter_accepts() {
    let mut buf = String::from("query");
    assert_eq!(prompt_step(&mut buf, Key::Char('\n')), PromptStep::Accepted);
    assert_eq!(buf, "query");
}

#[test]
fn prompt_escape_cancels_and_clears() {
    let mut buf = String::from("query");
    assert_eq!(prompt_step(&mut buf, Key::Esc), PromptStep::Cancelled);
    assert_eq!(buf, "");
    let mut buf = String::from("query");
    assert_eq!(prompt_step(&mut buf, Key::Ctrl('q')), PromptStep::Cancelled);
    assert_eq!(buf, "");
    let mut buf = String::from("query");
    assert_eq!(prompt_step(&mut buf, Key::Ctrl('x')), PromptStep::Pending);
    assert_eq!(buf, "query");
}

#[test]
fn prompt_ignores_other_keys() {
    let mut buf = String::from("q");
    assert_eq!(prompt_step(&mut buf, Key::Up), PromptStep::Pending);
    assert_eq!(buf, "q");
}

#[test]
fn search_jumps_to_first_match() {
    let mut e = editor(&["hello", "world"]);
    e.search_step(Key::Char('r'), "wor");
    assert_eq!(cursor(&e), (0, 1));
}

#[test]
fn forward_key_peeks_past_current_match() {
    let mut e = editor(&["hello", "world"]);
    e.cursor_position = Position { x: 4, y: 0 };
    e.search_step(Key::Right, "o");
    assert_eq!(cursor(&e), (1, 1));
}

#[test]
fn no_match_undoes_the_peek() {
    let mut e = editor(&["hello"]);
    e.search_step(Key::Right, "zzz");
    assert_eq!(cursor(&e), (0, 0));
}

#[test]
fn invalid_pattern_counts_as_no_match() {
    let mut e = editor(&["hello"]);
    e.cursor_position = Position { x: 2, y: 0 };
    e.search_step(Key::Char('['), "[");
    assert_eq!(cursor(&e), (2, 0));
}

#[test]
fn backward_key_searches_backward() {
    let mut e = editor(&["hello"]);
    e.cursor_position = Position { x: 4, y: 0 };
    e.search_step(Key::Left, "l");
    assert_eq!(cursor(&e), (3, 0));
}

#[test]
fn cancelled_search_restores_position() {
    let mut e = editor(&["hello", "world"]);
    let saved = e.cursor_position;
    e.search_step(Key::Char('w'), "w");
    assert_eq!(cursor(&e), (0, 1));
    e.search_end(saved, false);
    assert_eq!(cursor(&e), (0, 0));
}

#[test]
fn accepted_search_keeps_position() {
    let mut e = editor(&["hello", "world"]);
    let saved = e.cursor_position;
    e.search_step(Key::Char('w'), "w");
    e.search_end(saved, true);
    assert_eq!(cursor(&e), (0, 1));
}

#[test]
fn match_is_scrolled_into_view() {
    let mut lines: Vec<String> = std::iter::repeat(String::from("x")).take(60).collect();
    lines[50] = String::from("needle");
    let mut e = Editor::new(Document::from_lines(lines), Size { width: 80, height: 20 });
    e.search_step(Key::Char('e'), "needle");
    assert_eq!(cursor(&e), (0, 50));
    // Row 50 with height 20 and margin 5: offset is 50 + 5 - 20 + 1.
    assert_eq!(e.offset.y, 36);
}
