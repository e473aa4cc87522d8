//! The cursor and viewport controller: navigation intents move the cursor,
//! clamped against row and document bounds, and every move recomputes the
//! scroll offset so that a margin of rows stays between the cursor and the
//! viewport's top and bottom whenever the document allows it.  All the
//! arithmetic saturates: nothing here underflows, overflows or panics.

use vstd::prelude::*;

verus! {

use crate::document::{doc_delete_spec, doc_insert_spec, Document};
use crate::segment::grapheme_count;
use crate::Position;

/// Rows kept between the cursor and the viewport's top or bottom edge when
/// the document is long enough.
pub const SCROLL_MARGIN: usize = 5;

/// The viewport dimensions, in character cells.
#[derive(Clone, Copy, PartialEq, Eq, Structural, Debug)]
pub struct Size {
    pub width: u16,
    pub height: u16,
}

/// A decoded key event, as far as the editor core cares about it.
#[derive(Clone, Copy, PartialEq, Eq, Structural, Debug)]
pub enum Key {
    Char(char),
    Ctrl(char),
    F(u8),
    Up,
    Down,
    Left,
    Right,
    PageUp,
    PageDown,
    Home,
    End,
    Backspace,
    Delete,
    Esc,
    Other,
}

/// What the surrounding program should do after a keypress: carry on, quit,
/// persist the buffer (to its path, or asking for one), open the search
/// prompt, or show the help text.
#[derive(Clone, Copy, PartialEq, Eq, Structural, Debug)]
pub enum Command {
    Continue,
    Quit,
    Save,
    SaveAs,
    Search,
    Help,
}

/// `a + b`, stopped at the largest `usize` value.
pub open spec fn sat_add(a: int, b: int) -> int {
    if a + b > usize::MAX {
        usize::MAX as int
    } else {
        a + b
    }
}

/// `a - b`, stopped at zero.
pub open spec fn sat_sub(a: int, b: int) -> int {
    if a >= b {
        a - b
    } else {
        0
    }
}

/// The smaller of the two.
pub open spec fn min_i(a: int, b: int) -> int {
    if a < b {
        a
    } else {
        b
    }
}

/// The grapheme length of row `y`, or 0 where there is no such row.
pub open spec fn row_len_at(doc: Seq<Seq<char>>, y: int) -> int {
    if 0 <= y < doc.len() {
        grapheme_count(doc[y])
    } else {
        0
    }
}

/// Where a navigation intent puts the cursor: vertical moves clamp `y` into
/// the document, `Left` and `Right` wrap across row ends, `Home` and `End`
/// jump inside the row, and afterwards `x` is re-clamped to the new row's
/// length so the cursor never points past its row.
pub open spec fn new_cursor_spec(doc: Seq<Seq<char>>, height: int, x0: int, y0: int, k: Key) -> (
    int,
    int,
) {
    let x_max = row_len_at(doc, y0);
    let y_max = sat_sub(doc.len() as int, 1);
    let moved = match k {
        Key::Up => (x0, sat_sub(y0, 1)),
        Key::Down => (x0, min_i(sat_add(y0, 1), y_max)),
        Key::Left => if x0 > 0 {
            (x0 - 1, y0)
        } else if y0 > 0 {
            (row_len_at(doc, y0 - 1), y0 - 1)
        } else {
            (x0, y0)
        },
        Key::Right => if x0 < x_max {
            (x0 + 1, y0)
        } else if y0 < y_max {
            (0, y0 + 1)
        } else {
            (x0, y0)
        },
        Key::PageUp => (x0, sat_sub(y0, height)),
        Key::PageDown => (x0, min_i(sat_add(y0, height), y_max)),
        Key::Home => (0, y0),
        Key::End => (x_max, y0),
        _ => (x0, y0),
    };
    (min_i(moved.0, row_len_at(doc, moved.1)), moved.1)
}

/// Where the vertical scroll offset lands for cursor row `y`: pulled up or
/// down whenever the cursor leaves the margin band, but never further down
/// than `doc_len - height`, and never below zero.
pub open spec fn scroll_y_spec(doc_len: int, height: int, y: int, off_y: int) -> int {
    if y < sat_add(off_y, SCROLL_MARGIN as int) {
        sat_sub(y, SCROLL_MARGIN as int)
    } else if y >= sat_sub(sat_add(off_y, height), SCROLL_MARGIN as int) {
        min_i(
            sat_add(sat_sub(sat_add(y, SCROLL_MARGIN as int), height), 1),
            sat_sub(doc_len, height),
        )
    } else {
        off_y
    }
}

/// Where the horizontal scroll offset lands for cursor column `x`: it
/// tracks the cursor at the viewport's left and right edges, with no margin.
pub open spec fn scroll_x_spec(width: int, x: int, off_x: int) -> int {
    if x < off_x {
        x
    } else if x >= sat_add(off_x, width) {
        sat_add(sat_sub(x, width), 1)
    } else {
        off_x
    }
}

/// Both scroll offsets at once.
pub open spec fn scroll_spec(
    doc_len: int,
    width: int,
    height: int,
    x: int,
    y: int,
    off_x: int,
    off_y: int,
) -> (int, int) {
    (scroll_x_spec(width, x, off_x), scroll_y_spec(doc_len, height, y, off_y))
}

/// Which of the editor's operations a key asks for.
pub open spec fn command_of(k: Key) -> Command {
    match k {
        Key::Ctrl(c) => if c == 'q' {
            Command::Quit
        } else if c == 's' {
            Command::Save
        } else if c == 'w' {
            Command::SaveAs
        } else if c == 'f' {
            Command::Search
        } else {
            Command::Continue
        },
        Key::F(n) => if n == 1 {
            Command::Help
        } else {
            Command::Continue
        },
        _ => Command::Continue,
    }
}

/// The document contents after one keypress: printable characters are
/// inserted at the cursor, `Delete` removes at the cursor, `Backspace`
/// removes at the position one step left (unless the cursor is at the very
/// start), and everything else leaves the buffer alone.
pub open spec fn keypress_doc_spec(
    doc: Seq<Seq<char>>,
    height: int,
    x: int,
    y: int,
    k: Key,
) -> Seq<Seq<char>> {
    match k {
        Key::Char(c) => doc_insert_spec(doc, x, y, c),
        Key::Delete => doc_delete_spec(doc, x, y),
        Key::Backspace => if x > 0 || y > 0 {
            let m = new_cursor_spec(doc, height, x, y, Key::Left);
            doc_delete_spec(doc, m.0, m.1)
        } else {
            doc
        },
        _ => doc,
    }
}

/// The cursor after one keypress: a printable character pushes the cursor
/// one step right within the freshly edited document, `Backspace` lands on
/// the position one step left, navigation keys move as `new_cursor_spec`
/// says, and the rest leave it where it was.
pub open spec fn keypress_cursor_spec(
    doc: Seq<Seq<char>>,
    height: int,
    x: int,
    y: int,
    k: Key,
) -> (int, int) {
    match k {
        Key::Char(c) => new_cursor_spec(doc_insert_spec(doc, x, y, c), height, x, y, Key::Right),
        Key::Backspace => if x > 0 || y > 0 {
            new_cursor_spec(doc, height, x, y, Key::Left)
        } else {
            (x, y)
        },
        Key::Up | Key::Down | Key::Left | Key::Right | Key::PageUp | Key::PageDown | Key::Home
            | Key::End => new_cursor_spec(doc, height, x, y, k),
        _ => (x, y),
    }
}

/// The scroll offset after one keypress, following every cursor change or
/// content change with a scroll pass, exactly as the handlers chain them.
pub open spec fn keypress_offset_spec(
    doc: Seq<Seq<char>>,
    width: int,
    height: int,
    x: int,
    y: int,
    off_x: int,
    off_y: int,
    k: Key,
) -> (int, int) {
    match k {
        Key::Char(c) => {
            let d2 = doc_insert_spec(doc, x, y, c);
            let cur = new_cursor_spec(d2, height, x, y, Key::Right);
            scroll_spec(d2.len() as int, width, height, cur.0, cur.1, off_x, off_y)
        },
        Key::Delete => {
            let d2 = doc_delete_spec(doc, x, y);
            scroll_spec(d2.len() as int, width, height, x, y, off_x, off_y)
        },
        Key::Backspace => if x > 0 || y > 0 {
            let cur = new_cursor_spec(doc, height, x, y, Key::Left);
            let off1 = scroll_spec(doc.len() as int, width, height, cur.0, cur.1, off_x, off_y);
            let d2 = doc_delete_spec(doc, cur.0, cur.1);
            scroll_spec(d2.len() as int, width, height, cur.0, cur.1, off1.0, off1.1)
        } else {
            (off_x, off_y)
        },
        Key::Up | Key::Down | Key::Left | Key::Right | Key::PageUp | Key::PageDown | Key::Home
            | Key::End => {
            let cur = new_cursor_spec(doc, height, x, y, k);
            scroll_spec(doc.len() as int, width, height, cur.0, cur.1, off_x, off_y)
        },
        _ => (off_x, off_y),
    }
}

/// Whether the buffer is dirty after one keypress: editing keys that touch
/// the buffer set the flag, everything else leaves it.
pub open spec fn keypress_dirty_spec(
    doc: Seq<Seq<char>>,
    height: int,
    x: int,
    y: int,
    dirty: bool,
    k: Key,
) -> bool {
    match k {
        Key::Char(c) => if c == '\n' {
            dirty || y <= doc.len()
        } else {
            true
        },
        Key::Delete => dirty || y < doc.len(),
        Key::Backspace => if x > 0 || y > 0 {
            let m = new_cursor_spec(doc, height, x, y, Key::Left);
            dirty || m.1 < doc.len()
        } else {
            dirty
        },
        _ => dirty,
    }
}

/// The editor core: the document plus the cursor and viewport state.  The
/// terminal, the key decoding and all drawing stay outside; they hand keys
/// in and read this state back out.
pub struct Editor {
    pub document: Document,
    pub cursor_position: Position,
    pub offset: Position,
    pub size: Size,
}

impl Editor {
    /// An editor over `document` in a viewport of `size`, with the cursor
    /// and offset at the origin.
    pub fn new(document: Document, size: Size) -> (e: Editor)
        ensures
            e.document == document,
            e.cursor_position == (Position { x: 0, y: 0 }),
            e.offset == (Position { x: 0, y: 0 }),
            e.size == size,
    {
        Editor {
            document,
            cursor_position: Position { x: 0, y: 0 },
            offset: Position { x: 0, y: 0 },
            size,
        }
    }

    /// Recomputes the scroll offset for the current cursor position, as
    /// `scroll_spec` says; nothing else changes.
    pub fn scroll(&mut self)
        ensures
            final(self).offset.x == scroll_spec(
                old(self).document@.len() as int,
                old(self).size.width as int,
                old(self).size.height as int,
                old(self).cursor_position.x as int,
                old(self).cursor_position.y as int,
                old(self).offset.x as int,
                old(self).offset.y as int,
            ).0,
            final(self).offset.y == scroll_spec(
                old(self).document@.len() as int,
                old(self).size.width as int,
                old(self).size.height as int,
                old(self).cursor_position.x as int,
                old(self).cursor_position.y as int,
                old(self).offset.x as int,
                old(self).offset.y as int,
            ).1,
            final(self).document == old(self).document,
            final(self).cursor_position == old(self).cursor_position,
            final(self).size == old(self).size,
    {
        let x = self.cursor_position.x;
        let y = self.cursor_position.y;
        let width = self.size.width as usize;
        let height = self.size.height as usize;

        if y < self.offset.y.saturating_add(SCROLL_MARGIN) {
            self.offset.y = y.saturating_sub(SCROLL_MARGIN);
        } else if y >= self.offset.y.saturating_add(height).saturating_sub(SCROLL_MARGIN) {
            let wanted = y.saturating_add(SCROLL_MARGIN).saturating_sub(height).saturating_add(1);
            let floor = self.document.len().saturating_sub(height);
            self.offset.y = if wanted < floor {
                wanted
            } else {
                floor
            };
        }
        if x < self.offset.x {
            self.offset.x = x;
        } else if x >= self.offset.x.saturating_add(width) {
            self.offset.x = x.saturating_sub(width).saturating_add(1);
        }
    }

    /// Applies one navigation intent to the cursor, clamps it against the
    /// document, and re-scrolls, as `new_cursor_spec` and `scroll_spec` say.
    /// The cursor never ends up past its row's length.
    pub fn move_cursor(&mut self, k: Key)
        ensures
            final(self).cursor_position.x == new_cursor_spec(
                old(self).document@,
                old(self).size.height as int,
                old(self).cursor_position.x as int,
                old(self).cursor_position.y as int,
                k,
            ).0,
            final(self).cursor_position.y == new_cursor_spec(
                old(self).document@,
                old(self).size.height as int,
                old(self).cursor_position.x as int,
                old(self).cursor_position.y as int,
                k,
            ).1,
            final(self).offset.x == scroll_spec(
                old(self).document@.len() as int,
                old(self).size.width as int,
                old(self).size.height as int,
                final(self).cursor_position.x as int,
                final(self).cursor_position.y as int,
                old(self).offset.x as int,
                old(self).offset.y as int,
            ).0,
            final(self).offset.y == scroll_spec(
                old(self).document@.len() as int,
                old(self).size.width as int,
                old(self).size.height as int,
                final(self).cursor_position.x as int,
                final(self).cursor_position.y as int,
                old(self).offset.x as int,
                old(self).offset.y as int,
            ).1,
            final(self).cursor_position.x <= row_len_at(
                old(self).document@,
                final(self).cursor_position.y as int,
            ),
            final(self).document == old(self).document,
            final(self).size == old(self).size,
    {
        let mut x = self.cursor_position.x;
        let mut y = self.cursor_position.y;
        let x_max = match self.document.get(y) {
            Some(row) => row.len(),
            None => 0,
        };
        let y_max = self.document.len().saturating_sub(1);
        let height = self.size.height as usize;

        match k {
            Key::Up => {
                y = y.saturating_sub(1);
            },
            Key::Down => {
                let ny = y.saturating_add(1);
                y = if ny < y_max {
                    ny
                } else {
                    y_max
                };
            },
            Key::Left => {
                if x > 0 {
                    x = x - 1;
                } else if y > 0 {
                    y = y - 1;
                    x = match self.document.get(y) {
                        Some(row) => row.len(),
                        None => 0,
                    };
                }
            },
            Key::Right => {
                if x < x_max {
                    x = x + 1;
                } else if y < y_max {
                    y = y + 1;
                    x = 0;
                }
            },
            Key::PageUp => {
                y = y.saturating_sub(height);
            },
            Key::PageDown => {
                let ny = y.saturating_add(height);
                y = if ny < y_max {
                    ny
                } else {
                    y_max
                };
            },
            Key::Home => {
                x = 0;
            },
            Key::End => {
                x = x_max;
            },
            _ => {},
        }

        let x_max_new = match self.document.get(y) {
            Some(row) => row.len(),
            None => 0,
        };
        if x > x_max_new {
            x = x_max_new;
        }

        self.cursor_position = Position { x, y };
        self.scroll();
    }

    /// Handles one keypress: content keys edit the buffer and re-scroll,
    /// navigation keys move the cursor, and control keys are turned into the
    /// command the surrounding program should run.
    pub fn process_keypress(&mut self, k: Key) -> (r: Command)
        ensures
            r == command_of(k),
            final(self).document@ == keypress_doc_spec(
                old(self).document@,
                old(self).size.height as int,
                old(self).cursor_position.x as int,
                old(self).cursor_position.y as int,
                k,
            ),
            final(self).cursor_position.x == keypress_cursor_spec(
                old(self).document@,
                old(self).size.height as int,
                old(self).cursor_position.x as int,
                old(self).cursor_position.y as int,
                k,
            ).0,
            final(self).cursor_position.y == keypress_cursor_spec(
                old(self).document@,
                old(self).size.height as int,
                old(self).cursor_position.x as int,
                old(self).cursor_position.y as int,
                k,
            ).1,
            final(self).offset.x == keypress_offset_spec(
                old(self).document@,
                old(self).size.width as int,
                old(self).size.height as int,
                old(self).cursor_position.x as int,
                old(self).cursor_position.y as int,
                old(self).offset.x as int,
                old(self).offset.y as int,
                k,
            ).0,
            final(self).offset.y == keypress_offset_spec(
                old(self).document@,
                old(self).size.width as int,
                old(self).size.height as int,
                old(self).cursor_position.x as int,
                old(self).cursor_position.y as int,
                old(self).offset.x as int,
                old(self).offset.y as int,
                k,
            ).1,
            final(self).document.spec_dirty() == keypress_dirty_spec(
                old(self).document@,
                old(self).size.height as int,
                old(self).cursor_position.x as int,
                old(self).cursor_position.y as int,
                old(self).document.spec_dirty(),
                k,
            ),
            final(self).document.spec_path() == old(self).document.spec_path(),
            final(self).size == old(self).size,
    {
        match k {
            Key::Ctrl(c) => {
                if c == 'q' {
                    Command::Quit
                } else if c == 's' {
                    Command::Save
                } else if c == 'w' {
                    Command::SaveAs
                } else if c == 'f' {
                    Command::Search
                } else {
                    Command::Continue
                }
            },
            Key::F(n) => {
                if n == 1 {
                    Command::Help
                } else {
                    Command::Continue
                }
            },
            Key::Char(c) => {
                self.document.insert_or_append(self.cursor_position, c);
                self.move_cursor(Key::Right);
                Command::Continue
            },
            Key::Delete => {
                self.document.delete(self.cursor_position);
                self.scroll();
                Command::Continue
            },
            Key::Backspace => {
                if self.cursor_position.x > 0 || self.cursor_position.y > 0 {
                    self.move_cursor(Key::Left);
                    self.document.delete(self.cursor_position);
                    self.scroll();
                }
                Command::Continue
            },
            Key::Up | Key::Down | Key::Left | Key::Right | Key::PageUp | Key::PageDown | Key::Home
                | Key::End => {
                self.move_cursor(k);
                Command::Continue
            },
            _ => Command::Continue,
        }
    }
}

} // verus!
