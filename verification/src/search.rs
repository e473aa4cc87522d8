//! The incremental search controller, as an explicit state machine: the
//! prompt buffer is advanced one key at a time, and each keystroke re-runs
//! the search from the cursor in the direction the key implies, jumping to
//! the match or undoing a speculative forward peek.  Cancelling restores the
//! position saved when the session began; an invalid pattern is treated as
//! "no match", never as an error.

use vstd::prelude::*;

verus! {

use crate::document::{doc_find_backward_spec, doc_find_forward_spec};
use crate::editor::{new_cursor_spec, scroll_spec, Editor, Key};
use crate::pattern::{re_valid, Query};
use crate::text::{pop_char, push_char};
use crate::{Position, SearchDirection};

/// What one prompt keystroke decides: keep typing, accept the entered text,
/// or cancel the prompt.
#[derive(Clone, Copy, PartialEq, Eq, Structural, Debug)]
pub enum PromptStep {
    Pending,
    Accepted,
    Cancelled,
}

/// The prompt buffer after one keystroke: printable characters are
/// appended, backspace removes the last character, and cancelling clears
/// the buffer.
pub open spec fn prompt_buf_spec(buf: Seq<char>, k: Key) -> Seq<char> {
    match k {
        Key::Char(c) => if c == '\n' {
            buf
        } else {
            buf.push(c)
        },
        Key::Backspace => if buf.len() > 0 {
            buf.drop_last()
        } else {
            buf
        },
        Key::Esc => Seq::<char>::empty(),
        Key::Ctrl(c) => if c == 'q' {
            Seq::<char>::empty()
        } else {
            buf
        },
        _ => buf,
    }
}

/// Whether a keystroke keeps the prompt open, accepts it, or cancels it:
/// the enter key accepts, escape and the quit key cancel.
pub open spec fn prompt_step_spec(k: Key) -> PromptStep {
    match k {
        Key::Char(c) => if c == '\n' {
            PromptStep::Accepted
        } else {
            PromptStep::Pending
        },
        Key::Esc => PromptStep::Cancelled,
        Key::Ctrl(c) => if c == 'q' {
            PromptStep::Cancelled
        } else {
            PromptStep::Pending
        },
        _ => PromptStep::Pending,
    }
}

/// Advances a prompt buffer by one keystroke and says whether the prompt
/// stays open, was accepted, or was cancelled (the buffer is then cleared).
pub fn prompt_step(buf: &mut String, k: Key) -> (r: PromptStep)
    ensures
        final(buf)@ == prompt_buf_spec(old(buf)@, k),
        r == prompt_step_spec(k),
{
    match k {
        Key::Char(c) => {
            if c == '\n' {
                PromptStep::Accepted
            } else {
                push_char(buf, c);
                PromptStep::Pending
            }
        },
        Key::Backspace => {
            let _popped = pop_char(buf);
            PromptStep::Pending
        },
        Key::Esc => {
            *buf = String::new();
            PromptStep::Cancelled
        },
        Key::Ctrl(c) => {
            if c == 'q' {
                *buf = String::new();
                PromptStep::Cancelled
            } else {
                PromptStep::Pending
            }
        },
        _ => PromptStep::Pending,
    }
}

/// The direction a navigation key implies during a search: left and up
/// search backward, everything else forward.
pub open spec fn search_direction_of(k: Key) -> SearchDirection {
    match k {
        Key::Left | Key::Up => SearchDirection::Backward,
        _ => SearchDirection::Forward,
    }
}

/// Whether a key makes the cursor peek one step forward before searching,
/// so that repeated forward searches advance past the current match.
pub open spec fn search_peeks(k: Key) -> bool {
    k == Key::Right || k == Key::Down
}

/// Where the cursor and offset land after one search keystroke: an optional
/// forward peek, then the search for `pat` from the cursor in the implied
/// direction; a match is jumped to (and scrolled into view), no match undoes
/// the peek, and an invalid pattern counts as no match.
pub open spec fn search_step_spec(
    doc: Seq<Seq<char>>,
    pat: Seq<char>,
    w: int,
    h: int,
    x: int,
    y: int,
    off_x: int,
    off_y: int,
    k: Key,
) -> ((int, int), (int, int)) {
    let peek = search_peeks(k);
    let dir = search_direction_of(k);
    let c1 = if peek {
        new_cursor_spec(doc, h, x, y, Key::Right)
    } else {
        (x, y)
    };
    let o1 = if peek {
        scroll_spec(doc.len() as int, w, h, c1.0, c1.1, off_x, off_y)
    } else {
        (off_x, off_y)
    };
    let found = if !re_valid(pat) {
        None
    } else if dir is Forward {
        doc_find_forward_spec(pat, doc, c1.0, c1.1)
    } else {
        doc_find_backward_spec(pat, doc, c1.0, c1.1)
    };
    match found {
        Some(p) => (p, scroll_spec(doc.len() as int, w, h, p.0, p.1, o1.0, o1.1)),
        None => if peek {
            let c2 = new_cursor_spec(doc, h, c1.0, c1.1, Key::Left);
            (c2, scroll_spec(doc.len() as int, w, h, c2.0, c2.1, o1.0, o1.1))
        } else {
            (c1, o1)
        },
    }
}

impl Editor {
    /// One incremental-search keystroke with the query as typed so far:
    /// picks the direction from the key, peeks forward for forward keys,
    /// re-searches the buffer from the cursor, and jumps to the match or
    /// undoes the peek, exactly as `search_step_spec` says.  The buffer
    /// itself never changes.
    pub fn search_step(&mut self, k: Key, query: &str)
        ensures
            final(self).cursor_position.x == search_step_spec(
                old(self).document@,
                query@,
                old(self).size.width as int,
                old(self).size.height as int,
                old(self).cursor_position.x as int,
                old(self).cursor_position.y as int,
                old(self).offset.x as int,
                old(self).offset.y as int,
                k,
            ).0.0,
            final(self).cursor_position.y == search_step_spec(
                old(self).document@,
                query@,
                old(self).size.width as int,
                old(self).size.height as int,
                old(self).cursor_position.x as int,
                old(self).cursor_position.y as int,
                old(self).offset.x as int,
                old(self).offset.y as int,
                k,
            ).0.1,
            final(self).offset.x == search_step_spec(
                old(self).document@,
                query@,
                old(self).size.width as int,
                old(self).size.height as int,
                old(self).cursor_position.x as int,
                old(self).cursor_position.y as int,
                old(self).offset.x as int,
                old(self).offset.y as int,
                k,
            ).1.0,
            final(self).offset.y == search_step_spec(
                old(self).document@,
                query@,
                old(self).size.width as int,
                old(self).size.height as int,
                old(self).cursor_position.x as int,
                old(self).cursor_position.y as int,
                old(self).offset.x as int,
                old(self).offset.y as int,
                k,
            ).1.1,
            final(self).document == old(self).document,
            final(self).size == old(self).size,
    {
        let mut moved = false;
        let direction = match k {
            Key::Right | Key::Down => {
                self.move_cursor(Key::Right);
                moved = true;
                SearchDirection::Forward
            },
            Key::Left | Key::Up => SearchDirection::Backward,
            _ => SearchDirection::Forward,
        };
        let mut jumped = false;
        match Query::compile(query) {
            Some(q) => {
                match self.document.find(&q, self.cursor_position, direction) {
                    Some(pos) => {
                        self.cursor_position = pos;
                        self.scroll();
                        jumped = true;
                    },
                    None => {},
                }
            },
            None => {},
        }
        if !jumped && moved {
            self.move_cursor(Key::Left);
        }
    }

    /// Ends a search session: an accepted, non-empty query keeps the new
    /// cursor; a cancelled or empty one restores the position saved when
    /// the session began, scrolled back into view.
    pub fn search_end(&mut self, saved: Position, kept: bool)
        ensures
            kept ==> *final(self) == *old(self),
            !kept ==> final(self).cursor_position == saved,
            !kept ==> final(self).offset.x == scroll_spec(
                old(self).document@.len() as int,
                old(self).size.width as int,
                old(self).size.height as int,
                saved.x as int,
                saved.y as int,
                old(self).offset.x as int,
                old(self).offset.y as int,
            ).0,
            !kept ==> final(self).offset.y == scroll_spec(
                old(self).document@.len() as int,
                old(self).size.width as int,
                old(self).size.height as int,
                saved.x as int,
                saved.y as int,
                old(self).offset.x as int,
                old(self).offset.y as int,
            ).1,
            final(self).document == old(self).document,
            final(self).size == old(self).size,
    {
        if !kept {
            self.cursor_position = saved;
            self.scroll();
        }
    }
}

} // verus!
