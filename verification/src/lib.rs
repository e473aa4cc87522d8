//! Core of a terminal text editor: a grapheme-indexed text buffer with
//! cursor and viewport control and bidirectional regex search.
//!
//! Rows hold one line of text each and are addressed in grapheme clusters
//! (user-perceived characters), never in bytes.  The document is an ordered
//! sequence of rows with a dirty flag; the cursor controller clamps positions
//! against row and document bounds and keeps the viewport offset within a
//! scroll margin of the cursor.  All of it is verified; Unicode segmentation
//! and regex matching are reached through trusted wrappers.

pub mod document;
pub mod editor;
pub mod lines;
pub mod pattern;
pub mod row;
pub mod search;
pub mod segment;
mod text;
pub mod truncate;

use vstd::prelude::*;

verus! {

/// A cursor or scroll position: `y` indexes rows, `x` indexes graphemes
/// within a row.
#[derive(Clone, Copy, PartialEq, Eq, Structural, Debug, Default)]
pub struct Position {
    pub x: usize,
    pub y: usize,
}

/// Which way a search walks the buffer from its start position.
#[derive(Clone, Copy, PartialEq, Eq, Structural, Debug)]
pub enum SearchDirection {
    Forward,
    Backward,
}

} // verus!
