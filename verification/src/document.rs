//! The text buffer: an ordered sequence of rows (the on-disk line order),
//! an optional path, and a dirty flag set by every content mutation and
//! cleared only when a save is recorded.  Positions are clamped or treated
//! as no-ops rather than rejected: the cursor controller is trusted to keep
//! positions sane, but the buffer does not assume it.

use vstd::prelude::*;

verus! {

use crate::lines::{serialize_spec, split_lines_spec};
use crate::pattern::Query;
use crate::row::{row_delete_spec, row_find_spec, row_insert_spec, Row};
use crate::segment::{grapheme_count, grapheme_prefix, grapheme_suffix, views_of};
use crate::text::push_char;
use crate::{Position, SearchDirection};
use vstd::string::StringExecFns;

/// The in-memory document.
pub struct Document {
    rows: Vec<Row>,
    path: Option<String>,
    dirty: bool,
}

impl View for Document {
    type V = Seq<Seq<char>>;

    closed spec fn view(&self) -> Seq<Seq<char>> {
        self.rows@.map_values(|r: Row| r@)
    }
}

/// The rows after inserting a row boundary at `(x, y)`: row `y` keeps its
/// clusters before `x` and a new row with the clusters at and after `x` is
/// inserted right below.  `y` equal to the row count first appends an empty
/// row so the split has a target; `y` beyond that is a no-op.
pub open spec fn doc_insert_newline_spec(doc: Seq<Seq<char>>, x: int, y: int) -> Seq<Seq<char>> {
    if y > doc.len() || y < 0 {
        doc
    } else {
        let d = if y == doc.len() {
            doc.push(Seq::<char>::empty())
        } else {
            doc
        };
        d.update(y, grapheme_prefix(d[y], x)).insert(y + 1, grapheme_suffix(d[y], x))
    }
}

/// The rows after inserting `c` at `(x, y)`: a line feed delegates to the
/// row split above; `y` past the end appends a new row holding only `c`;
/// otherwise row `y` takes the character at cluster index `x`.
pub open spec fn doc_insert_spec(doc: Seq<Seq<char>>, x: int, y: int, c: char) -> Seq<Seq<char>> {
    if c == '\n' {
        doc_insert_newline_spec(doc, x, y)
    } else if y >= doc.len() {
        doc.push(seq![c])
    } else {
        doc.update(y, row_insert_spec(doc[y], x, c))
    }
}

/// The rows after deleting at `(x, y)`: past the last row it is a no-op; at
/// the end of a row that is not the last, the next row is removed and its
/// content appended to row `y` (a line join); otherwise the cluster at `x`
/// of row `y` is removed.
pub open spec fn doc_delete_spec(doc: Seq<Seq<char>>, x: int, y: int) -> Seq<Seq<char>> {
    if y >= doc.len() || y < 0 {
        doc
    } else if x == grapheme_count(doc[y]) && y + 1 < doc.len() {
        doc.update(y, doc[y] + doc[y + 1]).remove(y + 1)
    } else {
        doc.update(y, row_delete_spec(doc[y], x))
    }
}

/// Where a forward scan lands, starting in row `y` at cluster `x`: the first
/// row match in row-major order from `(x, y)` on, with the start column reset
/// to 0 on every row after the first.
pub open spec fn doc_find_forward_spec(
    pat: Seq<char>,
    doc: Seq<Seq<char>>,
    x: int,
    y: int,
) -> Option<(int, int)>
    decreases doc.len() - y,
{
    if y < 0 || y >= doc.len() {
        None
    } else {
        match row_find_spec(pat, doc[y], x, SearchDirection::Forward) {
            Some(i) => Some((i, y)),
            None => doc_find_forward_spec(pat, doc, 0, y + 1),
        }
    }
}

/// Where a backward scan lands, starting in row `y` at cluster `x`: the
/// first row match scanning towards row 0, with the start column reset to
/// the row length on every row after the first.
pub open spec fn doc_find_backward_spec(
    pat: Seq<char>,
    doc: Seq<Seq<char>>,
    x: int,
    y: int,
) -> Option<(int, int)>
    decreases y,
{
    if y < 0 || y >= doc.len() {
        None
    } else {
        match row_find_spec(pat, doc[y], x, SearchDirection::Backward) {
            Some(i) => Some((i, y)),
            None => if y == 0 {
                None
            } else {
                doc_find_backward_spec(pat, doc, grapheme_count(doc[y - 1]), y - 1)
            },
        }
    }
}

/// The final component of a path: the characters after its last `/`
/// separator (all of it when there is none, empty for a path ending in one).
pub open spec fn after_last_slash(p: Seq<char>) -> Seq<char>
    decreases p.len(),
{
    if p.len() == 0 {
        Seq::<char>::empty()
    } else if p.last() == '/' {
        Seq::<char>::empty()
    } else {
        after_last_slash(p.drop_last()).push(p.last())
    }
}

impl Document {
    /// The dirty flag: whether the buffer was modified since the last
    /// recorded save.
    pub closed spec fn spec_dirty(&self) -> bool {
        self.dirty
    }

    /// The path the document was loaded from or will be saved to, if any.
    pub closed spec fn spec_path(&self) -> Option<Seq<char>> {
        match self.path {
            Some(ref p) => Some(p@),
            None => None,
        }
    }

    /// An empty, untitled, clean document.
    pub fn new() -> (d: Document)
        ensures
            d@ == Seq::<Seq<char>>::empty(),
            !d.spec_dirty(),
            d.spec_path() is None,
    {
        let d = Document { rows: Vec::new(), path: None, dirty: false };
        proof {
            assert(d@ =~= Seq::<Seq<char>>::empty());
        }
        d
    }

    /// Builds a clean, untitled document whose rows are exactly the given
    /// lines, in order.
    pub fn from_lines(lines: Vec<String>) -> (d: Document)
        ensures
            d@ == views_of(lines@),
            !d.spec_dirty(),
            d.spec_path() is None,
    {
        let mut rows: Vec<Row> = Vec::new();
        let mut i: usize = 0;
        while i < lines.len()
            invariant
                0 <= i <= lines@.len(),
                rows@.map_values(|r: Row| r@) == views_of(lines@.take(i as int)),
            decreases lines@.len() - i,
        {
            let ghost old_rows = rows@;
            rows.push(Row::from_string(lines[i].clone()));
            proof {
                assert(rows@.map_values(|r: Row| r@) =~= old_rows.map_values(|r: Row| r@).push(
                    lines@[i as int]@,
                ));
                assert(views_of(lines@.take(i as int + 1)) =~= views_of(
                    lines@.take(i as int),
                ).push(lines@[i as int]@));
            }
            i += 1;
        }
        proof {
            assert(lines@.take(lines@.len() as int) =~= lines@);
        }
        let d = Document { rows, path: None, dirty: false };
        d
    }

    /// The text this document is persisted as: every row followed by one
    /// line feed.
    pub fn serialize(&self) -> (r: String)
        ensures
            r@ == serialize_spec(self@),
    {
        let mut t = String::new();
        let mut i: usize = 0;
        proof {
            assert(self@.take(0) =~= Seq::<Seq<char>>::empty());
            assert(t@ =~= serialize_spec(self@.take(0)));
        }
        while i < self.rows.len()
            invariant
                0 <= i <= self.rows@.len(),
                self@ == self.rows@.map_values(|r: Row| r@),
                t@ == serialize_spec(self@.take(i as int)),
            decreases self.rows@.len() - i,
        {
            let ghost old_t = t@;
            t.append(self.rows[i].as_str());
            push_char(&mut t, '\n');
            proof {
                let pre = self@.take(i as int);
                let one = seq![self@[i as int]];
                crate::lines::lemma_serialize_concat(pre, one);
                assert(one.len() == 1);
                assert(one[0] == self@[i as int]);
                assert(one.drop_first() =~= Seq::<Seq<char>>::empty());
                assert(serialize_spec(one.drop_first()) == Seq::<char>::empty());
                assert(serialize_spec(one) =~= self@[i as int] + seq!['\n']);
                assert(self@.take(i as int + 1) =~= pre + one);
                assert(t@ =~= old_t + self@[i as int] + seq!['\n']);
                assert(t@ =~= serialize_spec(self@.take(i as int + 1)));
            }
            i += 1;
        }
        proof {
            assert(self@.take(self.rows@.len() as int) =~= self@);
        }
        t
    }

    /// Records a successful persist: the buffer is clean again.
    pub fn mark_saved(&mut self)
        ensures
            final(self)@ == old(self)@,
            !final(self).spec_dirty(),
            final(self).spec_path() == old(self).spec_path(),
    {
        self.dirty = false;
    }

    /// The row at `index`, when there is one.
    pub fn get(&self, index: usize) -> (r: Option<&Row>)
        ensures
            match r {
                Some(row) => index < self@.len() && row@ == self@[index as int],
                None => index >= self@.len(),
            },
    {
        if index < self.rows.len() {
            Some(&self.rows[index])
        } else {
            None
        }
    }

    /// Whether the document has no rows at all.
    pub fn is_empty(&self) -> (r: bool)
        ensures
            r == (self@.len() == 0),
    {
        self.rows.is_empty()
    }

    /// The number of rows.
    pub fn len(&self) -> (r: usize)
        ensures
            r == self@.len(),
    {
        self.rows.len()
    }

    /// Whether the buffer was modified since the last recorded save.
    pub fn is_dirty(&self) -> (r: bool)
        ensures
            r == self.spec_dirty(),
    {
        self.dirty
    }

    /// Whether the document has a path.
    pub fn has_path(&self) -> (r: bool)
        ensures
            r == (self.spec_path() is Some),
    {
        self.path.is_some()
    }

    /// Gives the document a path to persist to.
    pub fn set_path(&mut self, path: String)
        ensures
            final(self)@ == old(self)@,
            final(self).spec_dirty() == old(self).spec_dirty(),
            final(self).spec_path() == Some(path@),
    {
        self.path = Some(path);
    }

    /// The document's path, if any.
    pub fn get_path_string(&self) -> (r: Option<String>)
        ensures
            match r {
                Some(p) => self.spec_path() == Some(p@),
                None => self.spec_path() is None,
            },
    {
        match &self.path {
            Some(p) => Some(p.clone()),
            None => None,
        }
    }

    /// The file name of the document's path: the part after the last `/`
    /// separator, when the document has a path and that part is non-empty.
    pub fn get_file_name(&self) -> (r: Option<String>)
        ensures
            match r {
                Some(name) => self.spec_path() matches Some(p) && name@ == after_last_slash(p)
                    && after_last_slash(p).len() > 0,
                None => self.spec_path() is None || (self.spec_path() matches Some(p)
                    && after_last_slash(p).len() == 0),
            },
    {
        let p = match &self.path {
            Some(p) => p,
            None => {
                return None;
            },
        };
        let s = p.as_str();
        let n = s.unicode_len();
        let mut start: usize = 0;
        let mut i: usize = 0;
        proof {
            assert(s@.take(0) =~= Seq::<char>::empty());
            assert(s@.subrange(0, 0) =~= Seq::<char>::empty());
        }
        while i < n
            invariant
                0 <= start <= i <= n,
                n == s@.len(),
                after_last_slash(s@.take(i as int)) == s@.subrange(start as int, i as int),
            decreases n - i,
        {
            let c = s.get_char(i);
            proof {
                assert(s@.take(i as int + 1).drop_last() =~= s@.take(i as int));
                assert(s@.take(i as int + 1).last() == c);
            }
            if c == '/' {
                start = i + 1;
                proof {
                    assert(s@.subrange(i as int + 1, i as int + 1) =~= Seq::<char>::empty());
                }
            } else {
                proof {
                    assert(s@.subrange(start as int, i as int).push(c) =~= s@.subrange(
                        start as int,
                        i as int + 1,
                    ));
                }
            }
            i += 1;
        }
        proof {
            assert(s@.take(n as int) =~= s@);
        }
        if start == n {
            None
        } else {
            let name = s.substring_char(start, n);
            Some(String::from_str(name))
        }
    }

    /// Inserts `c` at `pos`, as `doc_insert_spec` says: a line feed splits
    /// the row, a `pos.y` past the end appends a new row, anything else
    /// edits row `pos.y`.  Marks the buffer dirty except for the no-op of a
    /// line feed beyond the end.
    pub fn insert_or_append(&mut self, pos: Position, c: char)
        ensures
            final(self)@ == doc_insert_spec(old(self)@, pos.x as int, pos.y as int, c),
            c == '\n' ==> final(self).spec_dirty() == (old(self).spec_dirty() || pos.y <= old(
                self,
            )@.len()),
            c != '\n' ==> final(self).spec_dirty(),
            final(self).spec_path() == old(self).spec_path(),
    {
        if c == '\n' {
            self.insert_newline(pos);
            return ;
        }
        self.dirty = true;
        let ghost doc = self.rows@.map_values(|r: Row| r@);
        if pos.y >= self.rows.len() {
            let mut s = String::new();
            push_char(&mut s, c);
            proof {
                assert(s@ =~= seq![c]);
            }
            let ghost old_rows = self.rows@;
            self.rows.push(Row::from_string(s));
            proof {
                assert(self.rows@.map_values(|r: Row| r@) =~= old_rows.map_values(
                    |r: Row| r@,
                ).push(seq![c]));
            }
        } else {
            let mut row = self.rows.remove(pos.y);
            row.insert_or_append(pos.x, c);
            self.rows.insert(pos.y, row);
            proof {
                assert(self.rows@ =~= old(self).rows@.update(pos.y as int, row));
                assert(self.rows@.map_values(|r: Row| r@) =~= doc.update(
                    pos.y as int,
                    row_insert_spec(doc[pos.y as int], pos.x as int, c),
                ));
            }
        }
    }

    /// Inserts a row boundary at `pos`: row `pos.y` keeps the clusters
    /// before `pos.x` and a new row with the rest is inserted right below.
    /// `pos.y` equal to the row count appends first; beyond that it is a
    /// no-op and the buffer stays as it was.
    pub fn insert_newline(&mut self, pos: Position)
        ensures
            final(self)@ == doc_insert_newline_spec(old(self)@, pos.x as int, pos.y as int),
            final(self).spec_dirty() == (old(self).spec_dirty() || pos.y <= old(self)@.len()),
            final(self).spec_path() == old(self).spec_path(),
    {
        if pos.y > self.rows.len() {
            return ;
        }
        self.dirty = true;
        if pos.y == self.rows.len() {
            let ghost old_rows = self.rows@;
            self.rows.push(Row::from_string(String::new()));
            proof {
                assert(self.rows@.map_values(|r: Row| r@) =~= old_rows.map_values(
                    |r: Row| r@,
                ).push(Seq::<char>::empty()));
            }
        }
        let ghost d = self.rows@.map_values(|r: Row| r@);
        let mut row = self.rows.remove(pos.y);
        let new_row = row.split(pos.x);
        self.rows.insert(pos.y, row);
        let n = self.rows.len();
        proof {
            assert(pos.y < n);
        }
        self.rows.insert(pos.y + 1, new_row);
        proof {
            let y = pos.y as int;
            let x = pos.x as int;
            assert(self.rows@.map_values(|r: Row| r@) =~= d.update(y, grapheme_prefix(d[y], x)).insert(
                y + 1,
                grapheme_suffix(d[y], x),
            ));
        }
    }

    /// Deletes at `pos`: at the end of a row that is not the last row the
    /// next row is joined onto it; otherwise the cluster at `pos.x` of row
    /// `pos.y` is removed; past the last row nothing happens.
    pub fn delete(&mut self, pos: Position)
        ensures
            final(self)@ == doc_delete_spec(old(self)@, pos.x as int, pos.y as int),
            final(self).spec_dirty() == (old(self).spec_dirty() || pos.y < old(self)@.len()),
            final(self).spec_path() == old(self).spec_path(),
    {
        let len = self.rows.len();
        if pos.y >= len {
            return ;
        }
        self.dirty = true;
        let ghost d = self.rows@.map_values(|r: Row| r@);
        let row_len = self.rows[pos.y].len();
        if pos.x == row_len && pos.y + 1 < len {
            let next_row = self.rows.remove(pos.y + 1);
            let mut row = self.rows.remove(pos.y);
            row.push(next_row);
            self.rows.insert(pos.y, row);
            proof {
                let y = pos.y as int;
                assert(self.rows@.map_values(|r: Row| r@) =~= d.update(y, d[y] + d[y + 1]).remove(
                    y + 1,
                ));
            }
        } else {
            let mut row = self.rows.remove(pos.y);
            row.delete(pos.x);
            self.rows.insert(pos.y, row);
            proof {
                let y = pos.y as int;
                assert(self.rows@.map_values(|r: Row| r@) =~= d.update(
                    y,
                    row_delete_spec(d[y], pos.x as int),
                ));
            }
        }
    }

    /// The nearest match of `query` from `limit` in the given direction, as
    /// an absolute position: rows are scanned from `limit.y` forward (or
    /// backward to row 0); the first scanned row starts at `limit.x`, later
    /// rows at column 0 (forward) or at their end (backward).  A forward
    /// match never lies before `limit`; a backward match always lies before
    /// it.
    pub fn find(&self, query: &Query, limit: Position, direction: SearchDirection) -> (r: Option<
        Position,
    >)
        ensures
            direction is Forward ==> (match r {
                Some(p) => doc_find_forward_spec(query.pat(), self@, limit.x as int, limit.y as int)
                    == Some((p.x as int, p.y as int)),
                None => doc_find_forward_spec(query.pat(), self@, limit.x as int, limit.y as int)
                    is None,
            }),
            direction is Backward ==> (match r {
                Some(p) => doc_find_backward_spec(
                    query.pat(),
                    self@,
                    limit.x as int,
                    limit.y as int,
                ) == Some((p.x as int, p.y as int)),
                None => doc_find_backward_spec(query.pat(), self@, limit.x as int, limit.y as int)
                    is None,
            }),
            direction is Forward ==> (r matches Some(p) ==> p.y < self@.len() && (p.y > limit.y || (
            p.y == limit.y && p.x >= limit.x))),
            direction is Backward ==> (r matches Some(p) ==> p.y < self@.len() && (p.y < limit.y
                || (p.y == limit.y && p.x < limit.x))),
    {
        let ghost doc = self.rows@.map_values(|r: Row| r@);
        let ghost pat = query.pat();
        let len = self.rows.len();
        match direction {
            SearchDirection::Forward => {
                let mut pos = limit;
                while pos.y < len
                    invariant
                        direction is Forward,
                        len == doc.len(),
                        doc == self.rows@.map_values(|r: Row| r@),
                        pat == query.pat(),
                        limit.y <= pos.y,
                        pos.y == limit.y ==> pos.x == limit.x,
                        pos.y > limit.y ==> pos.x == 0,
                        doc_find_forward_spec(pat, doc, limit.x as int, limit.y as int)
                            == doc_find_forward_spec(pat, doc, pos.x as int, pos.y as int),
                    decreases len - pos.y,
                {
                    proof {
                        assert(doc[pos.y as int] == self.rows@[pos.y as int]@);
                    }
                    match self.rows[pos.y].find(query, pos.x, SearchDirection::Forward) {
                        Some(x) => {
                            return Some(Position { x, y: pos.y });
                        },
                        None => {},
                    }
                    pos.y = pos.y + 1;
                    pos.x = 0;
                }
                None
            },
            SearchDirection::Backward => {
                if limit.y >= len {
                    return None;
                }
                let mut pos = limit;
                loop
                    invariant
                        direction is Backward,
                        len == doc.len(),
                        doc == self.rows@.map_values(|r: Row| r@),
                        pat == query.pat(),
                        pos.y < len,
                        pos.y <= limit.y,
                        pos.y == limit.y ==> pos.x == limit.x,
                        pos.y < limit.y ==> pos.x == grapheme_count(doc[pos.y as int]),
                        doc_find_backward_spec(pat, doc, limit.x as int, limit.y as int)
                            == doc_find_backward_spec(pat, doc, pos.x as int, pos.y as int),
                    decreases pos.y,
                {
                    proof {
                        assert(doc[pos.y as int] == self.rows@[pos.y as int]@);
                    }
                    match self.rows[pos.y].find(query, pos.x, SearchDirection::Backward) {
                        Some(x) => {
                            return Some(Position { x, y: pos.y });
                        },
                        None => {},
                    }
                    if pos.y == 0 {
                        return None;
                    }
                    pos.y = pos.y - 1;
                    pos.x = self.rows[pos.y].len();
                }
            },
        }
    }
}

/// Deleting at `(x, y)` where `x` is the cluster count of row `y` and `y`
/// is not the last row removes row `y + 1`, appends its content to row `y`,
/// and shrinks the row count by exactly one; every other row keeps its
/// content.
pub proof fn lemma_delete_joins_rows(doc: Seq<Seq<char>>, x: int, y: int)
    requires
        0 <= y,
        y + 1 < doc.len(),
        x == grapheme_count(doc[y]),
    ensures
        doc_delete_spec(doc, x, y).len() == doc.len() - 1,
        doc_delete_spec(doc, x, y)[y] == doc[y] + doc[y + 1],
        forall|k: int| 0 <= k < y ==> doc_delete_spec(doc, x, y)[k] == doc[k],
        forall|k: int| y < k < doc.len() - 1 ==> doc_delete_spec(doc, x, y)[k] == doc[k + 1],
{
    let joined = doc.update(y, doc[y] + doc[y + 1]).remove(y + 1);
    assert(doc_delete_spec(doc, x, y) == joined);
}

} // verus!
