//! Persistence in terms of plain text: a document is written as every row
//! followed by one line feed, and read back by splitting at line feeds only
//! (no line-ending normalization, so CRLF is kept).  The actual file reads
//! and writes live outside the library; this module is the contract between
//! the two directions, with the round trip proved.

use vstd::prelude::*;

verus! {

use crate::segment::views_of;
use crate::text::push_char;
use vstd::string::StrSliceExecFns;

/// Whether `s` holds no line feed, as a row's content should.
pub open spec fn newline_free(s: Seq<char>) -> bool {
    forall|j: int| 0 <= j < s.len() ==> s[j] != '\n'
}

/// The index of the first line feed in `text`, or `text.len()` when there is
/// none.
pub open spec fn first_newline(text: Seq<char>) -> int
    decreases text.len(),
{
    if text.len() == 0 {
        0
    } else if text[0] == '\n' {
        0
    } else {
        1 + first_newline(text.drop_first())
    }
}

/// The lines of `text`, split at every line feed; a final piece after the
/// last line feed only counts when it is non-empty, so text that ends in a
/// line feed yields no trailing empty line.
pub open spec fn split_lines_spec(text: Seq<char>) -> Seq<Seq<char>>
    decreases text.len(),
{
    if text.len() == 0 {
        seq![]
    } else {
        let i = first_newline(text);
        if 0 <= i < text.len() {
            seq![text.take(i)] + split_lines_spec(text.skip(i + 1))
        } else {
            seq![text]
        }
    }
}

/// The text written when rows are persisted: every row followed by one line
/// feed.
pub open spec fn serialize_spec(rows: Seq<Seq<char>>) -> Seq<char>
    decreases rows.len(),
{
    if rows.len() == 0 {
        seq![]
    } else {
        rows[0] + seq!['\n'] + serialize_spec(rows.drop_first())
    }
}

/// The first line feed of a concatenation lies past any line-feed-free
/// prefix.
proof fn lemma_first_newline_concat(a: Seq<char>, b: Seq<char>)
    requires
        newline_free(a),
    ensures
        first_newline(a + b) == a.len() + first_newline(b),
    decreases a.len(),
{
    if a.len() == 0 {
        assert(a + b =~= b);
    } else {
        assert((a + b)[0] == a[0]);
        assert((a + b).drop_first() =~= a.drop_first() + b);
        lemma_first_newline_concat(a.drop_first(), b);
    }
}

/// Serialization is concatenative over row sequences.
pub(crate) proof fn lemma_serialize_concat(a: Seq<Seq<char>>, b: Seq<Seq<char>>)
    ensures
        serialize_spec(a + b) == serialize_spec(a) + serialize_spec(b),
    decreases a.len(),
{
    if a.len() == 0 {
        assert(a + b =~= b);
        assert(serialize_spec(a) + serialize_spec(b) =~= serialize_spec(b));
    } else {
        assert((a + b)[0] == a[0]);
        assert((a + b).drop_first() =~= a.drop_first() + b);
        lemma_serialize_concat(a.drop_first(), b);
        assert(serialize_spec(a + b) =~= serialize_spec(a) + serialize_spec(b));
    }
}

/// Round trip: writing rows out and splitting the written text back into
/// lines yields exactly the rows again, for any rows free of line feeds.
/// (A trailing empty row survives, because the final empty piece after its
/// line feed is not itself a line.)
pub proof fn lemma_save_open_roundtrip(rows: Seq<Seq<char>>)
    requires
        forall|k: int| 0 <= k < rows.len() ==> newline_free(#[trigger] rows[k]),
    ensures
        split_lines_spec(serialize_spec(rows)) == rows,
    decreases rows.len(),
{
    if rows.len() == 0 {
    } else {
        let r0 = rows[0];
        let rest = serialize_spec(rows.drop_first());
        let text = serialize_spec(rows);
        assert(text == r0 + seq!['\n'] + rest);
        assert(text =~= r0 + (seq!['\n'] + rest));
        lemma_first_newline_concat(r0, seq!['\n'] + rest);
        assert((seq!['\n'] + rest)[0] == '\n');
        assert(first_newline(seq!['\n'] + rest) == 0);
        assert(first_newline(text) == r0.len());
        assert(text.len() > r0.len());
        assert(text.take(r0.len() as int) =~= r0);
        assert(text.skip(r0.len() as int + 1) =~= rest);
        lemma_save_open_roundtrip(rows.drop_first());
        assert(seq![r0] + rows.drop_first() =~= rows);
    }
}

/// Splits `text` into lines at every line feed; a trailing piece is kept
/// only when it is non-empty.
pub fn split_lines(text: &str) -> (r: Vec<String>)
    ensures
        views_of(r@) == split_lines_spec(text@),
{
    let n = text.unicode_len();
    let mut out: Vec<String> = Vec::new();
    let mut cur = String::new();
    let mut i: usize = 0;
    proof {
        assert(views_of(out@) =~= Seq::<Seq<char>>::empty());
        assert(cur@ + text@.skip(0) =~= text@);
        assert(Seq::<Seq<char>>::empty() + split_lines_spec(text@) =~= split_lines_spec(text@));
    }
    while i < n
        invariant
            0 <= i <= n,
            n == text@.len(),
            newline_free(cur@),
            split_lines_spec(text@) == views_of(out@) + split_lines_spec(
                cur@ + text@.skip(i as int),
            ),
        decreases n - i,
    {
        let c = text.get_char(i);
        proof {
            assert(text@.skip(i as int)[0] == c);
            assert(text@.skip(i as int).drop_first() =~= text@.skip(i as int + 1));
        }
        if c == '\n' {
            let ghost old_out = out@;
            let ghost old_cur = cur@;
            proof {
                let whole = old_cur + text@.skip(i as int);
                lemma_first_newline_concat(old_cur, text@.skip(i as int));
                assert(first_newline(text@.skip(i as int)) == 0);
                assert(first_newline(whole) == old_cur.len());
                assert(whole.len() > old_cur.len());
                assert(whole.take(old_cur.len() as int) =~= old_cur);
                assert(whole.skip(old_cur.len() as int + 1) =~= text@.skip(i as int + 1));
                assert(split_lines_spec(whole) == seq![old_cur] + split_lines_spec(
                    text@.skip(i as int + 1),
                ));
            }
            out.push(cur);
            cur = String::new();
            proof {
                assert(views_of(out@) =~= views_of(old_out).push(old_cur));
                assert(views_of(old_out) + (seq![old_cur] + split_lines_spec(
                    text@.skip(i as int + 1),
                )) =~= views_of(out@) + split_lines_spec(text@.skip(i as int + 1)));
                assert(cur@ + text@.skip(i as int + 1) =~= text@.skip(i as int + 1));
            }
        } else {
            proof {
                assert(cur@.push(c) + text@.skip(i as int + 1) =~= cur@ + text@.skip(i as int));
            }
            push_char(&mut cur, c);
        }
        i += 1;
    }
    proof {
        assert(text@.skip(n as int) =~= Seq::<char>::empty());
        assert(cur@ + text@.skip(n as int) =~= cur@);
    }
    if cur.as_str().is_empty() {
        proof {
            assert(cur@ =~= Seq::<char>::empty());
            assert(split_lines_spec(cur@) =~= Seq::<Seq<char>>::empty());
            assert(views_of(out@) + Seq::<Seq<char>>::empty() =~= views_of(out@));
        }
        out
    } else {
        let ghost old_out = out@;
        let ghost old_cur = cur@;
        proof {
            lemma_first_newline_concat(old_cur, Seq::<char>::empty());
            assert(old_cur + Seq::<char>::empty() =~= old_cur);
            assert(first_newline(old_cur) == old_cur.len());
            assert(split_lines_spec(old_cur) =~= seq![old_cur]);
        }
        out.push(cur);
        proof {
            assert(views_of(out@) =~= views_of(old_out).push(old_cur));
            assert(views_of(old_out) + seq![old_cur] =~= views_of(out@));
        }
        out
    }
}

} // verus!
