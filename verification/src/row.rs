//! One line of the document, stored as UTF-8 text and edited in grapheme
//! clusters.  The cached cluster count is kept equal to the segmentation of
//! the content by a type invariant, so every index a caller passes is a
//! grapheme index and an index at or past the end degrades to an append or a
//! no-op, never an error.

use vstd::prelude::*;

verus! {

use crate::segment::{
    join_clusters,
    byte_len,
    clamp_index,
    clusters_cover,
    grapheme_clusters,
    grapheme_count,
    grapheme_prefix,
    grapheme_suffix,
    graphemes_of,
    lemma_prefix_suffix_join,
    views_of,
};
use crate::pattern::{re_first_match, re_last_match, Query};
use crate::segment::lemma_byte_len_concat;
use crate::text::push_char;
use crate::SearchDirection;
use vstd::seq_lib::lemma_flatten_concat;
use vstd::string::StringExecFns;

/// A grapheme-indexed line of text.
#[derive(Debug)]
pub struct Row {
    content: String,
    grapheme_count: usize,
}

impl View for Row {
    type V = Seq<char>;

    closed spec fn view(&self) -> Seq<char> {
        self.content@
    }
}

/// The content after inserting `c` between the clusters of `s` at cluster
/// index `i`; an index at or past the cluster count appends.
pub open spec fn row_insert_spec(s: Seq<char>, i: int, c: char) -> Seq<char> {
    grapheme_prefix(s, i) + seq![c] + grapheme_suffix(s, i)
}

/// The content after removing the cluster at index `i` from `s`; an index at
/// or past the cluster count leaves `s` unchanged.
pub open spec fn row_delete_spec(s: Seq<char>, i: int) -> Seq<char> {
    if 0 <= i < grapheme_count(s) {
        graphemes_of(s).take(i).flatten() + graphemes_of(s).skip(i + 1).flatten()
    } else {
        s
    }
}

/// How one cluster is shown: a tab becomes a single space, everything else
/// is shown as it is.
pub open spec fn render_cluster(g: Seq<char>) -> Seq<char> {
    if g == seq!['\t'] {
        seq![' ']
    } else {
        g
    }
}

/// The visible text of `s` for a byte-oriented column window `[start, end)`:
/// the window is clamped to the byte length, then applied as a range of whole
/// clusters, so a cluster is never split.
pub open spec fn render_spec(s: Seq<char>, start: int, end: int) -> Seq<char> {
    let e = if end <= byte_len(s) {
        end
    } else {
        byte_len(s)
    };
    let st = if start <= e {
        start
    } else {
        e
    };
    let g = graphemes_of(s);
    let lo = if st <= g.len() {
        st
    } else {
        g.len() as int
    };
    let hi = if e <= g.len() {
        e
    } else {
        g.len() as int
    };
    g.subrange(lo, hi).map_values(|c: Seq<char>| render_cluster(c)).flatten()
}

/// Walks the clusters of `gs` from index `i` looking for the cluster that
/// starts exactly `rem` bytes further on; `None` when the offset lands on no
/// cluster start.
pub open spec fn cluster_at_offset_from(gs: Seq<Seq<char>>, i: int, rem: int) -> Option<int>
    decreases gs.len() - i,
{
    if i < 0 || i >= gs.len() {
        None
    } else if rem == 0 {
        Some(i)
    } else {
        cluster_at_offset_from(gs, i + 1, rem - byte_len(gs[i]))
    }
}

/// The index of the cluster of `gs` that starts exactly `off` bytes into the
/// flattening of `gs`, if the offset lands on a cluster start.
pub open spec fn cluster_at_offset(gs: Seq<Seq<char>>, off: int) -> Option<int> {
    cluster_at_offset_from(gs, 0, off)
}

/// Where a search over one row lands: the row's clusters on the matching
/// side of `limit` are flattened into a haystack, the regex engine names the
/// byte offset of the nearest match (leftmost forward, rightmost backward),
/// and that offset is translated back to a grapheme index of the row.  A
/// `limit` past the cluster count, no match, and a match that starts inside
/// a cluster all give `None`.
pub open spec fn row_find_spec(pat: Seq<char>, s: Seq<char>, limit: int, dir: SearchDirection) -> Option<int> {
    if limit > grapheme_count(s) {
        None
    } else {
        let g = graphemes_of(s);
        let start = if dir is Forward {
            limit
        } else {
            0
        };
        let end = if dir is Forward {
            g.len() as int
        } else {
            limit
        };
        let sub = g.subrange(start, end);
        let m = if dir is Forward {
            re_first_match(pat, sub.flatten())
        } else {
            re_last_match(pat, sub.flatten())
        };
        match m {
            Some(off) => match cluster_at_offset(sub, off) {
                Some(i) => Some(i + start),
                None => None,
            },
            None => None,
        }
    }
}

impl Row {
    #[verifier::type_invariant]
    spec fn inv(self) -> bool {
        &&& self.grapheme_count == grapheme_count(self.content@)
        &&& clusters_cover(self.content@)
    }

    /// Builds a row from one line of text and caches its cluster count.
    pub fn from_string(s: String) -> (r: Row)
        ensures
            r@ == s@,
    {
        let clusters = grapheme_clusters(s.as_str());
        let n = clusters.len();
        proof {
            assert(clusters_cover(s@)) by {
                assert forall|i: int| 0 <= i < graphemes_of(s@).len() implies (#[trigger] graphemes_of(
                    s@,
                )[i]).len() > 0 by {
                    assert(graphemes_of(s@)[i] == views_of(clusters@)[i]);
                    assert(views_of(clusters@)[i] == clusters@[i]@);
                }
            }
        }
        Row { content: s, grapheme_count: n }
    }

    /// The length of the row in grapheme clusters (cached, O(1)).
    pub fn len(&self) -> (r: usize)
        ensures
            r == grapheme_count(self@),
    {
        proof {
            use_type_invariant(self);
        }
        self.grapheme_count
    }

    /// The length of the row's underlying text in bytes.
    pub fn len_bytes(&self) -> (r: usize)
        ensures
            r == byte_len(self@),
    {
        self.content.as_str().as_bytes().len()
    }

    /// Whether the row holds no text at all.
    pub fn is_empty(&self) -> (r: bool)
        ensures
            r == (self@.len() == 0),
    {
        self.content.as_str().is_empty()
    }

    /// The row's text as UTF-8 bytes.
    pub fn as_bytes(&self) -> (r: &[u8])
        ensures
            r@ == vstd::utf8::encode_utf8(self@),
    {
        self.content.as_str().as_bytes()
    }

    /// The row's text as a string slice.
    pub fn as_str(&self) -> (r: &str)
        ensures
            r@ == self@,
    {
        self.content.as_str()
    }

    /// Inserts `c` at grapheme index `idx`, or appends it when `idx` is at or
    /// past the end.  Never fails.
    pub fn insert_or_append(&mut self, idx: usize, c: char)
        ensures
            final(self)@ == row_insert_spec(old(self)@, idx as int, c),
            grapheme_count(old(self)@) <= idx ==> final(self)@ == old(self)@.push(c),
    {
        proof {
            use_type_invariant(&*self);
        }
        let ghost s = self.content@;
        if idx >= self.grapheme_count {
            let mut t = self.content.clone();
            push_char(&mut t, c);
            proof {
                lemma_prefix_suffix_join(s, idx as int);
                let g = graphemes_of(s);
                let cnt = grapheme_count(s);
                assert(g.take(cnt) =~= g);
                assert(grapheme_prefix(s, idx as int) == s);
                assert(g.skip(cnt).len() == 0);
                assert(grapheme_suffix(s, idx as int) =~= Seq::<char>::empty());
                assert(t@ =~= row_insert_spec(s, idx as int, c));
            }
            *self = Row::from_string(t);
        } else {
            let clusters = grapheme_clusters(self.content.as_str());
            let mut t = join_clusters(&clusters, 0, idx);
            push_char(&mut t, c);
            let suf = join_clusters(&clusters, idx, clusters.len());
            t.append(suf.as_str());
            proof {
                let g = graphemes_of(s);
                assert(views_of(clusters@).subrange(0, idx as int) =~= g.take(idx as int));
                assert(views_of(clusters@).subrange(idx as int, clusters@.len() as int) =~= g.skip(
                    idx as int,
                ));
                assert(t@ =~= row_insert_spec(s, idx as int, c));
            }
            *self = Row::from_string(t);
        }
    }

    /// Appends the whole content of `other` to this row (used for line
    /// joins).
    pub fn push(&mut self, other: Row)
        ensures
            final(self)@ == old(self)@ + other@,
    {
        let mut t = self.content.clone();
        t.append(other.content.as_str());
        *self = Row::from_string(t);
    }

    /// Removes exactly the grapheme cluster at `idx`; a no-op when `idx` is
    /// at or past the end.
    pub fn delete(&mut self, idx: usize)
        ensures
            final(self)@ == row_delete_spec(old(self)@, idx as int),
    {
        proof {
            use_type_invariant(&*self);
        }
        let ghost s = self.content@;
        if idx >= self.grapheme_count {
            return ;
        }
        let clusters = grapheme_clusters(self.content.as_str());
        let mut t = join_clusters(&clusters, 0, idx);
        let suf = join_clusters(&clusters, idx + 1, clusters.len());
        t.append(suf.as_str());
        proof {
            let g = graphemes_of(s);
            assert(views_of(clusters@).subrange(0, idx as int) =~= g.take(idx as int));
            assert(views_of(clusters@).subrange(idx as int + 1, clusters@.len() as int) =~= g.skip(
                idx as int + 1,
            ));
        }
        *self = Row::from_string(t);
    }

    /// Truncates this row to the clusters before `idx` and returns a new row
    /// holding the clusters at and after `idx`.  When `idx` is at or past the
    /// end this row is unchanged and the new row is empty.
    pub fn split(&mut self, idx: usize) -> (r: Row)
        ensures
            final(self)@ == grapheme_prefix(old(self)@, idx as int),
            r@ == grapheme_suffix(old(self)@, idx as int),
    {
        proof {
            use_type_invariant(&*self);
        }
        let ghost s = self.content@;
        let clusters = grapheme_clusters(self.content.as_str());
        let n = clusters.len();
        let j = if idx < n {
            idx
        } else {
            n
        };
        let before = join_clusters(&clusters, 0, j);
        let after = join_clusters(&clusters, j, n);
        proof {
            let g = graphemes_of(s);
            assert(views_of(clusters@).subrange(0, j as int) =~= g.take(clamp_index(s, idx as int)));
            assert(views_of(clusters@).subrange(j as int, n as int) =~= g.skip(
                clamp_index(s, idx as int),
            ));
        }
        *self = Row::from_string(before);
        Row::from_string(after)
    }

    /// The grapheme index of the nearest match of `query` at or after
    /// (`Forward`) or strictly before (`Backward`) grapheme index `limit`.
    /// The haystack is the grapheme-delimited substring on the matching side
    /// of `limit`; the engine's byte offset is translated back to a grapheme
    /// index against those same clusters.
    pub fn find(&self, query: &Query, limit: usize, direction: SearchDirection) -> (r: Option<
        usize,
    >)
        ensures
            r matches Some(i) ==> row_find_spec(query.pat(), self@, limit as int, direction)
                == Some(i as int),
            r is None ==> row_find_spec(query.pat(), self@, limit as int, direction) is None,
            direction is Forward ==> (r matches Some(i) ==> limit <= i < grapheme_count(self@)),
            direction is Backward ==> (r matches Some(i) ==> i < limit),
    {
        proof {
            use_type_invariant(self);
        }
        let ghost s = self.content@;
        if limit > self.grapheme_count {
            return None;
        }
        let clusters = grapheme_clusters(self.content.as_str());
        let n = clusters.len();
        let (start, end) = match direction {
            SearchDirection::Forward => (limit, n),
            SearchDirection::Backward => (0usize, limit),
        };
        let sub = join_clusters(&clusters, start, end);
        let m = match direction {
            SearchDirection::Forward => query.find_first(sub.as_str()),
            SearchDirection::Backward => query.find_last(sub.as_str()),
        };
        let ghost g = graphemes_of(s);
        let ghost gsub = g.subrange(start as int, end as int);
        let target = match m {
            None => {
                return None;
            },
            Some(t) => t,
        };
        let total = sub.as_str().as_bytes().len();
        let mut i = start;
        let mut acc: usize = 0;
        proof {
            assert(gsub.take(0) =~= Seq::<Seq<char>>::empty());
            assert(gsub.take(0).flatten() =~= Seq::<char>::empty());
        }
        while i < end
            invariant
                start <= i <= end <= n,
                n == clusters@.len(),
                s == self@,
                limit <= grapheme_count(s),
                g == graphemes_of(s),
                n == g.len(),
                views_of(clusters@) == g,
                gsub == g.subrange(start as int, end as int),
                direction is Forward ==> start == limit && end == n,
                direction is Backward ==> start == 0 && end == limit,
                direction is Forward ==> re_first_match(query.pat(), gsub.flatten()) == Some(
                    target as int,
                ),
                direction is Backward ==> re_last_match(query.pat(), gsub.flatten()) == Some(
                    target as int,
                ),
                target <= total,
                total == byte_len(gsub.flatten()),
                acc == byte_len(gsub.take(i - start).flatten()),
                acc <= total,
                cluster_at_offset(gsub, target as int) == cluster_at_offset_from(
                    gsub,
                    i - start,
                    target - acc,
                ),
            decreases end - i,
        {
            if acc == target {
                return Some(i);
            }
            let cl = clusters[i].as_str().as_bytes().len();
            proof {
                let k = i - start;
                assert(gsub[k] == clusters@[i as int]@);
                assert(gsub.take(k + 1) =~= gsub.take(k).push(gsub[k]));
                gsub.take(k).lemma_flatten_push(gsub[k]);
                lemma_byte_len_concat(gsub.take(k).flatten(), gsub[k]);
                assert(gsub.take(k + 1) + gsub.skip(k + 1) =~= gsub);
                lemma_flatten_concat(gsub.take(k + 1), gsub.skip(k + 1));
                lemma_byte_len_concat(gsub.take(k + 1).flatten(), gsub.skip(k + 1).flatten());
            }
            acc = acc + cl;
            i += 1;
        }
        None
    }

    /// The visible text for a byte-oriented column window, with each tab
    /// shown as one space; clusters are never split by the window.
    pub fn render(&self, range: core::ops::Range<usize>) -> (r: String)
        ensures
            r@ == render_spec(self@, range.start as int, range.end as int),
    {
        proof {
            use_type_invariant(self);
        }
        let ghost s = self.content@;
        let bl = self.content.as_str().as_bytes().len();
        let end = if range.end < bl {
            range.end
        } else {
            bl
        };
        let start = if range.start < end {
            range.start
        } else {
            end
        };
        let clusters = grapheme_clusters(self.content.as_str());
        let n = clusters.len();
        let lo = if start < n {
            start
        } else {
            n
        };
        let hi = if end < n {
            end
        } else {
            n
        };
        let tab = String::from_str("\t");
        let space = String::from_str(" ");
        proof {
            reveal_strlit("\t");
            reveal_strlit(" ");
            assert(tab@ =~= seq!['\t']);
            assert(space@ =~= seq![' ']);
        }
        let ghost g = graphemes_of(s);
        let ghost f = |c: Seq<char>| render_cluster(c);
        let mut out = String::new();
        proof {
            assert(g.subrange(lo as int, lo as int).map_values(f) =~= Seq::<Seq<char>>::empty());
        }
        let mut i = lo;
        while i < hi
            invariant
                lo <= i <= hi <= n,
                n == clusters@.len(),
                g == graphemes_of(s),
                views_of(clusters@) == g,
                f == (|c: Seq<char>| render_cluster(c)),
                tab@ == seq!['\t'],
                space@ == seq![' '],
                out@ == g.subrange(lo as int, i as int).map_values(f).flatten(),
            decreases hi - i,
        {
            proof {
                assert(g[i as int] == clusters@[i as int]@);
            }
            if clusters[i] == tab {
                out.append(space.as_str());
                proof {
                    assert(f(g[i as int]) == space@);
                }
            } else {
                out.append(clusters[i].as_str());
                proof {
                    assert(f(g[i as int]) == g[i as int]);
                }
            }
            proof {
                let prev = g.subrange(lo as int, i as int).map_values(f);
                assert(g.subrange(lo as int, i as int + 1).map_values(f) =~= prev.push(
                    f(g[i as int]),
                ));
                prev.lemma_flatten_push(f(g[i as int]));
            }
            i += 1;
        }
        proof {
            assert(out@ == render_spec(s, range.start as int, range.end as int));
        }
        out
    }
}

/// Inserting a character at cluster index `i` and then deleting at `i` gives
/// back the original content, whenever the inserted character stands as a
/// cluster of its own in the new content (the hypothesis below).  A character
/// that merges with its neighbours, such as a combining mark, falls outside
/// the hypothesis.
pub proof fn lemma_insert_then_delete(s: Seq<char>, i: int, c: char)
    requires
        clusters_cover(s),
        0 <= i <= grapheme_count(s),
        graphemes_of(row_insert_spec(s, i, c)) == graphemes_of(s).take(i) + seq![seq![c]]
            + graphemes_of(s).skip(i),
    ensures
        row_delete_spec(row_insert_spec(s, i, c), i) == s,
{
    let g = graphemes_of(s);
    let s2 = row_insert_spec(s, i, c);
    let g2 = graphemes_of(s2);
    assert(g2.len() == g.len() + 1);
    assert(0 <= i < grapheme_count(s2));
    assert(g2.take(i) =~= g.take(i));
    assert(g2.skip(i + 1) =~= g.skip(i));
    lemma_prefix_suffix_join(s, i);
    assert(grapheme_prefix(s, i) == g.take(i).flatten());
    assert(grapheme_suffix(s, i) == g.skip(i).flatten());
    assert(row_delete_spec(s2, i) == s);
}

/// Splitting a row at any index in `[0, length]` and pushing the two halves
/// back together reconstructs the original content exactly.
pub proof fn lemma_split_then_push(s: Seq<char>, i: int)
    requires
        clusters_cover(s),
    ensures
        grapheme_prefix(s, i) + grapheme_suffix(s, i) == s,
{
    lemma_prefix_suffix_join(s, i);
}

} // verus!
