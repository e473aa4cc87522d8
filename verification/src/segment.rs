//! The grapheme model: every row operation is indexed by grapheme cluster,
//! so the whole library is specified over the segmentation of a string into
//! clusters.  The segmentation itself comes from the `unicode_segmentation`
//! crate through one trusted wrapper; everything else here is spec-level
//! vocabulary and proved lemmas over that segmentation.

use vstd::prelude::*;

verus! {

use vstd::seq_lib::lemma_flatten_concat;
use vstd::string::StringExecFns;

/// The extended grapheme cluster segmentation of a string, each cluster given
/// as the sequence of its characters.  What the clusters are is decided by
/// `unicode_segmentation` (UAX #29); this library never looks inside the
/// segmentation beyond the facts stated by `grapheme_clusters` below.
pub uninterp spec fn graphemes_of(s: Seq<char>) -> Seq<Seq<char>>;

/// The clusters of `s` concatenate back to `s` and none of them is empty.
/// `grapheme_clusters` establishes this for every string it is called on;
/// lemmas take it as a hypothesis.
pub open spec fn clusters_cover(s: Seq<char>) -> bool {
    &&& graphemes_of(s).flatten() == s
    &&& forall|i: int| 0 <= i < graphemes_of(s).len() ==> (#[trigger] graphemes_of(s)[i]).len() > 0
}

/// The number of grapheme clusters in `s`.
pub open spec fn grapheme_count(s: Seq<char>) -> int {
    graphemes_of(s).len() as int
}

/// The views of a vector of exec strings, as a sequence of character
/// sequences.
pub open spec fn views_of(v: Seq<String>) -> Seq<Seq<char>> {
    v.map_values(|g: String| g@)
}

/// The length of `s` in UTF-8 bytes.
pub open spec fn byte_len(s: Seq<char>) -> int {
    vstd::utf8::encode_utf8(s).len() as int
}

/// An edit index clamped into `[0, grapheme_count(s)]`: an index at or past
/// the end degrades to the append position.
pub open spec fn clamp_index(s: Seq<char>, i: int) -> int {
    if i < 0 {
        0
    } else if i <= grapheme_count(s) {
        i
    } else {
        grapheme_count(s)
    }
}

/// The characters of the first `i` clusters of `s` (all of `s` if `i` is at
/// or past the cluster count).
pub open spec fn grapheme_prefix(s: Seq<char>, i: int) -> Seq<char> {
    graphemes_of(s).take(clamp_index(s, i)).flatten()
}

/// The characters of the clusters of `s` from index `i` on (empty if `i` is
/// at or past the cluster count).
pub open spec fn grapheme_suffix(s: Seq<char>, i: int) -> Seq<char> {
    graphemes_of(s).skip(clamp_index(s, i)).flatten()
}

/// Relies on `unicode_segmentation::UnicodeSegmentation::graphemes` with
/// extended clusters: the iterator yields the grapheme clusters of `s` in
/// order as substrings of `s`, so they are non-empty and their concatenation
/// is exactly `s`.
#[verifier::external_body]
pub(crate) fn grapheme_clusters(s: &str) -> (r: Vec<String>)
    ensures
        views_of(r@) == graphemes_of(s@),
        views_of(r@).flatten() == s@,
        forall|i: int| 0 <= i < r@.len() ==> (#[trigger] r@[i]@).len() > 0,
{
    unicode_segmentation::UnicodeSegmentation::graphemes(s, true).map(String::from).collect()
}

/// Concatenates the clusters `from..to` of `clusters` into one string.
pub(crate) fn join_clusters(clusters: &Vec<String>, from: usize, to: usize) -> (r: String)
    requires
        from <= to <= clusters@.len(),
    ensures
        r@ == views_of(clusters@).subrange(from as int, to as int).flatten(),
{
    let ghost gs = views_of(clusters@);
    let mut t = String::new();
    proof {
        assert(gs.subrange(from as int, from as int) =~= Seq::<Seq<char>>::empty());
    }
    let mut i = from;
    while i < to
        invariant
            from <= i <= to <= clusters@.len(),
            gs == views_of(clusters@),
            t@ == gs.subrange(from as int, i as int).flatten(),
        decreases to - i,
    {
        t.append(clusters[i].as_str());
        proof {
            assert(gs.subrange(from as int, i as int + 1) =~= gs.subrange(
                from as int,
                i as int,
            ).push(gs[i as int]));
            gs.subrange(from as int, i as int).lemma_flatten_push(gs[i as int]);
            assert(gs[i as int] == clusters@[i as int]@);
        }
        i += 1;
    }
    t
}

/// UTF-8 encoding is concatenative, so byte lengths add up.
pub proof fn lemma_byte_len_concat(a: Seq<char>, b: Seq<char>)
    ensures
        byte_len(a + b) == byte_len(a) + byte_len(b),
    decreases a.len(),
{
    if a.len() == 0 {
        assert(a + b =~= b);
        assert(byte_len(a) == 0);
    } else {
        assert((a + b)[0] == a[0]);
        assert((a + b).drop_first() =~= a.drop_first() + b);
        lemma_byte_len_concat(a.drop_first(), b);
    }
}

/// Splitting the clusters of `s` at any index and flattening the two halves
/// gives back `s` itself.
pub proof fn lemma_prefix_suffix_join(s: Seq<char>, i: int)
    requires
        clusters_cover(s),
    ensures
        grapheme_prefix(s, i) + grapheme_suffix(s, i) == s,
{
    let g = graphemes_of(s);
    let j = clamp_index(s, i);
    assert(g.take(j) + g.skip(j) =~= g);
    lemma_flatten_concat(g.take(j), g.skip(j));
    assert(grapheme_prefix(s, i) + grapheme_suffix(s, i) == (g.take(j) + g.skip(j)).flatten());
}

} // verus!
