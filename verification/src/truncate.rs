//! Truncation in grapheme units: like `String::truncate`, but the new
//! length counts user-perceived characters rather than bytes, so it never
//! lands inside a character and never panics.

use vstd::prelude::*;

verus! {

use crate::segment::{
    clamp_index,
    grapheme_clusters,
    grapheme_prefix,
    graphemes_of,
    join_clusters,
    views_of,
};

/// Shortening a text to a number of grapheme clusters.
pub trait TruncateGraphemes: View<V = Seq<char>> {
    /// Keeps only the first `new_len` grapheme clusters; a `new_len` at or
    /// past the cluster count leaves the text unchanged.
    fn truncate_graphemes(&mut self, new_len: usize)
        ensures
            final(self)@ == grapheme_prefix(old(self)@, new_len as int),
    ;
}

impl TruncateGraphemes for String {
    fn truncate_graphemes(&mut self, new_len: usize) {
        let clusters = grapheme_clusters(self.as_str());
        let n = clusters.len();
        let j = if new_len < n {
            new_len
        } else {
            n
        };
        let t = join_clusters(&clusters, 0, j);
        proof {
            assert(views_of(clusters@).subrange(0, j as int) =~= graphemes_of(self@).take(
                clamp_index(self@, new_len as int),
            ));
        }
        *self = t;
    }
}

} // verus!
