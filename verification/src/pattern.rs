//! Compiled search patterns.  Matching is done by the `regex` crate; what a
//! match returns is a function of the pattern and the haystack alone, so the
//! match positions are given names that the trusted wrappers decide and the
//! search logic reasons from.

use vstd::prelude::*;

verus! {

use crate::segment::byte_len;

#[verifier::external_type_specification]
#[verifier::external_body]
pub struct ExRegex(regex::Regex);

/// Whether `pat` is a well-formed pattern, that is, whether `regex::Regex::new`
/// accepts it.
pub uninterp spec fn re_valid(pat: Seq<char>) -> bool;

/// The byte offset, into the UTF-8 encoding of `hay`, at which the leftmost
/// match of `pat` in `hay` starts, or `None` when `pat` does not match `hay`.
/// Decided by `regex::Regex::find`.
pub uninterp spec fn re_first_match(pat: Seq<char>, hay: Seq<char>) -> Option<int>;

/// The byte offset at which the last of the successive non-overlapping
/// matches of `pat` in `hay` starts, or `None` when `pat` does not match
/// `hay`.  Decided by `regex::Regex::find_iter`.
pub uninterp spec fn re_last_match(pat: Seq<char>, hay: Seq<char>) -> Option<int>;

/// A search pattern compiled once and run against many rows.  The source
/// text is kept beside the compiled regex so that contracts can speak of the
/// pattern the regex was built from.
pub struct Query {
    re: regex::Regex,
    pattern: String,
}

impl Query {
    /// The pattern text this query was compiled from.
    pub closed spec fn pat(&self) -> Seq<char> {
        self.pattern@
    }

    /// Relies on regex's `Regex::new`: whether a pattern compiles depends on
    /// the pattern text alone, which decides `re_valid`.
    #[verifier::external_body]
    pub fn compile(pattern: &str) -> (r: Option<Query>)
        ensures
            r is Some <==> re_valid(pattern@),
            r matches Some(q) ==> q.pat() == pattern@,
    {
        match regex::Regex::new(pattern) {
            Ok(re) => Some(Query { re, pattern: String::from(pattern) }),
            Err(_) => None,
        }
    }

    /// Relies on regex's `Regex::find`: the leftmost match depends on the
    /// pattern and the haystack alone, deciding `re_first_match`, and its
    /// start is a byte offset into the haystack.
    #[verifier::external_body]
    pub(crate) fn find_first(&self, hay: &str) -> (r: Option<usize>)
        ensures
            r matches Some(i) ==> re_first_match(self.pat(), hay@) == Some(i as int) && i
                <= byte_len(hay@),
            r is None ==> re_first_match(self.pat(), hay@) is None,
    {
        self.re.find(hay).map(|m| m.start())
    }

    /// Relies on regex's `Regex::find_iter`: the successive non-overlapping
    /// matches depend on the pattern and the haystack alone, so their last
    /// start offset decides `re_last_match`, a byte offset into the haystack.
    #[verifier::external_body]
    pub(crate) fn find_last(&self, hay: &str) -> (r: Option<usize>)
        ensures
            r matches Some(i) ==> re_last_match(self.pat(), hay@) == Some(i as int) && i
                <= byte_len(hay@),
            r is None ==> re_last_match(self.pat(), hay@) is None,
    {
        self.re.find_iter(hay).last().map(|m| m.start())
    }
}

} // verus!
