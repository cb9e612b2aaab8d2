//! Case-insensitive substring matching over record values.

use vstd::prelude::*;

verus! {

/// Whether `needle` occurs as a contiguous run of characters in `hay`.
pub open spec fn contains_seq(hay: Seq<char>, needle: Seq<char>) -> bool {
    exists|i: int|
        0 <= i && i + needle.len() <= hay.len() && #[trigger] hay.subrange(i, i + needle.len())
            == needle
}

/// The lowercase folding of a character sequence, as `str::to_lowercase`
/// computes it.
pub uninterp spec fn lower_of(s: Seq<char>) -> Seq<char>;

/// Relies on str::to_lowercase: the lowercase equivalent of the string,
/// a function of its characters alone; an empty string stays empty.
#[verifier::external_body]
fn to_lowercase(s: &str) -> (r: String)
    ensures
        r@ == lower_of(s@),
        s@.len() == 0 ==> r@.len() == 0,
{
    s.to_lowercase()
}

/// Relies on str::contains: true exactly when the needle occurs as a
/// contiguous substring of the haystack.
#[verifier::external_body]
fn str_contains(hay: &str, needle: &str) -> (r: bool)
    ensures
        r == contains_seq(hay@, needle@),
{
    hay.contains(needle)
}

/// Whether a record value matches a search query: the lowercase folding
/// of the query occurs somewhere in the lowercase folding of the value.
/// An empty query matches every value.
pub open spec fn value_matches(value: Seq<char>, query: Seq<char>) -> bool {
    if query.len() == 0 {
        true
    } else {
        contains_seq(lower_of(value), lower_of(query))
    }
}

/// Case-insensitive containment of `query` in `value`.
pub fn matches_query(value: &str, query: &str) -> (r: bool)
    ensures
        r == value_matches(value@, query@),
{
    let lv = to_lowercase(value);
    let lq = to_lowercase(query);
    let r = str_contains(lv.as_str(), lq.as_str());
    proof {
        if query@.len() == 0 {
            assert(lv@.subrange(0, 0 + lq@.len() as int) =~= lq@);
            assert(contains_seq(lv@, lq@));
        }
    }
    r
}

} // verus!
