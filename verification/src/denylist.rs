//! The denylist filter: a relative path is excluded from the mirror when its
//! lowercased form contains any denylist term as a substring, whether or not
//! the match aligns with a path-segment boundary.

use vstd::prelude::*;
use crate::text::{contains_seq, contains_substr};

verus! {

/// The lowercase form of a character sequence, as `str::to_lowercase`
/// computes it.
pub uninterp spec fn lower_of(s: Seq<char>) -> Seq<char>;

/// Relies on `str::to_lowercase`: the result depends on the characters alone
/// (the mapping is locale-independent), so it is named [`lower_of`] and
/// nothing more is assumed of it.
#[verifier::external_body]
fn lowercase(s: &str) -> (r: String)
    ensures
        r@ == lower_of(s@),
{
    s.to_lowercase()
}

/// An already-lowercased path is excluded: some term occurs in it.
pub open spec fn excluded(low: Seq<char>, terms: Seq<Seq<char>>) -> bool {
    exists|k: int| 0 <= k < terms.len() && contains_seq(low, terms[k])
}

/// A relative path is denied: its lowercased form is excluded by the terms.
pub open spec fn denied(path: Seq<char>, terms: Seq<Seq<char>>) -> bool {
    excluded(lower_of(path), terms)
}

/// Does any term occur in the given (already lowercased) haystack?
pub fn excluded_by(low: &str, terms: &Vec<String>) -> (r: bool)
    ensures
        r == excluded(low@, terms.deep_view()),
{
    let mut k: usize = 0;
    while k < terms.len()
        invariant
            k <= terms.len(),
            forall|j: int| 0 <= j < k ==> !contains_seq(low@, terms.deep_view()[j]),
        decreases terms.len() - k,
    {
        if contains_substr(low, terms[k].as_str()) {
            proof {
                assert(contains_seq(low@, terms.deep_view()[k as int]));
            }
            return true;
        }
        k += 1;
    }
    false
}

/// The denylist decision for one relative path: lowercase it, then look for
/// any term inside the result.
pub fn is_denied(path: &str, terms: &Vec<String>) -> (r: bool)
    ensures
        r == denied(path@, terms.deep_view()),
{
    let low = lowercase(path);
    excluded_by(low.as_str(), terms)
}

/// A single matching term suffices: if some denylist term occurs anywhere in
/// the lowercased path, the path is denied, regardless of whether the match
/// falls on a path-segment boundary.
pub proof fn lemma_term_denies(path: Seq<char>, terms: Seq<Seq<char>>, k: int)
    requires
        0 <= k < terms.len(),
        contains_seq(lower_of(path), terms[k]),
    ensures
        denied(path, terms),
{
}

} // verus!
