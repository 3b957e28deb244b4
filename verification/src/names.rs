//! Cleaning of raw feature child tokens.
//!
//! A feature's child token may carry a leading weak-dependency marker
//! (`dep:`) and may be qualified by a `?` suffix or a `/sub-feature` part.
//! Comparisons between child tokens and optional-dependency names are made
//! on the cleaned form: the marker stripped, the token cut at the first
//! qualifier.

use vstd::prelude::*;
use vstd::string::*;

use crate::seqs::{first_where, lemma_first_where_is};

verus! {

/// The marker that prefixes a weak reference to an optional dependency.
pub open spec fn dep_prefix() -> Seq<char> {
    "dep:"@
}

/// True of the characters at which a raw child token is cut: the
/// no-default-features qualifier and the sub-feature separator.
pub open spec fn is_qualifier(c: char) -> bool {
    c == '?' || c == '/'
}

/// True when the token carries the weak-dependency marker.
pub open spec fn has_dep_prefix(s: Seq<char>) -> bool {
    s.len() >= 4 && s.subrange(0, 4) == dep_prefix()
}

/// The token with a leading weak-dependency marker removed.
pub open spec fn strip_dep(s: Seq<char>) -> Seq<char> {
    if has_dep_prefix(s) {
        s.subrange(4, s.len() as int)
    } else {
        s
    }
}

/// The cleaned form of a raw child token: the leading weak-dependency
/// marker stripped, then everything from the first qualifier on cut away.
pub open spec fn spec_clean_name(s: Seq<char>) -> Seq<char> {
    let t = strip_dep(s);
    t.take(first_where(t, |c: char| is_qualifier(c)))
}

fn is_qualifier_char(c: char) -> (r: bool)
    ensures
        r == is_qualifier(c),
{
    c == '?' || c == '/'
}

/// Character-wise equality of two string slices.
pub fn str_eq(a: &str, b: &str) -> (r: bool)
    ensures
        r == (a@ == b@),
{
    let sa = String::from_str(a);
    let sb = String::from_str(b);
    sa == sb
}

/// True when `s` starts with the weak-dependency marker.
pub fn starts_with_dep(s: &str) -> (r: bool)
    ensures
        r == has_dep_prefix(s@),
{
    let n = s.unicode_len();
    n >= 4 && str_eq(s.substring_char(0, 4), "dep:")
}

/// Cleans a raw feature child token for comparison purposes.
pub fn clean_feature_name(name: &str) -> (r: String)
    ensures
        r@ == spec_clean_name(name@),
{
    let n = name.unicode_len();
    let stripped: &str = if starts_with_dep(name) {
        name.substring_char(4, n)
    } else {
        name
    };
    assert(stripped@ == strip_dep(name@));
    let m = stripped.unicode_len();
    let mut i: usize = 0;
    while i < m && !is_qualifier_char(stripped.get_char(i))
        invariant
            0 <= i <= m,
            m == stripped@.len(),
            forall|j: int| 0 <= j < i ==> !is_qualifier(#[trigger] stripped@[j]),
        decreases m - i,
    {
        i = i + 1;
    }
    proof {
        lemma_first_where_is(stripped@, |c: char| is_qualifier(c), i as int);
    }
    let r = stripped.substring_char(0, i);
    String::from_str(r)
}

} // verus!
