//! The first element of a sequence that has a property.

use vstd::prelude::*;

verus! {

/// The index of the first element of `s` for which `p` holds.
pub open spec fn first_match<T>(s: Seq<T>, p: spec_fn(T) -> bool) -> Option<int>
    decreases s.len(),
{
    if s.len() == 0 {
        None
    } else if p(s[0]) {
        Some(0)
    } else {
        match first_match(s.drop_first(), p) {
            Some(i) => Some(i + 1),
            None => None,
        }
    }
}

/// After a scan of the first `i` elements that found none with `p`:
/// `first_match` is `i` when the element there has `p`, and `None` when
/// the scan is complete.
pub proof fn lemma_first_match<T>(s: Seq<T>, p: spec_fn(T) -> bool, i: int)
    requires
        0 <= i <= s.len(),
        forall|j: int| 0 <= j < i ==> !p(#[trigger] s[j]),
    ensures
        i < s.len() && p(s[i]) ==> first_match(s, p) == Some(i),
        i == s.len() ==> first_match(s, p) is None,
    decreases i,
{
    if s.len() > 0 && i > 0 {
        assert forall|j: int| 0 <= j < i - 1 implies !p(#[trigger] s.drop_first()[j]) by {
            assert(s.drop_first()[j] == s[j + 1]);
        }
        lemma_first_match(s.drop_first(), p, i - 1);
    }
}

/// What `first_match` finds has `p`, and no element before it has.
pub proof fn lemma_first_match_found<T>(s: Seq<T>, p: spec_fn(T) -> bool)
    ensures
        first_match(s, p) matches Some(i) ==> 0 <= i < s.len() && p(s[i]) && forall|j: int|
            0 <= j < i ==> !p(#[trigger] s[j]),
        first_match(s, p) is None ==> forall|j: int| 0 <= j < s.len() ==> !p(#[trigger] s[j]),
    decreases s.len(),
{
    if s.len() > 0 {
        lemma_first_match_found(s.drop_first(), p);
        assert forall|j: int| 1 <= j < s.len() implies s[j] == #[trigger] s.drop_first()[j - 1] by {}
        if first_match(s, p) is None {
            assert forall|j: int| 0 <= j < s.len() implies !p(#[trigger] s[j]) by {
                if j > 0 {
                    assert(s[j] == s.drop_first()[j - 1]);
                }
            }
        }
        if let Some(i) = first_match(s, p) {
            assert forall|j: int| 0 <= j < i implies !p(#[trigger] s[j]) by {
                if j > 0 {
                    assert(s[j] == s.drop_first()[j - 1]);
                }
            }
        }
    }
}

} // verus!
