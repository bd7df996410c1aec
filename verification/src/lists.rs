//! The first element of a sequence that meets a condition.

use vstd::prelude::*;

verus! {

/// The index of the first element that meets `p`.
pub open spec fn position<A>(s: Seq<A>, p: spec_fn(A) -> bool) -> Option<int>
    decreases s.len(),
{
    if s.len() == 0 {
        None
    } else {
        match position(s.drop_last(), p) {
            Some(i) => Some(i),
            None => if p(s.last()) {
                Some(s.len() - 1)
            } else {
                None
            },
        }
    }
}

/// The first element that meets `p`.
pub open spec fn first<A>(s: Seq<A>, p: spec_fn(A) -> bool) -> Option<A> {
    match position(s, p) {
        Some(i) => Some(s[i]),
        None => None,
    }
}

/// `position` finds an element that meets `p` and passes over none.
pub proof fn lemma_position<A>(s: Seq<A>, p: spec_fn(A) -> bool)
    ensures
        match position(s, p) {
            Some(i) => 0 <= i < s.len() && p(s[i]) && forall|j: int| 0 <= j < i ==> !p(
                #[trigger] s[j],
            ),
            None => forall|j: int| 0 <= j < s.len() ==> !p(#[trigger] s[j]),
        },
    decreases s.len(),
{
    if s.len() > 0 {
        lemma_position(s.drop_last(), p);
        let t = s.drop_last();
        assert(forall|j: int| 0 <= j < t.len() ==> t[j] == s[j]);
        if position(t, p) is None {
            assert forall|j: int| 0 <= j < s.len() - 1 implies !p(#[trigger] s[j]) by {
                assert(!p(t[j]));
            }
        } else {
            let i = position(t, p)->0;
            assert forall|j: int| 0 <= j < i implies !p(#[trigger] s[j]) by {
                assert(!p(t[j]));
            }
        }
    }
}

/// An element that meets `p` after none that does is the first.
pub proof fn lemma_position_is<A>(s: Seq<A>, p: spec_fn(A) -> bool, i: int)
    requires
        0 <= i < s.len(),
        p(s[i]),
        forall|j: int| 0 <= j < i ==> !p(#[trigger] s[j]),
    ensures
        position(s, p) == Some(i),
        first(s, p) == Some(s[i]),
{
    lemma_position(s, p);
}

/// If nothing meets `p`, there is no first.
pub proof fn lemma_position_none<A>(s: Seq<A>, p: spec_fn(A) -> bool)
    requires
        forall|j: int| 0 <= j < s.len() ==> !p(#[trigger] s[j]),
    ensures
        position(s, p) is None,
        first(s, p) is None,
{
    lemma_position(s, p);
}

} // verus!
