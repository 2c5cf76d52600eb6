//! The first element of a sequence that satisfies a predicate.
use vstd::prelude::*;

verus! {

/// Index of the first element of `s` satisfying `p`.
pub open spec fn first_index<T>(s: Seq<T>, p: spec_fn(T) -> bool) -> Option<int>
    decreases s.len(),
{
    if s.len() == 0 {
        None
    } else if p(s.last()) && first_index(s.drop_last(), p) is None {
        Some(s.len() - 1)
    } else {
        first_index(s.drop_last(), p)
    }
}

/// `first_index` finds a satisfying element with none before it, or reports
/// that none satisfies `p`.
pub proof fn lemma_first_index<T>(s: Seq<T>, p: spec_fn(T) -> bool)
    ensures
        first_index(s, p) matches Some(i) ==> 0 <= i < s.len() && p(s[i]) && forall|j: int|
            0 <= j < i ==> !p(#[trigger] s[j]),
        first_index(s, p) is None ==> forall|j: int| 0 <= j < s.len() ==> !p(#[trigger] s[j]),
    decreases s.len(),
{
    if s.len() > 0 {
        let d = s.drop_last();
        lemma_first_index(d, p);
        assert(forall|j: int| 0 <= j < d.len() ==> d[j] == s[j]);
    }
}

/// A satisfying element with none before it is the first one.
pub proof fn lemma_first_index_is<T>(s: Seq<T>, p: spec_fn(T) -> bool, i: int)
    requires
        0 <= i < s.len(),
        p(s[i]),
        forall|j: int| 0 <= j < i ==> !p(#[trigger] s[j]),
    ensures
        first_index(s, p) == Some(i),
    decreases s.len(),
{
    lemma_first_index(s, p);
    let d = s.drop_last();
    assert(forall|j: int| 0 <= j < d.len() ==> d[j] == s[j]);
    if i < s.len() - 1 {
        lemma_first_index_is(d, p, i);
    } else {
        lemma_first_index(d, p);
    }
}

/// When no element satisfies `p`, there is no first one.
pub proof fn lemma_first_index_none<T>(s: Seq<T>, p: spec_fn(T) -> bool)
    requires
        forall|j: int| 0 <= j < s.len() ==> !p(#[trigger] s[j]),
    ensures
        first_index(s, p) is None,
{
    lemma_first_index(s, p);
    if first_index(s, p) is Some {
        let k = first_index(s, p)->0;
        assert(!p(s[k]));
    }
}

} // verus!
