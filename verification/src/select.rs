//! "The first element that matches": the selection rule every lookup follows.

use vstd::prelude::*;

verus! {

/// `i` is the first index below `n` where `p` holds.
pub open spec fn is_first(n: int, p: spec_fn(int) -> bool, i: int) -> bool {
    &&& 0 <= i < n
    &&& p(i)
    &&& forall|j: int| 0 <= j < i ==> !#[trigger] p(j)
}

/// The first index below `n` where `p` holds, if any.
pub open spec fn first_index(n: int, p: spec_fn(int) -> bool) -> Option<int> {
    if exists|i: int| is_first(n, p, i) {
        Some(choose|i: int| is_first(n, p, i))
    } else {
        None
    }
}

/// A found first index is what `first_index` names.
pub proof fn lemma_first_index_found(n: int, p: spec_fn(int) -> bool, i: int)
    requires
        0 <= i < n,
        p(i),
        forall|j: int| 0 <= j < i ==> !#[trigger] p(j),
    ensures
        first_index(n, p) == Some(i),
{
    assert(is_first(n, p, i));
    let k = choose|k: int| is_first(n, p, k);
    assert(is_first(n, p, k));
    if k < i {
        assert(!p(k));
    } else if k > i {
        assert(!p(i));
    }
}

/// With no index where `p` holds, `first_index` is `None`.
pub proof fn lemma_first_index_none(n: int, p: spec_fn(int) -> bool)
    requires
        forall|j: int| 0 <= j < n ==> !#[trigger] p(j),
    ensures
        first_index(n, p) is None,
{
    if exists|i: int| is_first(n, p, i) {
        let k = choose|k: int| is_first(n, p, k);
        assert(p(k));
    }
}

/// Whatever `first_index` names satisfies `p` and is the first to.
pub proof fn lemma_first_index_is_first(n: int, p: spec_fn(int) -> bool)
    requires
        first_index(n, p) is Some,
    ensures
        is_first(n, p, first_index(n, p).unwrap()),
{
}

/// When some index below `n` satisfies `p`, `first_index` names one.
pub proof fn lemma_first_index_exists(n: int, p: spec_fn(int) -> bool, i: int)
    requires
        0 <= i < n,
        p(i),
    ensures
        first_index(n, p) is Some,
    decreases i,
{
    if forall|j: int| 0 <= j < i ==> !#[trigger] p(j) {
        lemma_first_index_found(n, p, i);
    } else {
        let j = choose|j: int| 0 <= j < i && #[trigger] p(j);
        lemma_first_index_exists(n, p, j);
    }
}

/// What `first_index` names lies below `n`; below no index nothing is named.
pub proof fn lemma_first_index_bounds(n: int, p: spec_fn(int) -> bool)
    ensures
        first_index(n, p) matches Some(i) ==> 0 <= i < n,
        n <= 0 ==> first_index(n, p) is None,
{
    if first_index(n, p) is Some {
        lemma_first_index_is_first(n, p);
    }
    if n <= 0 {
        lemma_first_index_none(n, p);
    }
}

} // verus!
