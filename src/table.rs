//! Searches over the slots of a page table, stated once for all policies.
use vstd::prelude::*;

verus! {

/// Index of the first element of `s` equal to `x`, or -1 when there is none.
pub open spec fn index_of<T>(s: Seq<T>, x: T) -> int
    decreases s.len(),
{
    if s.len() == 0 {
        -1
    } else {
        let i = index_of(s.drop_last(), x);
        if i >= 0 {
            i
        } else if s.last() == x {
            s.len() - 1
        } else {
            -1
        }
    }
}

/// Index of the first smallest element of a non-empty sequence.
pub open spec fn first_min_index(s: Seq<u64>) -> int
    decreases s.len(),
{
    if s.len() <= 1 {
        0
    } else {
        let m = first_min_index(s.drop_last());
        if s.last() < s[m] {
            s.len() - 1
        } else {
            m
        }
    }
}

/// Index of the first largest element of a non-empty sequence.
pub open spec fn first_max_index(s: Seq<nat>) -> int
    decreases s.len(),
{
    if s.len() <= 1 {
        0
    } else {
        let m = first_max_index(s.drop_last());
        if s.last() > s[m] {
            s.len() - 1
        } else {
            m
        }
    }
}

/// `index_of` finds the first occurrence, and -1 exactly when there is none.
pub proof fn lemma_index_of<T>(s: Seq<T>, x: T)
    ensures
        -1 <= index_of(s, x) < s.len(),
        index_of(s, x) == -1 <==> !s.contains(x),
        index_of(s, x) >= 0 ==> s[index_of(s, x)] == x,
        forall|j: int| 0 <= j < index_of(s, x) ==> s[j] != x,
        index_of(s, x) == -1 ==> forall|j: int| 0 <= j < s.len() ==> s[j] != x,
    decreases s.len(),
{
    if s.len() > 0 {
        let t = s.drop_last();
        lemma_index_of(t, x);
        assert(t.len() == s.len() - 1);
        assert forall|j: int| 0 <= j < t.len() implies s[j] == t[j] by {}
        assert forall|j: int| 0 <= j < index_of(s, x) implies s[j] != x by {
            assert(s[j] == t[j]);
        }
        if s.contains(x) {
            let k = choose|k: int| 0 <= k < s.len() && s[k] == x;
            if k < t.len() {
                assert(t[k] == x);
            }
        }
    }
}

/// The first element equal to `x` at `i` fixes `index_of` to `i`.
pub proof fn lemma_index_of_at<T>(s: Seq<T>, x: T, i: int)
    requires
        0 <= i < s.len(),
        s[i] == x,
        forall|j: int| 0 <= j < i ==> s[j] != x,
    ensures
        index_of(s, x) == i,
{
    lemma_index_of(s, x);
    assert(s.contains(x));
}

/// The first smallest element is no larger than any element, and smaller
/// than every element before it.
pub proof fn lemma_first_min_index(s: Seq<u64>)
    requires
        s.len() > 0,
    ensures
        0 <= first_min_index(s) < s.len(),
        forall|j: int| 0 <= j < s.len() ==> s[first_min_index(s)] <= #[trigger] s[j],
        forall|j: int| 0 <= j < first_min_index(s) ==> s[first_min_index(s)] < #[trigger] s[j],
    decreases s.len(),
{
    if s.len() > 1 {
        let t = s.drop_last();
        lemma_first_min_index(t);
        assert forall|j: int| 0 <= j < s.len() - 1 implies s[j] == t[j] by {}
    }
}

/// The first largest element is no smaller than any element, and larger
/// than every element before it.
pub proof fn lemma_first_max_index(s: Seq<nat>)
    requires
        s.len() > 0,
    ensures
        0 <= first_max_index(s) < s.len(),
        forall|j: int| 0 <= j < s.len() ==> s[first_max_index(s)] >= #[trigger] s[j],
        forall|j: int| 0 <= j < first_max_index(s) ==> s[first_max_index(s)] > #[trigger] s[j],
    decreases s.len(),
{
    if s.len() > 1 {
        let t = s.drop_last();
        lemma_first_max_index(t);
        assert forall|j: int| 0 <= j < s.len() - 1 implies s[j] == t[j] by {}
    }
}

} // verus!
