//! A sweep: the same trace through the same policy for each table size of an
//! inclusive range, with the results gathered in order of size whatever the
//! order in which the simulations finished.
use crate::error::Error;
use crate::simulation::HitRate;
use crate::table::{index_of, lemma_index_of, lemma_index_of_at};
use vstd::prelude::*;

verus! {

/// The result of one simulation of a sweep: its table size, and its hits and
/// requests, `None` where it handled no request.
pub type SizeResult = (usize, Option<HitRate>);

/// The last table size of a sweep: `to_table_size`, or `table_size` alone.
pub open spec fn last_size(table_size: usize, to_table_size: Option<usize>) -> usize {
    match to_table_size {
        Some(to) => to,
        None => table_size,
    }
}

/// The table sizes `first..=last`, in ascending order.
pub open spec fn size_range(first: usize, last: usize) -> Seq<usize> {
    Seq::new((last - first + 1) as nat, |i: int| (first + i) as usize)
}

/// The table sizes to simulate: from `table_size` to `to_table_size`, both
/// included, or `table_size` alone. Fails on a size of 0 and on a range
/// whose end is below its start.
pub fn table_sizes(table_size: usize, to_table_size: Option<usize>) -> (r: Result<Vec<usize>, Error>)
    ensures
        table_size == 0 ==> r == Err::<Vec<usize>, Error>(Error::ZeroTableSize),
        table_size > 0 && last_size(table_size, to_table_size) < table_size ==> r == Err::<
            Vec<usize>,
            Error,
        >(Error::InvalidRange),
        table_size > 0 && last_size(table_size, to_table_size) >= table_size ==> r is Ok
            && r->Ok_0@ == size_range(table_size, last_size(table_size, to_table_size)),
{
    if table_size == 0 {
        return Err(Error::ZeroTableSize);
    }
    let last = match to_table_size {
        Some(to) => to,
        None => table_size,
    };
    if last < table_size {
        return Err(Error::InvalidRange);
    }
    let mut sizes: Vec<usize> = Vec::new();
    let mut size = table_size;
    loop
        invariant_except_break
            sizes@.len() == size - table_size,
        invariant
            table_size <= size <= last,
            forall|i: int| 0 <= i < sizes@.len() ==> #[trigger] sizes@[i] == table_size + i,
        ensures
            sizes@.len() == last - table_size + 1,
            sizes@ =~= size_range(table_size, last),
        decreases last - size,
    {
        sizes.push(size);
        if size == last {
            break;
        }
        size = size + 1;
    }
    Ok(sizes)
}

/// The table size of each result.
pub open spec fn sizes_of(results: Seq<SizeResult>) -> Seq<usize> {
    results.map_values(|r: SizeResult| r.0)
}

/// The first result for table size `size`.
pub open spec fn entry_for(results: Seq<SizeResult>, size: usize) -> SizeResult {
    results[index_of(sizes_of(results), size)]
}

/// Every size of `first..=last` has a result.
pub open spec fn all_reported(first: usize, last: usize, results: Seq<SizeResult>) -> bool {
    forall|s: usize| first <= s <= last ==> #[trigger] sizes_of(results).contains(s)
}

/// The results of a sweep over `first..=last` in ascending order of size,
/// one per size, or `None` while some size has none.
pub open spec fn collected(first: usize, last: usize, results: Seq<SizeResult>) -> Option<
    Seq<SizeResult>,
> {
    if all_reported(first, last, results) {
        Some(size_range(first, last).map_values(|s: usize| entry_for(results, s)))
    } else {
        None
    }
}

/// Each result has a table size of its own.
pub open spec fn sizes_distinct(results: Seq<SizeResult>) -> bool {
    forall|i: int, j: int|
        0 <= i < results.len() && 0 <= j < results.len() && (#[trigger] results[i]).0 == (
        #[trigger] results[j]).0 ==> i == j
}

/// Index of the first result for `size`, or `results.len()` when there is
/// none.
fn find_size(results: &Vec<SizeResult>, size: usize) -> (r: usize)
    ensures
        r <= results@.len(),
        r < results@.len() <==> sizes_of(results@).contains(size),
        r < results@.len() ==> r == index_of(sizes_of(results@), size),
{
    let ghost sizes = sizes_of(results@);
    let mut i: usize = 0;
    while i < results.len()
        invariant
            i <= results@.len(),
            sizes == sizes_of(results@),
            forall|j: int| 0 <= j < i ==> sizes[j] != size,
        decreases results@.len() - i,
    {
        if results[i].0 == size {
            proof {
                lemma_index_of_at(sizes, size, i as int);
                lemma_index_of(sizes, size);
            }
            return i;
        }
        i += 1;
    }
    proof {
        lemma_index_of(sizes, size);
        assert forall|j: int| 0 <= j < sizes.len() implies sizes[j] != size by {}
    }
    results.len()
}

/// Gathers the results of a sweep over `first..=last`, in whatever order the
/// simulations reported them, into ascending order of table size: for each
/// size the first result for it. Gives `None` while some size has no result.
pub fn collect_results(first: usize, last: usize, results: &Vec<SizeResult>) -> (r: Option<
    Vec<SizeResult>,
>)
    requires
        first <= last,
    ensures
        r is Some <==> collected(first, last, results@) is Some,
        r is Some ==> r->0@ == collected(first, last, results@)->0,
        r is Some ==> r->0@.len() == last - first + 1 && forall|i: int|
            0 <= i < r->0@.len() ==> (#[trigger] r->0@[i]).0 == first + i,
{
    let ghost want = size_range(first, last).map_values(|s: usize| entry_for(results@, s));
    let mut out: Vec<SizeResult> = Vec::new();
    let mut size = first;
    loop
        invariant_except_break
            out@.len() == size - first,
        invariant
            first <= size <= last,
            forall|s: usize| first <= s < size ==> #[trigger] sizes_of(results@).contains(s),
            want == size_range(first, last).map_values(|s: usize| entry_for(results@, s)),
            forall|i: int| 0 <= i < out@.len() ==> #[trigger] out@[i] == want[i],
        ensures
            out@.len() == last - first + 1,
            all_reported(first, last, results@),
            out@ =~= want,
        decreases last - size,
    {
        let found = find_size(results, size);
        if found == results.len() {
            proof {
                assert(!all_reported(first, last, results@));
            }
            return None;
        }
        proof {
            lemma_index_of(sizes_of(results@), size);
        }
        out.push(results[found]);
        if size == last {
            break;
        }
        size = size + 1;
    }
    proof {
        assert forall|i: int| 0 <= i < out@.len() implies (#[trigger] out@[i]).0 == first + i by {
            lemma_index_of(sizes_of(results@), (first + i) as usize);
        }
    }
    Some(out)
}

/// A result of `b` is one of `a` when `b` reorders `a`.
proof fn lemma_reordered_contains(a: Seq<SizeResult>, b: Seq<SizeResult>, x: SizeResult)
    requires
        a.to_multiset() == b.to_multiset(),
        b.contains(x),
    ensures
        a.contains(x),
{
    broadcast use vstd::seq_lib::group_to_multiset_ensures;

    assert(b.to_multiset().count(x) > 0);
}

/// A size has a result in `a` exactly when it has one in a reordering `b`
/// of `a`, and then, sizes being distinct, the same result.
proof fn lemma_entry_for_reordered(a: Seq<SizeResult>, b: Seq<SizeResult>, size: usize)
    requires
        a.to_multiset() == b.to_multiset(),
        sizes_distinct(a),
    ensures
        sizes_of(a).contains(size) == sizes_of(b).contains(size),
        sizes_of(a).contains(size) ==> entry_for(a, size) == entry_for(b, size),
{
    lemma_index_of(sizes_of(a), size);
    lemma_index_of(sizes_of(b), size);
    if sizes_of(b).contains(size) {
        let j = index_of(sizes_of(b), size);
        assert(b.contains(b[j]));
        lemma_reordered_contains(a, b, b[j]);
        let k = choose|k: int| 0 <= k < a.len() && a[k] == b[j];
        assert(sizes_of(a)[k] == size);
        let i = index_of(sizes_of(a), size);
        assert(a[i].0 == size);
        assert(i == k);
    }
    if sizes_of(a).contains(size) {
        let i = index_of(sizes_of(a), size);
        assert(a.contains(a[i]));
        lemma_reordered_contains(b, a, a[i]);
        let k = choose|k: int| 0 <= k < b.len() && b[k] == a[i];
        assert(sizes_of(b)[k] == size);
    }
}

/// The order in which the simulations of a sweep report their results does
/// not matter: any reordering of the same results, one per table size, is
/// collected into the same list, ascending by size.
pub proof fn lemma_collect_order_free(
    first: usize,
    last: usize,
    a: Seq<SizeResult>,
    b: Seq<SizeResult>,
)
    requires
        first <= last,
        a.to_multiset() == b.to_multiset(),
        sizes_distinct(a),
    ensures
        collected(first, last, a) == collected(first, last, b),
{
    assert forall|s: usize| sizes_of(a).contains(s) == sizes_of(b).contains(s) by {
        lemma_entry_for_reordered(a, b, s);
    }
    assert(all_reported(first, last, a) == all_reported(first, last, b));
    if all_reported(first, last, a) {
        let ra = size_range(first, last).map_values(|s: usize| entry_for(a, s));
        let rb = size_range(first, last).map_values(|s: usize| entry_for(b, s));
        assert forall|i: int| 0 <= i < ra.len() implies ra[i] == rb[i] by {
            let s = size_range(first, last)[i];
            assert(first <= s <= last);
            lemma_entry_for_reordered(a, b, s);
            assert(sizes_of(a).contains(s));
        }
        assert(ra =~= rb);
    }
}

} // verus!
