//! Cumulative element offsets: how a flat element index over several groups of
//! elements is split into a group and an index within that group.
use vstd::prelude::*;

verus! {

/// Number of elements that precede group `k`: the sum of the first `k` counts.
pub open spec fn element_offset(counts: Seq<nat>, k: int) -> nat
    decreases k,
{
    if k <= 0 {
        0
    } else {
        element_offset(counts, k - 1) + counts[k - 1]
    }
}

/// Number of elements in all groups together.
pub open spec fn total_elements(counts: Seq<nat>) -> nat {
    element_offset(counts, counts.len() as int)
}

/// Group `k` owns the flat index `index`: the index falls in the half-open
/// range that starts at the group's offset and is as long as its count.
pub open spec fn owns_element(counts: Seq<nat>, k: int, index: int) -> bool {
    &&& 0 <= k < counts.len()
    &&& element_offset(counts, k) <= index < element_offset(counts, k) + counts[k]
}

/// The group that owns `index`.
pub open spec fn owner_of(counts: Seq<nat>, index: int) -> int {
    choose|k: int| owns_element(counts, k, index)
}

/// `offsets` holds the offset of every group of `counts`.
pub open spec fn is_offset_table(offsets: Seq<usize>, counts: Seq<nat>) -> bool {
    &&& offsets.len() == counts.len()
    &&& forall|k: int| 0 <= k < offsets.len() ==> #[trigger] offsets[k] == element_offset(counts, k)
}

/// Offsets never decrease from one group to a later one.
pub proof fn lemma_offsets_monotonic(counts: Seq<nat>, j: int, k: int)
    requires
        0 <= j <= k,
    ensures
        element_offset(counts, j) <= element_offset(counts, k),
    decreases k - j,
{
    if j < k {
        lemma_offsets_monotonic(counts, j, k - 1);
    }
}

proof fn lemma_owner_among_first(counts: Seq<nat>, n: int, index: int)
    requires
        0 <= n <= counts.len(),
        0 <= index < element_offset(counts, n),
    ensures
        exists|k: int| 0 <= k < n && owns_element(counts, k, index),
    decreases n,
{
    if index >= element_offset(counts, n - 1) {
        assert(owns_element(counts, n - 1, index));
    } else {
        lemma_owner_among_first(counts, n - 1, index);
    }
}

/// Two groups cannot own the same index.
pub proof fn lemma_owner_unique(counts: Seq<nat>, j: int, k: int, index: int)
    requires
        owns_element(counts, j, index),
        owns_element(counts, k, index),
    ensures
        j == k,
{
    if j < k {
        lemma_offsets_monotonic(counts, j + 1, k);
    } else if k < j {
        lemma_offsets_monotonic(counts, k + 1, j);
    }
}

/// The groups partition the flat index range: every index below the total is
/// owned by exactly one group, and no other index is owned at all.
pub proof fn lemma_partition(counts: Seq<nat>, index: int)
    ensures
        0 <= index < total_elements(counts) ==> owns_element(
            counts,
            owner_of(counts, index),
            index,
        ),
        forall|k: int| owns_element(counts, k, index) ==> k == owner_of(counts, index),
        forall|k: int| owns_element(counts, k, index) ==> 0 <= index < total_elements(counts),
{
    if 0 <= index < total_elements(counts) {
        lemma_owner_among_first(counts, counts.len() as int, index);
    }
    assert forall|k: int| owns_element(counts, k, index) implies k == owner_of(counts, index)
        && 0 <= index < total_elements(counts) by {
        lemma_owner_unique(counts, k, owner_of(counts, index), index);
        lemma_offsets_monotonic(counts, k + 1, counts.len() as int);
    }
}

/// In an offset table, the last entry that does not exceed `index` belongs to
/// the owner of `index`.
pub proof fn lemma_last_offset_is_owner(
    offsets: Seq<usize>,
    counts: Seq<nat>,
    k: int,
    index: int,
)
    requires
        is_offset_table(offsets, counts),
        0 <= index < total_elements(counts),
        0 <= k < offsets.len(),
        offsets[k] <= index,
        forall|j: int| k < j < offsets.len() ==> #[trigger] offsets[j] > index,
    ensures
        owns_element(counts, k, index),
        owner_of(counts, index) == k,
{
    if k + 1 < offsets.len() {
        assert(offsets[k + 1] > index);
    }
    assert(owns_element(counts, k, index));
    lemma_partition(counts, index);
}

/// Finds the last entry of a sorted table that does not exceed `index`, by
/// bisection.
pub fn last_offset_at_most(offsets: &[usize], index: usize) -> (k: usize)
    requires
        offsets@.len() > 0,
        offsets@[0] <= index,
        forall|i: int, j: int| 0 <= i <= j < offsets@.len() ==> offsets@[i] <= offsets@[j],
    ensures
        k < offsets@.len(),
        offsets@[k as int] <= index,
        forall|j: int| k < j < offsets@.len() ==> #[trigger] offsets@[j] > index,
{
    let mut low: usize = 0;
    let mut high: usize = offsets.len();
    while high - low > 1
        invariant
            low < high <= offsets@.len(),
            offsets@[low as int] <= index,
            forall|j: int| high <= j < offsets@.len() ==> #[trigger] offsets@[j] > index,
            forall|i: int, j: int| 0 <= i <= j < offsets@.len() ==> offsets@[i] <= offsets@[j],
        decreases high - low,
    {
        let middle: usize = low + (high - low) / 2;
        if offsets[middle] <= index {
            low = middle;
        } else {
            high = middle;
        }
    }
    low
}

} // verus!
