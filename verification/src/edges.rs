//! Sorting scan edges by their top coordinate. An edge is represented for
//! ordering by an integer key for its top coordinate and the edge's index
//! in the caller's edge list; the caller maps each edge's coordinate to a
//! key that orders the same way and reorders its list by the indices that
//! come out.

use vstd::prelude::*;
use vstd::seq_lib::group_to_multiset_ensures;
use vstd::seq_lib::to_multiset_update;

verus! {

/// One edge as the sorter sees it: the ordering key of its top `y`
/// coordinate, and its position in the caller's edge list.
#[derive(Debug, PartialEq, Eq, Clone, Copy, Structural)]
pub struct Edge {
    pub y0: u64,
    pub index: usize,
}

/// The keys are non-decreasing over the whole sequence.
pub open spec fn edges_sorted(s: Seq<Edge>) -> bool {
    forall|a: int, b: int| 0 <= a < b < s.len() ==> s[a].y0 <= s[b].y0
}

/// Swaps two entries; the sequence keeps exactly the same elements.
fn swap_edges(p: &mut Vec<Edge>, a: usize, b: usize)
    requires
        a < old(p).len(),
        b < old(p).len(),
    ensures
        final(p)@ == old(p)@.update(a as int, old(p)@[b as int]).update(b as int, old(p)@[a as int]),
        final(p)@.to_multiset() == old(p)@.to_multiset(),
        final(p)@.len() == old(p)@.len(),
{
    let ea = p[a];
    let eb = p[b];
    p.set(a, eb);
    p.set(b, ea);
    proof {
        broadcast use to_multiset_update;
        broadcast use group_to_multiset_ensures;
        assert(p@.to_multiset() =~= old(p)@.to_multiset());
    }
}

/// Insertion sort over the whole list: afterwards the keys are
/// non-decreasing and the entries are exactly those given.
pub fn sort_edges_ins_sort(p: &mut Vec<Edge>)
    ensures
        final(p)@.len() == old(p)@.len(),
        edges_sorted(final(p)@),
        final(p)@.to_multiset() == old(p)@.to_multiset(),
{
    let n = p.len();
    let mut i: usize = 1;
    while i < n
        invariant
            n == p@.len(),
            1 <= i,
            n >= 2 ==> i <= n,
            forall|a: int, b: int| 0 <= a < b < i ==> p@[a].y0 <= p@[b].y0,
            p@.to_multiset() == old(p)@.to_multiset(),
        decreases n - i,
    {
        let mut j: usize = i;
        while j > 0 && p[j - 1].y0 > p[j].y0
            invariant
                n == p@.len(),
                0 <= j <= i < n,
                forall|a: int, b: int| 0 <= a < b <= i && b != j ==> p@[a].y0 <= p@[b].y0,
                p@.to_multiset() == old(p)@.to_multiset(),
            decreases j,
        {
            swap_edges(p, j - 1, j);
            j = j - 1;
        }
        proof {
            assert(forall|a: int, b: int| 0 <= a < b <= i ==> p@[a].y0 <= p@[b].y0) by {
                if j > 0 {
                    assert(p@[j - 1].y0 <= p@[j as int].y0);
                    assert forall|a: int| 0 <= a < j implies p@[a].y0 <= p@[j as int].y0 by {
                        assert(p@[a].y0 <= p@[j - 1].y0);
                    }
                }
            }
        }
        i = i + 1;
    }
}

/// Two sequences with equal multisets and the same bound on every key:
/// a bound that holds of all of one holds of all of the other.
proof fn lemma_multiset_keeps_le_bound(s1: Seq<Edge>, s2: Seq<Edge>, b: u64)
    requires
        s1.to_multiset() == s2.to_multiset(),
        forall|k: int| 0 <= k < s1.len() ==> s1[k].y0 <= b,
    ensures
        forall|k: int| 0 <= k < s2.len() ==> s2[k].y0 <= b,
{
    broadcast use group_to_multiset_ensures;

    assert forall|k: int| 0 <= k < s2.len() implies s2[k].y0 <= b by {
        assert(s2.to_multiset().count(s2[k]) > 0);
        assert(s1.contains(s2[k]));
    }
}

/// As above, for a lower bound.
proof fn lemma_multiset_keeps_ge_bound(s1: Seq<Edge>, s2: Seq<Edge>, b: u64)
    requires
        s1.to_multiset() == s2.to_multiset(),
        forall|k: int| 0 <= k < s1.len() ==> s1[k].y0 >= b,
    ensures
        forall|k: int| 0 <= k < s2.len() ==> s2[k].y0 >= b,
{
    broadcast use group_to_multiset_ensures;

    assert forall|k: int| 0 <= k < s2.len() implies s2[k].y0 >= b by {
        assert(s2.to_multiset().count(s2[k]) > 0);
        assert(s1.contains(s2[k]));
    }
}

/// Two equally long sequences with equal multisets that agree outside
/// `[lo, hi)` have equal multisets on `[lo, hi)` as well.
proof fn lemma_range_multiset_preserved(s1: Seq<Edge>, s2: Seq<Edge>, lo: int, hi: int)
    requires
        s1.len() == s2.len(),
        0 <= lo <= hi <= s1.len(),
        s1.to_multiset() == s2.to_multiset(),
        forall|k: int| 0 <= k < lo || hi <= k < s1.len() ==> s1[k] == s2[k],
    ensures
        s1.subrange(lo, hi).to_multiset() == s2.subrange(lo, hi).to_multiset(),
{
    broadcast use vstd::multiset::group_multiset_axioms;

    let pre1 = s1.subrange(0, lo);
    let mid1 = s1.subrange(lo, hi);
    let post1 = s1.subrange(hi, s1.len() as int);
    let pre2 = s2.subrange(0, lo);
    let mid2 = s2.subrange(lo, hi);
    let post2 = s2.subrange(hi, s2.len() as int);
    assert(s1 =~= (pre1 + mid1) + post1);
    assert(s2 =~= (pre2 + mid2) + post2);
    vstd::seq_lib::lemma_multiset_commutative(pre1 + mid1, post1);
    vstd::seq_lib::lemma_multiset_commutative(pre1, mid1);
    vstd::seq_lib::lemma_multiset_commutative(pre2 + mid2, post2);
    vstd::seq_lib::lemma_multiset_commutative(pre2, mid2);
    assert(pre1 =~= pre2);
    assert(post1 =~= post2);
    assert(mid1.to_multiset() =~= mid2.to_multiset()) by {
        assert forall|x: Edge| mid1.to_multiset().count(x) == mid2.to_multiset().count(x) by {
            assert(s1.to_multiset().count(x) == pre1.to_multiset().count(x)
                + mid1.to_multiset().count(x) + post1.to_multiset().count(x));
            assert(s2.to_multiset().count(x) == pre2.to_multiset().count(x)
                + mid2.to_multiset().count(x) + post2.to_multiset().count(x));
        }
    }
}

/// Quicksort with a median-of-three pivot, leaving partitions of twelve or
/// fewer entries unsorted for the insertion pass: afterwards the entries
/// of `[lo, lo + n)` are exactly those given, everything outside that
/// range is untouched, and any two entries twelve or more positions apart
/// within the range are already in key order (they lie in different
/// partitions, so only entries fewer than twelve apart are left for the
/// insertion pass).
pub fn sort_edges_quicksort(p: &mut Vec<Edge>, lo: usize, n: usize)
    requires
        lo + n <= old(p).len(),
    ensures
        final(p)@.len() == old(p)@.len(),
        final(p)@.to_multiset() == old(p)@.to_multiset(),
        forall|k: int| 0 <= k < lo || lo + n <= k < old(p)@.len() ==> final(p)@[k] == old(p)@[k],
        forall|a: int, b: int| lo <= a && a + 12 <= b < lo + n
            ==> final(p)@[a].y0 <= final(p)@[b].y0,
    decreases n,
{
    if n <= 12 {
        // The threshold for transitioning to insertion sort.
        return;
    }
    // Compute the median of the first, middle and last entries and move it
    // to the front as the pivot.
    let m = lo + n / 2;
    let hi = lo + n - 1;
    let c01 = p[lo].y0 < p[m].y0;
    let c12 = p[m].y0 < p[hi].y0;
    if c01 != c12 {
        let c = p[lo].y0 < p[hi].y0;
        let z = if c == c12 { lo } else { hi };
        swap_edges(p, z, m);
    }
    swap_edges(p, lo, m);
    let pivot = p[lo].y0;
    proof {
        // The larger of the two values beside the median is at least the
        // median, so the upward scan always has a stopper ahead of it.
        assert(p@[m as int].y0 >= pivot || p@[hi as int].y0 >= pivot);
        assert(exists|k: int| 1 <= k < n && #[trigger] p@[lo + k].y0 >= pivot) by {
            if p@[m as int].y0 >= pivot {
                assert(m - lo >= 1 && m - lo < n && p@[lo + (m - lo)].y0 >= pivot);
            } else {
                assert(n - 1 >= 1 && p@[lo + (n - 1)].y0 >= pivot);
            }
        }
    }

    // Partition around the pivot: afterwards `[lo, lo + i)` holds only
    // keys at most the pivot and `[lo + i, lo + n)` only keys at least it.
    let mut i: usize = 1;
    let mut j: usize = n - 1;
    #[verifier::loop_isolation(true)]
    loop
        invariant_except_break
            lo + n <= p@.len(),
            p@.len() == old(p)@.len(),
            p@.len() <= usize::MAX,
            12 < n,
            1 <= i <= n - 1,
            j <= n - 1,
            pivot == p@[lo as int].y0,
            p@.to_multiset() == old(p)@.to_multiset(),
            forall|k: int| 0 <= k < lo || lo + n <= k < p@.len() ==> p@[k] == old(p)@[k],
            forall|k: int| 1 <= k < i ==> #[trigger] p@[lo + k].y0 <= pivot,
            forall|k: int| j < k < n ==> #[trigger] p@[lo + k].y0 >= pivot,
            exists|k: int| i <= k < n && #[trigger] p@[lo + k].y0 >= pivot,
        ensures
            lo + n <= p@.len(),
            p@.len() == old(p)@.len(),
            12 < n,
            1 <= i <= n - 1,
            p@.to_multiset() == old(p)@.to_multiset(),
            forall|k: int| 0 <= k < lo || lo + n <= k < p@.len() ==> p@[k] == old(p)@[k],
            forall|k: int| 0 <= k < i ==> #[trigger] p@[lo + k].y0 <= pivot,
            forall|k: int| i <= k < n ==> #[trigger] p@[lo + k].y0 >= pivot,
        decreases j + n - i,
    {
        let ghost i0 = i;
        let ghost j0 = j;
        while i < n && p[lo + i].y0 < pivot
            invariant
                lo + n <= p@.len(),
                p@.len() == old(p)@.len(),
                p@.len() <= usize::MAX,
                1 <= i <= n,
                i0 <= i,
                pivot == p@[lo as int].y0,
                p@.to_multiset() == old(p)@.to_multiset(),
                forall|k: int| 0 <= k < lo || lo + n <= k < p@.len() ==> p@[k] == old(p)@[k],
                forall|k: int| 1 <= k < i ==> #[trigger] p@[lo + k].y0 <= pivot,
                forall|k: int| j < k < n ==> #[trigger] p@[lo + k].y0 >= pivot,
                exists|k: int| i <= k < n && #[trigger] p@[lo + k].y0 >= pivot,
            decreases n - i,
        {
            proof {
                let w = choose|k: int| i <= k < n && #[trigger] p@[lo + k].y0 >= pivot;
                assert(w != i as int);
            }
            i = i + 1;
        }
        proof {
            // The scan stopped on an entry at least the pivot, inside the
            // range: its stopper cannot have been passed.
            assert(i < n);
        }
        while j > 0 && pivot < p[lo + j].y0
            invariant
                lo + n <= p@.len(),
                p@.len() == old(p)@.len(),
                p@.len() <= usize::MAX,
                j <= n - 1,
                j <= j0,
                pivot == p@[lo as int].y0,
                p@.to_multiset() == old(p)@.to_multiset(),
                forall|k: int| 0 <= k < lo || lo + n <= k < p@.len() ==> p@[k] == old(p)@[k],
                forall|k: int| j < k < n ==> #[trigger] p@[lo + k].y0 >= pivot,
            decreases j,
        {
            j = j - 1;
        }
        if i >= j {
            break;
        }
        swap_edges(p, lo + i, lo + j);
        proof {
            assert(p@[lo + j as int].y0 >= pivot);
            assert(exists|k: int| i + 1 <= k < n && #[trigger] p@[lo + k].y0 >= pivot) by {
                assert(i + 1 <= j < n && p@[lo + j as int].y0 >= pivot);
            }
        }
        i = i + 1;
        j = j - 1;
    }

    // Sort the two partitions; every key left of the split stays at most
    // the pivot and every key right of it at least the pivot, because each
    // recursive call only reorders its own range.
    let ghost after_partition = p@;
    sort_edges_quicksort(p, lo, i);
    let ghost after_left = p@;
    proof {
        lemma_range_multiset_preserved(after_partition, after_left, lo as int, lo + i);
        assert forall|k: int| 0 <= k < i
            implies #[trigger] after_partition.subrange(lo as int, lo + i)[k].y0 <= pivot by {
            assert(after_partition.subrange(lo as int, lo + i)[k] == after_partition[lo + k]);
        }
        lemma_multiset_keeps_le_bound(
            after_partition.subrange(lo as int, lo + i),
            after_left.subrange(lo as int, lo + i),
            pivot,
        );
    }
    sort_edges_quicksort(p, lo + i, n - i);
    proof {
        lemma_range_multiset_preserved(after_left, p@, lo + i, lo + n);
        assert forall|k: int| 0 <= k < n - i
            implies #[trigger] after_left.subrange(lo + i, lo + n)[k].y0 >= pivot by {
            assert(after_left.subrange(lo + i, lo + n)[k] == after_left[lo + i + k]);
            assert(after_left[lo + i + k] == after_partition[lo + i + k]);
            assert(after_partition[lo + (i + k)].y0 >= pivot);
        }
        lemma_multiset_keeps_ge_bound(
            after_left.subrange(lo + i, lo + n),
            p@.subrange(lo + i, lo + n),
            pivot,
        );
        assert forall|a: int, b: int| lo <= a && a + 12 <= b < lo + n
            implies p@[a].y0 <= p@[b].y0 by {
            if b < lo + i {
                // Both in the left partition: its recursive guarantee,
                // untouched by the right call.
            } else if a >= lo + i {
                // Both in the right partition: its recursive guarantee.
            } else {
                // Across the split: at most the pivot on the left, at
                // least the pivot on the right.
                assert(after_left.subrange(lo as int, lo + i)[a - lo] == after_left[a]);
                assert(p@[a] == after_left[a]);
                assert(p@.subrange(lo + i, lo + n)[b - (lo + i)] == p@[b]);
            }
        }
    }
}

/// Sorts the edges by their top keys, ascending: quicksort down to small
/// partitions, then one insertion pass. The result is a reordering of the
/// given entries whose keys are non-decreasing.
pub fn sort_edges(p: &mut Vec<Edge>)
    ensures
        final(p)@.len() == old(p)@.len(),
        edges_sorted(final(p)@),
        final(p)@.to_multiset() == old(p)@.to_multiset(),
{
    let n = p.len();
    sort_edges_quicksort(p, 0, n);
    sort_edges_ins_sort(p);
}

} // verus!
