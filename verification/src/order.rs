//! Names in order.

use crate::text;
use crate::text::{precedes, views};
use vstd::prelude::*;

verus! {

/// The place in an order, below `k`, behind all names that do not come after the name at `i`.
pub open spec fn slot(names: Seq<Seq<char>>, order: Seq<int>, i: int, k: int) -> int
    decreases k,
{
    if k <= 0 {
        0
    } else if precedes(names[i], names[order[k - 1]]) {
        slot(names, order, i, k - 1)
    } else {
        k
    }
}

/// The positions of the first `n` names in the order of the names; equal names stay as they were.
pub open spec fn order_of(names: Seq<Seq<char>>, n: int) -> Seq<int>
    decreases n,
{
    if n <= 0 {
        Seq::empty()
    } else {
        let order = order_of(names, n - 1);
        order.insert(slot(names, order, n - 1, order.len() as int), n - 1)
    }
}

/// Positions as integers.
pub open spec fn ints(order: Seq<usize>) -> Seq<int> {
    Seq::new(order.len(), |i: int| order[i] as int)
}

proof fn slot_bounds(names: Seq<Seq<char>>, order: Seq<int>, i: int, k: int)
    requires
        0 <= k <= order.len(),
    ensures
        0 <= slot(names, order, i, k) <= k,
        forall|j: int|
            slot(names, order, i, k) <= j < k ==> precedes(names[i], names[#[trigger] order[j]]),
        slot(names, order, i, k) > 0 ==> !precedes(
            names[i],
            names[order[slot(names, order, i, k) - 1]],
        ),
    decreases k,
{
    if k > 0 && precedes(names[i], names[order[k - 1]]) {
        slot_bounds(names, order, i, k - 1);
    }
}

/// Whether positions are those of the first `n` names, each once.
pub open spec fn is_arrangement(order: Seq<int>, n: int) -> bool {
    &&& order.len() == n
    &&& forall|k: int| 0 <= k < order.len() ==> 0 <= #[trigger] order[k] < n
    &&& forall|j: int, k: int| 0 <= j < k < order.len() ==> #[trigger] order[j] != #[trigger] order[k]
    &&& forall|i: int| 0 <= i < n ==> #[trigger] order.contains(i)
}

/// The order has every name once, and no name comes before one that precedes it.
pub proof fn order_is_sorted(names: Seq<Seq<char>>, n: int)
    requires
        0 <= n <= names.len(),
    ensures
        is_arrangement(order_of(names, n), n),
        forall|j: int, k: int|
            0 <= j < k < order_of(names, n).len() ==> !precedes(
                names[#[trigger] order_of(names, n)[k]],
                names[#[trigger] order_of(names, n)[j]],
            ),
    decreases n,
{
    if n > 0 {
        order_is_sorted(names, n - 1);
        let before = order_of(names, n - 1);
        let at = slot(names, before, n - 1, before.len() as int);
        let after = order_of(names, n);
        slot_bounds(names, before, n - 1, before.len() as int);
        assert(after == before.insert(at, n - 1));
        assert forall|j: int, k: int| 0 <= j < k < after.len() implies !precedes(
            names[#[trigger] after[k]],
            names[#[trigger] after[j]],
        ) && after[j] != after[k] by {
            if k < at {
                assert(after[j] == before[j] && after[k] == before[k]);
            } else if k == at {
                assert(after[j] == before[j]);
                if precedes(names[n - 1], names[before[j]]) {
                    let top = before[at - 1];
                    if j < at - 1 {
                        text::precedes_is_total(names[n - 1], names[top]);
                        text::precedes_is_total(names[before[j]], names[top]);
                        if names[top] == names[n - 1] {
                            assert(precedes(names[top], names[before[j]]));
                        } else {
                            assert(precedes(names[top], names[n - 1]));
                            text::precedes_carries_over(
                                names[top],
                                names[n - 1],
                                names[before[j]],
                            );
                        }
                    }
                }
            } else if j == at {
                assert(after[k] == before[k - 1]);
                text::precedes_is_total(names[n - 1], names[before[k - 1]]);
            } else if j < at {
                assert(after[j] == before[j] && after[k] == before[k - 1]);
            } else {
                assert(after[j] == before[j - 1] && after[k] == before[k - 1]);
            }
        }
        assert forall|k: int| 0 <= k < after.len() implies 0 <= #[trigger] after[k] < n by {
            if k < at {
                assert(after[k] == before[k]);
            } else if k > at {
                assert(after[k] == before[k - 1]);
            }
        }
        assert forall|i: int| 0 <= i < n implies #[trigger] after.contains(i) by {
            if i == n - 1 {
                assert(after[at] == i);
            } else {
                assert(before.contains(i));
                let k = choose|k: int| 0 <= k < before.len() && before[k] == i;
                if k < at {
                    assert(after[k] == i);
                } else {
                    assert(after[k + 1] == i);
                }
            }
        }
    }
}

/// The positions of names in the order of the names; equal names stay as they were.
pub fn sort_names(names: &Vec<String>) -> (r: Vec<usize>)
    ensures
        ints(r@) == order_of(views(names@), names@.len() as int),
        r@.len() == names@.len(),
        forall|k: int| 0 <= k < r@.len() ==> #[trigger] r@[k] < names@.len(),
{
    let ghost all = views(names@);
    let mut order: Vec<usize> = Vec::new();
    let mut i: usize = 0;
    assert(ints(order@) =~= Seq::empty());
    while i < names.len()
        invariant
            i <= names@.len(),
            all == views(names@),
            order@.len() == i,
            forall|k: int| 0 <= k < order@.len() ==> #[trigger] order@[k] < i,
            ints(order@) == order_of(all, i as int),
        decreases names@.len() - i,
    {
        let ghost before = ints(order@);
        let ghost was = order@;
        let mut k: usize = i;
        while k > 0 && text::is_before(names[i].as_str(), names[order[k - 1]].as_str())
            invariant
                k <= i < names@.len(),
                order@ == was,
                order@.len() == i,
                all == views(names@),
                before == ints(order@),
                forall|k: int| 0 <= k < order@.len() ==> #[trigger] order@[k] < i,
                slot(all, before, i as int, i as int) == slot(all, before, i as int, k as int),
            decreases k,
        {
            assert(before[k - 1] == order@[k - 1] as int);
            assert(all[i as int] == names@[i as int]@);
            assert(all[before[k - 1]] == names@[order@[k - 1] as int]@);
            k -= 1;
        }
        proof {
            if k > 0 {
                assert(before[k - 1] == order@[k - 1] as int);
                assert(all[i as int] == names@[i as int]@);
                assert(all[before[k - 1]] == names@[order@[k - 1] as int]@);
            }
            assert(slot(all, before, i as int, i as int) == k);
        }
        order.insert(k, i);
        proof {
            assert(ints(order@) =~= before.insert(k as int, i as int));
            assert forall|j: int| 0 <= j < order@.len() implies #[trigger] order@[j] < i + 1 by {
                if j < k {
                    assert(order@[j] == was[j]);
                } else if j > k {
                    assert(order@[j] == was[j - 1]);
                }
            }
        }
        i += 1;
    }
    order
}

} // verus!
