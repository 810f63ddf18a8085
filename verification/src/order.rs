//! Stable ordering by an integer key: the order in which `sort_by_key`
//! and `sort_by` leave items whose keys compare equal is the order they
//! came in.
use vstd::prelude::*;

verus! {

/// Item `a` comes before item `b`: a smaller key, or an equal key and an
/// earlier place.
pub open spec fn before(keys: Seq<u64>, a: usize, b: usize) -> bool {
    keys[a as int] < keys[b as int] || (keys[a as int] == keys[b as int] && a < b)
}

/// `order` lists places of `keys` in stable ascending key order, each
/// place once.
pub open spec fn stable_order(keys: Seq<u64>, order: Seq<usize>) -> bool {
    &&& order.len() == keys.len()
    &&& forall|i: int| 0 <= i < order.len() ==> #[trigger] order[i] < keys.len()
    &&& forall|i: int, j: int|
        0 <= i < j < order.len() ==> before(keys, #[trigger] order[i], #[trigger] order[j])
}

/// Every place of `keys` occurs in `order`.
pub open spec fn covers(keys: Seq<u64>, order: Seq<usize>) -> bool {
    forall|k: usize| k < keys.len() ==> #[trigger] order.contains(k)
}

/// The places of `keys` in stable ascending key order.
pub fn stable_order_by(keys: &Vec<u64>) -> (r: Vec<usize>)
    ensures
        stable_order(keys@, r@),
        covers(keys@, r@),
{
    let mut order: Vec<usize> = Vec::new();
    let mut i: usize = 0;
    while i < keys.len()
        invariant
            i <= keys.len(),
            order.len() == i,
            forall|a: int| 0 <= a < order.len() ==> #[trigger] order@[a] < i,
            forall|a: int, b: int|
                0 <= a < b < order.len() ==> before(keys@, #[trigger] order@[a], #[trigger] order@[b]),
            forall|k: usize| k < i ==> #[trigger] order@.contains(k),
        decreases keys.len() - i,
    {
        let ki = keys[i];
        let mut p: usize = 0;
        while p < order.len() && keys[order[p]] <= ki
            invariant
                p <= order.len(),
                order.len() == i,
                i < keys.len(),
                ki == keys@[i as int],
                forall|a: int| 0 <= a < order.len() ==> #[trigger] order@[a] < i,
                forall|a: int| 0 <= a < p ==> keys@[#[trigger] order@[a] as int] <= ki,
            decreases order.len() - p,
        {
            p = p + 1;
        }
        let ghost old_order = order@;
        order.insert(p, i);
        proof {
            assert(order@ == old_order.insert(p as int, i));
            assert forall|a: int| 0 <= a < order.len() implies #[trigger] order@[a] < i + 1 by {
                if a < p {
                    assert(order@[a] == old_order[a]);
                } else if a > p {
                    assert(order@[a] == old_order[a - 1]);
                }
            }
            assert forall|a: int, b: int|
                0 <= a < b < order.len() implies before(keys@, #[trigger] order@[a], #[trigger] order@[b]) by {
                if b < p {
                    assert(order@[a] == old_order[a] && order@[b] == old_order[b]);
                } else if b == p {
                    assert(order@[a] == old_order[a]);
                } else if a < p {
                    assert(order@[a] == old_order[a] && order@[b] == old_order[b - 1]);
                    assert(before(keys@, old_order[a], old_order[p as int]) || a == p);
                    assert(keys@[old_order[p as int] as int] > ki);
                    if a < p as int {
                        assert(before(keys@, old_order[p as int], old_order[b - 1]) || p == b - 1);
                    }
                } else if a == p {
                    assert(order@[b] == old_order[b - 1]);
                    assert(keys@[old_order[p as int] as int] > ki);
                    if b - 1 > p {
                        assert(before(keys@, old_order[p as int], old_order[b - 1]));
                    }
                } else {
                    assert(order@[a] == old_order[a - 1] && order@[b] == old_order[b - 1]);
                }
            }
            assert forall|k: usize| k < i + 1 implies #[trigger] order@.contains(k) by {
                if k == i {
                    assert(order@[p as int] == i);
                } else {
                    assert(old_order.contains(k));
                    let w = choose|w: int| 0 <= w < old_order.len() && old_order[w] == k;
                    if w < p {
                        assert(order@[w] == k);
                    } else {
                        assert(order@[w + 1] == k);
                    }
                }
            }
        }
        i = i + 1;
    }
    order
}

} // verus!
