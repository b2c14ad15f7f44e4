//! Stable ranking: the order a stable sort by key puts positions in.
//!
//! A stable sort orders by key and keeps the input order among equal keys,
//! so its result is the unique arrangement of the positions that is strictly
//! increasing in (key, position).
use vstd::prelude::*;
use vstd::set_lib::{lemma_int_range, lemma_len_subset, lemma_subset_equality, set_int_range};

verus! {

/// Position `a` comes before position `b`: a smaller key, or an equal key and
/// an earlier position.
pub open spec fn ranks_before(keys: Seq<i128>, a: int, b: int) -> bool {
    keys[a] < keys[b] || (keys[a] == keys[b] && a < b)
}

/// `order` lists the positions of `keys` as a stable sort by key arranges them.
pub open spec fn stable_ranking(keys: Seq<i128>, order: Seq<usize>) -> bool {
    &&& order.len() == keys.len()
    &&& forall|i: int| 0 <= i < order.len() ==> #[trigger] order[i] < keys.len()
    &&& forall|i: int, j: int|
        0 <= i < j < order.len() ==> ranks_before(keys, #[trigger] order[i] as int, #[trigger] order[j] as int)
}

/// The positions of `keys` in stable sorted order (by insertion).
pub fn stable_order(keys: &Vec<i128>) -> (order: Vec<usize>)
    ensures
        stable_ranking(keys@, order@),
{
    let n = keys.len();
    let mut order: Vec<usize> = Vec::new();
    let mut i: usize = 0;
    while i < n
        invariant
            n == keys@.len(),
            i <= n,
            order@.len() == i,
            forall|a: int| 0 <= a < order@.len() ==> #[trigger] order@[a] < i,
            forall|a: int, b: int|
                0 <= a < b < order@.len() ==> ranks_before(
                    keys@,
                    #[trigger] order@[a] as int,
                    #[trigger] order@[b] as int,
                ),
        decreases n - i,
    {
        let k = keys[i];
        let mut p: usize = 0;
        while p < order.len() && keys[order[p]] <= k
            invariant
                n == keys@.len(),
                i < n,
                k == keys@[i as int],
                p <= order@.len(),
                forall|a: int| 0 <= a < order@.len() ==> #[trigger] order@[a] < i,
                forall|a: int| 0 <= a < p ==> keys@[#[trigger] order@[a] as int] <= k,
            decreases order@.len() - p,
        {
            p = p + 1;
        }
        let ghost old_order = order@;
        order.insert(p, i);
        proof {
            assert(order@ =~= old_order.insert(p as int, i));
            assert forall|a: int, b: int|
                0 <= a < b < order@.len() implies ranks_before(
                keys@,
                #[trigger] order@[a] as int,
                #[trigger] order@[b] as int,
            ) by {
                if b == p {
                    assert(order@[a] == old_order[a]);
                } else if a == p {
                    let ob = old_order[b - 1];
                    assert(order@[b] == ob);
                    if b - 1 > p {
                        assert(ranks_before(keys@, old_order[p as int] as int, ob as int));
                    }
                } else {
                    let oa = if a < p { a } else { a - 1 };
                    let ob = if b < p { b } else { b - 1 };
                    assert(order@[a] == old_order[oa]);
                    assert(order@[b] == old_order[ob]);
                }
            }
        }
        i = i + 1;
    }
    order
}

/// Position `k` occurs in `order`.
pub open spec fn listed(order: Seq<usize>, k: int) -> bool {
    exists|i: int| 0 <= i < order.len() && #[trigger] order[i] == k
}

/// `order` lists each of the positions `0..n` exactly once.
pub open spec fn lists_each_once(order: Seq<usize>, n: int) -> bool {
    &&& order.len() == n
    &&& forall|i: int, j: int| 0 <= i < j < n ==> #[trigger] order[i] != #[trigger] order[j]
    &&& forall|k: int| 0 <= k < n ==> #[trigger] listed(order, k)
}

/// A stable ranking is a permutation: it lists every position of the keys
/// exactly once.
pub proof fn law_ranking_lists_each_once(keys: Seq<i128>, order: Seq<usize>)
    requires
        stable_ranking(keys, order),
    ensures
        lists_each_once(order, keys.len() as int),
{
    let n = keys.len() as int;
    let o = order.map_values(|k: usize| k as int);
    assert forall|i: int, j: int| 0 <= i < j < n implies #[trigger] order[i] != #[trigger] order[j] by {
        assert(ranks_before(keys, order[i] as int, order[j] as int));
    }
    assert(o.no_duplicates()) by {
        assert forall|i: int, j: int| 0 <= i < o.len() && 0 <= j < o.len() && i != j implies o[i]
            != o[j] by {
            if i < j {
                assert(ranks_before(keys, order[i] as int, order[j] as int));
            } else {
                assert(ranks_before(keys, order[j] as int, order[i] as int));
            }
        }
    }
    o.unique_seq_to_set();
    lemma_int_range(0, n);
    assert(o.to_set().subset_of(set_int_range(0, n))) by {
        assert forall|x: int| #[trigger] o.to_set().contains(x) implies set_int_range(0, n).contains(x) by {
            let i = choose|i: int| 0 <= i < o.len() && o[i] == x;
            assert(order[i] < n);
        }
    }
    lemma_len_subset(o.to_set(), set_int_range(0, n));
    lemma_subset_equality(o.to_set(), set_int_range(0, n));
    assert forall|k: int| 0 <= k < n implies #[trigger] listed(order, k) by {
        assert(set_int_range(0, n).contains(k));
        assert(o.to_set().contains(k));
        let i = choose|i: int| 0 <= i < o.len() && o[i] == k;
        assert(order[i] == k);
    }
}

/// The first position of a stable ranking holds a least key, and it is the
/// earliest position holding that key.
pub proof fn law_first_ranked_is_least(keys: Seq<i128>, order: Seq<usize>)
    requires
        stable_ranking(keys, order),
        keys.len() > 0,
    ensures
        forall|k: int| 0 <= k < keys.len() ==> keys[order[0] as int] <= #[trigger] keys[k],
        forall|k: int|
            0 <= k < keys.len() && #[trigger] keys[k] == keys[order[0] as int] ==> order[0] <= k,
{
    law_ranking_lists_each_once(keys, order);
    assert forall|k: int| 0 <= k < keys.len() implies keys[order[0] as int] <= #[trigger] keys[k]
        && (keys[k] == keys[order[0] as int] ==> order[0] <= k) by {
        assert(listed(order, k));
        let j = choose|j: int| 0 <= j < order.len() && order[j] == k;
        if j > 0 {
            assert(ranks_before(keys, order[0] as int, order[j] as int));
        }
    }
}

} // verus!
