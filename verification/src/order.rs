//! Putting things in the order of a key, those with the same key in the
//! order in which they came.

use itertools::Itertools;
use vstd::prelude::*;

verus! {

/// Whether `order` lists the indices of `keys` by ascending key, indices
/// of the same key by ascending index.
pub open spec fn stable_order(keys: Seq<int>, order: Seq<int>) -> bool {
    &&& order.len() == keys.len()
    &&& forall|i: int| 0 <= i < order.len() ==> 0 <= #[trigger] order[i] < keys.len()
    &&& forall|i: int, j: int|
        0 <= i < j < order.len() ==> keys[#[trigger] order[i]] < keys[#[trigger] order[j]] || (
        keys[order[i]] == keys[order[j]] && order[i] < order[j])
}

/// Calls `Itertools::sorted_by_key` with the first part of each pair as
/// the key. Each pair comes with its index as its second part. The result
/// holds pairs of the input, by ascending key; the sort is stable, so
/// pairs with the same key come by ascending index.
#[verifier::external_body]
fn sort_pairs(pairs: Vec<(i128, usize)>) -> (sorted: Vec<(i128, usize)>)
    requires
        forall|i: int| 0 <= i < pairs@.len() ==> (#[trigger] pairs@[i]).1 == i,
    ensures
        sorted@.len() == pairs@.len(),
        forall|i: int|
            0 <= i < sorted@.len() ==> (#[trigger] sorted@[i]).1 < pairs@.len() && pairs@[sorted@[i].1 as int]
                == sorted@[i],
        forall|i: int, j: int|
            0 <= i < j < sorted@.len() ==> (#[trigger] sorted@[i]).0 < (#[trigger] sorted@[j]).0
                || (sorted@[i].0 == sorted@[j].0 && sorted@[i].1 < sorted@[j].1),
{
    pairs.into_iter().sorted_by_key(|pair| pair.0).collect()
}

/// The keys as integers.
pub open spec fn key_views(keys: Seq<i128>) -> Seq<int> {
    Seq::new(keys.len(), |i: int| keys[i] as int)
}

/// The indices as integers.
pub open spec fn index_views(order: Seq<usize>) -> Seq<int> {
    Seq::new(order.len(), |i: int| order[i] as int)
}

/// The indices of the keys by ascending key, indices of the same key by
/// ascending index.
pub fn order_by_key(keys: &Vec<i128>) -> (order: Vec<usize>)
    ensures
        stable_order(key_views(keys@), index_views(order@)),
{
    let mut pairs: Vec<(i128, usize)> = Vec::new();
    let mut i: usize = 0;
    while i < keys.len()
        invariant
            i <= keys.len(),
            pairs@.len() == i,
            forall|k: int| 0 <= k < i ==> (#[trigger] pairs@[k]) == (keys@[k], k as usize),
        decreases keys.len() - i,
    {
        pairs.push((keys[i], i));
        i += 1;
    }
    let sorted = sort_pairs(pairs);
    let mut order: Vec<usize> = Vec::new();
    let mut k: usize = 0;
    while k < sorted.len()
        invariant
            k <= sorted.len(),
            order@.len() == k,
            forall|m: int| 0 <= m < k ==> #[trigger] order@[m] == sorted@[m].1,
        decreases sorted.len() - k,
    {
        order.push(sorted[k].1);
        k += 1;
    }
    proof {
        let ks = key_views(keys@);
        let os = index_views(order@);
        assert forall|a: int, b: int| 0 <= a < b < os.len() implies ks[#[trigger] os[a]]
            < ks[#[trigger] os[b]] || (ks[os[a]] == ks[os[b]] && os[a] < os[b]) by {
            assert(pairs@[sorted@[a].1 as int] == sorted@[a]);
            assert(pairs@[sorted@[b].1 as int] == sorted@[b]);
        }
        assert forall|a: int| 0 <= a < os.len() implies 0 <= #[trigger] os[a] < ks.len() by {
            assert(sorted@[a].1 < pairs@.len());
        }
    }
    order
}

/// Only one order is the stable order of given keys.
pub proof fn lemma_stable_order_is_unique(keys: Seq<int>, a: Seq<int>, b: Seq<int>)
    requires
        stable_order(keys, a),
        stable_order(keys, b),
    ensures
        a == b,
{
    lemma_orders_agree(keys, a, b, keys.len() as int);
    assert(a =~= b);
}

/// Whether index `x` comes before index `y` in the stable order.
pub open spec fn comes_before(keys: Seq<int>, x: int, y: int) -> bool {
    keys[x] < keys[y] || (keys[x] == keys[y] && x < y)
}

/// An order that lists each index of `keys` at most once lists each of
/// them.
proof fn lemma_order_lists_all(keys: Seq<int>, order: Seq<int>, x: int)
    requires
        stable_order(keys, order),
        0 <= x < keys.len(),
    ensures
        exists|i: int| 0 <= i < order.len() && order[i] == x,
{
    let listed = order.to_set();
    let all = Set::new(|v: int| 0 <= v < keys.len());
    assert(order.no_duplicates()) by {
        assert forall|i: int, j: int| 0 <= i < order.len() && 0 <= j < order.len() && i != j implies order[i]
            != order[j] by {
            if i < j {
                assert(comes_before(keys, order[i], order[j]));
            } else {
                assert(comes_before(keys, order[j], order[i]));
            }
        }
    }
    order.unique_seq_to_set();
    assert(listed.len() == keys.len());
    assert(listed.subset_of(all)) by {
        assert forall|v: int| listed.contains(v) implies all.contains(v) by {
            let i = choose|i: int| 0 <= i < order.len() && order[i] == v;
            assert(0 <= order[i] < keys.len());
        }
    }
    vstd::set_lib::lemma_int_range(0, keys.len() as int);
    assert(all =~= vstd::set_lib::set_int_range(0, keys.len() as int));
    vstd::set_lib::lemma_subset_equality(listed, all);
    assert(listed.contains(x));
}

/// Two stable orders of the same keys agree on their first `upto` places.
proof fn lemma_orders_agree(keys: Seq<int>, a: Seq<int>, b: Seq<int>, upto: int)
    requires
        stable_order(keys, a),
        stable_order(keys, b),
        0 <= upto <= keys.len(),
    ensures
        forall|i: int| 0 <= i < upto ==> a[i] == b[i],
    decreases upto,
{
    if upto > 0 {
        lemma_orders_agree(keys, a, b, upto - 1);
        let p = upto - 1;
        // Where a[p] stands in b, and b[p] in a: before p the two agree, so
        // neither place is before p, and if both were behind it each of the
        // two indices would come before the other.
        lemma_order_lists_all(keys, b, a[p]);
        lemma_order_lists_all(keys, a, b[p]);
        let q = choose|q: int| 0 <= q < b.len() && b[q] == a[p];
        let r = choose|r: int| 0 <= r < a.len() && a[r] == b[p];
        if q < p {
            assert(a[q] == b[q]);
            assert(comes_before(keys, a[q], a[p]));
        }
        if r < p {
            assert(b[r] == a[r]);
            assert(comes_before(keys, b[r], b[p]));
        }
        if q > p {
            assert(comes_before(keys, b[p], b[q]));
        }
        if r > p {
            assert(comes_before(keys, a[p], a[r]));
        }
    }
}

} // verus!
