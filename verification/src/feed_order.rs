//! The order of feeds and categories in the feed list: as the news service's mappings give it.

use vstd::prelude::*;

verus! {

/// Where a sort index places an item: an item without a mapping first, then one whose mapping
/// has no index, then by index.
pub open spec fn order_rank(key: Option<Option<i32>>) -> int {
    match key {
        None => 0,
        Some(None) => 1,
        Some(Some(v)) => 2 + v - i32::MIN,
    }
}

/// The rank of a feed: by the rank of its category, then by its own rank.
pub open spec fn feed_rank(key: (Option<Option<i32>>, Option<Option<i32>>)) -> int {
    order_rank(key.0) * 0x2_0000_0000 + order_rank(key.1)
}

/// Feed ranks order feeds by their category's rank first and their own rank second.
pub proof fn lemma_feed_rank_is_lexicographic(a: (Option<Option<i32>>, Option<Option<i32>>), b: (Option<Option<i32>>, Option<Option<i32>>))
    ensures
        feed_rank(a) <= feed_rank(b) <==> (order_rank(a.0) < order_rank(b.0) || (order_rank(a.0) == order_rank(b.0)
            && order_rank(a.1) <= order_rank(b.1))),
{
    let (a0, a1, b0, b1) = (order_rank(a.0), order_rank(a.1), order_rank(b.0), order_rank(b.1));
    assert(0 <= a1 < 0x2_0000_0000 && 0 <= b1 < 0x2_0000_0000);
    assert(a0 * 0x2_0000_0000 + a1 <= b0 * 0x2_0000_0000 + b1 <==> (a0 < b0 || (a0 == b0 && a1 <= b1))) by (nonlinear_arith)
        requires
            0 <= a1 < 0x2_0000_0000,
            0 <= b1 < 0x2_0000_0000,
    ;
}

fn rank_of(key: Option<Option<i32>>) -> (r: i64)
    ensures
        r == order_rank(key),
{
    match key {
        None => 0,
        Some(None) => 1,
        Some(Some(v)) => 2 + v as i64 - i32::MIN as i64,
    }
}

/// Whether `order` lists each of `0..ranks.len()` once, in an order that sorts `ranks` and keeps
/// items of equal rank in their original order.
pub open spec fn stable_sorted_order(ranks: Seq<int>, order: Seq<usize>) -> bool {
    &&& order.len() == ranks.len()
    &&& forall|i: int| 0 <= i < order.len() ==> order[i] < ranks.len()
    &&& forall|i: int, j: int| 0 <= i < j < order.len() ==> order[i] != order[j]
    &&& forall|i: int, j: int| 0 <= i < j < order.len() ==> ranks[order[i] as int] <= ranks[order[j] as int]
    &&& forall|i: int, j: int|
        0 <= i < j < order.len() && ranks[order[i] as int] == ranks[order[j] as int] ==> order[i] < order[j]
}

/// The positions of the items ranked `ranks`, sorted stably by rank (insertion sort).
fn stable_order(ranks: &Vec<i128>) -> (order: Vec<usize>)
    ensures
        stable_sorted_order(ranks@.map_values(|r: i128| r as int), order@),
{
    let ghost rk = ranks@.map_values(|r: i128| r as int);
    let mut order: Vec<usize> = Vec::new();
    let mut n: usize = 0;
    while n < ranks.len()
        invariant
            rk == ranks@.map_values(|r: i128| r as int),
            n <= ranks@.len(),
            order@.len() == n,
            forall|i: int| 0 <= i < order@.len() ==> order@[i] < n,
            forall|i: int, j: int| 0 <= i < j < order@.len() ==> order@[i] != order@[j],
            forall|i: int, j: int| 0 <= i < j < order@.len() ==> rk[order@[i] as int] <= rk[order@[j] as int],
            forall|i: int, j: int|
                0 <= i < j < order@.len() && rk[order@[i] as int] == rk[order@[j] as int] ==> order@[i] < order@[j],
        decreases ranks.len() - n,
    {
        let key = ranks[n];
        let mut p: usize = order.len();
        while p > 0 && ranks[order[p - 1]] > key
            invariant
                rk == ranks@.map_values(|r: i128| r as int),
                n < ranks@.len(),
                key == ranks@[n as int],
                p <= order@.len(),
                forall|i: int| 0 <= i < order@.len() ==> order@[i] < n,
                forall|i: int| p <= i < order@.len() ==> rk[order@[i] as int] > key,
            decreases p,
        {
            p = p - 1;
        }
        let ghost before = order@;
        proof {
            assert forall|i: int| 0 <= i < p implies rk[before[i] as int] <= key by {
                if p > 0 {
                    assert(rk[before[p - 1] as int] <= key);
                    if i < p - 1 {
                        assert(rk[before[i] as int] <= rk[before[p - 1] as int]);
                    }
                }
            }
        }
        order.insert(p, n);
        proof {
            assert(rk[n as int] == key);
            assert forall|i: int| 0 <= i < order@.len() implies order@[i] < n + 1 by {
                if i < p {
                    assert(order@[i] == before[i]);
                } else if i > p {
                    assert(order@[i] == before[i - 1]);
                }
            }
            assert forall|i: int, j: int| 0 <= i < j < order@.len() implies order@[i] != order@[j] && rk[order@[i] as int] <= rk[
                order@[j] as int] && (rk[order@[i] as int] == rk[order@[j] as int] ==> order@[i] < order@[j]) by {
                let bi = if i < p { i } else { i - 1 };
                let bj = if j < p { j } else { j - 1 };
                if i == p {
                    assert(order@[j] == before[bj]);
                } else if j == p {
                    assert(order@[i] == before[bi]);
                } else {
                    assert(order@[i] == before[bi]);
                    assert(order@[j] == before[bj]);
                }
            }
        }
        n = n + 1;
    }
    order
}

/// The order in which the categories are listed: `keys[i]` is the sort index of category `i`'s
/// mapping (`None` when it has no mapping); the result lists each category's position once,
/// sorted stably by `order_rank`.
pub fn sort_categories(keys: &Vec<Option<Option<i32>>>) -> (order: Vec<usize>)
    ensures
        stable_sorted_order(keys@.map_values(|k: Option<Option<i32>>| order_rank(k)), order@),
{
    let mut ranks: Vec<i128> = Vec::new();
    let mut i: usize = 0;
    while i < keys.len()
        invariant
            i <= keys@.len(),
            ranks@.len() == i,
            forall|k: int| 0 <= k < i ==> ranks@[k] as int == order_rank(keys@[k]),
        decreases keys.len() - i,
    {
        let r = rank_of(keys[i]);
        ranks.push(r as i128);
        i = i + 1;
    }
    let order = stable_order(&ranks);
    assert(ranks@.map_values(|r: i128| r as int) =~= keys@.map_values(|k: Option<Option<i32>>| order_rank(k)));
    order
}

/// The order in which the feeds are listed: `keys[i]` is, for feed `i`, the sort index of its
/// category's mapping and its own mapping's sort index (each `None` without a mapping); the
/// result lists each feed's position once, sorted stably by category and then by the feed's
/// own index (`feed_rank`).
pub fn sort_feeds(keys: &Vec<(Option<Option<i32>>, Option<Option<i32>>)>) -> (order: Vec<usize>)
    ensures
        stable_sorted_order(keys@.map_values(|k: (Option<Option<i32>>, Option<Option<i32>>)| feed_rank(k)), order@),
{
    let mut ranks: Vec<i128> = Vec::new();
    let mut i: usize = 0;
    while i < keys.len()
        invariant
            i <= keys@.len(),
            ranks@.len() == i,
            forall|k: int| 0 <= k < i ==> ranks@[k] as int == feed_rank(keys@[k]),
        decreases keys.len() - i,
    {
        let (c, f) = keys[i];
        let rc = rank_of(c);
        let rf = rank_of(f);
        let r = rc as i128 * 0x2_0000_0000 + rf as i128;
        ranks.push(r);
        i = i + 1;
    }
    let order = stable_order(&ranks);
    assert(ranks@.map_values(|r: i128| r as int) =~= keys@.map_values(
        |k: (Option<Option<i32>>, Option<Option<i32>>)| feed_rank(k),
    ));
    order
}

} // verus!
