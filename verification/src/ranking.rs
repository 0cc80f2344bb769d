//! The order of items by a key, greatest first, with equal ones left in their
//! order.
use vstd::prelude::*;

verus! {

/// Where an item with the given key goes among ranked ones: behind those whose
/// key is not smaller.
pub open spec fn rank_position(ranked: Seq<int>, keys: Seq<i64>, key: i64) -> int
    decreases ranked.len(),
{
    if ranked.len() == 0 {
        0
    } else if keys[ranked.last()] >= key {
        ranked.len() as int
    } else {
        rank_position(ranked.drop_last(), keys, key)
    }
}

/// The positions of the first `count` keys, ordered by key.
pub open spec fn ranking(keys: Seq<i64>, count: nat) -> Seq<int>
    decreases count,
{
    if count == 0 {
        Seq::empty()
    } else {
        let before = ranking(keys, (count - 1) as nat);
        before.insert(rank_position(before, keys, keys[count - 1]), count - 1)
    }
}

/// The positions of the keys, ordered by key: the greatest first, and equal
/// ones by position.
pub open spec fn ranked(keys: Seq<i64>) -> Seq<int> {
    ranking(keys, keys.len())
}

proof fn rank_position_splits(ranked: Seq<int>, keys: Seq<i64>, key: i64)
    ensures
        0 <= rank_position(ranked, keys, key) <= ranked.len(),
        forall|k: int|
            rank_position(ranked, keys, key) <= k < ranked.len() ==> keys[#[trigger] ranked[k]]
                < key,
        rank_position(ranked, keys, key) > 0 ==> keys[ranked[rank_position(ranked, keys, key) - 1]]
            >= key,
    decreases ranked.len(),
{
    if ranked.len() > 0 && keys[ranked.last()] < key {
        let shorter = ranked.drop_last();
        rank_position_splits(shorter, keys, key);
        assert forall|k: int|
            rank_position(ranked, keys, key) <= k < ranked.len() implies keys[#[trigger] ranked[k]]
            < key by {
            if k < shorter.len() {
                assert(ranked[k] == shorter[k]);
            }
        }
    }
}

/// Whether the positions are in order of their keys, and equal ones by
/// position.
pub open spec fn in_rank_order(order: Seq<int>, keys: Seq<i64>) -> bool {
    forall|k: int, l: int|
        0 <= k < l < order.len() ==> keys[#[trigger] order[k]] > keys[#[trigger] order[l]] || (
        keys[order[k]] == keys[order[l]] && order[k] < order[l])
}

proof fn ranking_is_in_order(keys: Seq<i64>, count: nat)
    requires
        count <= keys.len(),
    ensures
        ranking(keys, count).len() == count,
        in_rank_order(ranking(keys, count), keys),
        forall|k: int| 0 <= k < count ==> 0 <= #[trigger] ranking(keys, count)[k] < count,
        forall|p: int| 0 <= p < count ==> #[trigger] ranking(keys, count).contains(p),
    decreases count,
{
    if count > 0 {
        let before = ranking(keys, (count - 1) as nat);
        ranking_is_in_order(keys, (count - 1) as nat);
        let key = keys[count - 1];
        let at = rank_position(before, keys, key);
        rank_position_splits(before, keys, key);
        let now = ranking(keys, count);
        assert(now == before.insert(at, count - 1));
        assert forall|k: int| 0 <= k < count implies 0 <= #[trigger] now[k] < count by {
            if k < at {
                assert(now[k] == before[k]);
            } else if k > at {
                assert(now[k] == before[k - 1]);
            }
        }
        assert forall|k: int, l: int| 0 <= k < l < now.len() implies keys[#[trigger] now[k]]
            > keys[#[trigger] now[l]] || (keys[now[k]] == keys[now[l]] && now[k] < now[l]) by {
            if l < at {
                assert(now[k] == before[k] && now[l] == before[l]);
            } else if l == at {
                assert(now[k] == before[k]);
                assert(keys[before[at - 1]] >= key);
                if k < at - 1 {
                    assert(keys[before[k]] >= keys[before[at - 1]]);
                }
            } else {
                assert(now[l] == before[l - 1]);
                if k < at {
                    assert(now[k] == before[k]);
                } else if k > at {
                    assert(now[k] == before[k - 1]);
                } else {
                    assert(keys[before[l - 1]] < key);
                }
            }
        }
        assert forall|p: int| 0 <= p < count implies #[trigger] now.contains(p) by {
            if p == count - 1 {
                assert(now[at] == p);
            } else {
                assert(before.contains(p));
                let k = choose|k: int| 0 <= k < before.len() && before[k] == p;
                if k < at {
                    assert(now[k] == p);
                } else {
                    assert(now[k + 1] == p);
                }
            }
        }
    }
}

/// The ranking names every position once, the greatest key first and equal
/// keys by position.
pub proof fn ranked_is_a_stable_order(keys: Seq<i64>)
    ensures
        ranked(keys).len() == keys.len(),
        in_rank_order(ranked(keys), keys),
        forall|k: int| 0 <= k < keys.len() ==> 0 <= #[trigger] ranked(keys)[k] < keys.len(),
        forall|p: int| 0 <= p < keys.len() ==> #[trigger] ranked(keys).contains(p),
        ranked(keys).no_duplicates(),
{
    ranking_is_in_order(keys, keys.len());
    let order = ranked(keys);
    assert forall|k: int, l: int|
        0 <= k < order.len() && 0 <= l < order.len() && k != l implies order[k] != order[l] by {
        if k < l {
            assert(keys[order[k]] > keys[order[l]] || order[k] < order[l]);
        } else {
            assert(keys[order[l]] > keys[order[k]] || order[l] < order[k]);
        }
    }
}

/// The positions as numbers of the specification.
pub open spec fn positions(order: Seq<usize>) -> Seq<int> {
    Seq::new(order.len(), |i: int| order[i] as int)
}

/// The positions of the keys, ordered by key.
pub fn rank(keys: &Vec<i64>) -> (r: Vec<usize>)
    ensures
        positions(r@) == ranked(keys@),
        r@.len() == keys@.len(),
        forall|i: int| 0 <= i < r@.len() ==> #[trigger] r@[i] < keys@.len(),
{
    let mut order: Vec<usize> = Vec::new();
    let mut count: usize = 0;
    assert(positions(order@) =~= Seq::empty());
    while count < keys.len()
        invariant
            count <= keys@.len(),
            positions(order@) == ranking(keys@, count as nat),
            order@.len() == count,
            forall|i: int| 0 <= i < order@.len() ==> #[trigger] order@[i] < count,
        decreases keys@.len() - count,
    {
        let ghost before = positions(order@);
        let key: i64 = keys[count];
        let mut at: usize = order.len();
        assert(before.take(at as int) =~= before);
        while at > 0 && keys[order[at - 1]] < key
            invariant
                at <= order@.len(),
                count < keys@.len(),
                before == positions(order@),
                forall|i: int| 0 <= i < order@.len() ==> #[trigger] order@[i] < count,
                rank_position(before, keys@, key) == rank_position(
                    before.take(at as int),
                    keys@,
                    key,
                ),
            decreases at,
        {
            assert(before.take(at as int).last() == order@[at - 1]);
            assert(before.take(at as int).drop_last() =~= before.take(at - 1));
            at -= 1;
        }
        proof {
            if at > 0 {
                assert(before.take(at as int).last() == order@[at - 1]);
            }
        }
        let ghost old_order = order@;
        order.insert(at, count);
        assert(positions(order@) =~= before.insert(at as int, count as int));
        assert forall|i: int| 0 <= i < order@.len() implies #[trigger] order@[i] < count + 1 by {
            if i < at {
                assert(order@[i] == old_order[i]);
            } else if i > at {
                assert(order@[i] == old_order[i - 1]);
            }
        }
        count += 1;
    }
    order
}

} // verus!
