use vstd::prelude::*;

verus! {

/// Where an item with key `k` goes among `order`, a sequence of positions in
/// `keys` held in ascending key order: behind the last one whose key is not
/// above `k`.
pub open spec fn insert_at(keys: Seq<i64>, order: Seq<usize>, k: i64) -> nat
    decreases order.len(),
{
    if order.len() == 0 {
        0
    } else if keys[order.last() as int] > k {
        insert_at(keys, order.drop_last(), k)
    } else {
        order.len()
    }
}

/// The positions `0..n` of `keys` in ascending order of their keys; positions
/// with equal keys stay in their own order.
pub open spec fn sort_order(keys: Seq<i64>, n: nat) -> Seq<usize>
    decreases n,
{
    if n == 0 || n > keys.len() {
        Seq::empty()
    } else {
        let before = sort_order(keys, (n - 1) as nat);
        before.insert(insert_at(keys, before, keys[n - 1]) as int, (n - 1) as usize)
    }
}

/// Whether `order` holds positions below `n` only, none twice, in ascending
/// key order, equal keys in ascending position.
pub open spec fn ordered(keys: Seq<i64>, order: Seq<usize>, n: nat) -> bool {
    &&& forall|i: int| 0 <= i < order.len() ==> (#[trigger] order[i]) < n
    &&& forall|i: int, j: int|
        0 <= i < j < order.len() ==> keys[(#[trigger] order[i]) as int] < keys[(
        #[trigger] order[j]) as int] || (keys[order[i] as int] == keys[order[j] as int] && order[i]
            < order[j])
}

proof fn insert_at_bounds(keys: Seq<i64>, order: Seq<usize>, k: i64)
    ensures
        insert_at(keys, order, k) <= order.len(),
        forall|i: int| insert_at(keys, order, k) <= i < order.len() ==> keys[order[i] as int] > k,
        insert_at(keys, order, k) > 0 ==> keys[order[insert_at(keys, order, k) - 1] as int] <= k,
    decreases order.len(),
{
    if order.len() == 0 {
    } else if keys[order.last() as int] > k {
        insert_at_bounds(keys, order.drop_last(), k);
        let p = insert_at(keys, order.drop_last(), k);
        assert forall|i: int| p <= i < order.len() implies keys[order[i] as int] > k by {
            if i < order.len() - 1 {
                assert(order.drop_last()[i] == order[i]);
            }
        }
        if p > 0 {
            assert(order.drop_last()[p - 1] == order[p - 1]);
        }
    } else {
    }
}

/// The sorted order has one entry for each position.
pub proof fn sort_order_len(keys: Seq<i64>, n: nat)
    requires
        n <= keys.len(),
    ensures
        sort_order(keys, n).len() == n,
    decreases n,
{
    if n > 0 {
        sort_order_len(keys, (n - 1) as nat);
        insert_at_bounds(keys, sort_order(keys, (n - 1) as nat), keys[n - 1]);
    }
}

/// The sorted order is in ascending key order and keeps the order of equal
/// keys; it holds positions below `n`, none of them twice.
pub proof fn sort_order_ordered(keys: Seq<i64>, n: nat)
    requires
        n <= keys.len(),
        n <= usize::MAX,
    ensures
        ordered(keys, sort_order(keys, n), n),
    decreases n,
{
    if n > 0 {
        let before = sort_order(keys, (n - 1) as nat);
        let k = keys[n - 1];
        let p = insert_at(keys, before, k) as int;
        let after = sort_order(keys, n);
        sort_order_ordered(keys, (n - 1) as nat);
        sort_order_len(keys, (n - 1) as nat);
        insert_at_bounds(keys, before, k);
        assert(after == before.insert(p, (n - 1) as usize));
        assert forall|i: int| 0 <= i < after.len() implies (#[trigger] after[i]) < n by {
            if i < p {
                assert(after[i] == before[i]);
            } else if i > p {
                assert(after[i] == before[i - 1]);
            }
        }
        assert forall|i: int, j: int| 0 <= i < j < after.len() implies keys[(
        #[trigger] after[i]) as int] < keys[(#[trigger] after[j]) as int] || (keys[after[i] as int]
            == keys[after[j] as int] && after[i] < after[j]) by {
            if j < p {
                assert(after[i] == before[i] && after[j] == before[j]);
            } else if j == p {
                assert(after[i] == before[i]);
                if p > 0 {
                    assert(keys[before[p - 1] as int] <= k);
                    if i < p - 1 {
                        assert(keys[before[i] as int] < keys[before[p - 1] as int] || keys[before[i] as int]
                            == keys[before[p - 1] as int]);
                    }
                }
                assert(before[i] < n - 1);
            } else if i < p {
                assert(after[i] == before[i] && after[j] == before[j - 1]);
            } else if i == p {
                assert(after[j] == before[j - 1]);
                assert(keys[before[j - 1] as int] > k);
            } else {
                assert(after[i] == before[i - 1] && after[j] == before[j - 1]);
            }
        }
    }
}

/// The sorted order leaves no position out.
pub proof fn sort_order_complete(keys: Seq<i64>, n: nat, i: usize)
    requires
        n <= keys.len(),
        i < n,
    ensures
        sort_order(keys, n).contains(i),
    decreases n,
{
    let before = sort_order(keys, (n - 1) as nat);
    let p = insert_at(keys, before, keys[n - 1]) as int;
    let after = sort_order(keys, n);
    insert_at_bounds(keys, before, keys[n - 1]);
    assert(after == before.insert(p, (n - 1) as usize));
    if i == n - 1 {
        assert(after[p] == i);
    } else {
        sort_order_complete(keys, (n - 1) as nat, i);
        let at = choose|at: int| 0 <= at < before.len() && before[at] == i;
        if at < p {
            assert(after[at] == i);
        } else {
            assert(after[at + 1] == i);
        }
    }
}

/// No position comes twice in an order that is `ordered`.
pub proof fn ordered_distinct(keys: Seq<i64>, order: Seq<usize>, n: nat)
    requires
        ordered(keys, order, n),
    ensures
        order.no_duplicates(),
{
    assert forall|i: int, j: int| 0 <= i < order.len() && 0 <= j < order.len() && i != j implies order[i]
        != order[j] by {
        if i < j {
            assert(keys[order[i] as int] < keys[order[j] as int] || order[i] < order[j]);
        } else {
            assert(keys[order[j] as int] < keys[order[i] as int] || order[j] < order[i]);
        }
    }
}

/// Sorts the positions of `keys` by key, ascending; positions with equal keys
/// keep their order.
pub fn stable_order(keys: &Vec<i64>) -> (order: Vec<usize>)
    ensures
        order@ == sort_order(keys@, keys@.len()),
{
    let mut order: Vec<usize> = Vec::new();
    let mut n: usize = 0;
    while n < keys.len()
        invariant
            n <= keys.len(),
            order@ == sort_order(keys@, n as nat),
        decreases keys.len() - n,
    {
        let k = keys[n];
        let ghost before = order@;
        proof {
            sort_order_len(keys@, n as nat);
            sort_order_ordered(keys@, n as nat);
            assert(before.take(before.len() as int) =~= before);
        }
        let mut p: usize = order.len();
        while p > 0 && keys[order[p - 1]] > k
            invariant
                p <= order.len(),
                order@ == before,
                k == keys@[n as int],
                n < keys.len(),
                ordered(keys@, before, n as nat),
                insert_at(keys@, before, k) == insert_at(keys@, before.take(p as int), k),
            decreases p,
        {
            proof {
                assert(before.take(p as int).last() == before[p - 1]);
                assert(before.take(p as int).drop_last() =~= before.take(p - 1));
            }
            p -= 1;
        }
        proof {
            if p > 0 {
                assert(before.take(p as int).last() == before[p - 1]);
            }
            assert(insert_at(keys@, before, k) == p);
        }
        order.insert(p, n);
        n += 1;
    }
    order
}

} // verus!
