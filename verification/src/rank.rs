//! Putting things in order.

use vstd::prelude::*;

verus! {

/// Whether position `a` comes before position `b`: by the smaller key, and among
/// equal keys by position.
pub open spec fn precedes(keys: Seq<int>, a: int, b: int) -> bool {
    keys[a] < keys[b] || (keys[a] == keys[b] && a < b)
}

/// Whether `order` lists the positions of `keys` from the smallest key to the
/// largest, equal keys staying in the order they have.
pub open spec fn is_order(keys: Seq<int>, order: Seq<int>) -> bool {
    &&& order.len() == keys.len()
    &&& forall|i: int| 0 <= i < order.len() ==> 0 <= #[trigger] order[i] < keys.len()
    &&& forall|i: int, j: int|
        0 <= i < j < order.len() ==> precedes(keys, #[trigger] order[i], #[trigger] order[j])
}

/// The positions of `keys` in order.
pub open spec fn ordered(keys: Seq<int>) -> Seq<int> {
    choose|order: Seq<int>| is_order(keys, order)
}

/// The things that `order` lists.
pub open spec fn arranged<T>(things: Seq<T>, order: Seq<int>) -> Seq<T> {
    Seq::new(order.len(), |i: int| things[order[i]])
}

pub open spec fn ints(positions: Seq<usize>) -> Seq<int> {
    positions.map_values(|p: usize| p as int)
}

proof fn lemma_order_has_no_duplicates(keys: Seq<int>, order: Seq<int>)
    requires
        is_order(keys, order),
    ensures
        order.no_duplicates(),
{
    assert forall|i: int, j: int| 0 <= i < order.len() && 0 <= j < order.len() && i != j implies
        order[i] != order[j] by {
        if i < j {
            assert(precedes(keys, order[i], order[j]));
        } else {
            assert(precedes(keys, order[j], order[i]));
        }
    }
}

/// Nothing is lost: every position is listed.
pub proof fn an_order_lists_every_position(keys: Seq<int>, order: Seq<int>, p: int)
    requires
        is_order(keys, order),
        0 <= p < keys.len(),
    ensures
        order.contains(p),
{
    lemma_order_has_no_duplicates(keys, order);
    order.unique_seq_to_set();
    let n = keys.len() as int;
    let all = Set::<int>::new(|i: int| 0 <= i < n);
    vstd::set_lib::lemma_int_range(0, n);
    assert(all =~= vstd::set_lib::set_int_range(0, n));
    let listed = order.to_set();
    assert(listed.subset_of(all)) by {
        assert forall|x: int| listed.contains(x) implies all.contains(x) by {
            let i = choose|i: int| 0 <= i < order.len() && order[i] == x;
            assert(0 <= order[i] < keys.len());
        }
    }
    vstd::set_lib::lemma_subset_equality(listed, all);
    assert(listed.contains(p));
}

/// There is only one order.
pub proof fn an_order_is_unique(keys: Seq<int>, a: Seq<int>, b: Seq<int>)
    requires
        is_order(keys, a),
        is_order(keys, b),
    ensures
        a == b,
{
    assert forall|n: nat| n <= a.len() implies #[trigger] a.take(n as int) == b.take(
        n as int,
    ) by {
        lemma_orders_agree(keys, a, b, n);
    }
    assert(a.take(a.len() as int) == a);
    assert(b.take(b.len() as int) == b);
}

proof fn lemma_orders_agree(keys: Seq<int>, a: Seq<int>, b: Seq<int>, n: nat)
    requires
        is_order(keys, a),
        is_order(keys, b),
        n <= a.len(),
    ensures
        a.take(n as int) == b.take(n as int),
    decreases n,
{
    if n > 0 {
        lemma_orders_agree(keys, a, b, (n - 1) as nat);
        let i = n - 1;
        assert forall|k: int| 0 <= k < i implies a[k] == b[k] by {
            assert(a.take(i)[k] == b.take(i)[k]);
        }
        an_order_lists_every_position(keys, b, a[i]);
        an_order_lists_every_position(keys, a, b[i]);
        let j = choose|j: int| 0 <= j < b.len() && b[j] == a[i];
        let k = choose|k: int| 0 <= k < a.len() && a[k] == b[i];
        lemma_order_has_no_duplicates(keys, a);
        lemma_order_has_no_duplicates(keys, b);
        if j < i {
            assert(a[j] == b[j]);
        }
        if k < i {
            assert(a[k] == b[k]);
        }
        if j > i {
            assert(precedes(keys, b[i], b[j]));
            if k > i {
                assert(precedes(keys, a[i], a[k]));
            }
        }
        assert(a[i] == b[i]);
        assert(a.take(n as int) == a.take(i).push(a[i]));
        assert(b.take(n as int) == b.take(i).push(b[i]));
    }
}

/// Keys can always be put in order.
pub proof fn lemma_ordered(keys: Seq<int>)
    ensures
        is_order(keys, ordered(keys)),
{
    let order = lemma_order_exists(keys);
    assert(is_order(keys, order));
}

proof fn lemma_order_exists(keys: Seq<int>) -> (order: Seq<int>)
    ensures
        is_order(keys, order),
    decreases keys.len(),
{
    if keys.len() == 0 {
        Seq::empty()
    } else {
        let n = keys.len() - 1;
        let rest = keys.drop_last();
        let before = lemma_order_exists(rest);
        let at = lemma_place(keys, before, n as nat);
        let order = before.insert(at as int, n);
        assert forall|i: int, j: int| 0 <= i < j < order.len() implies precedes(
            keys,
            #[trigger] order[i],
            #[trigger] order[j],
        ) by {
            if i < at && j < at {
                assert(precedes(rest, before[i], before[j]));
            } else if i < at && j == at {
                assert(keys[before[i]] <= keys[n]);
            } else if i < at && j > at {
                assert(precedes(rest, before[i], before[j - 1]));
            } else if i == at {
                assert(keys[before[j - 1]] > keys[n]);
            } else {
                assert(precedes(rest, before[i - 1], before[j - 1]));
            }
        }
        order
    }
}

/// Where the last key belongs among the others in order.
proof fn lemma_place(keys: Seq<int>, before: Seq<int>, upto: nat) -> (at: nat)
    requires
        keys.len() > 0,
        is_order(keys.drop_last(), before),
        upto <= before.len(),
        forall|i: int| upto <= i < before.len() ==> keys[#[trigger] before[i]] > keys.last(),
    ensures
        at <= before.len(),
        forall|i: int| 0 <= i < at ==> keys[#[trigger] before[i]] <= keys.last(),
        forall|i: int| at <= i < before.len() ==> keys[#[trigger] before[i]] > keys.last(),
    decreases upto,
{
    let rest = keys.drop_last();
    if upto == 0 {
        0
    } else if keys[before[upto - 1]] > keys.last() {
        lemma_place(keys, before, (upto - 1) as nat)
    } else {
        assert forall|i: int| 0 <= i < upto implies keys[#[trigger] before[i]] <= keys.last() by {
            if i < upto - 1 {
                assert(precedes(rest, before[i], before[upto - 1]));
                assert(rest[before[i]] == keys[before[i]]);
                assert(rest[before[upto - 1]] == keys[before[upto - 1]]);
            }
        }
        upto
    }
}

/// The positions of `keys` from the smallest key to the largest, equal keys in
/// the order they have.
pub fn order_of(keys: &Vec<i128>) -> (order: Vec<usize>)
    ensures
        is_order(keys@.map_values(|k: i128| k as int), ints(order@)),
        ints(order@) == ordered(keys@.map_values(|k: i128| k as int)),
{
    let ghost ks = keys@.map_values(|k: i128| k as int);
    let mut order: Vec<usize> = Vec::new();
    let mut n: usize = 0;
    while n < keys.len()
        invariant
            n <= keys@.len(),
            ks == keys@.map_values(|k: i128| k as int),
            order@.len() == n,
            forall|i: int| 0 <= i < n ==> (#[trigger] order@[i]) < n,
            forall|i: int, j: int|
                0 <= i < j < n ==> precedes(
                    ks,
                    (#[trigger] order@[i]) as int,
                    (#[trigger] order@[j]) as int,
                ),
        decreases keys@.len() - n,
    {
        let mut at: usize = n;
        while at > 0 && keys[order[at - 1]] > keys[n]
            invariant
                at <= n < keys@.len(),
                ks == keys@.map_values(|k: i128| k as int),
                order@.len() == n,
                forall|i: int| 0 <= i < n ==> (#[trigger] order@[i]) < n,
                forall|i: int| at <= i < n ==> ks[(#[trigger] order@[i]) as int] > ks[n as int],
            decreases at,
        {
            at -= 1;
        }
        let ghost before = order@;
        order.insert(at, n);
        proof {
            assert forall|i: int, j: int| 0 <= i < j < n + 1 implies precedes(
                ks,
                (#[trigger] order@[i]) as int,
                (#[trigger] order@[j]) as int,
            ) by {
                if j < at {
                    assert(order@[i] == before[i] && order@[j] == before[j]);
                } else if i < at && j == at {
                    assert(order@[i] == before[i]);
                    if i < at - 1 {
                        assert(precedes(ks, before[i] as int, before[at - 1] as int));
                    }
                } else if i < at && j > at {
                    assert(order@[i] == before[i] && order@[j] == before[j - 1]);
                } else if i == at {
                    assert(order@[j] == before[j - 1]);
                    assert(ks[before[j - 1] as int] > ks[n as int]);
                } else {
                    assert(order@[i] == before[i - 1] && order@[j] == before[j - 1]);
                }
            }
            assert forall|i: int| 0 <= i < n + 1 implies (#[trigger] order@[i]) < n + 1 by {
                if i < at {
                    assert(order@[i] == before[i]);
                } else if i > at {
                    assert(order@[i] == before[i - 1]);
                }
            }
        }
        n += 1;
    }
    proof {
        let o = ints(order@);
        assert forall|i: int, j: int| 0 <= i < j < o.len() implies precedes(
            ks,
            #[trigger] o[i],
            #[trigger] o[j],
        ) by {
            assert(o[i] == order@[i] as int && o[j] == order@[j] as int);
        }
        assert(is_order(ks, o));
        an_order_is_unique(ks, o, ordered(ks));
    }
    order
}

/// The things that pass, in the order they have.
pub open spec fn picked<T>(things: Seq<T>, passes: spec_fn(T) -> bool) -> Seq<T>
    decreases things.len(),
{
    if things.len() == 0 {
        Seq::empty()
    } else {
        let rest = picked(things.drop_last(), passes);
        if passes(things.last()) {
            rest.push(things.last())
        } else {
            rest
        }
    }
}

/// What is picked passes and was there.
pub proof fn lemma_picked<T>(things: Seq<T>, passes: spec_fn(T) -> bool)
    ensures
        picked(things, passes).len() <= things.len(),
        forall|i: int|
            0 <= i < picked(things, passes).len() ==> passes(
                #[trigger] picked(things, passes)[i],
            ) && things.contains(picked(things, passes)[i]),
    decreases things.len(),
{
    if things.len() > 0 {
        let rest = things.drop_last();
        lemma_picked(rest, passes);
        assert forall|i: int| 0 <= i < picked(things, passes).len() implies passes(
            #[trigger] picked(things, passes)[i],
        ) && things.contains(picked(things, passes)[i]) by {
            let x = picked(things, passes)[i];
            if i < picked(rest, passes).len() {
                assert(x == picked(rest, passes)[i]);
                let k = choose|k: int| 0 <= k < rest.len() && rest[k] == x;
                assert(things[k] == x);
            } else {
                assert(things[things.len() - 1] == x);
            }
        }
    }
}

/// Whatever was there and passes is picked.
pub proof fn lemma_picks_all<T>(things: Seq<T>, passes: spec_fn(T) -> bool, i: int)
    requires
        0 <= i < things.len(),
        passes(things[i]),
    ensures
        picked(things, passes).contains(things[i]),
    decreases things.len(),
{
    let rest = things.drop_last();
    if i == things.len() - 1 {
        let all = picked(things, passes);
        assert(all[all.len() - 1] == things[i]);
    } else {
        lemma_picks_all(rest, passes, i);
        let sub = picked(rest, passes);
        let k = choose|k: int| 0 <= k < sub.len() && sub[k] == rest[i];
        assert(picked(things, passes)[k] == things[i]);
    }
}

} // verus!
