//! Putting things in order by a key without changing the order of those
//! that share one.

use vstd::prelude::*;

verus! {

/// Whether the key `a` has to stand before the key `b`: the smaller first,
/// or the larger first where the order is descending.
pub open spec fn goes_before(a: i64, b: i64, descending: bool) -> bool {
    if descending {
        a > b
    } else {
        a < b
    }
}

/// Whether `order` lists the first `count` positions of `keys` in the order
/// of their keys, positions with the same key in the order they have in
/// `keys`: every such position occurs, none twice; no key stands after one
/// it has to stand before; and of two equal keys the one that stood first
/// stands first.
pub open spec fn orders_first(
    keys: Seq<i64>,
    order: Seq<usize>,
    count: int,
    descending: bool,
) -> bool {
    &&& order.len() == count
    &&& forall|a: int| 0 <= a < order.len() ==> (#[trigger] order[a]) < count
    &&& forall|a: int, b: int|
        0 <= a < b < order.len() ==> (#[trigger] order[a]) != (#[trigger] order[b])
    &&& forall|i: usize| i < count ==> #[trigger] order.contains(i)
    &&& forall|a: int, b: int|
        0 <= a < b < order.len() ==> !goes_before(
            keys[(#[trigger] order[b]) as int],
            keys[(#[trigger] order[a]) as int],
            descending,
        )
    &&& forall|a: int, b: int|
        0 <= a < b < order.len() && keys[(#[trigger] order[a]) as int] == keys[(
        #[trigger] order[b]) as int] ==> order[a] < order[b]
}

/// Whether `order` lists the positions of `keys` in the order of the keys,
/// positions with the same key in the order they have in `keys`.
pub open spec fn is_stable_order(keys: Seq<i64>, order: Seq<usize>, descending: bool) -> bool {
    orders_first(keys, order, keys.len() as int, descending)
}

/// The positions of `keys` in the order of the keys, positions with the
/// same key in the order they have in `keys`.
pub open spec fn stable_order_of(keys: Seq<i64>, descending: bool) -> Seq<usize> {
    choose|order: Seq<usize>| is_stable_order(keys, order, descending)
}

/// Two stable orders of the same keys agree up to the position `a`.
proof fn lemma_orders_agree(
    keys: Seq<i64>,
    first: Seq<usize>,
    second: Seq<usize>,
    descending: bool,
    a: int,
)
    requires
        is_stable_order(keys, first, descending),
        is_stable_order(keys, second, descending),
        0 <= a < keys.len(),
    ensures
        forall|k: int| 0 <= k <= a ==> first[k] == second[k],
    decreases a,
{
    if a > 0 {
        lemma_orders_agree(keys, first, second, descending, a - 1);
    }
    let x = first[a];
    let y = second[a];
    if x != y {
        // Each of the two stands later in the other order.
        assert(second.contains(x));
        let b = choose|b: int| 0 <= b < second.len() && second[b] == x;
        assert(first.contains(y));
        let c = choose|c: int| 0 <= c < first.len() && first[c] == y;
        if b < a {
            assert(first[b] == second[b]);
            assert(first[b] != first[a]);
        }
        if c < a {
            assert(second[c] == first[c]);
            assert(second[c] != second[a]);
        }
        assert(a < b && a < c);
        assert(!goes_before(keys[first[c] as int], keys[first[a] as int], descending));
        assert(!goes_before(keys[second[b] as int], keys[second[a] as int], descending));
        assert(keys[x as int] == keys[y as int]);
        assert(first[a] < first[c]);
        assert(second[a] < second[b]);
    }
}

/// Keys have one stable order and no other.
pub proof fn law_stable_order_unique(
    keys: Seq<i64>,
    first: Seq<usize>,
    second: Seq<usize>,
    descending: bool,
)
    requires
        is_stable_order(keys, first, descending),
        is_stable_order(keys, second, descending),
    ensures
        first == second,
        first == stable_order_of(keys, descending),
{
    if keys.len() > 0 {
        lemma_orders_agree(keys, first, second, descending, keys.len() - 1);
        lemma_orders_agree(
            keys,
            first,
            stable_order_of(keys, descending),
            descending,
            keys.len() - 1,
        );
    }
    assert(first =~= second);
    assert(first =~= stable_order_of(keys, descending));
}

/// What stands where after `x` was put in at `p`.
proof fn lemma_inserted(s: Seq<usize>, p: int, x: usize)
    requires
        0 <= p <= s.len(),
    ensures
        s.insert(p, x).len() == s.len() + 1,
        forall|a: int|
            0 <= a <= s.len() ==> #[trigger] s.insert(p, x)[a] == (if a < p {
                s[a]
            } else if a == p {
                x
            } else {
                s[a - 1]
            }),
{
    s.insert_ensures(p, x);
}

/// The next position, put in after every key that does not have to stand
/// after its own and before the first that does, keeps the order.
proof fn lemma_insert_keeps_order(
    keys: Seq<i64>,
    order: Seq<usize>,
    i: usize,
    p: int,
    descending: bool,
)
    requires
        orders_first(keys, order, i as int, descending),
        i < keys.len(),
        0 <= p <= order.len(),
        forall|a: int|
            0 <= a < p ==> !goes_before(keys[i as int], keys[(#[trigger] order[a]) as int], descending),
        p < order.len() ==> goes_before(keys[i as int], keys[order[p] as int], descending),
    ensures
        orders_first(keys, order.insert(p, i), i + 1, descending),
{
    let after = order.insert(p, i);
    lemma_inserted(order, p, i);
    assert forall|a: int| 0 <= a < after.len() implies (#[trigger] after[a]) < i + 1 by {
        if a < p {
            assert(order[a] < i);
        } else if a > p {
            assert(order[a - 1] < i);
        }
    }
    assert forall|a: int, b: int| 0 <= a < b < after.len() implies (#[trigger] after[a]) != (
    #[trigger] after[b]) by {
        lemma_distinct(keys, order, i, p, descending, a, b);
    }
    assert forall|j: usize| j < i + 1 implies #[trigger] after.contains(j) by {
        lemma_occurs(keys, order, i, p, descending, j);
    }
    assert forall|a: int, b: int| 0 <= a < b < after.len() implies !goes_before(
        keys[(#[trigger] after[b]) as int],
        keys[(#[trigger] after[a]) as int],
        descending,
    ) by {
        lemma_pair(keys, order, i, p, descending, a, b);
    }
    assert forall|a: int, b: int|
        0 <= a < b < after.len() && keys[(#[trigger] after[a]) as int] == keys[(
        #[trigger] after[b]) as int] implies after[a] < after[b] by {
        lemma_pair(keys, order, i, p, descending, a, b);
    }
}

/// After the insertion no position occurs twice.
proof fn lemma_distinct(
    keys: Seq<i64>,
    order: Seq<usize>,
    i: usize,
    p: int,
    descending: bool,
    a: int,
    b: int,
)
    requires
        orders_first(keys, order, i as int, descending),
        0 <= p <= order.len(),
        0 <= a < b <= order.len(),
    ensures
        order.insert(p, i)[a] != order.insert(p, i)[b],
{
    lemma_inserted(order, p, i);
    let oa = if a < p {
        a
    } else {
        a - 1
    };
    let ob = if b < p {
        b
    } else {
        b - 1
    };
    if a != p && b != p {
        assert(order[oa] != order[ob]);
    } else if a == p {
        assert(order[ob] < i);
    } else {
        assert(order[oa] < i);
    }
}

/// After the insertion every position up to the new one occurs.
proof fn lemma_occurs(
    keys: Seq<i64>,
    order: Seq<usize>,
    i: usize,
    p: int,
    descending: bool,
    j: usize,
)
    requires
        orders_first(keys, order, i as int, descending),
        i < keys.len(),
        0 <= p <= order.len(),
        j <= i,
    ensures
        order.insert(p, i).contains(j),
{
    let after = order.insert(p, i);
    lemma_inserted(order, p, i);
    if j == i {
        assert(after[p] == j);
    } else {
        assert(order.contains(j));
        let a = choose|a: int| 0 <= a < order.len() && order[a] == j;
        if a < p {
            assert(after[a] == j);
        } else {
            assert(after[a + 1] == j);
        }
    }
}

/// After the insertion any two positions stand in the order of their keys,
/// and in their own order where the keys are equal.
proof fn lemma_pair(
    keys: Seq<i64>,
    order: Seq<usize>,
    i: usize,
    p: int,
    descending: bool,
    a: int,
    b: int,
)
    requires
        orders_first(keys, order, i as int, descending),
        i < keys.len(),
        0 <= p <= order.len(),
        forall|a: int|
            0 <= a < p ==> !goes_before(keys[i as int], keys[(#[trigger] order[a]) as int], descending),
        p < order.len() ==> goes_before(keys[i as int], keys[order[p] as int], descending),
        0 <= a < b <= order.len(),
    ensures
        !goes_before(
            keys[order.insert(p, i)[b] as int],
            keys[order.insert(p, i)[a] as int],
            descending,
        ),
        keys[order.insert(p, i)[a] as int] == keys[order.insert(p, i)[b] as int] ==> order.insert(
            p,
            i,
        )[a] < order.insert(p, i)[b],
{
    let after = order.insert(p, i);
    lemma_inserted(order, p, i);
    if b == p {
        assert(after[a] == order[a]);
        assert(order[a] < i);
        assert(!goes_before(keys[i as int], keys[order[a] as int], descending));
    } else if a == p {
        assert(after[b] == order[b - 1]);
        assert(goes_before(keys[i as int], keys[order[p] as int], descending));
        if b - 1 > p {
            assert(!goes_before(keys[order[b - 1] as int], keys[order[p] as int], descending));
        }
    } else {
        let oa = if a < p {
            a
        } else {
            a - 1
        };
        let ob = if b < p {
            b
        } else {
            b - 1
        };
        assert(after[a] == order[oa]);
        assert(after[b] == order[ob]);
        assert(!goes_before(keys[order[ob] as int], keys[order[oa] as int], descending));
        assert(keys[order[oa] as int] == keys[order[ob] as int] ==> order[oa] < order[ob]);
    }
}

/// Where `key` goes among the positions listed in `order`: behind every key
/// from `from` on that does not have to stand after it.
spec fn slot(keys: Seq<i64>, order: Seq<usize>, key: i64, from: int, descending: bool) -> int
    decreases order.len() - from,
{
    if 0 <= from < order.len() && !goes_before(key, keys[order[from] as int], descending) {
        slot(keys, order, key, from + 1, descending)
    } else {
        from
    }
}

/// What lies before the slot does not have to stand after the key, and
/// what stands at the slot does.
proof fn lemma_slot(keys: Seq<i64>, order: Seq<usize>, key: i64, from: int, descending: bool)
    requires
        0 <= from <= order.len(),
    ensures
        from <= slot(keys, order, key, from, descending) <= order.len(),
        forall|a: int|
            from <= a < slot(keys, order, key, from, descending) ==> !goes_before(
                key,
                keys[(#[trigger] order[a]) as int],
                descending,
            ),
        slot(keys, order, key, from, descending) < order.len() ==> goes_before(
            key,
            keys[order[slot(keys, order, key, from, descending)] as int],
            descending,
        ),
    decreases order.len() - from,
{
    if from < order.len() && !goes_before(key, keys[order[from] as int], descending) {
        lemma_slot(keys, order, key, from + 1, descending);
    }
}

/// The first `count` positions of any keys have a stable order.
proof fn lemma_order_exists(keys: Seq<i64>, count: int, descending: bool)
    requires
        0 <= count <= keys.len() <= usize::MAX,
    ensures
        exists|order: Seq<usize>| #[trigger] orders_first(keys, order, count, descending),
    decreases count,
{
    if count == 0 {
        assert(orders_first(keys, Seq::<usize>::empty(), 0, descending));
    } else {
        let fewer = count - 1;
        lemma_order_exists(keys, fewer, descending);
        let order = choose|order: Seq<usize>| #[trigger]
            orders_first(keys, order, fewer, descending);
        let i = fewer as usize;
        let p = slot(keys, order, keys[i as int], 0, descending);
        lemma_slot(keys, order, keys[i as int], 0, descending);
        lemma_insert_keeps_order(keys, order, i, p, descending);
        assert(orders_first(keys, order.insert(p, i), count, descending));
    }
}

/// Any keys have a stable order, as long as their positions can be
/// counted.
pub proof fn law_stable_order_exists(keys: Seq<i64>, descending: bool)
    requires
        keys.len() <= usize::MAX,
    ensures
        is_stable_order(keys, stable_order_of(keys, descending), descending),
{
    let count = keys.len() as int;
    lemma_order_exists(keys, count, descending);
    let order = choose|order: Seq<usize>| #[trigger] orders_first(keys, order, count, descending);
    assert(is_stable_order(keys, order, descending));
}

/// Whether the key `a` has to stand before the key `b`.
fn before(a: i64, b: i64, descending: bool) -> (yes: bool)
    ensures
        yes == goes_before(a, b, descending),
{
    if descending {
        a > b
    } else {
        a < b
    }
}

/// The positions of `keys` in the order of the keys, ascending or
/// descending, positions with the same key in the order they have in
/// `keys`.
pub fn stable_order(keys: &Vec<i64>, descending: bool) -> (order: Vec<usize>)
    ensures
        is_stable_order(keys@, order@, descending),
        order@ == stable_order_of(keys@, descending),
{
    let n = keys.len();
    let mut order: Vec<usize> = Vec::new();
    let mut i: usize = 0;
    while i < n
        invariant
            n == keys.len(),
            i <= n,
            orders_first(keys@, order@, i as int, descending),
        decreases n - i,
    {
        let key = keys[i];
        let mut p: usize = 0;
        while p < order.len() && !before(key, keys[order[p]], descending)
            invariant
                n == keys.len(),
                i < n,
                key == keys@[i as int],
                p <= order.len(),
                orders_first(keys@, order@, i as int, descending),
                forall|a: int|
                    0 <= a < p ==> !goes_before(
                        key,
                        keys@[(#[trigger] order@[a]) as int],
                        descending,
                    ),
            decreases order.len() - p,
        {
            p += 1;
        }
        proof {
            lemma_insert_keeps_order(keys@, order@, i, p as int, descending);
        }
        order.insert(p, i);
        i += 1;
    }
    proof {
        law_stable_order_unique(keys@, order@, order@, descending);
    }
    order
}

} // verus!
