//! Paint order of siblings: ascending z-index, document order among equals.

use vstd::prelude::*;

verus! {

/// Whether sibling `a` is painted before sibling `b`: it has the lower
/// z-index, or the same z-index and the earlier place in the document.
pub open spec fn paints_before(keys: Seq<i32>, a: int, b: int) -> bool {
    keys[a] < keys[b] || (keys[a] == keys[b] && a < b)
}

/// Whether sibling `a` stands somewhere in `order`.
pub open spec fn occurs(order: Seq<usize>, a: int) -> bool {
    exists|i: int| 0 <= i < order.len() && #[trigger] order[i] == a
}

/// `order` lists every sibling once, each before all that are painted after it.
pub open spec fn is_paint_order(keys: Seq<i32>, order: Seq<usize>) -> bool {
    &&& order.len() == keys.len()
    &&& forall|i: int| 0 <= i < order.len() ==> (#[trigger] order[i]) < keys.len()
    &&& forall|a: int| 0 <= a < keys.len() ==> #[trigger] occurs(order, a)
    &&& forall|i: int, j: int|
        0 <= i < j < order.len() ==> paints_before(keys, #[trigger] order[i] as int, #[trigger] order[j] as int)
}

/// The paint order of siblings with the given z-indices.
pub open spec fn paint_order_of(keys: Seq<i32>) -> Seq<usize> {
    choose|order: Seq<usize>| is_paint_order(keys, order)
}

/// There is only one paint order: two sequences that both qualify are equal.
pub proof fn lemma_paint_order_unique(keys: Seq<i32>, p: Seq<usize>, q: Seq<usize>)
    requires
        is_paint_order(keys, p),
        is_paint_order(keys, q),
    ensures
        p == q,
{
    lemma_prefix_agrees(keys, p, q, p.len() as int);
    assert(p =~= q);
}

proof fn lemma_prefix_agrees(keys: Seq<i32>, p: Seq<usize>, q: Seq<usize>, n: int)
    requires
        is_paint_order(keys, p),
        is_paint_order(keys, q),
        0 <= n <= p.len(),
    ensures
        forall|i: int| 0 <= i < n ==> p[i] == q[i],
    decreases n,
{
    if n > 0 {
        lemma_prefix_agrees(keys, p, q, n - 1);
        let i = n - 1;
        let a = p[i] as int;
        let b = q[i] as int;
        assert(occurs(q, a));
        assert(occurs(p, b));
        let j = choose|j: int| 0 <= j < q.len() && q[j] == a;
        let k = choose|k: int| 0 <= k < p.len() && p[k] == b;
        if j < i {
            assert(p[j] == q[j]);
            assert(paints_before(keys, p[j] as int, p[i] as int));
        }
        if k < i {
            assert(q[k] == p[k]);
            assert(paints_before(keys, q[k] as int, q[i] as int));
        }
        if j > i {
            assert(paints_before(keys, q[i] as int, q[j] as int));
        }
        if k > i {
            assert(paints_before(keys, p[i] as int, p[k] as int));
        }
    }
}

/// Exchanging the z-indices of two siblings reverses the order in which the
/// two are painted exactly when the z-indices differ.
pub proof fn lemma_swap_reverses(keys: Seq<i32>, a: int, b: int)
    requires
        0 <= a < keys.len(),
        0 <= b < keys.len(),
        a != b,
    ensures
        ({
            let swapped = keys.update(a, keys[b]).update(b, keys[a]);
            (paints_before(keys, a, b) != paints_before(swapped, a, b)) <==> keys[a] != keys[b]
        }),
{
}

/// In a paint order, position follows `paints_before` in both directions.
pub proof fn lemma_position_follows_order(keys: Seq<i32>, order: Seq<usize>, i: int, j: int)
    requires
        is_paint_order(keys, order),
        0 <= i < order.len(),
        0 <= j < order.len(),
    ensures
        i < j <==> paints_before(keys, order[i] as int, order[j] as int),
{
    if j < i {
        assert(paints_before(keys, order[j] as int, order[i] as int));
    }
}

/// Sorts the siblings' indices into paint order.
pub fn paint_order(keys: &Vec<i32>) -> (order: Vec<usize>)
    ensures
        is_paint_order(keys@, order@),
        order@ == paint_order_of(keys@),
{
    let mut order: Vec<usize> = Vec::new();
    let n: usize = keys.len();
    let mut next: usize = 0;
    while next < n
        invariant
            n == keys.len(),
            next <= n,
            order.len() == next,
            forall|i: int| 0 <= i < order.len() ==> (#[trigger] order[i]) < next,
            forall|a: int| 0 <= a < next ==> #[trigger] occurs(order@, a),
            forall|i: int, j: int|
                0 <= i < j < order.len() ==> paints_before(
                    keys@,
                    #[trigger] order[i] as int,
                    #[trigger] order[j] as int,
                ),
        decreases n - next,
    {
        let key: i32 = keys[next];
        let mut pos: usize = order.len();
        while pos > 0 && keys[order[pos - 1]] > key
            invariant
                n == keys.len(),
                next < n,
                key == keys[next as int],
                pos <= order.len(),
                order.len() == next,
                forall|i: int| 0 <= i < order.len() ==> (#[trigger] order[i]) < next,
                forall|i: int| pos <= i < order.len() ==> keys[(#[trigger] order[i]) as int] > key,
            decreases pos,
        {
            pos -= 1;
        }
        let ghost before = order@;
        order.insert(pos, next);
        proof {
            let after = order@;
            assert forall|i: int| 0 <= i < pos implies keys[(#[trigger] before[i]) as int] <= key by {
                if i < pos - 1 {
                    assert(paints_before(keys@, before[i] as int, before[pos - 1] as int));
                }
            }
            assert forall|i: int, j: int| 0 <= i < j < after.len() implies paints_before(
                keys@,
                #[trigger] after[i] as int,
                #[trigger] after[j] as int,
            ) by {
                let bi = if i < pos { i } else { i - 1 };
                let bj = if j < pos { j } else { j - 1 };
                if i != pos && j != pos {
                    assert(after[i] == before[bi]);
                    assert(after[j] == before[bj]);
                    assert(paints_before(keys@, before[bi] as int, before[bj] as int));
                } else if j == pos {
                    assert(after[i] == before[i]);
                    assert(before[i] < next);
                } else {
                    assert(after[j] == before[bj]);
                }
            }
            assert forall|a: int| 0 <= a < next + 1 implies #[trigger] occurs(after, a) by {
                if a == next {
                    assert(after[pos as int] == a);
                } else {
                    assert(occurs(before, a));
                    let i = choose|i: int| 0 <= i < before.len() && before[i] == a;
                    let ai = if i < pos { i } else { i + 1 };
                    assert(after[ai] == a);
                }
            }
            assert forall|i: int| 0 <= i < after.len() implies (#[trigger] after[i]) < next + 1 by {
                if i != pos {
                    let bi = if i < pos { i } else { i - 1 };
                    assert(after[i] == before[bi]);
                }
            }
        }
        next += 1;
    }
    proof {
        let chosen = paint_order_of(keys@);
        assert(is_paint_order(keys@, order@));
        lemma_paint_order_unique(keys@, order@, chosen);
    }
    order
}

} // verus!
