//! Stable orders by a numeric key.
use vstd::prelude::*;

verus! {

/// Whether item `a` comes before item `b`: by key, largest or smallest first, and
/// where the keys are equal in their original order.
pub open spec fn comes_before(keys: Seq<u64>, largest_first: bool, a: int, b: int) -> bool {
    ||| (largest_first && keys[a] > keys[b])
    ||| (!largest_first && keys[a] < keys[b])
    ||| (keys[a] == keys[b] && a < b)
}

/// Whether `order` lists all positions of `keys`, each once, in stable order.
pub open spec fn is_stable_order(keys: Seq<u64>, largest_first: bool, order: Seq<int>) -> bool {
    &&& order.len() == keys.len()
    &&& forall|i: int| 0 <= i < order.len() ==> 0 <= #[trigger] order[i] < keys.len()
    &&& forall|k: int| 0 <= k < keys.len() ==> #[trigger] order.contains(k)
    &&& forall|i: int, j: int|
        0 <= i < j < order.len()
            ==> comes_before(keys, largest_first, #[trigger] order[i], #[trigger] order[j])
}

/// The positions as mathematical integers.
pub open spec fn positions(order: Seq<usize>) -> Seq<int> {
    Seq::new(order.len(), |i: int| order[i] as int)
}

/// There is only one stable order.
pub proof fn stable_order_is_unique(
    keys: Seq<u64>,
    largest_first: bool,
    a: Seq<int>,
    b: Seq<int>,
)
    requires
        is_stable_order(keys, largest_first, a),
        is_stable_order(keys, largest_first, b),
    ensures
        a == b,
{
    assert forall|i: int| 0 <= i < a.len() implies a[i] == b[i] by {
        lemma_stable_order_prefix(keys, largest_first, a, b, i);
    }
    assert(a =~= b);
}

proof fn lemma_stable_order_prefix(
    keys: Seq<u64>,
    largest_first: bool,
    a: Seq<int>,
    b: Seq<int>,
    i: int,
)
    requires
        is_stable_order(keys, largest_first, a),
        is_stable_order(keys, largest_first, b),
        0 <= i < a.len(),
    ensures
        a[i] == b[i],
    decreases i,
{
    assert forall|j: int| 0 <= j < i implies a[j] == b[j] by {
        lemma_stable_order_prefix(keys, largest_first, a, b, j);
    }
    if a[i] != b[i] {
        assert(b.contains(a[i]));
        let p = choose|p: int| 0 <= p < b.len() && b[p] == a[i];
        assert(a.contains(b[i]));
        let q = choose|q: int| 0 <= q < a.len() && a[q] == b[i];
        if p < i {
            assert(a[p] == b[p]);
            assert(comes_before(keys, largest_first, a[p], a[i]));
        }
        if q < i {
            assert(a[q] == b[q]);
            assert(comes_before(keys, largest_first, b[q], b[i]));
        }
        assert(p > i && q > i);
        assert(comes_before(keys, largest_first, b[i], b[p]));
        assert(comes_before(keys, largest_first, a[i], a[q]));
    }
}

/// The stable order of the items with the given keys.
pub fn stable_order(keys: &Vec<u64>, largest_first: bool) -> (order: Vec<usize>)
    ensures
        is_stable_order(keys@, largest_first, positions(order@)),
        forall|i: int| 0 <= i < order@.len() ==> #[trigger] order@[i] < keys@.len(),
{
    let mut order: Vec<usize> = Vec::new();
    let mut i: usize = 0;
    while i < keys.len()
        invariant
            i <= keys@.len(),
            order@.len() == i,
            forall|k: int| 0 <= k < i ==> #[trigger] order@[k] < i,
            forall|k: int| 0 <= k < i ==> #[trigger] positions(order@).contains(k),
            forall|k: int, l: int|
                0 <= k < l < i ==> comes_before(
                    keys@,
                    largest_first,
                    #[trigger] order@[k] as int,
                    #[trigger] order@[l] as int,
                ),
        decreases keys.len() - i,
    {
        let key: u64 = keys[i];
        let mut p: usize = order.len();
        while p > 0 && ((largest_first && keys[order[p - 1]] < key) || (!largest_first
            && keys[order[p - 1]] > key))
            invariant
                p <= i < keys@.len(),
                key == keys@[i as int],
                order@.len() == i,
                forall|k: int| 0 <= k < i ==> #[trigger] order@[k] < i,
                forall|k: int|
                    p <= k < i ==> comes_before(
                        keys@,
                        largest_first,
                        i as int,
                        #[trigger] order@[k] as int,
                    ),
            decreases p,
        {
            p -= 1;
        }
        let ghost before = order@;
        proof {
            if p > 0 {
                assert(comes_before(keys@, largest_first, before[p - 1] as int, i as int));
            }
            assert forall|k: int| 0 <= k < p implies comes_before(
                keys@,
                largest_first,
                #[trigger] before[k] as int,
                i as int,
            ) by {
                if k < p - 1 {
                    assert(comes_before(
                        keys@,
                        largest_first,
                        before[k] as int,
                        before[p - 1] as int,
                    ));
                }
            }
        }
        order.insert(p, i);
        proof {
            assert forall|k: int, l: int| 0 <= k < l < i + 1 implies comes_before(
                keys@,
                largest_first,
                #[trigger] order@[k] as int,
                #[trigger] order@[l] as int,
            ) by {
                if k < p {
                    assert(order@[k] == before[k]);
                } else if k > p {
                    assert(order@[k] == before[k - 1]);
                }
                if l < p {
                    assert(order@[l] == before[l]);
                } else if l > p {
                    assert(order@[l] == before[l - 1]);
                }
            }
            assert forall|k: int| 0 <= k < i + 1 implies #[trigger] positions(order@).contains(
                k,
            ) by {
                if k == i {
                    assert(positions(order@)[p as int] == k);
                } else {
                    assert(positions(before).contains(k));
                    let q = choose|q: int|
                        0 <= q < positions(before).len() && positions(before)[q] == k;
                    if q < p {
                        assert(positions(order@)[q] == k);
                    } else {
                        assert(positions(order@)[q + 1] == k);
                    }
                }
            }
        }
        i += 1;
    }
    proof {
        let o = positions(order@);
        assert forall|a: int, b: int| 0 <= a < b < o.len() implies comes_before(
            keys@,
            largest_first,
            #[trigger] o[a],
            #[trigger] o[b],
        ) by {
            assert(o[a] == order@[a] as int && o[b] == order@[b] as int);
        }
    }
    order
}

} // verus!
