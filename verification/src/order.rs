//! Stable ordering: the order in which a stable sort arranges a sequence of
//! keys, as a sequence of positions.

use vstd::prelude::*;

verus! {

/// A key that can be ranked against another of its kind. The ranking is
/// total and transitive; two keys may rank the same without being equal.
pub trait Ranked: Sized {
    /// `self` ranks no later than `other`.
    spec fn precedes(&self, other: &Self) -> bool;

    /// Decides the ranking at run time.
    fn comes_before(&self, other: &Self) -> (before: bool)
        ensures
            before == self.precedes(other),
    ;

    /// Of any two keys, one ranks no later than the other.
    proof fn lemma_total(a: &Self, b: &Self)
        ensures
            a.precedes(b) || b.precedes(a),
    ;

    /// Ranking carries over a key in between.
    proof fn lemma_transitive(a: &Self, b: &Self, c: &Self)
        requires
            a.precedes(b),
            b.precedes(c),
        ensures
            a.precedes(c),
    ;
}

impl Ranked for i128 {
    open spec fn precedes(&self, other: &Self) -> bool {
        *self <= *other
    }

    fn comes_before(&self, other: &Self) -> (before: bool) {
        *self <= *other
    }

    proof fn lemma_total(a: &Self, b: &Self) {
    }

    proof fn lemma_transitive(a: &Self, b: &Self, c: &Self) {
    }
}

/// Whether `order` arranges the first `n` of `keys` as a stable sort does:
/// it lists each position below `n` once, the keys at the positions listed
/// rank in ascending order, and keys that rank the same stay in the order of
/// their positions.
pub open spec fn is_stable_order_of_first<K: Ranked>(
    keys: Seq<K>,
    n: int,
    order: Seq<usize>,
) -> bool {
    &&& 0 <= n <= keys.len()
    &&& order.len() == n
    &&& forall|i: int| 0 <= i < n ==> 0 <= #[trigger] order[i] < n
    &&& forall|i: int, j: int|
        #![trigger order[i], order[j]]
        0 <= i < j < n ==> {
            &&& order[i] != order[j]
            &&& keys[order[i] as int].precedes(&keys[order[j] as int])
            &&& keys[order[j] as int].precedes(&keys[order[i] as int]) ==> order[i] < order[j]
        }
}

/// Whether `order` arranges all of `keys` as a stable sort does.
pub open spec fn is_stable_order<K: Ranked>(keys: Seq<K>, order: Seq<usize>) -> bool {
    is_stable_order_of_first(keys, keys.len() as int, order)
}

/// The items of `source` in the order that `order` lists their positions.
pub open spec fn arranged<T>(source: Seq<T>, order: Seq<usize>) -> Seq<T> {
    Seq::new(order.len(), |i: int| source[order[i] as int])
}

/// The positions of `keys` in the order of a stable sort: ascending by rank,
/// and by position among keys of the same rank.
pub fn stable_order<K: Ranked>(keys: &Vec<K>) -> (order: Vec<usize>)
    ensures
        is_stable_order(keys@, order@),
{
    let mut order: Vec<usize> = Vec::new();
    let mut k: usize = 0;
    while k < keys.len()
        invariant
            k <= keys.len(),
            is_stable_order_of_first(keys@, k as int, order@),
        decreases keys.len() - k,
    {
        let mut p: usize = k;
        while p > 0 && !keys[order[p - 1]].comes_before(&keys[k])
            invariant
                p <= k,
                k < keys.len(),
                is_stable_order_of_first(keys@, k as int, order@),
                forall|i: int| p <= i < k ==> !keys@[#[trigger] order@[i] as int].precedes(&keys@[k as int]),
            decreases p,
        {
            p -= 1;
        }
        let ghost before = order@;
        order.insert(p, k);
        proof {
            let after = order@;
            assert(after == before.insert(p as int, k));
            assert forall|i: int| 0 <= i < k + 1 implies 0 <= #[trigger] after[i] < k + 1 by {
                if i < p {
                    assert(after[i] == before[i]);
                } else if i > p {
                    assert(after[i] == before[i - 1]);
                }
            }
            assert forall|i: int, j: int|
                #![trigger after[i], after[j]]
                0 <= i < j < k + 1 implies {
                &&& after[i] != after[j]
                &&& keys@[after[i] as int].precedes(&keys@[after[j] as int])
                &&& keys@[after[j] as int].precedes(&keys@[after[i] as int]) ==> after[i]
                    < after[j]
            } by {
                if j < p {
                    assert(after[i] == before[i] && after[j] == before[j]);
                } else if j == p {
                    assert(after[i] == before[i] && after[j] == k);
                    assert(keys@[before[p - 1] as int].precedes(&keys@[k as int]));
                    if i < p - 1 {
                        assert(keys@[before[i] as int].precedes(&keys@[before[p - 1] as int]));
                        K::lemma_transitive(
                            &keys@[before[i] as int],
                            &keys@[before[p - 1] as int],
                            &keys@[k as int],
                        );
                    }
                } else if i == p {
                    assert(after[i] == k && after[j] == before[j - 1]);
                    assert(!keys@[before[j - 1] as int].precedes(&keys@[k as int]));
                    K::lemma_total(&keys@[before[j - 1] as int], &keys@[k as int]);
                } else if i < p {
                    assert(after[i] == before[i] && after[j] == before[j - 1]);
                } else {
                    assert(after[i] == before[i - 1] && after[j] == before[j - 1]);
                }
            }
        }
        k += 1;
    }
    order
}

} // verus!
