//! The decisions of the simplex projection.
//!
//! A vector that exceeds the cap is projected by subtracting one threshold
//! from every component and setting what falls below zero to zero. The
//! threshold is looked for among candidates: with the components taken from
//! the largest to the smallest, candidate `i` is the sum of the first `i + 1`
//! components less the cap, divided by `i + 1`. The first candidate that the
//! component after it does not exceed is the threshold; after the last
//! component stands minus infinity.
//!
//! This module tells in which order to take the components, and which
//! candidate is the threshold. It sees the components through their order
//! keys and bit patterns; the sums and quotients are the caller's.

use crate::bits::{is_at_most, key_of, lemma_keys_order_as_numbers, order_key, NEG_INFINITY};
use vstd::prelude::*;

verus! {

/// Whether `order` lists each of the positions `0` to `count - 1` once.
pub open spec fn is_permutation(order: Seq<usize>, count: nat) -> bool {
    &&& order.len() == count
    &&& forall|i: int| 0 <= i < order.len() ==> (#[trigger] order[i]) < count
    &&& forall|i: int, j: int| 0 <= i < j < order.len() ==> order[i] != order[j]
    &&& forall|position: usize| position < count ==> order.contains(position)
}

/// Whether `order` takes the positions of `components` from the largest
/// component to the smallest, by their order keys, and positions with equal
/// components from the first to the last.
pub open spec fn is_descending(order: Seq<usize>, components: Seq<u64>) -> bool {
    &&& is_permutation(order, components.len())
    &&& forall|i: int, j: int|
        0 <= i < j < order.len() ==> key_of(components[order[i] as int]) > key_of(
            components[order[j] as int],
        ) || (components[order[i] as int] == components[order[j] as int] && order[i] < order[j])
}

/// The positions of `components`, which are bit patterns of double-precision
/// numbers, from the largest component to the smallest; positions with equal
/// components stay in their order.
pub fn descending_order(components: &Vec<u64>) -> (order: Vec<usize>)
    ensures
        is_descending(order@, components@),
{
    let mut order: Vec<usize> = Vec::new();
    let mut next: usize = 0;
    while next < components.len()
        invariant
            next <= components.len(),
            is_descending(order@, components@.take(next as int)),
        decreases components.len() - next,
    {
        let ghost before = order@;
        let key = order_key(components[next]);
        let mut at: usize = 0;
        while at < order.len() && order_key(components[order[at]]) >= key
            invariant
                at <= order.len(),
                order@ == before,
                next < components.len(),
                key == key_of(components@[next as int]),
                is_descending(order@, components@.take(next as int)),
                forall|i: int| 0 <= i < at ==> key_of(components@[order@[i] as int]) >= key,
            decreases order.len() - at,
        {
            at = at + 1;
        }
        order.insert(at, next);
        proof {
            let seen = components@.take(next as int);
            let more = components@.take(next + 1);
            let after = order@;
            assert(after == before.insert(at as int, next));
            assert forall|i: int| 0 <= i < after.len() implies (#[trigger] after[i]) < next + 1 by {
                if i < at {
                    assert(after[i] == before[i]);
                } else if i > at {
                    assert(after[i] == before[i - 1]);
                }
            }
            assert forall|position: usize| position < next + 1 implies after.contains(
                position,
            ) by {
                if position == next {
                    assert(after[at as int] == position);
                } else {
                    assert(before.contains(position));
                    let i = choose|i: int| 0 <= i < before.len() && before[i] == position;
                    if i < at {
                        assert(after[i] == position);
                    } else {
                        assert(after[i + 1] == position);
                    }
                }
            }
            assert forall|i: int, j: int| 0 <= i < j < after.len() implies (key_of(
                more[after[i] as int],
            ) > key_of(more[after[j] as int]) || (more[after[i] as int] == more[after[j] as int]
                && after[i] < after[j])) by {
                let a = if i < at { i } else { i - 1 };
                let b = if j < at { j } else { j - 1 };
                if i != at {
                    assert(after[i] == before[a]);
                    assert(before[a] < next);
                }
                if j != at {
                    assert(after[j] == before[b]);
                    assert(before[b] < next);
                }
                if i != at && j != at {
                    assert(a < b);
                } else if j == at {
                    assert(key_of(components@[before[a] as int]) >= key);
                    lemma_keys_order_as_numbers(components@[before[a] as int], components@[next as int]);
                } else if at < before.len() {
                    assert(key_of(components@[before[at as int] as int]) < key);
                    if b > at {
                        assert(key_of(seen[before[at as int] as int]) > key_of(
                            seen[before[b] as int],
                        ) || (seen[before[at as int] as int] == seen[before[b] as int]
                            && before[at as int] < before[b]));
                    }
                }
            }
        }
        next = next + 1;
    }
    assert(components@.take(next as int) =~= components@);
    order
}

proof fn lemma_descending_prefix(a: Seq<usize>, b: Seq<usize>, keys: Seq<u64>, upto: int)
    requires
        is_descending(a, keys),
        is_descending(b, keys),
        0 <= upto <= keys.len(),
    ensures
        forall|i: int| 0 <= i < upto ==> a[i] == b[i],
    decreases upto,
{
    if upto > 0 {
        let i = upto - 1;
        lemma_descending_prefix(a, b, keys, i);
        assert(a[i] < keys.len() && b[i] < keys.len());
        assert(b.contains(a[i]));
        assert(a.contains(b[i]));
        let j = choose|j: int| 0 <= j < b.len() && b[j] == a[i];
        let k = choose|k: int| 0 <= k < a.len() && a[k] == b[i];
        if j < i {
            assert(a[j] == b[j]);
        }
        if k < i {
            assert(b[k] == a[k]);
        }
    }
}

/// Only one order is descending.
pub proof fn lemma_descending_is_unique(a: Seq<usize>, b: Seq<usize>, keys: Seq<u64>)
    requires
        is_descending(a, keys),
        is_descending(b, keys),
    ensures
        a == b,
{
    lemma_descending_prefix(a, b, keys, keys.len() as int);
    assert(a =~= b);
}

/// What follows component `i` of `sorted`: the next component, or minus
/// infinity after the last.
pub open spec fn following(sorted: Seq<u64>, i: int) -> u64 {
    if i + 1 < sorted.len() {
        sorted[i + 1]
    } else {
        NEG_INFINITY
    }
}

/// Whether candidate `i` can be the threshold: what follows component `i` is
/// at most the candidate.
pub open spec fn is_break(sorted: Seq<u64>, candidates: Seq<u64>, i: int) -> bool {
    &&& 0 <= i < sorted.len()
    &&& i < candidates.len()
    &&& is_at_most(following(sorted, i), candidates[i])
}

/// The place of the threshold among the candidates: the first candidate that
/// the component after it does not exceed. `sorted` holds the bit patterns of
/// the components from the largest to the smallest, `candidates` those of the
/// candidates. `None` says that no candidate is the threshold, as may be
/// where a candidate is no number or the candidates are too few.
pub fn breakpoint(sorted: &Vec<u64>, candidates: &Vec<u64>) -> (at: Option<usize>)
    ensures
        at is Some ==> is_break(sorted@, candidates@, at->0 as int),
        at is Some ==> forall|i: int| 0 <= i < at->0 ==> !is_break(sorted@, candidates@, i),
        at is None ==> forall|i: int| !is_break(sorted@, candidates@, i),
{
    let mut i: usize = 0;
    while i < sorted.len() && i < candidates.len()
        invariant
            forall|j: int| 0 <= j < i ==> !is_break(sorted@, candidates@, j),
        decreases sorted.len() - i,
    {
        let next = if i + 1 < sorted.len() {
            sorted[i + 1]
        } else {
            NEG_INFINITY
        };
        if is_at_most(next, candidates[i]) {
            return Some(i);
        }
        i = i + 1;
    }
    None
}

} // verus!
