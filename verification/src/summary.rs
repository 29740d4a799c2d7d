//! The worst outcome state of a finished search.
//!
//! The worst-case multiplier of an allocation is the smallest wealth
//! multiplier over the outcome states that count, that is, whose probability
//! is above a threshold of negligibility. Where no state counts, or where
//! the smallest multiplier is infinite, there is none to report. This module
//! picks the state. It reads probabilities and multipliers by the bit
//! patterns of the double-precision numbers, and compares by order keys.

use crate::bits::{
    is_above, is_below, is_finite, is_nan, key_of, lemma_keys_order_as_numbers, order_key,
};
use crate::bits::{is_at_most, ZERO};
use crate::objective::{is_afloat, is_ruin, Standing};
use vstd::prelude::*;

verus! {

/// Whether the state is taken into account: its probability is above
/// `negligible`, and its wealth multiplier is a number.
pub open spec fn is_candidate(state: Standing, negligible: u64) -> bool {
    is_above(state.probability, negligible) && !is_nan(state.wealth)
}

/// Whether state `worst` is the first of the candidates with the smallest
/// wealth among them.
pub open spec fn is_worst(states: Seq<Standing>, negligible: u64, worst: int) -> bool {
    &&& 0 <= worst < states.len()
    &&& is_candidate(states[worst], negligible)
    &&& forall|i: int|
        0 <= i < states.len() && is_candidate(#[trigger] states[i], negligible) ==> key_of(
            states[worst].wealth,
        ) <= key_of(states[i].wealth)
    &&& forall|i: int|
        0 <= i < worst && is_candidate(#[trigger] states[i], negligible) ==> key_of(states[worst].wealth)
            < key_of(states[i].wealth)
}

/// Whether state `worst` decides the worst-case multiplier: it is the worst
/// state, and its wealth is finite.
pub open spec fn decides(states: Seq<Standing>, negligible: u64, worst: int) -> bool {
    is_worst(states, negligible, worst) && is_finite(states[worst].wealth)
}

/// The state that decides the worst-case multiplier: the first of the
/// candidates with the smallest wealth among them, if that wealth is finite.
/// `None` says that there is no multiplier to report: no state counts with a
/// wealth that is a number, or the smallest wealth is infinite.
pub fn worst_state(states: &Vec<Standing>, negligible: u64) -> (worst: Option<usize>)
    ensures
        worst is Some ==> decides(states@, negligible, worst->0 as int),
        worst is None ==> forall|other: int| !decides(states@, negligible, other),
{
    let mut worst: Option<usize> = None;
    let mut i: usize = 0;
    while i < states.len()
        invariant
            i <= states.len(),
            worst is Some ==> is_worst(states@.take(i as int), negligible, worst->0 as int),
            worst is None ==> forall|j: int| 0 <= j < i ==> !is_candidate(#[trigger] states@[j], negligible),
        decreases states.len() - i,
    {
        let ghost before = states@.take(i as int);
        let ghost after = states@.take(i + 1);
        assert(forall|j: int| 0 <= j < i ==> after[j] == before[j]);
        let state = states[i];
        if is_above(state.probability, negligible) && !is_nan(state.wealth) {
            match worst {
                None => {
                    worst = Some(i);
                },
                Some(w) => {
                    if order_key(state.wealth) < order_key(states[w].wealth) {
                        worst = Some(i);
                    }
                },
            }
        }
        proof {
            assert(after[i as int] == states@[i as int]);
            if worst is Some {
                assert(is_candidate(after[worst->0 as int], negligible));
                assert forall|j: int|
                    0 <= j < after.len() && is_candidate(#[trigger] after[j], negligible) implies key_of(
                    after[worst->0 as int].wealth,
                ) <= key_of(after[j].wealth) by {
                    if j < i {
                        assert(is_candidate(before[j], negligible));
                    }
                }
                assert forall|j: int|
                    0 <= j < worst->0 && is_candidate(#[trigger] after[j], negligible) implies key_of(
                    after[worst->0 as int].wealth,
                ) < key_of(after[j].wealth) by {
                    if j < i {
                        assert(is_candidate(before[j], negligible));
                    }
                }
            }
        }
        i = i + 1;
    }
    assert(states@.take(i as int) =~= states@);
    match worst {
        Some(w) => {
            if is_finite(states[w].wealth) {
                Some(w)
            } else {
                assert forall|other: int| !decides(states@, negligible, other) by {
                    if is_worst(states@, negligible, other) {
                        lemma_worst_is_unique(states@, negligible, other, w as int);
                    }
                }
                None
            }
        },
        None => {
            assert forall|other: int| !decides(states@, negligible, other) by {
                if is_worst(states@, negligible, other) {
                    assert(is_candidate(states@[other], negligible));
                }
            }
            None
        },
    }
}

/// At most one state is the worst.
pub proof fn lemma_worst_is_unique(states: Seq<Standing>, negligible: u64, a: int, b: int)
    requires
        is_worst(states, negligible, a),
        is_worst(states, negligible, b),
    ensures
        a == b,
{
}

/// States whose probability is not above the threshold have no say in which
/// state is the worst: two lists that hold the same probabilities, and the
/// same wealth wherever the probability is above the threshold, have the same
/// worst state, whatever the wealth of the other states.
pub proof fn lemma_negligible_states_have_no_say(
    a: Seq<Standing>,
    b: Seq<Standing>,
    negligible: u64,
)
    requires
        a.len() == b.len(),
        forall|i: int| 0 <= i < a.len() ==> a[i].probability == b[i].probability,
        forall|i: int|
            0 <= i < a.len() && is_above(a[i].probability, negligible) ==> a[i].wealth
                == b[i].wealth,
    ensures
        forall|worst: int| is_worst(a, negligible, worst) <==> is_worst(b, negligible, worst),
        forall|worst: int| decides(a, negligible, worst) <==> decides(b, negligible, worst),
{
    assert forall|worst: int| is_worst(a, negligible, worst) implies is_worst(
        b,
        negligible,
        worst,
    ) by {
        assert forall|i: int|
            0 <= i < b.len() && is_candidate(#[trigger] b[i], negligible) implies key_of(
            b[worst].wealth,
        ) <= key_of(b[i].wealth) by {
            assert(is_candidate(a[i], negligible));
        }
        assert forall|i: int|
            0 <= i < worst && is_candidate(#[trigger] b[i], negligible) implies key_of(
            b[worst].wealth,
        ) < key_of(b[i].wealth) by {
            assert(is_candidate(a[i], negligible));
        }
    }
    assert forall|worst: int| is_worst(b, negligible, worst) implies is_worst(
        a,
        negligible,
        worst,
    ) by {
        assert forall|i: int|
            0 <= i < a.len() && is_candidate(#[trigger] a[i], negligible) implies key_of(
            a[worst].wealth,
        ) <= key_of(a[i].wealth) by {
            assert(is_candidate(b[i], negligible));
        }
        assert forall|i: int|
            0 <= i < worst && is_candidate(#[trigger] a[i], negligible) implies key_of(
            a[worst].wealth,
        ) < key_of(a[i].wealth) by {
            assert(is_candidate(b[i], negligible));
        }
    }
}

/// No state that is taken into account has a wealth below that of the worst
/// state.
pub proof fn lemma_worst_is_lowest(
    states: Seq<Standing>,
    negligible: u64,
    worst: int,
    other: int,
)
    requires
        is_worst(states, negligible, worst),
        0 <= other < states.len(),
        is_candidate(states[other], negligible),
    ensures
        !is_below(states[other].wealth, states[worst].wealth),
{
    lemma_keys_order_as_numbers(states[other].wealth, states[worst].wealth);
}

/// Under an allocation that ruins the investor in no state, the worst state
/// has a wealth multiplier above zero, for a threshold of negligibility that
/// is not below zero.
pub proof fn lemma_worst_is_above_zero(states: Seq<Standing>, negligible: u64, worst: int)
    requires
        is_afloat(states),
        is_at_most(ZERO, negligible),
        is_worst(states, negligible, worst),
    ensures
        is_above(states[worst].wealth, ZERO),
{
    assert(!is_ruin(states[worst]));
}

} // verus!
