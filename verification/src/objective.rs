//! Which outcome states enter the objective, and whether an allocation can
//! be afforded.
//!
//! The objective is the expected logarithm of the wealth multiplier. A state
//! enters it with its probability for weight, so a state without a positive
//! probability does not enter it at all. An allocation under which the
//! wealth multiplier of a state that does enter is zero or less ruins the
//! investor in that state: the logarithm has no value there, and the
//! objective counts as minus infinity. This module finds that state. It
//! reads probabilities and multipliers by their bit patterns.

use crate::bits::{is_above, is_at_most, ZERO};
use vstd::prelude::*;

verus! {

/// How one outcome state stands under an allocation.
#[derive(Clone, Copy, Debug, PartialEq, Eq, Structural)]
pub struct Standing {
    /// Bit pattern of the state's probability.
    pub probability: u64,
    /// Bit pattern of the state's wealth multiplier.
    pub wealth: u64,
}

/// Whether a state of the given probability enters the objective: its
/// probability is above zero.
pub open spec fn spec_weighs(probability: u64) -> bool {
    is_above(probability, ZERO)
}

/// Whether the allocation ruins the investor in the state: the state enters
/// the objective, and its wealth multiplier is zero or less.
pub open spec fn is_ruin(state: Standing) -> bool {
    weighs(state.probability) && is_at_most(state.wealth, ZERO)
}

/// Whether the allocation can be afforded: it ruins the investor in none of
/// the states.
pub open spec fn is_afloat(states: Seq<Standing>) -> bool {
    forall|i: int| 0 <= i < states.len() ==> !is_ruin(#[trigger] states[i])
}

/// Whether a state of the given probability enters the objective.
#[verifier::when_used_as_spec(spec_weighs)]
pub fn weighs(probability: u64) -> (enters: bool)
    ensures
        enters == weighs(probability),
{
    is_above(probability, ZERO)
}

/// The first state in which the allocation ruins the investor, if there is
/// one.
pub fn first_ruin(states: &Vec<Standing>) -> (ruin: Option<usize>)
    ensures
        ruin is Some ==> 0 <= ruin->0 < states@.len() && is_ruin(states@[ruin->0 as int]),
        ruin is Some ==> forall|i: int| 0 <= i < ruin->0 ==> !is_ruin(#[trigger] states@[i]),
        ruin is None <==> is_afloat(states@),
{
    let mut i: usize = 0;
    while i < states.len()
        invariant
            i <= states.len(),
            forall|j: int| 0 <= j < i ==> !is_ruin(#[trigger] states@[j]),
        decreases states.len() - i,
    {
        if weighs(states[i].probability) && is_at_most(states[i].wealth, ZERO) {
            return Some(i);
        }
        i = i + 1;
    }
    None
}

/// States that do not enter the objective have no say in whether an
/// allocation can be afforded: two lists that hold the same probabilities,
/// and the same wealth wherever the probability is above zero, are ruined in
/// the same states.
pub proof fn lemma_weightless_states_ruin_nothing(a: Seq<Standing>, b: Seq<Standing>, i: int)
    requires
        a.len() == b.len(),
        0 <= i < a.len(),
        forall|j: int| 0 <= j < a.len() ==> a[j].probability == b[j].probability,
        forall|j: int| 0 <= j < a.len() && weighs(a[j].probability) ==> a[j].wealth == b[j].wealth,
    ensures
        is_ruin(a[i]) <==> is_ruin(b[i]),
{
}

} // verus!
