//! Outcome states.
//!
//! With `n` independent two-way legs there are `2^n` joint outcomes. They are
//! numbered from `0`; leg `i` wins in outcome `s` exactly when bit `i` of `s`
//! is set. The joint outcomes of correlated legs are given as scenarios, each
//! with its probability and the return of every leg; they are checked here,
//! by the bit patterns of their numbers.

use crate::bits::{is_at_most, is_finite, ZERO};
use vstd::arithmetic::div_mod::*;
use vstd::arithmetic::power2::*;
use vstd::prelude::*;

verus! {

/// Largest number of legs whose joint outcomes are enumerated.
pub const MAX_LEGS: usize = 12;

/// Whether leg `leg` wins in the joint outcome numbered `state`.
pub open spec fn leg_wins(state: nat, leg: nat) -> bool {
    (state / pow2(leg)) % 2 == 1
}

/// The win/loss pattern of outcome `state` over `legs` legs.
pub open spec fn outcome(state: nat, legs: nat) -> Seq<bool> {
    Seq::new(legs, |i: int| leg_wins(state, i as nat))
}

/// What is wrong with a scenario.
#[derive(Clone, Copy, Debug, PartialEq, Eq, Structural)]
pub enum ScenarioFault {
    /// Its probability is not a finite number of zero or more.
    Probability,
    /// It does not give one return for each leg.
    Length,
    /// One of its returns is not finite.
    Return,
}

/// Whether every return is finite.
pub open spec fn all_finite(payoffs: Seq<u64>) -> bool {
    forall|i: int| 0 <= i < payoffs.len() ==> is_finite(#[trigger] payoffs[i])
}

/// What is wrong with the scenario of the given probability and returns for
/// `leg_count` legs, if anything is; of several faults, the first in the
/// order of [`ScenarioFault`].
pub open spec fn scenario_fault(leg_count: nat, probability: u64, payoffs: Seq<u64>) -> Option<
    ScenarioFault,
> {
    if !(is_finite(probability) && is_at_most(ZERO, probability)) {
        Some(ScenarioFault::Probability)
    } else if payoffs.len() != leg_count {
        Some(ScenarioFault::Length)
    } else if !all_finite(payoffs) {
        Some(ScenarioFault::Return)
    } else {
        None
    }
}

/// The weight of outcome `state` where leg `i` weighs `win[i]` when it wins
/// and `loss[i]` when it loses: the product of the weights of the results of
/// all legs. With a leg's probabilities of winning and of losing for its
/// weights, this is the probability of the outcome.
pub open spec fn weight(state: nat, win: Seq<int>, loss: Seq<int>) -> int
    decreases win.len(),
{
    if win.len() == 0 {
        1
    } else {
        let leg = (win.len() - 1) as nat;
        weight(state, win.drop_last(), loss.drop_last()) * (if leg_wins(state, leg) {
            win.last()
        } else {
            loss.last()
        })
    }
}

/// The weights of the outcomes `0` to `count - 1`, added up.
pub open spec fn total_weight(count: nat, win: Seq<int>, loss: Seq<int>) -> int
    decreases count,
{
    if count == 0 {
        0
    } else {
        total_weight((count - 1) as nat, win, loss) + weight((count - 1) as nat, win, loss)
    }
}

/// The product, over the legs, of what a leg's two weights add up to.
pub open spec fn product_of_sums(win: Seq<int>, loss: Seq<int>) -> int
    decreases win.len(),
{
    if win.len() == 0 {
        1
    } else {
        product_of_sums(win.drop_last(), loss.drop_last()) * (win.last() + loss.last())
    }
}

/// The number of the outcome with the given win/loss pattern.
pub open spec fn state_of(wins: Seq<bool>) -> nat
    decreases wins.len(),
{
    if wins.len() == 0 {
        0
    } else {
        (if wins[0] { 1nat } else { 0nat }) + 2 * state_of(wins.drop_first())
    }
}

proof fn lemma_shift(state: nat, leg: nat)
    ensures
        (state / 2) / pow2(leg) == state / pow2(leg + 1),
        (state / pow2(leg)) / 2 == state / pow2(leg + 1),
{
    lemma_pow2_pos(leg);
    lemma_pow2_unfold(leg + 1);
    lemma_div_denominator(state as int, 2, pow2(leg) as int);
    lemma_div_denominator(state as int, pow2(leg) as int, 2);
    assert(2 * pow2(leg) == pow2(leg) * 2);
}

/// The number of joint outcomes of `legs` legs.
pub fn state_count(legs: usize) -> (count: usize)
    requires
        legs <= MAX_LEGS,
    ensures
        count == pow2(legs as nat),
{
    let mut count: usize = 1;
    let mut i: usize = 0;
    proof {
        lemma2_to64();
    }
    while i < legs
        invariant
            i <= legs <= MAX_LEGS,
            count == pow2(i as nat),
            count <= pow2(12),
            pow2(12) == 4096,
        decreases legs - i,
    {
        proof {
            lemma_pow2_unfold((i + 1) as nat);
            if i + 1 < 12 {
                lemma_pow2_strictly_increases((i + 1) as nat, 12);
            }
        }
        count = count * 2;
        i = i + 1;
    }
    count
}

/// The win/loss pattern of outcome `state` over `legs` legs.
pub fn state_outcome(state: usize, legs: usize) -> (wins: Vec<bool>)
    ensures
        wins@ == outcome(state as nat, legs as nat),
{
    let mut wins: Vec<bool> = Vec::new();
    let mut rest: usize = state;
    let mut i: usize = 0;
    proof {
        lemma2_to64();
    }
    while i < legs
        invariant
            i <= legs,
            wins@.len() == i,
            rest == (state as nat) / pow2(i as nat),
            forall|j: int| 0 <= j < i ==> wins@[j] == leg_wins(state as nat, j as nat),
        decreases legs - i,
    {
        wins.push(rest % 2 == 1);
        proof {
            lemma_shift(state as nat, i as nat);
        }
        rest = rest / 2;
        i = i + 1;
    }
    assert(wins@ =~= outcome(state as nat, legs as nat));
    wins
}

/// Every joint outcome of `legs` independent legs, in the order of their
/// numbers: entry `s` is the win/loss pattern of outcome `s`.
pub fn enumerate_independent_states(legs: usize) -> (states: Vec<Vec<bool>>)
    requires
        legs <= MAX_LEGS,
    ensures
        states@.len() == pow2(legs as nat),
        forall|s: int| 0 <= s < states@.len() ==> states@[s]@ == outcome(s as nat, legs as nat),
{
    let count = state_count(legs);
    let mut states: Vec<Vec<bool>> = Vec::new();
    let mut s: usize = 0;
    while s < count
        invariant
            s <= count,
            states@.len() == s,
            forall|t: int| 0 <= t < s ==> states@[t]@ == outcome(t as nat, legs as nat),
        decreases count - s,
    {
        states.push(state_outcome(s, legs));
        s = s + 1;
    }
    states
}

/// Checks a scenario for `leg_count` legs: its probability and its returns
/// are given as bit patterns of double-precision numbers.
pub fn check_scenario(leg_count: usize, probability: u64, payoffs: &Vec<u64>) -> (checked: Result<
    (),
    ScenarioFault,
>)
    ensures
        match scenario_fault(leg_count as nat, probability, payoffs@) {
            Some(fault) => checked == Err::<(), ScenarioFault>(fault),
            None => checked is Ok,
        },
{
    if !(is_finite(probability) && is_at_most(ZERO, probability)) {
        return Err(ScenarioFault::Probability);
    }
    if payoffs.len() != leg_count {
        return Err(ScenarioFault::Length);
    }
    let mut i: usize = 0;
    while i < payoffs.len()
        invariant
            i <= payoffs.len(),
            payoffs.len() == leg_count,
            is_finite(probability) && is_at_most(ZERO, probability),
            forall|j: int| 0 <= j < i ==> is_finite(#[trigger] payoffs@[j]),
        decreases payoffs.len() - i,
    {
        if !is_finite(payoffs[i]) {
            assert(!is_finite(payoffs@[i as int]));
            return Err(ScenarioFault::Return);
        }
        i = i + 1;
    }
    Ok(())
}

/// A pattern's number is below the number of outcomes, and the outcome with
/// that number has the pattern: every win/loss combination occurs.
pub proof fn lemma_every_pattern_occurs(wins: Seq<bool>)
    ensures
        state_of(wins) < pow2(wins.len()),
        outcome(state_of(wins), wins.len()) == wins,
    decreases wins.len(),
{
    if wins.len() == 0 {
        lemma2_to64();
        assert(outcome(state_of(wins), wins.len()) =~= wins);
    } else {
        let tail = wins.drop_first();
        let low: nat = if wins[0] { 1 } else { 0 };
        let s = state_of(wins);
        lemma_every_pattern_occurs(tail);
        lemma_pow2_unfold(wins.len());
        assert(s == low + 2 * state_of(tail));
        assert(s / 2 == state_of(tail) && s % 2 == low);
        assert forall|i: int| 0 <= i < wins.len() implies leg_wins(s, i as nat) == wins[i] by {
            if i == 0 {
                lemma2_to64();
                assert(s / pow2(0) == s);
            } else {
                let below = (i - 1) as nat;
                lemma_shift(s, below);
                assert(below + 1 == i as nat);
                assert(s / pow2(i as nat) == state_of(tail) / pow2(below));
                assert(outcome(state_of(tail), tail.len())[i - 1] == leg_wins(
                    state_of(tail),
                    below,
                ));
                assert(tail[i - 1] == wins[i]);
            }
        }
        assert(outcome(s, wins.len()) =~= wins);
    }
}

/// An outcome below `2^legs` is the one that its own pattern is numbered as.
pub proof fn lemma_pattern_names_state(state: nat, legs: nat)
    requires
        state < pow2(legs),
    ensures
        state_of(outcome(state, legs)) == state,
    decreases legs,
{
    let wins = outcome(state, legs);
    if legs == 0 {
        lemma2_to64();
    } else {
        lemma_pow2_unfold(legs);
        lemma_pattern_names_state(state / 2, (legs - 1) as nat);
        assert(wins.drop_first() =~= outcome(state / 2, (legs - 1) as nat)) by {
            assert forall|leg: nat| leg < legs - 1 implies leg_wins(state, leg + 1)
                == #[trigger] leg_wins(state / 2, leg) by {
                lemma_shift(state, leg);
            }
        }
        lemma2_to64();
        assert(wins[0] == (state % 2 == 1));
    }
}

/// Two different outcomes of the same legs differ in the result of some leg.
pub proof fn lemma_outcomes_distinct(a: nat, b: nat, legs: nat)
    requires
        a < pow2(legs),
        b < pow2(legs),
        a != b,
    ensures
        outcome(a, legs) != outcome(b, legs),
        exists|leg: nat| leg < legs && leg_wins(a, leg) != leg_wins(b, leg),
{
    lemma_pattern_names_state(a, legs);
    lemma_pattern_names_state(b, legs);
    if forall|leg: nat| leg < legs ==> leg_wins(a, leg) == leg_wins(b, leg) {
        assert(outcome(a, legs) =~= outcome(b, legs));
    }
}

proof fn lemma_high_bit(state: nat, leg: nat)
    requires
        state < pow2(leg),
    ensures
        !leg_wins(state, leg),
        leg_wins(state + pow2(leg), leg),
        forall|below: nat| below < leg ==> leg_wins(state + pow2(leg), below) == #[trigger] leg_wins(
            state,
            below,
        ),
{
    lemma_pow2_pos(leg);
    lemma_small_div_converse(state as int, pow2(leg) as int);
    lemma_basic_div(state as int, pow2(leg) as int);
    lemma_div_plus_one(state as int, pow2(leg) as int);
    assert((state + pow2(leg)) / pow2(leg) == 1);
    assert forall|below: nat| below < leg implies leg_wins(state + pow2(leg), below)
        == #[trigger] leg_wins(state, below) by {
        let gap = (leg - below) as nat;
        lemma_pow2_pos(below);
        lemma_pow2_adds(gap, below);
        lemma_pow2_unfold(gap);
        let half = pow2((gap - 1) as nat);
        assert(pow2(leg) == 2 * half * pow2(below)) by (nonlinear_arith)
            requires
                pow2(leg) == pow2(gap) * pow2(below),
                pow2(gap) == 2 * half,
        ;
        lemma_div_of_sum(state as int, (2 * half) as int, pow2(below) as int);
    }
}

proof fn lemma_div_of_sum(x: int, k: int, d: int)
    requires
        d > 0,
        x >= 0,
        k >= 0,
    ensures
        (x + k * d) / d == x / d + k,
{
    lemma_fundamental_div_mod(x, d);
    lemma_mod_pos_bound(x, d);
    assert(x + k * d == (x / d + k) * d + x % d) by (nonlinear_arith)
        requires
            x == d * (x / d) + x % d,
    ;
    lemma_fundamental_div_mod_converse(x + k * d, d, x / d + k, x % d);
}

proof fn lemma_weight_ignores_higher_legs(state: nat, win: Seq<int>, loss: Seq<int>, leg: nat)
    requires
        win.len() == loss.len(),
        win.len() <= leg,
        state < pow2(leg),
    ensures
        weight(state + pow2(leg), win, loss) == weight(state, win, loss),
    decreases win.len(),
{
    if win.len() > 0 {
        lemma_high_bit(state, leg);
        lemma_weight_ignores_higher_legs(state, win.drop_last(), loss.drop_last(), leg);
        assert(leg_wins(state + pow2(leg), (win.len() - 1) as nat) == leg_wins(
            state,
            (win.len() - 1) as nat,
        ));
    }
}

proof fn lemma_total_weight_splits(count: nat, win: Seq<int>, loss: Seq<int>)
    requires
        win.len() == loss.len(),
        win.len() > 0,
        count <= pow2((win.len() - 1) as nat),
    ensures
        total_weight(count, win, loss) == total_weight(count, win.drop_last(), loss.drop_last())
            * loss.last(),
        total_weight(pow2((win.len() - 1) as nat) + count, win, loss) == total_weight(
            pow2((win.len() - 1) as nat),
            win,
            loss,
        ) + total_weight(count, win.drop_last(), loss.drop_last()) * win.last(),
    decreases count,
{
    if count > 0 {
        let leg = (win.len() - 1) as nat;
        let state = (count - 1) as nat;
        let fewer_win = win.drop_last();
        let fewer_loss = loss.drop_last();
        lemma_total_weight_splits(state, win, loss);
        lemma_high_bit(state, leg);
        lemma_weight_ignores_higher_legs(state, fewer_win, fewer_loss, leg);
        let lower = total_weight(state, fewer_win, fewer_loss);
        let this = weight(state, fewer_win, fewer_loss);
        assert(weight(state, win, loss) == this * loss.last());
        assert(weight(state + pow2(leg), win, loss) == this * win.last());
        assert((lower + this) * loss.last() == lower * loss.last() + this * loss.last())
            by (nonlinear_arith);
        assert((lower + this) * win.last() == lower * win.last() + this * win.last())
            by (nonlinear_arith);
        assert(pow2(leg) + count - 1 == pow2(leg) + state);
    }
}

/// The weights of all joint outcomes add up to the product of what each
/// leg's two weights add up to. With probabilities for weights, where a leg
/// wins with probability `p` and loses with `1 - p`, the outcomes' products
/// add up to one: the outcomes are a distribution.
pub proof fn lemma_weights_add_up(win: Seq<int>, loss: Seq<int>)
    requires
        win.len() == loss.len(),
    ensures
        total_weight(pow2(win.len()), win, loss) == product_of_sums(win, loss),
    decreases win.len(),
{
    if win.len() == 0 {
        lemma2_to64();
        assert(total_weight(0, win, loss) == 0);
        assert(total_weight(1, win, loss) == total_weight(0, win, loss) + weight(0, win, loss));
    } else {
        let fewer = (win.len() - 1) as nat;
        lemma_pow2_unfold(win.len());
        lemma_weights_add_up(win.drop_last(), loss.drop_last());
        lemma_total_weight_splits(pow2(fewer), win, loss);
        let inner = product_of_sums(win.drop_last(), loss.drop_last());
        assert(inner * loss.last() + inner * win.last() == inner * (win.last() + loss.last()))
            by (nonlinear_arith);
        assert(pow2(fewer) + pow2(fewer) == pow2(win.len()));
    }
}

} // verus!
