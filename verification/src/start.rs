//! Where the search for a portfolio of independent legs starts.
//!
//! Each leg starts at the fraction that the Kelly criterion gives it alone,
//! `-(p u + (1 - p) d) / (u d)` for a leg that returns `u` with probability
//! `p` and `d` otherwise. The formula has no meaning where the two returns
//! are the same or one of them is zero, and its result is of no use where it
//! is not a positive number. This module tells which start a leg gets. It
//! reads the leg's numbers by their bit patterns; the formula itself is the
//! caller's.

use crate::bits::{absolute, is_above, is_finite, ZERO};
use vstd::prelude::*;

verus! {

/// The numbers of one leg, as bit patterns of double-precision numbers.
#[derive(Clone, Copy, Debug, PartialEq, Eq, Structural)]
pub struct LegNumbers {
    /// The probability of a win.
    pub win_prob: u64,
    /// The return on a win.
    pub win_return: u64,
    /// The return on a loss.
    pub loss_return: u64,
    /// The distance between the two returns.
    pub spread: u64,
    /// What the formula gives.
    pub fraction: u64,
}

/// Where a leg starts.
#[derive(Clone, Copy, Debug, PartialEq, Eq, Structural)]
pub enum Start {
    /// At nothing.
    Nothing,
    /// At the whole of what may be allocated.
    Cap,
    /// At what the formula gives.
    Fraction,
}

/// Where the leg with the numbers `leg` starts; `tolerance` is the distance
/// below which two numbers count as the same.
///
/// A leg with a number that is not finite starts at nothing. A leg whose
/// returns are the same pays for certain: it starts at the cap where it pays,
/// and at nothing where it costs. A leg with a return of zero starts at
/// nothing. Any other leg starts at what the formula gives where that is a
/// positive number, and at nothing where it is not.
pub open spec fn start_of(leg: LegNumbers, tolerance: u64) -> Start {
    if !(is_finite(leg.win_return) && is_finite(leg.loss_return) && is_finite(leg.win_prob)) {
        Start::Nothing
    } else if is_above(tolerance, leg.spread) {
        if is_above(leg.win_return, ZERO) {
            Start::Cap
        } else {
            Start::Nothing
        }
    } else if is_above(tolerance, absolute(leg.win_return)) || is_above(
        tolerance,
        absolute(leg.loss_return),
    ) {
        Start::Nothing
    } else if is_finite(leg.fraction) && is_above(leg.fraction, ZERO) {
        Start::Fraction
    } else {
        Start::Nothing
    }
}

/// Where the leg with the numbers `leg` starts.
pub fn single_leg_start(leg: LegNumbers, tolerance: u64) -> (start: Start)
    ensures
        start == start_of(leg, tolerance),
{
    if !(is_finite(leg.win_return) && is_finite(leg.loss_return) && is_finite(leg.win_prob)) {
        Start::Nothing
    } else if is_above(tolerance, leg.spread) {
        if is_above(leg.win_return, ZERO) {
            Start::Cap
        } else {
            Start::Nothing
        }
    } else if is_above(tolerance, absolute(leg.win_return)) || is_above(
        tolerance,
        absolute(leg.loss_return),
    ) {
        Start::Nothing
    } else if is_finite(leg.fraction) && is_above(leg.fraction, ZERO) {
        Start::Fraction
    } else {
        Start::Nothing
    }
}

/// A leg starts at what the formula gives only where that is a finite number
/// above zero, and at the cap only where its win pays.
pub proof fn lemma_start_is_positive(leg: LegNumbers, tolerance: u64)
    ensures
        start_of(leg, tolerance) == Start::Fraction ==> is_finite(leg.fraction) && is_above(
            leg.fraction,
            ZERO,
        ),
        start_of(leg, tolerance) == Start::Cap ==> is_above(leg.win_return, ZERO),
{
}

} // verus!
