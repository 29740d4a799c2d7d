//! The operands of each mode.
//!
//! A mode's operands are the arguments without the mode's flag, if it has
//! one; the first of them is the program's name. Each function here tells by
//! their number, and by the counts among them, what they ask for and where
//! each input stands. The inputs themselves are left as text.

use crate::cli::{is_help, is_help_flag, is_version, is_version_flag, texts, without, without_flag};
use crate::number::{count_of, parse_count};
use crate::states::MAX_LEGS;
use vstd::prelude::*;

verus! {

/// Smallest number of outcomes of a multi-way arbitrage.
pub const MIN_OUTCOMES: usize = 2;

/// Smallest number of legs of a portfolio.
pub const MIN_LEGS: usize = 2;

/// Smallest number of scenarios of a correlated portfolio.
pub const MIN_SCENARIOS: usize = 2;

/// Largest number of scenarios of a correlated portfolio.
pub const MAX_SCENARIOS: usize = 128;

/// What the arguments of a single bet ask for.
#[derive(Clone, Copy, Debug, PartialEq, Eq, Structural)]
pub enum StandardRequest {
    /// The usage text.
    Usage,
    /// The program's version.
    Version,
    /// Nothing that can be done: an argument is missing.
    TooFew,
    /// The calculation from odds and win rate, with the capital as a third
    /// argument where `capital` is set.
    Compute { capital: bool },
    /// Nothing that can be done: too many arguments, or none at all.
    Malformed,
}

/// What the operands of a mode with a fixed number of inputs ask for.
#[derive(Clone, Copy, Debug, PartialEq, Eq, Structural)]
pub enum FixedRequest {
    /// Nothing that can be done: there is no input at all.
    TooFew,
    /// The calculation; the inputs are followed by the capital where
    /// `capital` is set.
    Compute { capital: bool },
    /// Nothing that can be done: the number of inputs is wrong.
    Malformed,
}

/// What the operands of a multi-way arbitrage ask for.
#[derive(Clone, Copy, Debug, PartialEq, Eq, Structural)]
pub enum MultiArbitrageRequest {
    /// Nothing that can be done: the number of outcomes is missing.
    TooFew,
    /// Nothing that can be done: the number of outcomes is not a count.
    CountNotNumber,
    /// Nothing that can be done: fewer than [`MIN_OUTCOMES`] outcomes.
    CountTooSmall,
    /// Nothing that can be done: `expected` odds were announced and `found`
    /// operands follow the count.
    Mismatch { expected: usize, found: usize },
    /// The calculation: operands 2 to `count + 1` are the odds, followed by
    /// the capital where `capital` is set.
    Compute { count: usize, capital: bool },
}

/// What the operands of a correlated portfolio ask for.
#[derive(Clone, Copy, Debug, PartialEq, Eq, Structural)]
pub enum CorrelatedRequest {
    /// Nothing that can be done: a count is missing.
    TooFew,
    /// Nothing that can be done: the number of legs is not a count.
    LegsNotNumber,
    /// Nothing that can be done: the number of legs is not between 1 and
    /// [`MAX_LEGS`].
    LegsOutOfRange,
    /// Nothing that can be done: the number of scenarios is not a count.
    ScenariosNotNumber,
    /// Nothing that can be done: the number of scenarios is not between
    /// [`MIN_SCENARIOS`] and [`MAX_SCENARIOS`].
    ScenariosOutOfRange,
    /// Nothing that can be done: the operands are not `scenarios` blocks of
    /// one probability and `legs` returns.
    Mismatch { legs: usize, scenarios: usize },
    /// The calculation: from operand 3 on stand `scenarios` blocks of one
    /// probability and `legs` returns, followed by the capital where
    /// `capital` is set.
    Compute { legs: usize, scenarios: usize, capital: bool },
}

/// What the operands of a portfolio of independent legs ask for.
#[derive(Clone, Copy, Debug, PartialEq, Eq, Structural)]
pub enum PortfolioRequest {
    /// Nothing that can be done: there is no input at all.
    TooFew,
    /// The calculation from described legs: operands 1 to `legs` each
    /// describe a leg, followed by the capital where `capital` is set.
    Described { legs: usize, capital: bool },
    /// Nothing that can be done: the number of legs is not between
    /// [`MIN_LEGS`] and [`MAX_LEGS`].
    LegsOutOfRange,
    /// Nothing that can be done: `expected` pairs of odds and win rate were
    /// announced and `found` pairs follow the count.
    Mismatch { expected: usize, found: usize },
    /// The calculation from counted legs: from operand 2 on stand `legs`
    /// pairs of odds and win rate, followed by the capital where `capital`
    /// is set.
    Counted { legs: usize, capital: bool },
}

/// Whether a portfolio may hold so many described legs.
#[derive(Clone, Copy, Debug, PartialEq, Eq, Structural)]
pub enum PortfolioSize {
    /// Fewer than [`MIN_LEGS`] legs.
    TooSmall,
    /// Between [`MIN_LEGS`] and [`MAX_LEGS`] legs.
    Fits,
    /// More than [`MAX_LEGS`] legs.
    TooLarge,
}

/// What the arguments of a single bet ask for, by their number.
pub open spec fn standard_request(args: Seq<Seq<char>>) -> StandardRequest {
    if args.len() == 2 {
        if is_help(args[1]) {
            StandardRequest::Usage
        } else if is_version(args[1]) {
            StandardRequest::Version
        } else {
            StandardRequest::TooFew
        }
    } else if args.len() == 3 {
        StandardRequest::Compute { capital: false }
    } else if args.len() == 4 {
        StandardRequest::Compute { capital: true }
    } else {
        StandardRequest::Malformed
    }
}

/// What `count` operands ask of a mode with `inputs` inputs, which may be
/// followed by the capital where `with_capital` is set.
pub open spec fn fixed_request(count: nat, inputs: nat, with_capital: bool) -> FixedRequest {
    if count == 1 {
        FixedRequest::TooFew
    } else if count == inputs + 1 {
        FixedRequest::Compute { capital: false }
    } else if with_capital && count == inputs + 2 {
        FixedRequest::Compute { capital: true }
    } else {
        FixedRequest::Malformed
    }
}

/// What the operands of a multi-way arbitrage ask for.
pub open spec fn multi_arbitrage_request(operands: Seq<Seq<char>>) -> MultiArbitrageRequest {
    if operands.len() < 2 {
        MultiArbitrageRequest::TooFew
    } else {
        match count_of(operands[1]) {
            None => MultiArbitrageRequest::CountNotNumber,
            Some(count) => if count < MIN_OUTCOMES {
                MultiArbitrageRequest::CountTooSmall
            } else if operands.len() == count + 2 {
                MultiArbitrageRequest::Compute { count, capital: false }
            } else if operands.len() == count + 3 {
                MultiArbitrageRequest::Compute { count, capital: true }
            } else {
                MultiArbitrageRequest::Mismatch {
                    expected: count,
                    found: (operands.len() - 2) as usize,
                }
            },
        }
    }
}

/// What the operands of a correlated portfolio ask for.
pub open spec fn correlated_request(operands: Seq<Seq<char>>) -> CorrelatedRequest {
    if operands.len() < 3 {
        CorrelatedRequest::TooFew
    } else {
        match count_of(operands[1]) {
            None => CorrelatedRequest::LegsNotNumber,
            Some(legs) => if !(1 <= legs <= MAX_LEGS) {
                CorrelatedRequest::LegsOutOfRange
            } else {
                match count_of(operands[2]) {
                    None => CorrelatedRequest::ScenariosNotNumber,
                    Some(scenarios) => if !(MIN_SCENARIOS <= scenarios <= MAX_SCENARIOS) {
                        CorrelatedRequest::ScenariosOutOfRange
                    } else if operands.len() == 3 + scenarios * (1 + legs) {
                        CorrelatedRequest::Compute { legs, scenarios, capital: false }
                    } else if operands.len() == 4 + scenarios * (1 + legs) {
                        CorrelatedRequest::Compute { legs, scenarios, capital: true }
                    } else {
                        CorrelatedRequest::Mismatch { legs, scenarios }
                    },
                }
            },
        }
    }
}

/// Whether `text` can describe a leg: descriptions hold a colon.
pub open spec fn describes_leg(text: Seq<char>) -> bool {
    text.contains(':')
}

/// What the operands of a portfolio of independent legs ask for. Where the
/// first input is a count, pairs of odds and win rate follow. Where it is
/// not, every input describes a leg, but for the last of three or more that
/// holds no colon: that one is the capital.
pub open spec fn portfolio_request(operands: Seq<Seq<char>>) -> PortfolioRequest {
    if operands.len() < 2 {
        PortfolioRequest::TooFew
    } else {
        match count_of(operands[1]) {
            None => if operands.len() > 2 && !describes_leg(operands.last()) {
                PortfolioRequest::Described { legs: (operands.len() - 2) as usize, capital: true }
            } else {
                PortfolioRequest::Described { legs: (operands.len() - 1) as usize, capital: false }
            },
            Some(legs) => if !(MIN_LEGS <= legs <= MAX_LEGS) {
                PortfolioRequest::LegsOutOfRange
            } else if operands.len() == 2 + 2 * legs {
                PortfolioRequest::Counted { legs, capital: false }
            } else if operands.len() == 3 + 2 * legs {
                PortfolioRequest::Counted { legs, capital: true }
            } else {
                PortfolioRequest::Mismatch {
                    expected: legs,
                    found: ((operands.len() - 2) / 2) as usize,
                }
            },
        }
    }
}

/// Whether a portfolio may hold `legs` legs.
pub open spec fn portfolio_size(legs: nat) -> PortfolioSize {
    if legs < MIN_LEGS {
        PortfolioSize::TooSmall
    } else if legs > MAX_LEGS {
        PortfolioSize::TooLarge
    } else {
        PortfolioSize::Fits
    }
}

/// What the arguments of a single bet ask for, by their number: two
/// arguments beside the program's name are odds and win rate, three are
/// odds, win rate and capital.
pub fn handle_standard(args: &[String]) -> (request: StandardRequest)
    ensures
        request == standard_request(texts(args@)),
{
    if args.len() == 2 {
        if is_help_flag(args[1].as_str()) {
            StandardRequest::Usage
        } else if is_version_flag(args[1].as_str()) {
            StandardRequest::Version
        } else {
            StandardRequest::TooFew
        }
    } else if args.len() == 3 {
        StandardRequest::Compute { capital: false }
    } else if args.len() == 4 {
        StandardRequest::Compute { capital: true }
    } else {
        StandardRequest::Malformed
    }
}

fn read_fixed(count: usize, inputs: usize, with_capital: bool) -> (request: FixedRequest)
    requires
        inputs <= 8,
    ensures
        request == fixed_request(count as nat, inputs as nat, with_capital),
{
    if count == 1 {
        FixedRequest::TooFew
    } else if count == inputs + 1 {
        FixedRequest::Compute { capital: false }
    } else if with_capital && count == inputs + 2 {
        FixedRequest::Compute { capital: true }
    } else {
        FixedRequest::Malformed
    }
}

/// The operands of a prediction-market contract, which are the arguments
/// without `-p`, and what they ask for: market price and probability, with or
/// without the capital.
pub fn handle_polymarket(args: &[String]) -> (reading: (Vec<String>, FixedRequest))
    ensures
        texts(reading.0@) == without(texts(args@), "-p"@),
        reading.1 == fixed_request(without(texts(args@), "-p"@).len(), 2, true),
{
    let operands = without_flag(args, "-p");
    let request = read_fixed(operands.len(), 2, true);
    (operands, request)
}

/// The operands of a stock trade, which are the arguments without `-s`, and
/// what they ask for: entry price, target, stop and win rate, with or without
/// the capital.
pub fn handle_stock(args: &[String]) -> (reading: (Vec<String>, FixedRequest))
    ensures
        texts(reading.0@) == without(texts(args@), "-s"@),
        reading.1 == fixed_request(without(texts(args@), "-s"@).len(), 4, true),
{
    let operands = without_flag(args, "-s");
    let request = read_fixed(operands.len(), 4, true);
    (operands, request)
}

/// The operands of a two-way arbitrage, which are the arguments without `-a`,
/// and what they ask for: the odds of the two sides, with or without the
/// capital.
pub fn handle_arbitrage(args: &[String]) -> (reading: (Vec<String>, FixedRequest))
    ensures
        texts(reading.0@) == without(texts(args@), "-a"@),
        reading.1 == fixed_request(without(texts(args@), "-a"@).len(), 2, true),
{
    let operands = without_flag(args, "-a");
    let request = read_fixed(operands.len(), 2, true);
    (operands, request)
}

/// The operands of a two-by-two game, which are the arguments without `-n`,
/// and what they ask for: the eight payoffs, and never a capital.
pub fn handle_nash(args: &[String]) -> (reading: (Vec<String>, FixedRequest))
    ensures
        texts(reading.0@) == without(texts(args@), "-n"@),
        reading.1 == fixed_request(without(texts(args@), "-n"@).len(), 8, false),
{
    let operands = without_flag(args, "-n");
    let request = read_fixed(operands.len(), 8, false);
    (operands, request)
}

/// The operands of a multi-way arbitrage, which are the arguments without
/// `-A`, and what they ask for: the number of outcomes and as many odds, with
/// or without the capital.
pub fn handle_multi_arbitrage(args: &[String]) -> (reading: (Vec<String>, MultiArbitrageRequest))
    ensures
        texts(reading.0@) == without(texts(args@), "-A"@),
        reading.1 == multi_arbitrage_request(without(texts(args@), "-A"@)),
{
    let operands = without_flag(args, "-A");
    let found = operands.len();
    if found < 2 {
        return (operands, MultiArbitrageRequest::TooFew);
    }
    assert(texts(operands@)[1] == operands@[1]@);
    let request = match parse_count(operands[1].as_str()) {
        None => MultiArbitrageRequest::CountNotNumber,
        Some(count) => {
            if count < MIN_OUTCOMES {
                MultiArbitrageRequest::CountTooSmall
            } else if found - 2 == count {
                MultiArbitrageRequest::Compute { count, capital: false }
            } else if found >= 3 && found - 3 == count {
                MultiArbitrageRequest::Compute { count, capital: true }
            } else {
                MultiArbitrageRequest::Mismatch { expected: count, found: found - 2 }
            }
        },
    };
    (operands, request)
}

/// The operands of a correlated portfolio, which are the arguments without
/// `-K`, and what they ask for: the number of legs, the number of scenarios,
/// and for each scenario its probability and the return of each leg, with or
/// without the capital.
pub fn handle_portfolio_correlated(args: &[String]) -> (reading: (Vec<String>, CorrelatedRequest))
    ensures
        texts(reading.0@) == without(texts(args@), "-K"@),
        reading.1 == correlated_request(without(texts(args@), "-K"@)),
{
    let operands = without_flag(args, "-K");
    let found = operands.len();
    if found < 3 {
        return (operands, CorrelatedRequest::TooFew);
    }
    assert(texts(operands@)[1] == operands@[1]@);
    assert(texts(operands@)[2] == operands@[2]@);
    let legs = match parse_count(operands[1].as_str()) {
        None => {
            return (operands, CorrelatedRequest::LegsNotNumber);
        },
        Some(legs) => legs,
    };
    if legs < 1 || legs > MAX_LEGS {
        return (operands, CorrelatedRequest::LegsOutOfRange);
    }
    let scenarios = match parse_count(operands[2].as_str()) {
        None => {
            return (operands, CorrelatedRequest::ScenariosNotNumber);
        },
        Some(scenarios) => scenarios,
    };
    if scenarios < MIN_SCENARIOS || scenarios > MAX_SCENARIOS {
        return (operands, CorrelatedRequest::ScenariosOutOfRange);
    }
    assert(scenarios * (1 + legs) <= 128 * 13) by (nonlinear_arith)
        requires
            scenarios <= 128,
            legs <= 12,
    ;
    let expected = 3 + scenarios * (1 + legs);
    let request = if found == expected {
        CorrelatedRequest::Compute { legs, scenarios, capital: false }
    } else if found == expected + 1 {
        CorrelatedRequest::Compute { legs, scenarios, capital: true }
    } else {
        CorrelatedRequest::Mismatch { legs, scenarios }
    };
    (operands, request)
}

/// Whether `text` can describe a leg: descriptions hold a colon.
pub fn is_description(text: &str) -> (described: bool)
    ensures
        described == describes_leg(text@),
{
    for ch in it: text.chars()
        invariant
            it.seq() == text@,
            forall|i: int| 0 <= i < it.index() ==> text@[i] != ':',
    {
        if ch == ':' {
            assert(text@[it.index() as int] == ':');
            return true;
        }
    }
    false
}

/// The operands of a portfolio of independent legs, which are the arguments
/// without `-k`, and what they ask for: legs by description, or a count and
/// as many pairs of odds and win rate, with or without the capital.
pub fn handle_portfolio(args: &[String]) -> (reading: (Vec<String>, PortfolioRequest))
    ensures
        texts(reading.0@) == without(texts(args@), "-k"@),
        reading.1 == portfolio_request(without(texts(args@), "-k"@)),
{
    let operands = without_flag(args, "-k");
    let found = operands.len();
    if found < 2 {
        return (operands, PortfolioRequest::TooFew);
    }
    assert(texts(operands@)[1] == operands@[1]@);
    assert(texts(operands@).last() == operands@[found - 1]@);
    let request = match parse_count(operands[1].as_str()) {
        None => {
            if found > 2 && !is_description(operands[found - 1].as_str()) {
                PortfolioRequest::Described { legs: found - 2, capital: true }
            } else {
                PortfolioRequest::Described { legs: found - 1, capital: false }
            }
        },
        Some(legs) => {
            if legs < MIN_LEGS || legs > MAX_LEGS {
                PortfolioRequest::LegsOutOfRange
            } else if found == 2 + 2 * legs {
                PortfolioRequest::Counted { legs, capital: false }
            } else if found == 3 + 2 * legs {
                PortfolioRequest::Counted { legs, capital: true }
            } else {
                PortfolioRequest::Mismatch { expected: legs, found: (found - 2) / 2 }
            }
        },
    };
    (operands, request)
}

/// Whether a portfolio may hold `legs` legs.
pub fn check_portfolio_size(legs: usize) -> (size: PortfolioSize)
    ensures
        size == portfolio_size(legs as nat),
{
    if legs < MIN_LEGS {
        PortfolioSize::TooSmall
    } else if legs > MAX_LEGS {
        PortfolioSize::TooLarge
    } else {
        PortfolioSize::Fits
    }
}

} // verus!
