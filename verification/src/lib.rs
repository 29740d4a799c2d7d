//! Decision core of a position-sizing calculator.
//!
//! The calculator sizes single bets, and portfolios of simultaneous
//! positions ("legs") by maximising expected logarithmic growth with a
//! projected gradient ascent. Its arithmetic is done in double precision by
//! the program around this crate. What is exact and discrete is decided
//! here:
//!
//! - [`states`]: which legs win in which joint outcome of independent legs,
//!   and whether a scenario of correlated legs is sound;
//! - [`start`]: where a leg starts;
//! - [`objective`]: which states enter the objective, and whether an
//!   allocation ruins the investor in one of them;
//! - [`search`]: what the ascent does next, and when it stops;
//! - [`bits`]: how two double-precision numbers compare, told from their bit
//!   patterns;
//! - [`simplex`]: in which order the simplex projection takes its components,
//!   and where it finds its threshold;
//! - [`summary`]: which outcome state decides the worst-case multiplier;
//! - [`cli`], [`modes`], [`number`], [`descriptor`]: what a command line asks
//!   for, and where each input stands;
//! - [`dialogue`]: which question a dialogue asks next;
//! - [`text`]: text for JSON output;
//! - [`types`]: the kinds of legs.

pub mod bits;
pub mod cli;
pub mod descriptor;
pub mod dialogue;
pub mod modes;
pub mod number;
pub mod objective;
pub mod search;
pub mod simplex;
pub mod start;
pub mod states;
pub mod summary;
pub mod text;
pub mod types;
