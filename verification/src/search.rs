//! Control of the projected gradient ascent.
//!
//! The ascent alternates numeric work with decisions. The numeric work
//! (evaluating the objective and its gradient, taking and projecting a trial
//! step) is the caller's; this module decides what is to be done next and
//! when the search is over. The caller reads [`Search::phase`], does that
//! work, and reports the numbers that it found with [`Search::advance`], as
//! bit patterns of double-precision numbers.
//!
//! One iteration is one evaluation followed by at most [`MAX_TRIALS`] trial
//! steps. A trial step that ruins the investor in no state and whose
//! objective is above the bar is accepted and ends the iteration: the caller
//! moves the allocation there. Any other is rejected, and the next trial
//! takes a shorter step.

use crate::bits::{is_above, is_at_most, is_finite, ZERO};
use crate::objective::{first_ruin, is_afloat, Standing};
use crate::summary::{decides, lemma_worst_is_above_zero};
use vstd::prelude::*;

verus! {

/// Largest number of iterations of one search.
pub const MAX_ITERATIONS: usize = 800;

/// Largest number of trial steps within one iteration.
pub const MAX_TRIALS: usize = 24;

/// The margins of a search, as bit patterns of double-precision numbers.
#[derive(Clone, Copy, Debug, PartialEq, Eq, Structural)]
pub struct Margins {
    /// The gain below which an accepted step ends the search as converged.
    pub convergence: u64,
    /// The step length below which no further step is tried.
    pub smallest_step: u64,
}

/// What the caller is to do next.
#[derive(Clone, Copy, Debug, PartialEq, Eq, Structural)]
pub enum Phase {
    /// Evaluate the objective and its gradient at the current allocation.
    Evaluate,
    /// Try a step along the gradient from the current allocation.
    Trial,
    /// Nothing: the search is over.
    Done,
}

/// What the caller found, as bit patterns of double-precision numbers.
#[derive(Clone, Debug)]
pub enum Event {
    /// The objective was evaluated at the current allocation.
    Evaluated {
        /// How the outcome states stand under the current allocation.
        standings: Vec<Standing>,
        /// The objective there.
        objective: u64,
    },
    /// A trial step was taken.
    Tried {
        /// How the outcome states stand under the allocation that the step
        /// leads to.
        standings: Vec<Standing>,
        /// The objective at that allocation.
        objective: u64,
        /// What that objective has to exceed for the step to be accepted:
        /// the objective at the current allocation plus the acceptance
        /// margin.
        bar: u64,
        /// The gain of the step: the objective that it leads to less the
        /// objective at the current allocation.
        gain: u64,
        /// The length of the step that the next trial would take.
        shorter: u64,
    },
}

/// The state of a search, as contracts see it.
pub struct SearchState {
    /// What is to be done next.
    pub phase: Phase,
    /// Iterations started so far.
    pub iterations: nat,
    /// Trial steps rejected so far in the current iteration.
    pub trials: nat,
    /// Whether the search ended because no step improved the objective
    /// noticeably.
    pub converged: bool,
    /// Whether the last event was a trial step that was accepted.
    pub moved: bool,
    /// How the outcome states stand under the current allocation, as last
    /// reported.
    pub current: Seq<Standing>,
}

/// How the outcome states stand under the allocation that `event` reports.
pub open spec fn reported(event: Event) -> Seq<Standing> {
    match event {
        Event::Evaluated { standings, .. } => standings@,
        Event::Tried { standings, .. } => standings@,
    }
}

/// The state in which a search over `leg_count` legs and `state_count`
/// outcome states starts. Without legs or without states there is nothing to
/// search: the search is over at once, and counts as converged.
pub open spec fn initial(leg_count: nat, state_count: nat) -> SearchState {
    if leg_count == 0 || state_count == 0 {
        SearchState {
            phase: Phase::Done,
            iterations: 0,
            trials: 0,
            converged: true,
            moved: false,
            current: Seq::empty(),
        }
    } else {
        SearchState {
            phase: Phase::Evaluate,
            iterations: 1,
            trials: 0,
            converged: false,
            moved: false,
            current: Seq::empty(),
        }
    }
}

/// Whether `event` answers what `state` asks for.
pub open spec fn fits(state: SearchState, event: Event) -> bool {
    match event {
        Event::Evaluated { .. } => state.phase == Phase::Evaluate,
        Event::Tried { .. } => state.phase == Phase::Trial,
    }
}

/// Whether the search goes on from the allocation that was evaluated: it
/// ruins the investor in no state, and the objective there is finite.
pub open spec fn is_sound(event: Event) -> bool {
    event is Evaluated && is_afloat(reported(event)) && is_finite(event->Evaluated_objective)
}

/// Whether a trial step is accepted: it ruins the investor in no state, and
/// its objective is above the bar.
pub open spec fn is_accepted(event: Event) -> bool {
    event is Tried && is_afloat(reported(event)) && is_above(
        event->Tried_objective,
        event->bar,
    )
}

/// Whether an accepted step gained so little that the search has converged:
/// its gain is below the margin of convergence.
pub open spec fn is_negligible(event: Event, margins: Margins) -> bool {
    event is Tried && is_above(margins.convergence, event->gain)
}

/// Whether no shorter step is worth a trial: the length that it would take
/// is below the smallest step.
pub open spec fn is_exhausted(event: Event, margins: Margins) -> bool {
    event is Tried && is_above(margins.smallest_step, event->shorter)
}

/// The state that follows `state` on `event`.
///
/// An evaluation that is not sound ends the search, which has not converged.
/// An accepted step ends the search as converged where its gain is
/// negligible; else it starts the next iteration, or ends the search, which
/// has not converged, where [`MAX_ITERATIONS`] iterations are done. A rejected
/// step ends the search as converged where the steps are exhausted or
/// [`MAX_TRIALS`] steps have been tried; else the next trial follows.
pub open spec fn step(state: SearchState, event: Event, margins: Margins) -> SearchState {
    match event {
        Event::Evaluated { .. } => if is_sound(event) {
            SearchState {
                phase: Phase::Trial,
                trials: 0,
                moved: false,
                current: reported(event),
                ..state
            }
        } else {
            SearchState {
                phase: Phase::Done,
                converged: false,
                moved: false,
                current: reported(event),
                ..state
            }
        },
        Event::Tried { .. } => if is_accepted(event) {
            if is_negligible(event, margins) {
                SearchState {
                    phase: Phase::Done,
                    converged: true,
                    moved: true,
                    current: reported(event),
                    ..state
                }
            } else if state.iterations < MAX_ITERATIONS {
                SearchState {
                    phase: Phase::Evaluate,
                    iterations: state.iterations + 1,
                    trials: 0,
                    converged: false,
                    moved: true,
                    current: reported(event),
                }
            } else {
                SearchState {
                    phase: Phase::Done,
                    converged: false,
                    moved: true,
                    current: reported(event),
                    ..state
                }
            }
        } else {
            if is_exhausted(event, margins) || state.trials + 1 >= MAX_TRIALS {
                SearchState {
                    phase: Phase::Done,
                    trials: state.trials + 1,
                    converged: true,
                    moved: false,
                    ..state
                }
            } else {
                SearchState { trials: state.trials + 1, moved: false, ..state }
            }
        },
    }
}

/// What holds of every state that a search can reach.
pub open spec fn well_formed(state: SearchState) -> bool {
    &&& state.iterations <= MAX_ITERATIONS
    &&& state.trials <= MAX_TRIALS
    &&& state.phase == Phase::Trial ==> state.trials < MAX_TRIALS
    &&& state.phase != Phase::Done ==> state.iterations >= 1 && !state.converged
    &&& state.phase != Phase::Done || state.converged || state.moved ==> is_afloat(state.current)
}

/// The state that a search reaches from `state` when the caller reports
/// `events` one after the other, or `None` when one of them does not answer
/// what was asked for.
pub open spec fn run(state: SearchState, events: Seq<Event>, margins: Margins) -> Option<
    SearchState,
>
    decreases events.len(),
{
    if events.len() == 0 {
        Some(state)
    } else if fits(state, events[0]) {
        run(step(state, events[0], margins), events.drop_first(), margins)
    } else {
        None
    }
}

/// The most events that a search in `state` can still take in.
pub open spec fn work_left(state: SearchState) -> nat {
    match state.phase {
        Phase::Done => 0,
        Phase::Evaluate => ((MAX_ITERATIONS - state.iterations + 1) * (MAX_TRIALS + 1)) as nat,
        Phase::Trial => ((MAX_ITERATIONS - state.iterations) * (MAX_TRIALS + 1) + (MAX_TRIALS
            - state.trials)) as nat,
    }
}

/// How many of `events` report an evaluation of the objective.
pub open spec fn evaluations(events: Seq<Event>) -> nat
    decreases events.len(),
{
    if events.len() == 0 {
        0
    } else {
        (if events[0] is Evaluated { 1nat } else { 0nat }) + evaluations(events.drop_first())
    }
}

/// Iterations of `state` whose evaluation has been reported.
pub open spec fn evaluated(state: SearchState) -> int {
    if state.phase == Phase::Evaluate {
        state.iterations - 1
    } else {
        state.iterations as int
    }
}

/// A step from a well-formed state leads to a well-formed state, and uses up
/// some of the work that was left.
pub proof fn lemma_step(state: SearchState, event: Event, margins: Margins)
    requires
        well_formed(state),
        fits(state, event),
    ensures
        well_formed(step(state, event, margins)),
        work_left(step(state, event, margins)) < work_left(state),
        evaluated(step(state, event, margins)) == evaluated(state) + (if event is Evaluated {
            1int
        } else {
            0int
        }),
{
    assert((MAX_ITERATIONS - state.iterations + 1) * (MAX_TRIALS + 1) == (MAX_ITERATIONS
        - state.iterations) * (MAX_TRIALS + 1) + (MAX_TRIALS + 1)) by (nonlinear_arith);
    assert((MAX_ITERATIONS - state.iterations) * (MAX_TRIALS + 1) >= 0) by (nonlinear_arith)
        requires
            state.iterations <= MAX_ITERATIONS,
    ;
    if state.iterations < MAX_ITERATIONS {
        assert((MAX_ITERATIONS - (state.iterations + 1) + 1) * (MAX_TRIALS + 1) == (MAX_ITERATIONS
            - state.iterations) * (MAX_TRIALS + 1));
    }
}

/// A search that an event brings to its end counts as converged exactly when
/// that event was a trial step: one accepted with a negligible gain, or one
/// rejected with no trial left. It does not when the evaluation was not
/// sound, or when the last iteration allowed still gained noticeably.
pub proof fn lemma_converged(state: SearchState, event: Event, margins: Margins)
    requires
        well_formed(state),
        fits(state, event),
        step(state, event, margins).phase == Phase::Done,
    ensures
        step(state, event, margins).converged <==> event is Tried && (!is_accepted(event)
            || is_negligible(event, margins)),
        event is Tried && !is_accepted(event) ==> is_exhausted(event, margins) || state.trials + 1
            == MAX_TRIALS,
        is_accepted(event) && !is_negligible(event, margins) ==> state.iterations
            == MAX_ITERATIONS,
        event is Evaluated ==> !is_sound(event),
{
}

/// The allocation moves exactly on an accepted trial step, and only where
/// the investor is ruined in no state.
pub proof fn lemma_moved(state: SearchState, event: Event, margins: Margins)
    requires
        fits(state, event),
    ensures
        step(state, event, margins).moved <==> is_accepted(event),
        step(state, event, margins).moved ==> step(state, event, margins).current == reported(
            event,
        ) && is_afloat(reported(event)),
{
}

/// A search that did not stop on an evaluation that was not sound ends at an
/// allocation whose worst-case multiplier is above zero: the state that
/// decides it, for a threshold of negligibility that is not below zero, has a
/// wealth multiplier above zero.
pub proof fn lemma_search_ends_afloat(state: SearchState, negligible: u64, worst: int)
    requires
        well_formed(state),
        state.phase == Phase::Done,
        state.converged || state.moved,
        is_at_most(ZERO, negligible),
        decides(state.current, negligible, worst),
    ensures
        is_above(state.current[worst].wealth, ZERO),
{
    lemma_worst_is_above_zero(state.current, negligible, worst);
}

/// However the caller's findings fall, a search stays well-formed, takes in
/// no more events than the work that was left, and has started one iteration
/// for each evaluation reported, plus the one that it is waiting for.
pub proof fn lemma_run(state: SearchState, events: Seq<Event>, margins: Margins)
    requires
        well_formed(state),
        run(state, events, margins) is Some,
    ensures
        well_formed(run(state, events, margins)->0),
        events.len() + work_left(run(state, events, margins)->0) <= work_left(state),
        evaluated(run(state, events, margins)->0) == evaluated(state) + evaluations(events),
    decreases events.len(),
{
    if events.len() > 0 {
        lemma_step(state, events[0], margins);
        lemma_run(step(state, events[0], margins), events.drop_first(), margins);
    }
}

/// A search takes in at most `MAX_ITERATIONS * (MAX_TRIALS + 1)` events, and
/// so asks for at most that many evaluations and trial steps. When it is
/// over, its iteration count is the number of evaluations that were reported.
pub proof fn lemma_search_is_bounded(
    leg_count: nat,
    state_count: nat,
    events: Seq<Event>,
    margins: Margins,
)
    requires
        run(initial(leg_count, state_count), events, margins) is Some,
    ensures
        events.len() <= MAX_ITERATIONS * (MAX_TRIALS + 1),
        run(initial(leg_count, state_count), events, margins)->0.iterations <= MAX_ITERATIONS,
        run(initial(leg_count, state_count), events, margins)->0.phase == Phase::Done ==> run(
            initial(leg_count, state_count),
            events,
            margins,
        )->0.iterations == evaluations(events),
{
    lemma_run(initial(leg_count, state_count), events, margins);
}

/// A search in progress.
#[derive(Clone, Copy)]
pub struct Search {
    phase: Phase,
    iterations: usize,
    trials: usize,
    converged: bool,
    moved: bool,
    current: Ghost<Seq<Standing>>,
}

impl View for Search {
    type V = SearchState;

    closed spec fn view(&self) -> SearchState {
        SearchState {
            phase: self.phase,
            iterations: self.iterations as nat,
            trials: self.trials as nat,
            converged: self.converged,
            moved: self.moved,
            current: self.current@,
        }
    }
}

impl Search {
    #[verifier::type_invariant]
    spec fn inv(&self) -> bool {
        well_formed(self@)
    }

    /// Starts a search over `leg_count` legs and `state_count` outcome states.
    pub fn begin(leg_count: usize, state_count: usize) -> (search: Search)
        ensures
            search@ == initial(leg_count as nat, state_count as nat),
            well_formed(search@),
    {
        if leg_count == 0 || state_count == 0 {
            Search {
                phase: Phase::Done,
                iterations: 0,
                trials: 0,
                converged: true,
                moved: false,
                current: Ghost(Seq::empty()),
            }
        } else {
            Search {
                phase: Phase::Evaluate,
                iterations: 1,
                trials: 0,
                converged: false,
                moved: false,
                current: Ghost(Seq::empty()),
            }
        }
    }

    /// What the caller is to do next.
    pub fn phase(&self) -> (phase: Phase)
        ensures
            phase == self@.phase,
            well_formed(self@),
    {
        proof {
            use_type_invariant(self);
        }
        self.phase
    }

    /// Iterations started so far.
    pub fn iterations(&self) -> (count: usize)
        ensures
            count == self@.iterations,
    {
        self.iterations
    }

    /// Trial steps rejected so far in the current iteration.
    pub fn trials(&self) -> (count: usize)
        ensures
            count == self@.trials,
    {
        self.trials
    }

    /// Whether the search ended because no step improved the objective
    /// noticeably.
    pub fn converged(&self) -> (flag: bool)
        ensures
            flag == self@.converged,
    {
        self.converged
    }

    /// Whether the last event was a trial step that was accepted: the caller
    /// is to move the allocation where the step led.
    pub fn moved(&self) -> (flag: bool)
        ensures
            flag == self@.moved,
    {
        self.moved
    }

    /// Takes in what the caller found. The result is `None`, and nothing
    /// changes, when `event` does not answer what the search asked for.
    pub fn advance(self, event: &Event, margins: Margins) -> (next: Option<Search>)
        ensures
            next is Some <==> fits(self@, *event),
            next is Some ==> next->0@ == step(self@, *event, margins),
            next is Some ==> well_formed(next->0@),
    {
        proof {
            use_type_invariant(&self);
        }
        match event {
            Event::Evaluated { standings, objective } => {
                if self.phase != Phase::Evaluate {
                    return None;
                }
                let afloat = first_ruin(standings).is_none();
                let current = Ghost(standings@);
                if afloat && is_finite(*objective) {
                    Some(Search { phase: Phase::Trial, trials: 0, moved: false, current, ..self })
                } else {
                    Some(
                        Search {
                            phase: Phase::Done,
                            converged: false,
                            moved: false,
                            current,
                            ..self
                        },
                    )
                }
            },
            Event::Tried { standings, objective, bar, gain, shorter } => {
                if self.phase != Phase::Trial {
                    return None;
                }
                let afloat = first_ruin(standings).is_none();
                let current = Ghost(standings@);
                if afloat && is_above(*objective, *bar) {
                    if is_above(margins.convergence, *gain) {
                        Some(
                            Search {
                                phase: Phase::Done,
                                converged: true,
                                moved: true,
                                current,
                                ..self
                            },
                        )
                    } else if self.iterations < MAX_ITERATIONS {
                        Some(
                            Search {
                                phase: Phase::Evaluate,
                                iterations: self.iterations + 1,
                                trials: 0,
                                converged: false,
                                moved: true,
                                current,
                            },
                        )
                    } else {
                        Some(
                            Search {
                                phase: Phase::Done,
                                converged: false,
                                moved: true,
                                current,
                                ..self
                            },
                        )
                    }
                } else if is_above(margins.smallest_step, *shorter) || self.trials + 1
                    >= MAX_TRIALS {
                    Some(
                        Search {
                            phase: Phase::Done,
                            trials: self.trials + 1,
                            converged: true,
                            moved: false,
                            ..self
                        },
                    )
                } else {
                    Some(Search { trials: self.trials + 1, moved: false, ..self })
                }
            },
        }
    }
}

} // verus!
