use bo::objective::Standing;
use bo::search::{Event, Margins, Phase, Search, MAX_ITERATIONS, MAX_TRIALS};

const MARGINS: (f64, f64) = (1e-10, 1e-10);
const ACCEPTANCE: f64 = 1e-12;

fn margins() -> Margins {
    Margins {
        convergence: MARGINS.0.to_bits(),
        smallest_step: MARGINS.1.to_bits(),
    }
}

/// Two states of equal probability with the given wealth multipliers.
fn standings(wealth: [f64; 2]) -> Vec<Standing> {
    wealth
        .iter()
        .map(|w| Standing {
            probability: 0.5f64.to_bits(),
            wealth: w.to_bits(),
        })
        .collect()
}

fn afloat() -> Vec<Standing> {
    standings([1.2, 0.9])
}

fn evaluated(objective: f64) -> Event {
    Event::Evaluated {
        standings: afloat(),
        objective: objective.to_bits(),
    }
}

/// A trial step from the objective `from` to the objective `to`, after which
/// the step length would be `shorter`.
fn tried(from: f64, to: f64, shorter: f64) -> Event {
    Event::Tried {
        standings: afloat(),
        objective: to.to_bits(),
        bar: (from + ACCEPTANCE).to_bits(),
        gain: (to - from).to_bits(),
        shorter: shorter.to_bits(),
    }
}

fn advance(search: Search, event: Event) -> Search {
    search.advance(&event, margins()).unwrap()
}

#[test]
fn search_without_legs_is_over_at_once() {
    let search = Search::begin(0, 4);
    assert_eq!(search.phase(), Phase::Done);
    assert!(search.converged());
    assert!(!search.moved());
    assert_eq!(search.iterations(), 0);
    assert_eq!(search.trials(), 0);
}

#[test]
fn search_without_states_is_over_at_once() {
    let search = Search::begin(3, 0);
    assert_eq!(search.phase(), Phase::Done);
    assert!(search.converged());
    assert_eq!(search.iterations(), 0);
}

#[test]
fn search_starts_with_an_evaluation() {
    let search = Search::begin(2, 4);
    assert_eq!(search.phase(), Phase::Evaluate);
    assert!(!search.converged());
    assert!(!search.moved());
    assert_eq!(search.iterations(), 1);
    assert_eq!(search.trials(), 0);
}

#[test]
fn finite_objective_leads_to_a_trial() {
    for objective in [0.0, -0.0, 0.02, -35.5, f64::MAX, f64::MIN, 5e-324] {
        let search = advance(Search::begin(2, 4), evaluated(objective));
        assert_eq!(search.phase(), Phase::Trial);
        assert_eq!(search.iterations(), 1);
        assert_eq!(search.trials(), 0);
        assert!(!search.converged());
        assert!(!search.moved());
    }
}

#[test]
fn non_finite_objective_stops_without_convergence() {
    for objective in [f64::NEG_INFINITY, f64::INFINITY, f64::NAN, -f64::NAN] {
        let search = advance(Search::begin(1, 2), evaluated(objective));
        assert_eq!(search.phase(), Phase::Done);
        assert!(!search.converged());
        assert!(!search.moved());
        assert_eq!(search.iterations(), 1);
    }
}

#[test]
fn negligible_gain_converges() {
    let search = advance(Search::begin(1, 2), evaluated(0.02));
    let search = advance(search, tried(0.02, 0.02 + 5e-11, 0.125));
    assert_eq!(search.phase(), Phase::Done);
    assert!(search.converged());
    assert!(search.moved());
    assert_eq!(search.iterations(), 1);
}

#[test]
fn noticeable_gain_starts_the_next_iteration() {
    let search = advance(Search::begin(1, 2), evaluated(0.02));
    let search = advance(search, tried(0.02, 0.01, 0.125));
    assert_eq!(search.phase(), Phase::Trial);
    assert_eq!(search.trials(), 1);
    assert!(!search.moved());
    let search = advance(search, tried(0.02, 0.03, 0.0625));
    assert_eq!(search.phase(), Phase::Evaluate);
    assert_eq!(search.iterations(), 2);
    assert_eq!(search.trials(), 0);
    assert!(search.moved());
    assert!(!search.converged());
}

#[test]
fn a_step_is_accepted_only_above_the_bar() {
    let trial = advance(Search::begin(1, 2), evaluated(1.0));
    let bar = (1.0f64 + ACCEPTANCE).to_bits();
    let at = |objective: u64| {
        let event = Event::Tried {
            standings: afloat(),
            objective,
            bar,
            gain: 1.0f64.to_bits(),
            shorter: 0.125f64.to_bits(),
        };
        advance(trial, event).moved()
    };
    assert!(!at(bar));
    assert!(at(bar + 1));
    assert!(!at(bar - 1));
    assert!(!at(1.0f64.to_bits()));
    assert!(!at(f64::NEG_INFINITY.to_bits()));
    assert!(!at(f64::NAN.to_bits()));
    assert!(at(f64::INFINITY.to_bits()));
}

#[test]
fn a_gain_is_negligible_only_below_the_margin() {
    let trial = advance(Search::begin(1, 2), evaluated(1.0));
    let with_gain = |gain: f64| {
        let event = Event::Tried {
            standings: afloat(),
            objective: 2.0f64.to_bits(),
            bar: 1.0f64.to_bits(),
            gain: gain.to_bits(),
            shorter: 0.125f64.to_bits(),
        };
        advance(trial, event)
    };
    assert!(with_gain(9.999e-11).converged());
    assert!(!with_gain(1e-10).converged());
    assert!(!with_gain(1.0).converged());
    assert!(!with_gain(f64::NAN).converged());
    assert_eq!(with_gain(1e-10).phase(), Phase::Evaluate);
    assert_eq!(with_gain(9.999e-11).phase(), Phase::Done);
}

#[test]
fn exhausted_step_converges_at_once() {
    let search = advance(Search::begin(1, 2), evaluated(0.5));
    let search = advance(search, tried(0.5, 0.5, 9e-11));
    assert_eq!(search.phase(), Phase::Done);
    assert!(search.converged());
    assert!(!search.moved());
    assert_eq!(search.trials(), 1);
}

#[test]
fn a_step_of_the_smallest_length_is_still_tried() {
    let search = advance(Search::begin(1, 2), evaluated(0.5));
    let search = advance(search, tried(0.5, 0.5, 1e-10));
    assert_eq!(search.phase(), Phase::Trial);
    assert_eq!(search.trials(), 1);
}

#[test]
fn the_last_trial_of_an_iteration_converges_when_rejected() {
    let mut search = advance(Search::begin(1, 2), evaluated(0.5));
    for rejected in 1..MAX_TRIALS {
        search = advance(search, tried(0.5, 0.4, 0.125));
        assert_eq!(search.phase(), Phase::Trial);
        assert_eq!(search.trials(), rejected);
    }
    search = advance(search, tried(0.5, 0.4, 0.125));
    assert_eq!(search.phase(), Phase::Done);
    assert_eq!(search.trials(), 24);
    assert!(search.converged());
    assert_eq!(search.iterations(), 1);
}

#[test]
fn the_iteration_budget_ends_the_search_without_convergence() {
    let mut search = Search::begin(2, 4);
    for iteration in 1..=MAX_ITERATIONS {
        assert_eq!(search.phase(), Phase::Evaluate);
        assert_eq!(search.iterations(), iteration);
        search = advance(search, evaluated(iteration as f64));
        search = advance(search, tried(iteration as f64, iteration as f64 + 1.0, 0.125));
        assert!(search.moved());
    }
    assert_eq!(search.phase(), Phase::Done);
    assert!(!search.converged());
    assert_eq!(search.iterations(), 800);
}

#[test]
fn the_longest_search_takes_twenty_thousand_events() {
    let mut search = Search::begin(2, 4);
    let mut events = 0usize;
    while search.phase() != Phase::Done {
        search = match search.phase() {
            Phase::Evaluate => advance(search, evaluated(0.0)),
            _ if search.trials() + 1 < MAX_TRIALS => advance(search, tried(0.0, 0.0, 0.125)),
            _ => advance(search, tried(0.0, 1.0, 0.125)),
        };
        events += 1;
    }
    assert_eq!(events, MAX_ITERATIONS * (MAX_TRIALS + 1));
    assert_eq!(events, 20_000);
    assert_eq!(search.iterations(), 800);
}

#[test]
fn an_event_that_was_not_asked_for_is_refused() {
    let start = Search::begin(2, 4);
    assert!(start.advance(&tried(0.0, 1.0, 0.125), margins()).is_none());
    let trial = advance(start, evaluated(0.0));
    assert!(trial.advance(&evaluated(0.0), margins()).is_none());
    let done = advance(trial, tried(0.0, 5e-11, 0.125));
    assert_eq!(done.phase(), Phase::Done);
    assert!(done.advance(&evaluated(0.0), margins()).is_none());
    assert!(done.advance(&tried(0.0, 1.0, 0.125), margins()).is_none());
    let nothing = Search::begin(0, 0);
    assert!(nothing.advance(&evaluated(0.0), margins()).is_none());
}

#[test]
fn iterations_count_the_evaluations() {
    let mut search = Search::begin(3, 8);
    let mut evaluations = 0usize;
    for round in 0..10usize {
        search = advance(search, evaluated(round as f64));
        evaluations += 1;
        for _ in 0..round {
            search = advance(search, tried(round as f64, round as f64, 0.125));
        }
        let gain = if round == 9 { 5e-11 } else { 1.0 };
        search = advance(search, tried(round as f64, round as f64 + gain, 0.125));
    }
    assert_eq!(search.phase(), Phase::Done);
    assert!(search.converged());
    assert_eq!(search.iterations(), evaluations);
}

#[test]
fn an_allocation_that_ruins_the_investor_stops_the_search() {
    let event = Event::Evaluated {
        standings: standings([1.2, -0.1]),
        objective: 0.02f64.to_bits(),
    };
    let search = advance(Search::begin(1, 2), event);
    assert_eq!(search.phase(), Phase::Done);
    assert!(!search.converged());
    assert!(!search.moved());
}

#[test]
fn a_step_into_ruin_is_rejected_whatever_its_objective() {
    let trial = advance(Search::begin(1, 2), evaluated(0.02));
    let into = |wealth: [f64; 2]| {
        let event = Event::Tried {
            standings: standings(wealth),
            objective: 1.0f64.to_bits(),
            bar: 0.5f64.to_bits(),
            gain: 0.5f64.to_bits(),
            shorter: 0.125f64.to_bits(),
        };
        advance(trial, event)
    };
    assert!(into([1.2, 0.9]).moved());
    assert!(!into([1.2, 0.0]).moved());
    assert!(!into([-3.0, 0.9]).moved());
    assert_eq!(into([1.2, 0.0]).phase(), Phase::Trial);
    assert_eq!(into([1.2, 0.0]).trials(), 1);
}

#[test]
fn a_state_without_probability_does_not_stand_in_the_way() {
    let trial = advance(Search::begin(1, 2), evaluated(0.02));
    let event = Event::Tried {
        standings: vec![
            Standing {
                probability: 1.0f64.to_bits(),
                wealth: 1.2f64.to_bits(),
            },
            Standing {
                probability: 0.0f64.to_bits(),
                wealth: (-4.0f64).to_bits(),
            },
        ],
        objective: 1.0f64.to_bits(),
        bar: 0.5f64.to_bits(),
        gain: 0.5f64.to_bits(),
        shorter: 0.125f64.to_bits(),
    };
    assert!(advance(trial, event).moved());
}
