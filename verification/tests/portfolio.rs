//! The decisions of the library at work: a caller that does the arithmetic in
//! floating point around them, on portfolios whose optimum is known.

use bo::objective::{first_ruin, weighs, Standing};
use bo::search::{Event, Margins, Phase, Search};
use bo::simplex::{breakpoint, descending_order};
use bo::start::{single_leg_start, LegNumbers, Start};
use bo::states::{check_scenario, enumerate_independent_states};
use bo::summary::worst_state;

const CAP: f64 = 0.999_999;

struct Leg {
    win_prob: f64,
    win_return: f64,
    loss_return: f64,
}

struct Scenario {
    probability: f64,
    returns: Vec<f64>,
}

struct Sizing {
    allocations: Vec<f64>,
    total_allocation: f64,
    expected_log_growth: f64,
    worst_case_multiplier: f64,
    converged: bool,
    iterations: usize,
}

fn leg(odds: f64, win_rate: f64) -> Leg {
    Leg {
        win_prob: win_rate,
        win_return: odds - 1.0,
        loss_return: -1.0,
    }
}

fn independent_states(legs: &[Leg]) -> Vec<Scenario> {
    enumerate_independent_states(legs.len())
        .iter()
        .map(|wins| {
            let mut probability = 1.0;
            let mut returns = Vec::new();
            for (leg, &win) in legs.iter().zip(wins) {
                if win {
                    probability *= leg.win_prob;
                    returns.push(leg.win_return);
                } else {
                    probability *= 1.0 - leg.win_prob;
                    returns.push(leg.loss_return);
                }
            }
            Scenario {
                probability,
                returns,
            }
        })
        .collect()
}

fn bits(values: &[f64]) -> Vec<u64> {
    values.iter().map(|v| v.to_bits()).collect()
}

fn wealth(allocations: &[f64], returns: &[f64]) -> f64 {
    1.0 + allocations
        .iter()
        .zip(returns)
        .map(|(f, r)| f * r)
        .sum::<f64>()
}

fn standings(allocations: &[f64], states: &[Scenario]) -> Vec<Standing> {
    states
        .iter()
        .map(|state| Standing {
            probability: state.probability.to_bits(),
            wealth: wealth(allocations, &state.returns).to_bits(),
        })
        .collect()
}

fn objective_and_gradient(
    standings: &Vec<Standing>,
    leg_count: usize,
    states: &[Scenario],
) -> (f64, Vec<f64>) {
    let ruin = first_ruin(standings);
    let expected = states
        .iter()
        .zip(standings)
        .position(|(s, at)| s.probability > 0.0 && f64::from_bits(at.wealth) <= 0.0);
    assert_eq!(ruin, expected);

    let mut objective = 0.0;
    let mut gradient = vec![0.0; leg_count];
    for (state, standing) in states.iter().zip(standings).take(ruin.unwrap_or(states.len())) {
        assert_eq!(weighs(standing.probability), state.probability > 0.0);
        if !weighs(standing.probability) {
            continue;
        }
        let w = f64::from_bits(standing.wealth);
        objective += state.probability * w.ln();
        for (i, ret) in state.returns.iter().enumerate() {
            gradient[i] += state.probability * ret / w;
        }
    }
    match ruin {
        Some(_) => (f64::NEG_INFINITY, gradient),
        None => (objective, gradient),
    }
}

fn project_to_simplex(values: &[f64], cap: f64) -> Vec<f64> {
    let mut non_negative: Vec<f64> = values.iter().map(|v| v.max(0.0)).collect();
    let sum: f64 = non_negative.iter().sum();
    if sum <= cap {
        return non_negative;
    }
    let sorted: Vec<f64> = descending_order(&bits(&non_negative))
        .into_iter()
        .map(|i| non_negative[i])
        .collect();
    let mut cumulative = 0.0;
    let candidates: Vec<f64> = sorted
        .iter()
        .enumerate()
        .map(|(i, v)| {
            cumulative += v;
            (cumulative - cap) / (i as f64 + 1.0)
        })
        .collect();
    let theta = match breakpoint(&bits(&sorted), &bits(&candidates)) {
        Some(at) => candidates[at],
        None => 0.0,
    };
    for v in &mut non_negative {
        *v = (*v - theta).max(0.0);
    }
    non_negative
}

fn single_leg_fraction(leg: &Leg) -> f64 {
    let (u, d, p) = (leg.win_return, leg.loss_return, leg.win_prob);
    let fraction = -(p * u + (1.0 - p) * d) / (u * d);
    let numbers = LegNumbers {
        win_prob: p.to_bits(),
        win_return: u.to_bits(),
        loss_return: d.to_bits(),
        spread: (u - d).abs().to_bits(),
        fraction: fraction.to_bits(),
    };
    match single_leg_start(numbers, 1e-12f64.to_bits()) {
        Start::Nothing => 0.0,
        Start::Cap => CAP,
        Start::Fraction => fraction,
    }
}

fn solve(leg_count: usize, states: &[Scenario], mut allocations: Vec<f64>) -> Sizing {
    let mut search = Search::begin(leg_count, states.len());
    if search.phase() == Phase::Done {
        return Sizing {
            allocations: vec![0.0; leg_count],
            total_allocation: 0.0,
            expected_log_growth: 0.0,
            worst_case_multiplier: 1.0,
            converged: search.converged(),
            iterations: search.iterations(),
        };
    }

    let margins = Margins {
        convergence: 1e-10f64.to_bits(),
        smallest_step: 1e-10f64.to_bits(),
    };
    let mut step = 0.25;
    let mut local_step = step;
    let mut objective = 0.0;
    let mut gradient = vec![0.0; leg_count];
    let mut evaluations = 0;
    loop {
        match search.phase() {
            Phase::Done => break,
            Phase::Evaluate => {
                let standings = standings(&allocations, states);
                (objective, gradient) = objective_and_gradient(&standings, leg_count, states);
                evaluations += 1;
                local_step = step;
                let event = Event::Evaluated {
                    standings,
                    objective: objective.to_bits(),
                };
                search = search.advance(&event, margins).unwrap();
            }
            Phase::Trial => {
                let candidate: Vec<f64> = allocations
                    .iter()
                    .zip(&gradient)
                    .map(|(f, g)| f + local_step * g)
                    .collect();
                let projected = project_to_simplex(&candidate, CAP);
                let standings = standings(&projected, states);
                let (next_objective, _) = objective_and_gradient(&standings, leg_count, states);
                let shorter = local_step * 0.5;
                let event = Event::Tried {
                    standings,
                    objective: next_objective.to_bits(),
                    bar: (objective + 1e-12).to_bits(),
                    gain: (next_objective - objective).to_bits(),
                    shorter: shorter.to_bits(),
                };
                search = search.advance(&event, margins).unwrap();
                assert_eq!(search.moved(), next_objective > objective + 1e-12);
                if search.moved() {
                    allocations = projected;
                    step = (local_step * 1.15).min(1.0);
                } else {
                    local_step = shorter;
                }
            }
        }
    }
    assert_eq!(search.iterations(), evaluations);

    let standings = standings(&allocations, states);
    let (expected_log_growth, _) = objective_and_gradient(&standings, leg_count, states);
    if search.converged() || search.moved() {
        assert!(standings.iter().all(|at| {
            !(f64::from_bits(at.probability) > 0.0) || f64::from_bits(at.wealth) > 0.0
        }));
    }
    let worst_case_multiplier = match worst_state(&standings, 1e-15f64.to_bits()) {
        Some(worst) => f64::from_bits(standings[worst].wealth),
        None => 0.0,
    };

    Sizing {
        total_allocation: allocations.iter().sum(),
        allocations,
        expected_log_growth,
        worst_case_multiplier,
        converged: search.converged(),
        iterations: search.iterations(),
    }
}

fn size_independent(legs: &[Leg]) -> Sizing {
    let states = independent_states(legs);
    let start: Vec<f64> = legs.iter().map(single_leg_fraction).collect();
    solve(legs.len(), &states, project_to_simplex(&start, CAP))
}

fn size_correlated(leg_count: usize, scenarios: &[Scenario]) -> Sizing {
    let mut edges = vec![0.0; leg_count];
    for scenario in scenarios {
        let sound = check_scenario(
            leg_count,
            scenario.probability.to_bits(),
            &bits(&scenario.returns),
        );
        assert_eq!(sound, Ok(()));
        for (i, ret) in scenario.returns.iter().enumerate() {
            edges[i] += scenario.probability * ret;
        }
    }
    solve(leg_count, scenarios, project_to_simplex(&edges, CAP))
}

fn scenario(probability: f64, returns: &[f64]) -> Scenario {
    Scenario {
        probability,
        returns: returns.to_vec(),
    }
}

#[test]
fn projection_keeps_what_fits_and_shifts_what_does_not() {
    assert_eq!(project_to_simplex(&[0.2, -0.5, 0.3], 1.0), vec![0.2, 0.0, 0.3]);
    let shifted = project_to_simplex(&[0.9, 0.5, 0.1], 1.0);
    // The shift of 0.2 empties the smallest component.
    assert!((shifted[0] - 0.7).abs() < 1e-12);
    assert!((shifted[1] - 0.3).abs() < 1e-12);
    assert_eq!(shifted[2], 0.0);
    let even = project_to_simplex(&[2.5, 2.5], CAP);
    assert!((even[0] - CAP / 2.0).abs() < 1e-12);
    assert_eq!(even[0], even[1]);
}

#[test]
fn symmetric_bets_have_symmetric_allocations() {
    let legs = vec![leg(2.0, 0.6), leg(2.0, 0.6)];
    let result = size_independent(&legs);
    let diff = (result.allocations[0] - result.allocations[1]).abs();
    assert!(diff < 1e-6);
    assert!(result.allocations[0] > 0.0);
}

#[test]
fn negative_edge_bet_gets_near_zero_allocation() {
    let legs = vec![leg(2.0, 0.6), leg(2.0, 0.4)];
    let result = size_independent(&legs);
    assert!(result.allocations[0] > 0.0);
    assert!(result.allocations[1] < 1e-8);
}

#[test]
fn total_allocation_respects_budget_constraint() {
    let legs = vec![leg(2.0, 0.6), leg(2.5, 0.5), leg(3.0, 0.4)];
    let result = size_independent(&legs);
    assert!(result.total_allocation < 1.0);
    assert!(result.total_allocation >= 0.0);
    assert!(result.worst_case_multiplier > 0.0);
}

#[test]
fn stock_like_leg_is_supported() {
    let legs = vec![Leg {
        win_prob: 0.6,
        win_return: 0.2,
        loss_return: -0.1,
    }];
    let result = size_independent(&legs);
    assert!(result.total_allocation > 0.0);
}

#[test]
fn worst_case_multiplier_reflects_leg_loss_return() {
    let legs = vec![Leg {
        win_prob: 0.6,
        win_return: 0.2,
        loss_return: -0.1,
    }];
    let result = size_independent(&legs);
    assert!(result.total_allocation > 0.95);
    assert!(result.worst_case_multiplier > 0.85);
    assert!(result.worst_case_multiplier <= 1.0);
}

#[test]
fn deterministic_positive_leg_has_worst_case_above_one() {
    let legs = vec![Leg {
        win_prob: 1.0,
        win_return: 0.05,
        loss_return: 0.05,
    }];
    let result = size_independent(&legs);
    assert!(result.total_allocation > 0.95);
    assert!(result.worst_case_multiplier > 1.04);
    assert!((result.worst_case_multiplier - (1.0 + 0.05 * CAP)).abs() < 1e-9);
}

#[test]
fn worst_case_ignores_zero_probability_states() {
    let legs = vec![leg(2.0, 1.0), leg(2.0, 1.0)];
    let result = size_independent(&legs);
    assert!(result.worst_case_multiplier > 1.9);
}

#[test]
fn correlated_joint_drawdown_reduces_total_allocation() {
    let scenarios = vec![scenario(0.5, &[0.2, 0.2]), scenario(0.5, &[-0.9, -0.9])];
    let result = size_correlated(2, &scenarios);
    assert!(result.total_allocation < 0.5);
    assert!(result.allocations[0] >= 0.0);
    assert!(result.allocations[1] >= 0.0);
}

#[test]
fn correlated_anti_correlation_allocates_to_both_legs() {
    let scenarios = vec![scenario(0.5, &[0.2, -0.1]), scenario(0.5, &[-0.1, 0.2])];
    let result = size_correlated(2, &scenarios);
    assert!(result.allocations[0] > 0.2);
    assert!(result.allocations[1] > 0.2);
    let diff = (result.allocations[0] - result.allocations[1]).abs();
    assert!(diff < 1e-6);
}

#[test]
fn correlated_zero_probability_scenario_is_ignored() {
    let scenarios = vec![scenario(1.0, &[0.2]), scenario(0.0, &[-0.9])];
    let result = size_correlated(1, &scenarios);
    assert!(result.total_allocation > 0.95);
    assert!((result.worst_case_multiplier - (1.0 + 0.2 * result.total_allocation)).abs() < 1e-12);
}

#[test]
fn two_even_money_bets_share_the_joint_optimum() {
    let legs = vec![leg(2.0, 0.6), leg(2.0, 0.6)];
    let result = size_independent(&legs);
    // The joint optimum solves 0.72 / (1 + 2f) = 0.32 / (1 - 2f): f = 5/26,
    // a little below the 0.2 of either bet alone.
    assert!((result.allocations[0] - 5.0 / 26.0).abs() < 1e-3);
    assert!((result.allocations[1] - 5.0 / 26.0).abs() < 1e-3);
    assert!(result.total_allocation < 1.0);
    assert!(result.worst_case_multiplier > 0.0);
    assert!(result.converged);
    assert!(result.iterations >= 1 && result.iterations <= 800);
    assert!(result.expected_log_growth > 0.0);
}

#[test]
fn anti_correlated_legs_take_more_than_independent_ones() {
    let hedged = size_correlated(
        2,
        &[scenario(0.5, &[1.0, -0.8]), scenario(0.5, &[-0.8, 1.0])],
    );
    let alone = size_independent(&[
        Leg {
            win_prob: 0.5,
            win_return: 1.0,
            loss_return: -0.8,
        },
        Leg {
            win_prob: 0.5,
            win_return: 1.0,
            loss_return: -0.8,
        },
    ]);
    assert!((hedged.allocations[0] - hedged.allocations[1]).abs() < 1e-6);
    assert!(hedged.allocations[0] > 0.0);
    assert!(hedged.allocations[0] > alone.allocations[0]);
    assert!(hedged.allocations[1] > alone.allocations[1]);
}

#[test]
fn co_moving_legs_take_less_than_independent_ones() {
    let together = size_correlated(
        2,
        &[scenario(0.5, &[1.0, 1.0]), scenario(0.5, &[-0.5, -0.5])],
    );
    let alone = size_independent(&[
        Leg {
            win_prob: 0.5,
            win_return: 1.0,
            loss_return: -0.5,
        },
        Leg {
            win_prob: 0.5,
            win_return: 1.0,
            loss_return: -0.5,
        },
    ]);
    assert!((together.total_allocation - 0.5).abs() < 1e-3);
    assert!(together.total_allocation < alone.total_allocation);
}

#[test]
fn a_portfolio_without_legs_or_states_needs_no_search() {
    let nothing = size_independent(&[]);
    assert!(nothing.allocations.is_empty());
    assert!(nothing.converged);
    assert_eq!(nothing.iterations, 0);
    assert_eq!(nothing.total_allocation, 0.0);
    assert_eq!(nothing.worst_case_multiplier, 1.0);

    let no_states = size_correlated(3, &[]);
    assert_eq!(no_states.allocations, vec![0.0, 0.0, 0.0]);
    assert!(no_states.converged);
    assert_eq!(no_states.iterations, 0);
}

#[test]
fn a_loss_beyond_the_capital_stops_the_search_at_once() {
    let scenarios = vec![scenario(0.9, &[3.0]), scenario(0.1, &[-1.5])];
    let result = size_correlated(1, &scenarios);
    assert!((result.allocations[0] - CAP).abs() < 1e-12);
    assert!(!result.converged);
    assert_eq!(result.iterations, 1);
    assert!(result.expected_log_growth.is_infinite());
    // The start is kept, and with it a worst case below nothing.
    assert!((result.worst_case_multiplier - (1.0 - 1.5 * result.allocations[0])).abs() < 1e-12);
    assert!(result.worst_case_multiplier < 0.0);
}

#[test]
fn the_budget_is_kept_up_to_rounding() {
    // The projected components add up to the cap only as closely as the
    // arithmetic allows: here the total comes out one unit in the last place
    // above it.
    let legs = [
        Leg {
            win_prob: 0.9075896783935383,
            win_return: 0.664505607346744,
            loss_return: -0.9909956195198998,
        },
        Leg {
            win_prob: 0.9915285523812325,
            win_return: 0.5849285115724349,
            loss_return: -0.8434991191764815,
        },
        Leg {
            win_prob: 0.7389763494158146,
            win_return: 1.0982112817065477,
            loss_return: -0.6947799930546532,
        },
    ];
    let result = size_independent(&legs);
    assert!(result.allocations.iter().all(|f| *f >= 0.0));
    assert!(result.total_allocation >= 0.0);
    assert!(result.total_allocation <= CAP + 1e-12);
    assert!(result.total_allocation < 1.0);
    assert!(result.worst_case_multiplier > 0.0);
}

#[test]
fn a_state_without_probability_ruins_nothing() {
    // The second scenario cannot occur: however much it would cost, the
    // search goes on to the cap.
    let scenarios = vec![scenario(1.0, &[0.2]), scenario(0.0, &[-5.0])];
    let result = size_correlated(1, &scenarios);
    assert!(result.total_allocation > 0.95);
    assert!(result.converged);
    assert!((result.worst_case_multiplier - (1.0 + 0.2 * result.total_allocation)).abs() < 1e-12);
    assert!(result.expected_log_growth > 0.0);
}
