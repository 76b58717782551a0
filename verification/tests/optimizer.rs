use brumby::fixed::SCALE;
use brumby::objectives::{PeakObjective, SquareMatchObjective};
use brumby::optimizer::{gd, gd_traced, GradientDescentConfig, Objective, TraceSink};

/// A trace sink that keeps every residual the search evaluated, for checking
/// properties of the whole trajectory.
struct RecordingSink {
    iterations: Vec<u64>,
    residuals: Vec<i64>,
}

impl TraceSink for RecordingSink {
    fn record(
        &mut self,
        iteration: u64,
        _value: i64,
        _residual: i64,
        _step: i64,
        _new_value: i64,
        new_residual: i64,
        _gradient: i64,
    ) {
        self.iterations.push(iteration);
        self.residuals.push(new_residual);
    }
}

#[test]
fn gd_sqrt() {
    let config = GradientDescentConfig {
        init_value: 0,
        step: SCALE / 10,
        min_step: SCALE / 100_000,
        max_steps: 100,
    };
    let outcome = gd(config.clone(), &SquareMatchObjective { target: 81 * SCALE });
    assert!((outcome.optimal_value - 9 * SCALE).abs() <= config.min_step);
}

#[test]
fn gd_sqrt_exact_outcome() {
    let config = GradientDescentConfig {
        init_value: 0,
        step: SCALE / 10,
        min_step: SCALE / 100_000,
        max_steps: 100,
    };
    let outcome = gd(config, &SquareMatchObjective { target: 81 * SCALE });
    assert_eq!(outcome.iterations, 55);
    assert_eq!(outcome.optimal_value, 8_999_998_686);
    assert_eq!(outcome.optimal_residual, 0);
}

#[test]
fn gd_sqrt_negative_step() {
    // The sign of the initial step sets the initial direction: the same
    // search run leftward finds the negative root.
    let config = GradientDescentConfig {
        init_value: 0,
        step: -(SCALE / 10),
        min_step: SCALE / 100_000,
        max_steps: 100,
    };
    let outcome = gd(config.clone(), &SquareMatchObjective { target: 81 * SCALE });
    assert!((outcome.optimal_value + 9 * SCALE).abs() <= config.min_step);
    assert_eq!(outcome.optimal_value, -8_999_998_686);
}

#[test]
fn deterministic_outcomes() {
    let config = GradientDescentConfig {
        init_value: 0,
        step: SCALE / 10,
        min_step: SCALE / 100_000,
        max_steps: 100,
    };
    let objective = SquareMatchObjective { target: 81 * SCALE };
    let first = gd(config.clone(), &objective);
    let second = gd(config, &objective);
    assert_eq!(first.iterations, second.iterations);
    assert_eq!(first.optimal_value, second.optimal_value);
    assert_eq!(first.optimal_residual, second.optimal_residual);
}

#[test]
fn zero_budget_returns_initial_point() {
    let config = GradientDescentConfig {
        init_value: 12_345,
        step: SCALE / 10,
        min_step: 10,
        max_steps: 0,
    };
    let outcome = gd(config, &SquareMatchObjective { target: 81 * SCALE });
    assert_eq!(outcome.iterations, 0);
    assert_eq!(outcome.optimal_value, 12_345);
    assert_eq!(outcome.optimal_residual, 6_561_000_000_000);
}

#[test]
fn best_residual_never_worse_than_any_visited() {
    let config = GradientDescentConfig {
        init_value: 0,
        step: SCALE / 10,
        min_step: SCALE / 100_000,
        max_steps: 100,
    };
    let objective = SquareMatchObjective { target: 81 * SCALE };
    let initial_residual = objective.evaluate(0);
    let mut sink = RecordingSink { iterations: Vec::new(), residuals: Vec::new() };
    let outcome = gd_traced(config, &objective, &mut sink);
    assert!(outcome.optimal_residual <= initial_residual);
    for &residual in &sink.residuals {
        assert!(outcome.optimal_residual <= residual);
    }
    // The trace numbers iterations from one, one record per iteration.
    let expected: Vec<u64> = (1..=outcome.iterations).collect();
    assert_eq!(sink.iterations, expected);
}

#[test]
fn terminates_within_budget_on_diverging_objective() {
    // Walking away from the peak improves forever, so only the budget stops
    // the search.
    let config = GradientDescentConfig {
        init_value: 0,
        step: SCALE / 10,
        min_step: 1,
        max_steps: 50,
    };
    let outcome = gd(config, &PeakObjective { peak: 1_000_000_000_000_000 });
    assert_eq!(outcome.iterations, 50);
    assert_eq!(outcome.optimal_value, -2_350_000_000);
    assert_eq!(outcome.optimal_residual, -1_000_002_350_000_000);
}

#[test]
fn step_floor_stops_constant_overshoot() {
    // Starting below the peak, every proposal lands closer to it and looks
    // worse, so the step is reversed and halved each iteration: from 2^20
    // it falls under the floor of 1000 after exactly 11 halvings, well
    // before the budget of 100, and the best point is still the start.
    let config = GradientDescentConfig {
        init_value: 0,
        step: 1 << 20,
        min_step: 1000,
        max_steps: 100,
    };
    let outcome = gd(config, &PeakObjective { peak: 699_050 });
    assert_eq!(outcome.iterations, 11);
    assert_eq!(outcome.optimal_value, 0);
    assert_eq!(outcome.optimal_residual, -699_050);
}

#[test]
fn zero_step_plateaus_immediately() {
    // A zero step proposes the very point it stands on; the unchanged
    // residual reads as a plateau and stops the search after one iteration.
    let config = GradientDescentConfig { init_value: 7, step: 0, min_step: 1, max_steps: 100 };
    let outcome = gd(config, &SquareMatchObjective { target: 81 * SCALE });
    assert_eq!(outcome.iterations, 1);
    assert_eq!(outcome.optimal_value, 7);
    assert_eq!(outcome.optimal_residual, 6_561_000_000_000);
}

#[test]
fn square_match_residual_values() {
    let objective = SquareMatchObjective { target: 81 * SCALE };
    // At v = 9.0 the square matches the target exactly.
    assert_eq!(objective.evaluate(9 * SCALE), 0);
    assert_eq!(objective.evaluate(-9 * SCALE), 0);
    // At v = 0 the residual is 81^2 = 6561, in fixed-point units.
    assert_eq!(objective.evaluate(0), 6561 * SCALE);
}

#[test]
fn peak_residual_values() {
    let objective = PeakObjective { peak: 100 };
    assert_eq!(objective.evaluate(100), 0);
    assert_eq!(objective.evaluate(105), -5);
    assert_eq!(objective.evaluate(95), -5);
}
