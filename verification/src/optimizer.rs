//! The scalar adaptive optimizer.
//!
//! `gd` runs an adaptive-step, derivative-free descent: each iteration
//! proposes a move by the current boosted step, estimates the local slope by
//! finite differences, and either backtracks (reverse and halve the step on
//! a worse residual), accelerates (set the boost from the slope on a new best
//! residual), or stops (step floor reached, or the residual plateaued).  The
//! outcome reports the best point ever visited, which the search may since
//! have moved away from.
//!
//! The loop is proved to compute exactly the transition system of
//! `crate::model`, so the outcome is a pure function of the configuration
//! and the objective.

use vstd::prelude::*;
use crate::fixed::{SCALE, BOOST_CAP, abs_int, div_trunc, clamp_i64,
    lemma_div_trunc_shrinks, lemma_halving_shrinks};
use crate::model::{SearchModel, start_model, propose, grad_boost, half_reverse, step_model,
    run_model, wf_model, visited_model, overshoot_only, halvings, lemma_step_model,
    lemma_run_model, lemma_best_tracking, lemma_halvings_bound, lemma_step_floor};

verus! {

/// A caller-supplied objective: a pure map from a fixed-point input to a
/// fixed-point residual, where lower residuals denote better fit.
///
/// `eval_spec` is the mathematical function the implementation computes;
/// `evaluate` must return exactly that value, which is what makes the whole
/// search deterministic.
pub trait Objective {
    /// The objective as a mathematical function of the fixed-point input.
    spec fn eval_spec(&self, v: int) -> int;

    /// Evaluate the objective at `v`.
    fn evaluate(&self, v: i64) -> (r: i64)
        ensures
            r as int == self.eval_spec(v as int),
    ;
}

/// An injectable sink for the per-iteration progress trace.  The optimizer
/// promises nothing about it; the library's own `SilentSink` discards the
/// trace, and embedders may log it instead.
pub trait TraceSink {
    /// Receive one iteration's trace: the iteration index, the point and
    /// residual the iteration started from, the signed step, the proposed
    /// point with its residual, and the capped magnitude of the
    /// finite-difference slope (zero when the proposal did not move).
    fn record(
        &mut self,
        iteration: u64,
        value: i64,
        residual: i64,
        step: i64,
        new_value: i64,
        new_residual: i64,
        gradient: i64,
    );
}

/// The default trace sink: discards every record.
pub struct SilentSink;

impl TraceSink for SilentSink {
    fn record(
        &mut self,
        iteration: u64,
        value: i64,
        residual: i64,
        step: i64,
        new_value: i64,
        new_residual: i64,
        gradient: i64,
    ) {
    }
}

/// Configuration of one search.
///
/// `init_value` is the starting point, `step` the initial signed step (its
/// sign sets the initial direction), `min_step` the floor under the step
/// magnitude below which the search halts, and `max_steps` the iteration
/// budget.  All fixed-point fields count units of `1 / SCALE`.
#[derive(Clone, Copy, Debug)]
pub struct GradientDescentConfig {
    pub init_value: i64,
    pub step: i64,
    pub min_step: i64,
    pub max_steps: u64,
}

/// The summary of one search: how many iterations ran, and the best point
/// ever visited with its residual.
#[derive(Debug)]
pub struct GradientDescentOutcome {
    pub iterations: u64,
    pub optimal_value: i64,
    pub optimal_residual: i64,
}

/// The objective `objective` computes, as a mathematical function.
pub open spec fn eval_of<O: Objective>(objective: O) -> spec_fn(int) -> int {
    |v: int| objective.eval_spec(v)
}

/// The state a search under `config` ends in.
pub open spec fn search_result(config: GradientDescentConfig, eval: spec_fn(int) -> int) -> SearchModel {
    run_model(
        start_model(config.init_value as int, config.step as int, eval),
        config.min_step as int,
        config.max_steps as int,
        eval,
    )
}

/// The outcome `o` is exactly what the model of the search prescribes for
/// `config` and the objective `eval`.
pub open spec fn outcome_matches(
    o: GradientDescentOutcome,
    config: GradientDescentConfig,
    eval: spec_fn(int) -> int,
) -> bool {
    let m = search_result(config, eval);
    &&& o.iterations as int == m.iterations
    &&& o.optimal_value as int == m.best_value
    &&& o.optimal_residual as int == m.best_residual
}

/// Every point a search under `config` evaluates, in order: the starting
/// point first, then the point each iteration proposes.
pub open spec fn search_visited(config: GradientDescentConfig, eval: spec_fn(int) -> int) -> Seq<int> {
    seq![config.init_value as int] + visited_model(
        start_model(config.init_value as int, config.step as int, eval),
        config.min_step as int,
        config.max_steps as int,
        eval,
    )
}

/// Determinism: two searches under identical configurations and the same
/// pure objective report identical outcomes.
pub proof fn lemma_deterministic(
    config: GradientDescentConfig,
    eval: spec_fn(int) -> int,
    o1: GradientDescentOutcome,
    o2: GradientDescentOutcome,
)
    requires
        outcome_matches(o1, config, eval),
        outcome_matches(o2, config, eval),
    ensures
        o1.iterations == o2.iterations,
        o1.optimal_value == o2.optimal_value,
        o1.optimal_residual == o2.optimal_residual,
{
}

/// Monotonic best-tracking: the best residual an outcome reports is no worse
/// than the objective's residual at any point the search ever evaluated,
/// the starting point included.
pub proof fn lemma_best_never_worse_than_visited(
    config: GradientDescentConfig,
    eval: spec_fn(int) -> int,
    o: GradientDescentOutcome,
)
    requires
        outcome_matches(o, config, eval),
    ensures
        forall|i: int|
            0 <= i < search_visited(config, eval).len() ==> o.optimal_residual as int <= eval(
                search_visited(config, eval)[i],
            ),
{
    let start = start_model(config.init_value as int, config.step as int, eval);
    let min_step = config.min_step as int;
    let max_steps = config.max_steps as int;
    lemma_best_tracking(start, min_step, max_steps, eval);
    let vis = search_visited(config, eval);
    assert forall|i: int| 0 <= i < vis.len() implies o.optimal_residual as int <= eval(vis[i]) by {
        if i == 0 {
            assert(vis[0] == config.init_value as int);
        } else {
            assert(vis[i] == visited_model(start, min_step, max_steps, eval)[i - 1]);
        }
    }
}

/// Step-floor termination: with a positive step floor, an objective along
/// whose run every proposal overshoots makes the search reverse and halve
/// its step each iteration, so it stops once the magnitude falls under the
/// floor — within 65 iterations, since a step magnitude fits in 64 bits —
/// and spends no larger budget.
pub proof fn lemma_overshoot_stops_early(config: GradientDescentConfig, eval: spec_fn(int) -> int)
    requires
        config.min_step >= 1,
        config.max_steps >= 65,
        overshoot_only(
            start_model(config.init_value as int, config.step as int, eval),
            config.min_step as int,
            config.max_steps as int,
            eval,
        ),
    ensures
        search_result(config, eval).stopped,
        search_result(config, eval).iterations <= 65,
        config.max_steps > 65 ==> search_result(config, eval).iterations < config.max_steps as int,
{
    let start = start_model(config.init_value as int, config.step as int, eval);
    vstd::arithmetic::power2::lemma2_to64();
    vstd::arithmetic::power2::lemma2_to64_rest();
    lemma_halvings_bound(abs_int(start.step) as nat, 64);
    lemma_step_floor(start, config.min_step as int, config.max_steps as int, eval);
}

/// Compute the proposed point: the current point moved by the boosted step,
/// clamped into the representable range.
fn propose_exec(value: i64, step: i64, boost: i64) -> (r: i64)
    requires
        0 <= boost <= BOOST_CAP,
    ensures
        r as int == clamp_i64(value as int + div_trunc(step as int * boost as int, SCALE as int)),
{
    proof {
        assert((step as int) * (boost as int) <= 92233720368547758080000000000int
            && (step as int) * (boost as int) >= -92233720368547758080000000000int)
            by (nonlinear_arith)
            requires
                -9223372036854775808int <= step as int <= 9223372036854775807int,
                0 <= boost as int <= 10000000000int,
        ;
    }
    let p: i128 = (step as i128) * (boost as i128);
    let d: i128 = p / (SCALE as i128);
    proof {
        lemma_div_trunc_shrinks(p as int, SCALE as int);
    }
    let nv: i128 = (value as i128) + d;
    if nv > (i64::MAX as i128) {
        i64::MAX
    } else if nv < (i64::MIN as i128) {
        i64::MIN
    } else {
        nv as i64
    }
}

/// Compute the capped magnitude of the finite-difference slope between the
/// two latest evaluated points.
fn grad_boost_exec(residual: i64, new_residual: i64, value: i64, new_value: i64) -> (r: i64)
    requires
        new_value != value,
    ensures
        r as int == grad_boost(new_residual as int - residual as int, new_value as int - value as int),
        0 <= r <= BOOST_CAP,
{
    let dres: i128 = (new_residual as i128) - (residual as i128);
    let dresm: i128 = if dres >= 0 {
        dres
    } else {
        -dres
    };
    let dval: i128 = (new_value as i128) - (value as i128);
    let dvalm: i128 = if dval >= 0 {
        dval
    } else {
        -dval
    };
    proof {
        assert(dresm as int * (SCALE as int) <= 18446744073709551616000000000int)
            by (nonlinear_arith)
            requires
                0 <= dresm as int <= 18446744073709551616int,
        ;
    }
    let num: i128 = dresm * (SCALE as i128);
    let q: i128 = num / dvalm;
    proof {
        vstd::arithmetic::div_mod::lemma_div_pos_is_pos(num as int, dvalm as int);
    }
    if q > (BOOST_CAP as i128) {
        BOOST_CAP
    } else {
        q as i64
    }
}

/// Reverse and halve the step after an overshoot.
fn half_reverse_exec(step: i64) -> (r: i64)
    ensures
        r as int == half_reverse(step as int),
        abs_int(r as int) <= abs_int(step as int) / 2,
{
    proof {
        if step != 0 {
            lemma_halving_shrinks(-(step as int));
        }
    }
    let h: i128 = (-(step as i128)) / 2;
    h as i64
}

/// Run the search and hand each iteration's trace to `sink`.
///
/// The outcome is exactly the one the mathematical model of the search
/// prescribes; in particular it never takes more than `config.max_steps`
/// iterations, a zero budget returns the initial point unchanged, and the
/// reported best residual is the objective's true value at the reported best
/// point and is never worse than the residual at the starting point.
pub fn gd_traced<O: Objective, S: TraceSink>(
    config: GradientDescentConfig,
    objective: &O,
    sink: &mut S,
) -> (outcome: GradientDescentOutcome)
    requires
        config.min_step >= 0,
    ensures
        outcome_matches(outcome, config, eval_of(*objective)),
        outcome.iterations <= config.max_steps,
        outcome.optimal_residual as int == objective.eval_spec(outcome.optimal_value as int),
        outcome.optimal_residual as int <= objective.eval_spec(config.init_value as int),
        config.max_steps == 0 ==> outcome.iterations == 0 && outcome.optimal_value
            == config.init_value,
{
    let ghost eval = eval_of(*objective);
    let ghost start = start_model(config.init_value as int, config.step as int, eval);
    let ghost min_step_g = config.min_step as int;
    let ghost max_steps_g = config.max_steps as int;

    let mut iterations: u64 = 0;
    let mut value: i64 = config.init_value;
    let mut residual: i64 = objective.evaluate(config.init_value);
    let mut step: i64 = config.step;
    let mut boost: i64 = SCALE;
    let mut optimal_value: i64 = value;
    let mut optimal_residual: i64 = residual;
    let mut stopped: bool = false;

    proof {
        lemma_run_model(start, min_step_g, max_steps_g, eval);
    }

    while !stopped && iterations < config.max_steps
        invariant
            ({
                let cur = SearchModel {
                    value: value as int,
                    residual: residual as int,
                    step: step as int,
                    boost: boost as int,
                    best_value: optimal_value as int,
                    best_residual: optimal_residual as int,
                    iterations: iterations as int,
                    stopped: stopped,
                };
                run_model(cur, min_step_g, max_steps_g, eval) == run_model(
                    start,
                    min_step_g,
                    max_steps_g,
                    eval,
                ) && wf_model(cur, eval)
            }),
            min_step_g == config.min_step as int,
            max_steps_g == config.max_steps as int,
            eval == eval_of(*objective),
            iterations <= config.max_steps,
            0 <= boost <= BOOST_CAP,
        decreases config.max_steps - iterations,
    {
        let ghost cur = SearchModel {
            value: value as int,
            residual: residual as int,
            step: step as int,
            boost: boost as int,
            best_value: optimal_value as int,
            best_residual: optimal_residual as int,
            iterations: iterations as int,
            stopped: stopped,
        };
        proof {
            lemma_step_model(cur, min_step_g, eval);
        }

        iterations = iterations + 1;
        let new_value = propose_exec(value, step, boost);
        let new_residual = objective.evaluate(new_value);
        let gradient: i64 = if new_value != value {
            grad_boost_exec(residual, new_residual, value, new_value)
        } else {
            0
        };
        sink.record(iterations, value, residual, step, new_value, new_residual, gradient);

        if new_residual > residual {
            let new_step = half_reverse_exec(step);
            step = new_step;
            let mag: i64 = if new_step >= 0 {
                new_step
            } else {
                -new_step
            };
            if mag < config.min_step {
                stopped = true;
            } else {
                residual = new_residual;
                value = new_value;
            }
        } else if new_residual < optimal_residual {
            proof {
                assert(new_value != value);
            }
            boost = gradient;
            optimal_residual = new_residual;
            optimal_value = new_value;
            residual = new_residual;
            value = new_value;
        } else if new_residual == residual {
            stopped = true;
        } else {
            residual = new_residual;
            value = new_value;
        }

        proof {
            let next = SearchModel {
                value: value as int,
                residual: residual as int,
                step: step as int,
                boost: boost as int,
                best_value: optimal_value as int,
                best_residual: optimal_residual as int,
                iterations: iterations as int,
                stopped: stopped,
            };
            assert(next == step_model(cur, min_step_g, eval));
        }
    }

    proof {
        lemma_run_model(start, min_step_g, max_steps_g, eval);
    }
    GradientDescentOutcome { iterations, optimal_value, optimal_residual }
}

/// Run the search silently.
///
/// Same contract as `gd_traced`: the outcome is exactly the one the model
/// prescribes for this configuration and objective.
pub fn gd<O: Objective>(config: GradientDescentConfig, objective: &O) -> (outcome:
    GradientDescentOutcome)
    requires
        config.min_step >= 0,
    ensures
        outcome_matches(outcome, config, eval_of(*objective)),
        outcome.iterations <= config.max_steps,
        outcome.optimal_residual as int == objective.eval_spec(outcome.optimal_value as int),
        outcome.optimal_residual as int <= objective.eval_spec(config.init_value as int),
        config.max_steps == 0 ==> outcome.iterations == 0 && outcome.optimal_value
            == config.init_value,
{
    let mut sink = SilentSink;
    gd_traced(config, objective, &mut sink)
}

} // verus!
