//! Mathematical model of the adaptive search.
//!
//! The search is specified as a pure transition system over a ghost state:
//! `step_model` is one iteration of the loop and `run_model` folds it until a
//! stop condition fires or the iteration budget is spent.  The executable
//! optimizer proves that it computes exactly this model, so every property
//! proved of the model holds of the code.

use vstd::prelude::*;
use crate::fixed::{SCALE, BOOST_CAP, abs_int, min_int, div_trunc, clamp_i64,
    lemma_div_trunc_shrinks, lemma_halving_shrinks};

verus! {

/// The transient state of one search: current point and residual, signed
/// step, boost multiplier, best point seen so far, and the iteration count.
pub ghost struct SearchModel {
    pub value: int,
    pub residual: int,
    pub step: int,
    pub boost: int,
    pub best_value: int,
    pub best_residual: int,
    pub iterations: int,
    pub stopped: bool,
}

/// The state the search starts from: the initial point is evaluated once and
/// is the best point known; the boost multiplier starts at 1.0.
pub open spec fn start_model(init_value: int, step: int, eval: spec_fn(int) -> int) -> SearchModel {
    SearchModel {
        value: init_value,
        residual: eval(init_value),
        step: step,
        boost: SCALE as int,
        best_value: init_value,
        best_residual: eval(init_value),
        iterations: 0,
        stopped: false,
    }
}

/// The point the next iteration proposes: the current point moved by the
/// boosted step, clamped into the representable range.
pub open spec fn propose(s: SearchModel) -> int {
    clamp_i64(s.value + div_trunc(s.step * s.boost, SCALE as int))
}

/// The boost chosen after an improvement: the magnitude of the
/// finite-difference slope between the two latest points, capped at 10.0.
pub open spec fn grad_boost(dres: int, dval: int) -> int
    recommends
        dval != 0,
{
    min_int(div_trunc(abs_int(dres) * (SCALE as int), abs_int(dval)), BOOST_CAP as int)
}

/// The step taken after an overshoot: reversed and halved.
pub open spec fn half_reverse(step: int) -> int {
    div_trunc(-step, 2)
}

/// One iteration of the search loop.
///
/// The proposed point is evaluated, and exactly one of four branches is
/// taken, in this order: overshoot (the new point is worse: reverse and halve
/// the step, stopping if its magnitude fell under `min_step`), improvement
/// (a new best point: record it and set the boost from the slope), plateau
/// (the residual did not change at all: stop), or no special action.  Unless
/// the search stopped, the current point advances to the proposed one.
pub open spec fn step_model(s: SearchModel, min_step: int, eval: spec_fn(int) -> int) -> SearchModel {
    let new_value = propose(s);
    let new_residual = eval(new_value);
    if new_residual > s.residual {
        let new_step = half_reverse(s.step);
        if abs_int(new_step) < min_step {
            SearchModel { step: new_step, iterations: s.iterations + 1, stopped: true, ..s }
        } else {
            SearchModel {
                value: new_value,
                residual: new_residual,
                step: new_step,
                iterations: s.iterations + 1,
                ..s
            }
        }
    } else if new_residual < s.best_residual {
        SearchModel {
            value: new_value,
            residual: new_residual,
            boost: grad_boost(new_residual - s.residual, new_value - s.value),
            best_value: new_value,
            best_residual: new_residual,
            iterations: s.iterations + 1,
            ..s
        }
    } else if new_residual == s.residual {
        SearchModel { iterations: s.iterations + 1, stopped: true, ..s }
    } else {
        SearchModel {
            value: new_value,
            residual: new_residual,
            iterations: s.iterations + 1,
            ..s
        }
    }
}

/// The search run to completion: iterate `step_model` until a stop condition
/// fires or `max_steps` iterations have been spent.
pub open spec fn run_model(s: SearchModel, min_step: int, max_steps: int, eval: spec_fn(int) -> int) -> SearchModel
    decreases max_steps - s.iterations,
{
    if s.stopped || s.iterations >= max_steps {
        s
    } else {
        run_model(step_model(s, min_step, eval), min_step, max_steps, eval)
    }
}

/// Well-formedness of a search state: the recorded residuals really are the
/// evaluator's values at the recorded points, and the best residual is never
/// worse than the current one.
pub open spec fn wf_model(s: SearchModel, eval: spec_fn(int) -> int) -> bool {
    &&& s.residual == eval(s.value)
    &&& s.best_residual == eval(s.best_value)
    &&& s.best_residual <= s.residual
}

/// One iteration keeps the state well-formed, never worsens the best
/// residual, spends exactly one unit of budget, and never grows the step.
pub proof fn lemma_step_model(s: SearchModel, min_step: int, eval: spec_fn(int) -> int)
    requires
        wf_model(s, eval),
    ensures
        wf_model(step_model(s, min_step, eval), eval),
        step_model(s, min_step, eval).best_residual <= s.best_residual,
        step_model(s, min_step, eval).best_residual <= eval(propose(s)),
        step_model(s, min_step, eval).iterations == s.iterations + 1,
        abs_int(step_model(s, min_step, eval).step) <= abs_int(s.step),
{
    let new_residual = eval(propose(s));
    if new_residual > s.residual {
        lemma_div_trunc_shrinks(-s.step, 2);
    }
}

/// The points the search evaluates from state `s` on: each iteration that
/// executes evaluates exactly the point it proposes.
pub open spec fn visited_model(s: SearchModel, min_step: int, max_steps: int, eval: spec_fn(int) -> int) -> Seq<int>
    decreases max_steps - s.iterations,
{
    if s.stopped || s.iterations >= max_steps {
        Seq::empty()
    } else {
        seq![propose(s)] + visited_model(step_model(s, min_step, eval), min_step, max_steps, eval)
    }
}

/// Monotonic best-tracking: the best residual a run reports is no worse than
/// the residual of the point it starts from, nor than the residual of any
/// point the run ever evaluates.
pub proof fn lemma_best_tracking(s: SearchModel, min_step: int, max_steps: int, eval: spec_fn(int) -> int)
    requires
        wf_model(s, eval),
        s.iterations <= max_steps,
    ensures
        run_model(s, min_step, max_steps, eval).best_residual <= s.residual,
        forall|i: int|
            0 <= i < visited_model(s, min_step, max_steps, eval).len() ==> run_model(
                s,
                min_step,
                max_steps,
                eval,
            ).best_residual <= eval(visited_model(s, min_step, max_steps, eval)[i]),
    decreases max_steps - s.iterations,
{
    lemma_run_model(s, min_step, max_steps, eval);
    if !(s.stopped || s.iterations >= max_steps) {
        lemma_step_model(s, min_step, eval);
        let s2 = step_model(s, min_step, eval);
        lemma_best_tracking(s2, min_step, max_steps, eval);
        lemma_run_model(s2, min_step, max_steps, eval);
        let run = run_model(s, min_step, max_steps, eval);
        let vis = visited_model(s, min_step, max_steps, eval);
        let vis2 = visited_model(s2, min_step, max_steps, eval);
        assert forall|i: int| 0 <= i < vis.len() implies run.best_residual <= eval(vis[i]) by {
            if i == 0 {
                assert(vis[0] == propose(s));
            } else {
                assert(vis[i] == vis2[i - 1]);
            }
        }
    }
}

/// Number of halvings that drive a magnitude to zero.
pub open spec fn halvings(m: nat) -> nat
    decreases m,
{
    if m == 0 {
        0
    } else {
        1 + halvings((m / 2) as nat)
    }
}

/// A magnitude under `pow2(b)` reaches zero within `b` halvings.
pub proof fn lemma_halvings_bound(m: nat, b: nat)
    requires
        m < vstd::arithmetic::power2::pow2(b),
    ensures
        halvings(m) <= b,
    decreases b,
{
    if m > 0 {
        if b == 0 {
            vstd::arithmetic::power::lemma_pow0(2);
        }
        vstd::arithmetic::power2::lemma_pow2_unfold(b);
        vstd::arithmetic::div_mod::lemma_fundamental_div_mod(m as int, 2);
        lemma_halvings_bound((m / 2) as nat, (b - 1) as nat);
    }
}

/// Along the whole run from `s`, every iteration that executes finds its
/// proposed point strictly worse than the point it stands on.
pub open spec fn overshoot_only(s: SearchModel, min_step: int, max_steps: int, eval: spec_fn(int) -> int) -> bool
    decreases max_steps - s.iterations,
{
    if s.stopped || s.iterations >= max_steps {
        true
    } else {
        eval(propose(s)) > s.residual && overshoot_only(
            step_model(s, min_step, eval),
            min_step,
            max_steps,
            eval,
        )
    }
}

/// Step-floor termination: when every iteration overshoots, the step
/// magnitude is halved each time, so with a positive step floor the search
/// stops once the magnitude falls under the floor — within one more
/// iteration than the number of halvings the starting step admits — instead
/// of running its budget out.
pub proof fn lemma_step_floor(s: SearchModel, min_step: int, max_steps: int, eval: spec_fn(int) -> int)
    requires
        min_step >= 1,
        !s.stopped,
        overshoot_only(s, min_step, max_steps, eval),
        s.iterations + halvings(abs_int(s.step) as nat) + 1 <= max_steps,
    ensures
        run_model(s, min_step, max_steps, eval).stopped,
        run_model(s, min_step, max_steps, eval).iterations <= s.iterations + halvings(
            abs_int(s.step) as nat,
        ) + 1,
    decreases halvings(abs_int(s.step) as nat),
{
    let s2 = step_model(s, min_step, eval);
    let new_step = half_reverse(s.step);
    if s.step == 0 {
        assert(new_step == 0);
        assert(abs_int(new_step) < min_step);
        assert(s2.stopped);
    } else {
        lemma_halving_shrinks(-s.step);
        assert(abs_int(new_step) == abs_int(s.step) / 2);
    }
    if s2.stopped {
        assert(run_model(s2, min_step, max_steps, eval) == s2);
        assert(run_model(s, min_step, max_steps, eval) == s2);
    } else {
        assert(abs_int(new_step) >= min_step);
        assert(s.step != 0);
        assert(halvings(abs_int(s.step) as nat) == 1 + halvings(abs_int(new_step) as nat));
        lemma_step_floor(s2, min_step, max_steps, eval);
    }
}

/// A whole run keeps the state well-formed, never worsens the best residual,
/// stays within the iteration budget, and never grows the step.
pub proof fn lemma_run_model(s: SearchModel, min_step: int, max_steps: int, eval: spec_fn(int) -> int)
    requires
        wf_model(s, eval),
        s.iterations <= max_steps,
    ensures
        wf_model(run_model(s, min_step, max_steps, eval), eval),
        run_model(s, min_step, max_steps, eval).best_residual <= s.best_residual,
        s.iterations <= run_model(s, min_step, max_steps, eval).iterations <= max_steps,
        abs_int(run_model(s, min_step, max_steps, eval).step) <= abs_int(s.step),
    decreases max_steps - s.iterations,
{
    if !(s.stopped || s.iterations >= max_steps) {
        lemma_step_model(s, min_step, eval);
        lemma_run_model(step_model(s, min_step, eval), min_step, max_steps, eval);
    }
}

} // verus!
