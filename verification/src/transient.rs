//! Transient solver: one timestep of the circuit.
//!
//! A step builds the part of the system that does not change between Newton
//! iterations, predicts the new node voltages from the last two steps, refines
//! them by damped Newton iteration, and commits the result.
//!
//! Two implicit integration schemes are supported.  Backward Euler is first
//! order and robust; it is used on the first step, after an operating-point solve
//! and after a discontinuity, which is a relay that toggled.  BDF-2 (Gear-2) is
//! second order and needs a previous step to look at.

use vstd::prelude::*;

use crate::commit::{
    cap_volts_at, cap_volts_of, inductor_currents_at, inductor_currents_of, junction_volts_at,
    junction_volts_of, node_volts_of, source_currents_at, source_currents_of,
};
use crate::companion::{step_equations, step_system};
use crate::compiled::CompiledNetlist;
use crate::kernel::{linear_solution, solve_linearised, usable, Kernel, Storage};
use crate::newton::{
    are_finite, can_predict, first_estimate, newton_advance, next_moment, peak_of, predict,
    predicts, progress, step_budget, Moment, NewtonRun, Progress,
};
use crate::number::{all_finite, copy_into, copy_of, peak, Number, zero};
use crate::state::TransientState;

verus! {

/// Why a step failed.
#[derive(Debug, Clone, Copy, PartialEq, Eq, Structural)]
pub enum StepIssue {
    /// The linear solve failed even after the dense fallback.
    SingularMatrix,
    /// Newton produced a value that is not an ordinary number.
    NewtonDidNotConverge,
    /// The timestep is not positive or not an ordinary number.
    BadTimestep,
}

/// Integration method.
#[derive(Debug, Clone, Copy, PartialEq, Eq, Structural)]
pub enum Gear {
    Be,
    Bdf2,
}

/// Step configuration parameters.
#[derive(Debug, Clone, Copy)]
pub struct StepConfig<T> {
    /// Timestep duration in seconds.
    pub dt: T,
    /// Integration method.
    pub gear: Gear,
    /// Whether to estimate the local truncation error.
    pub estimate_lte: bool,
}

impl<T> StepConfig<T> {
    /// BDF-2 integration with the given timestep.
    pub fn bdf2(dt: T) -> (r: Self)
        ensures
            r == (StepConfig { dt, gear: Gear::Bdf2, estimate_lte: false }),
    {
        Self { dt, gear: Gear::Bdf2, estimate_lte: false }
    }

    /// Backward Euler integration with the given timestep.
    pub fn be(dt: T) -> (r: Self)
        ensures
            r == (StepConfig { dt, gear: Gear::Be, estimate_lte: false }),
    {
        Self { dt, gear: Gear::Be, estimate_lte: false }
    }

    /// The same step, with an estimate of the truncation error.
    pub fn with_lte(self) -> (r: Self)
        ensures
            r == (StepConfig { estimate_lte: true, ..self }),
    {
        Self { dt: self.dt, gear: self.gear, estimate_lte: true }
    }
}

/// Result of a committed step.
#[derive(Debug, Clone, Copy)]
pub struct StepResult<T> {
    /// Number of Newton iterations performed.
    pub iters: usize,
    /// Estimated local truncation error, the largest over all state variables;
    /// `None` if it was not asked for or there is no history to estimate it from.
    pub lte: Option<T>,
}

/// Whether a timestep can be taken: it is positive and an ordinary number.
pub open spec fn usable_timestep<T: Number>(dt: T) -> bool {
    !dt.at_most(zero()) && dt.finite()
}

/// Whether a step integrates by BDF-2: it was asked for, there is history, and no
/// relay toggled since.
pub open spec fn uses_gear2<T: Number>(config: StepConfig<T>, s: TransientState<T>) -> bool {
    config.gear == Gear::Bdf2 && s.gear2_ready && !s.relay_toggled
}

fn integrates_by_gear2<T: Number>(config: &StepConfig<T>, s: &TransientState<T>) -> (r: bool)
    ensures
        r == uses_gear2(*config, *s),
{
    config.gear == Gear::Bdf2 && s.gear2_ready && !s.relay_toggled
}

/// The state after committing an estimate: the history moves back by one step,
/// the new values are those of the estimate, and the step is on record, as is
/// whether a relay toggled.
pub open spec fn committed<T: Number, P>(
    c: CompiledNetlist<T, P>,
    before: TransientState<T>,
    dt: T,
    est: Seq<T>,
    relays: Seq<bool>,
    after: TransientState<T>,
) -> bool {
    &&& after.prev2_node_volts@ == before.prev_node_volts@
    &&& after.prev_node_volts@ == before.node_volts@
    &&& after.node_volts@ == est.take(c.n as int)
    &&& after.prev2_cap_volts@ == before.prev_cap_volts@
    &&& after.prev_cap_volts@ == before.cap_volts@
    &&& after.cap_volts@ == cap_volts_at(c, est)
    &&& after.prev2_inductor_currents@ == before.prev_inductor_currents@
    &&& after.prev_inductor_currents@ == before.inductor_currents@
    &&& after.inductor_currents@ == inductor_currents_at(c, est)
    &&& after.voltage_source_currents@ == source_currents_at(c, est)
    &&& after.tj_cap_volts@ == junction_volts_at(c, est)
    &&& after.relay_active@ == relays
    &&& after.relay_toggled == (relays != before.relay_active@)
    &&& after.gear2_ready
    &&& after.prev_dt == dt
}

/// The second difference of each of a list of state variables, from its last three
/// values, times `factor`.
pub open spec fn bends<T: Number>(x: Seq<T>, prev: Seq<T>, prev2: Seq<T>, factor: T) -> Seq<T> {
    Seq::new(
        x.len(),
        |i: int|
            factor.product(
                x[i].difference(T::decimal_value(2, 0).product(prev[i])).sum(prev2[i]).magnitude(),
            ),
    )
}

/// The share of the second difference that the truncation error of a method is.
pub open spec fn error_factor<T: Number>(gear2: bool) -> T {
    if gear2 {
        T::decimal_value(22, 2)
    } else {
        T::decimal_value(5, 1)
    }
}

/// The error that the last three values of each state variable suggest: node
/// voltages, capacitor voltages and inductor currents.
pub open spec fn state_errors<T: Number>(s: TransientState<T>, gear2: bool) -> Seq<T> {
    bends(s.node_volts@, s.prev_node_volts@, s.prev2_node_volts@, error_factor(gear2)) + bends(
        s.cap_volts@,
        s.prev_cap_volts@,
        s.prev2_cap_volts@,
        error_factor(gear2),
    ) + bends(
        s.inductor_currents@,
        s.prev_inductor_currents@,
        s.prev2_inductor_currents@,
        error_factor(gear2),
    )
}

/// The estimated truncation error: the largest over all state variables.
pub open spec fn truncation_error<T: Number>(s: TransientState<T>, gear2: bool) -> T {
    peak(state_errors(s, gear2), state_errors(s, gear2).len())
}

/// What a committed step reports: the iterations it took and, where it was asked
/// for and a step had been committed before, the truncation error.
pub open spec fn report<T: Number>(
    before: TransientState<T>,
    after: TransientState<T>,
    config: StepConfig<T>,
    iters: usize,
) -> StepResult<T> {
    StepResult {
        iters,
        lte: if config.estimate_lte && before.gear2_ready {
            Some(truncation_error(after, uses_gear2(config, before)))
        } else {
            None
        },
    }
}

fn add_bends<T: Number>(
    errors: &mut Vec<T>,
    x: &Vec<T>,
    prev: &Vec<T>,
    prev2: &Vec<T>,
    factor: T,
)
    requires
        prev@.len() == x@.len(),
        prev2@.len() == x@.len(),
    ensures
        final(errors)@ == old(errors)@ + bends(x@, prev@, prev2@, factor),
{
    let two = T::decimal(2, 0);
    let mut i: usize = 0;
    while i < x.len()
        invariant
            i <= x.len(),
            prev@.len() == x@.len(),
            prev2@.len() == x@.len(),
            two == T::decimal_value(2, 0),
            errors@ == old(errors)@ + bends(x@, prev@, prev2@, factor).take(i as int),
        decreases x.len() - i,
    {
        errors.push(factor.times(x[i].minus(two.times(prev[i])).plus(prev2[i]).abs()));
        i += 1;
    }
    assert(bends(x@, prev@, prev2@, factor).take(i as int) == bends(x@, prev@, prev2@, factor));
}

fn estimate_error<T: Number>(s: &TransientState<T>, gear2: bool) -> (r: T)
    requires
        s.prev_node_volts@.len() == s.node_volts@.len(),
        s.prev2_node_volts@.len() == s.node_volts@.len(),
        s.prev_cap_volts@.len() == s.cap_volts@.len(),
        s.prev2_cap_volts@.len() == s.cap_volts@.len(),
        s.prev_inductor_currents@.len() == s.inductor_currents@.len(),
        s.prev2_inductor_currents@.len() == s.inductor_currents@.len(),
    ensures
        r == truncation_error(*s, gear2),
{
    let factor = if gear2 {
        T::decimal(22, 2)
    } else {
        T::decimal(5, 1)
    };
    let mut errors: Vec<T> = Vec::new();
    add_bends(&mut errors, &s.node_volts, &s.prev_node_volts, &s.prev2_node_volts, factor);
    add_bends(&mut errors, &s.cap_volts, &s.prev_cap_volts, &s.prev2_cap_volts, factor);
    add_bends(
        &mut errors,
        &s.inductor_currents,
        &s.prev_inductor_currents,
        &s.prev2_inductor_currents,
        factor,
    );
    assert(errors@ == state_errors(*s, gear2));
    peak_of(&errors)
}

/// Commits an estimate as the result of a step.  An estimate with a node voltage
/// that is not an ordinary number is refused, and the state stays as it is but for
/// the relays.
pub fn commit_step<T: Number, P>(
    c: &CompiledNetlist<T, P>,
    state: &mut TransientState<T>,
    config: StepConfig<T>,
    est: &Vec<T>,
    relays: Vec<bool>,
    iters: usize,
) -> (r: Result<StepResult<T>, StepIssue>)
    requires
        c.wf(),
        old(state).fits(*c),
        est.len() == c.size,
        relays.len() == c.relay_count,
    ensures
        final(state).fits(*c),
        all_finite(est@.take(c.n as int)) ==> committed(
            *c,
            *old(state),
            config.dt,
            est@,
            relays@,
            *final(state),
        ) && r == Ok::<StepResult<T>, StepIssue>(report(*old(state), *final(state), config, iters)),
        !all_finite(est@.take(c.n as int)) ==> only_relays(*old(state), *final(state), relays@) && r
            == Err::<StepResult<T>, StepIssue>(StepIssue::NewtonDidNotConverge),
{
    let node_volts = node_volts_of(c, est);
    if !are_finite(&node_volts) {
        move_relays(state, relays);
        return Err(StepIssue::NewtonDidNotConverge);
    }
    let had_history = state.gear2_ready;
    let gear2 = integrates_by_gear2(&config, state);
    copy_into(&mut state.prev2_node_volts, &state.prev_node_volts);
    copy_into(&mut state.prev_node_volts, &state.node_volts);
    copy_into(&mut state.prev2_cap_volts, &state.prev_cap_volts);
    copy_into(&mut state.prev_cap_volts, &state.cap_volts);
    copy_into(&mut state.prev2_inductor_currents, &state.prev_inductor_currents);
    copy_into(&mut state.prev_inductor_currents, &state.inductor_currents);
    state.node_volts = node_volts;
    state.cap_volts = cap_volts_of(c, est);
    state.inductor_currents = inductor_currents_of(c, est);
    state.voltage_source_currents = source_currents_of(c, est);
    state.tj_cap_volts = junction_volts_of(c, est);
    state.relay_toggled = !same_flags(&relays, &state.relay_active);
    state.relay_active = relays;
    state.gear2_ready = true;
    state.prev_dt = config.dt;
    let lte = if config.estimate_lte && had_history {
        Some(estimate_error(state, gear2))
    } else {
        None
    };
    Ok(StepResult { iters, lte })
}

/// `x` is what solving the linear system of an iteration at `at` comes to, in a
/// step that starts from state `s`.
pub open spec fn iteration_solution<T: Number, P, K: Kernel<T, P>>(
    k: K,
    c: CompiledNetlist<T, P>,
    s: TransientState<T>,
    config: StepConfig<T>,
    at: Moment<T>,
    x: Option<Seq<T>>,
) -> bool {
    linear_solution(
        k,
        c,
        step_equations(c, s, config.dt, uses_gear2(config, s)),
        at.est.take(c.n as int),
        Some(s.node_volts@),
        None,
        Some(Storage { dt: config.dt, tj_cap_volts: s.tj_cap_volts@ }),
        at.relays,
        x,
    )
}

/// Where the Newton iteration of a step starts.
pub open spec fn first_moment<T: Number, P>(
    c: CompiledNetlist<T, P>,
    s: TransientState<T>,
    dt: T,
) -> Moment<T> {
    Moment {
        est: first_estimate(c, s, dt),
        last_delta: T::unbounded(),
        relays: s.relay_active@,
    }
}

/// Iteration `i` leads from `at` to `to`, and another one is due.
pub open spec fn iterates<T: Number, P, K: Kernel<T, P>>(
    k: K,
    c: CompiledNetlist<T, P>,
    s: TransientState<T>,
    config: StepConfig<T>,
    i: nat,
    at: Moment<T>,
    to: Moment<T>,
) -> bool {
    exists|x: Seq<T>| #[trigger]
        iteration_solution(k, c, s, config, at, Some(x)) && x.len() == c.size && progress(
            c,
            predicts(s),
            i,
            at,
            x,
        ) is Iterate && to == next_moment(c, i, at, x)
}

/// The moments at which the Newton iterations of a step stand: each but the last
/// leads to the next.
pub open spec fn newton_trace<T: Number, P, K: Kernel<T, P>>(
    k: K,
    c: CompiledNetlist<T, P>,
    s: TransientState<T>,
    config: StepConfig<T>,
    trace: Seq<Moment<T>>,
) -> bool {
    &&& trace.len() >= 1
    &&& trace[0] == first_moment(c, s, config.dt)
    &&& forall|i: int, j: int|
        #![trigger trace[i], trace[j]]
        0 <= i && j == i + 1 && j < trace.len() ==> iterates(
            k,
            c,
            s,
            config,
            i as nat,
            trace[i],
            trace[j],
        )
}

proof fn lemma_trace_extends<T: Number, P, K: Kernel<T, P>>(
    k: K,
    c: CompiledNetlist<T, P>,
    s: TransientState<T>,
    config: StepConfig<T>,
    trace: Seq<Moment<T>>,
    to: Moment<T>,
)
    requires
        newton_trace(k, c, s, config, trace),
        iterates(k, c, s, config, (trace.len() - 1) as nat, trace.last(), to),
    ensures
        newton_trace(k, c, s, config, trace.push(to)),
{
    let longer = trace.push(to);
    assert forall|i: int, j: int|
        #![trigger longer[i], longer[j]]
        0 <= i && j == i + 1 && j < longer.len() implies iterates(
        k,
        c,
        s,
        config,
        i as nat,
        longer[i],
        longer[j],
    ) by {
        if j < trace.len() {
            assert(longer[i] == trace[i]);
            assert(longer[j] == trace[j]);
        }
    }
}

/// Nothing but the relays differs between two states: they are as given, and if
/// that moved one, it is on record.
pub open spec fn only_relays<T>(
    before: TransientState<T>,
    after: TransientState<T>,
    relays: Seq<bool>,
) -> bool {
    &&& after == TransientState {
        relay_active: after.relay_active,
        relay_toggled: before.relay_toggled || relays != before.relay_active@,
        ..before
    }
    &&& after.relay_active@ == relays
}

fn same_flags(a: &Vec<bool>, b: &Vec<bool>) -> (r: bool)
    ensures
        r == (a@ == b@),
{
    if a.len() != b.len() {
        return false;
    }
    let mut i: usize = 0;
    while i < a.len()
        invariant
            i <= a.len(),
            a.len() == b.len(),
            forall|j: int| 0 <= j < i ==> a@[j] == b@[j],
        decreases a.len() - i,
    {
        if a[i] != b[i] {
            assert(a@[i as int] != b@[i as int]);
            return false;
        }
        i += 1;
    }
    assert(a@ =~= b@);
    true
}

/// Moves the relays of a state and leaves everything else, as a solve that failed
/// does.
pub fn move_relays<T>(state: &mut TransientState<T>, relays: Vec<bool>)
    ensures
        only_relays(*old(state), *final(state), relays@),
{
    if !same_flags(&relays, &state.relay_active) {
        state.relay_toggled = true;
    }
    state.relay_active = relays;
}

/// How a step ends at the last moment of its Newton iterations.
///
/// - No solver had a solution: the step fails, the relays stay where they are.
/// - The solution leads to a value that is not an ordinary number: likewise.
/// - Otherwise the refined estimate is committed.
pub open spec fn step_ends<T: Number, P, K: Kernel<T, P>>(
    k: K,
    c: CompiledNetlist<T, P>,
    s: TransientState<T>,
    config: StepConfig<T>,
    trace: Seq<Moment<T>>,
    r: Result<StepResult<T>, StepIssue>,
    after: TransientState<T>,
) -> bool {
    let last = trace.last();
    let i = (trace.len() - 1) as nat;
    match r {
        Err(StepIssue::BadTimestep) => false,
        Err(StepIssue::SingularMatrix) => iteration_solution(k, c, s, config, last, None)
            && only_relays(s, after, last.relays),
        Err(StepIssue::NewtonDidNotConverge) => only_relays(s, after, last.relays) && exists|
            x: Seq<T>,
        | #[trigger]
            iteration_solution(k, c, s, config, last, Some(x)) && x.len() == c.size && progress(
                c,
                predicts(s),
                i,
                last,
                x,
            ) is Diverged,
        Ok(result) => result == report(s, after, config, trace.len() as usize) && exists|x: Seq<T>|
         #[trigger]
            iteration_solution(k, c, s, config, last, Some(x)) && x.len() == c.size && progress(
                c,
                predicts(s),
                i,
                last,
                x,
            ) is Settled && committed(
                c,
                s,
                config.dt,
                next_moment(c, i, last, x).est,
                next_moment(c, i, last, x).relays,
                after,
            ),
    }
}

/// What a step from state `s` may return, and the state it leaves.
pub open spec fn stepped<T: Number, P, K: Kernel<T, P>>(
    k: K,
    c: CompiledNetlist<T, P>,
    s: TransientState<T>,
    config: StepConfig<T>,
    r: Result<StepResult<T>, StepIssue>,
    after: TransientState<T>,
) -> bool {
    if usable_timestep(config.dt) {
        exists|trace: Seq<Moment<T>>| #[trigger]
            newton_trace(k, c, s, config, trace) && step_ends(k, c, s, config, trace, r, after)
    } else {
        r == Err::<StepResult<T>, StepIssue>(StepIssue::BadTimestep) && after == s
    }
}

/// Advances the simulation by one timestep.
///
/// A timestep that is not positive or not an ordinary number is refused.  Newton
/// iterates until it converges or its budget is spent; either way the estimate
/// is committed.  A linear solve without solution and an estimate that is not
/// made of ordinary numbers fail the step: then nothing of the state changes but
/// the relays that flipped on the way.
pub fn step_with_config<T: Number, P, K: Kernel<T, P>>(
    c: &CompiledNetlist<T, P>,
    state: &mut TransientState<T>,
    config: StepConfig<T>,
    kernel: &K,
) -> (r: Result<StepResult<T>, StepIssue>)
    requires
        c.wf(),
        old(state).fits(*c),
    ensures
        final(state).fits(*c),
        r matches Ok(result) ==> 1 <= result.iters <= step_budget(*c),
        stepped(*kernel, *c, *old(state), config, r, *final(state)),
{
    let dt = config.dt;
    if dt.le(T::decimal(0, 0)) || !dt.is_finite() {
        return Err(StepIssue::BadTimestep);
    }
    let ghost s = *state;
    let gear2 = integrates_by_gear2(&config, state);
    let base = step_system(c, state, dt, gear2);
    let mut run = NewtonRun {
        est: predict(c, state, dt),
        last_delta: T::infinity(),
        iteration: 0,
        predicted: can_predict(state),
    };
    let mut relays = copy_of(&state.relay_active);
    let ghost mut trace: Seq<Moment<T>> = seq![run.moment(relays@)];
    loop
        invariant
            c.wf(),
            s == *old(state),
            s.fits(*c),
            usable_timestep(config.dt),
            dt == config.dt,
            gear2 == uses_gear2(config, s),
            base@ == step_equations(*c, s, dt, gear2),
            base@.wf(),
            base.size == c.size,
            *state == s,
            relays.len() == c.relay_count,
            run.est.len() == c.size,
            run.predicted == predicts(s),
            run.iteration < step_budget(*c),
            trace.len() == run.iteration + 1,
            trace.last() == run.moment(relays@),
            newton_trace(*kernel, *c, s, config, trace),
        decreases step_budget(*c) - run.iteration,
    {
        let ghost at = trace.last();
        let ghost i = run.iteration as nat;
        let volts = node_volts_of(c, &run.est);
        let answer = solve_linearised(
            kernel,
            c,
            &base,
            &volts,
            Some(&state.node_volts),
            None,
            Some((dt, &state.tj_cap_volts)),
            &relays,
        );
        assert(iteration_solution(*kernel, *c, s, config, at, usable(answer, c.size as nat)));
        let x = match answer {
            Some(x) => x,
            None => {
                move_relays(state, relays);
                assert(step_ends(
                    *kernel,
                    *c,
                    s,
                    config,
                    trace,
                    Err(StepIssue::SingularMatrix),
                    *state,
                ));
                return Err(StepIssue::SingularMatrix);
            },
        };
        assert(iteration_solution(*kernel, *c, s, config, at, Some(x@)));
        let progress = newton_advance(c, &mut run, &mut relays, &x);
        match progress {
            Progress::Diverged => {
                move_relays(state, relays);
                assert(step_ends(
                    *kernel,
                    *c,
                    s,
                    config,
                    trace,
                    Err(StepIssue::NewtonDidNotConverge),
                    *state,
                ));
                return Err(StepIssue::NewtonDidNotConverge);
            },
            Progress::Settled => {
                let ghost reached = next_moment(*c, i, at, x@);
                assert(all_finite(run.est@.take(c.n as int)));
                let result = commit_step(c, state, config, &run.est, relays, run.iteration);
                assert(committed(*c, s, dt, reached.est, reached.relays, *state));
                assert(step_ends(*kernel, *c, s, config, trace, result, *state));
                return result;
            },
            Progress::Iterate => {
                proof {
                    let to = next_moment(*c, i, at, x@);
                    assert(iterates(*kernel, *c, s, config, i, at, to));
                    lemma_trace_extends(*kernel, *c, s, config, trace, to);
                    trace = trace.push(to);
                }
            },
        }
    }
}

/// Advances the simulation by one timestep using backward Euler, and returns the
/// number of Newton iterations.
pub fn step<T: Number, P, K: Kernel<T, P>>(
    c: &CompiledNetlist<T, P>,
    state: &mut TransientState<T>,
    dt: T,
    kernel: &K,
) -> (r: Result<usize, StepIssue>)
    requires
        c.wf(),
        old(state).fits(*c),
    ensures
        final(state).fits(*c),
        r matches Ok(iters) ==> 1 <= iters <= step_budget(*c),
        stepped(
            *kernel,
            *c,
            *old(state),
            StepConfig { dt, gear: Gear::Be, estimate_lte: false },
            match r {
                Ok(iters) => Ok(StepResult { iters, lte: None }),
                Err(issue) => Err(issue),
            },
            *final(state),
        ),
{
    match step_with_config(c, state, StepConfig::be(dt), kernel) {
        Ok(result) => Ok(result.iters),
        Err(issue) => Err(issue),
    }
}

} // verus!
