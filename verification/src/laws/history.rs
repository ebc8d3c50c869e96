//! What a step depends on, and what it does not.

use vstd::prelude::*;

use crate::companion::{
    gmin, static_equations, step_equations, with_capacitors, with_couplings, with_gmin,
    with_inductors, with_sources,
};
use crate::compiled::CompiledNetlist;
use crate::equations::Equations;
use crate::kernel::Kernel;
use crate::laws::steps::law_step_records_toggle;
use crate::newton::{first_estimate, Moment};
use crate::number::Number;
use crate::state::{Snapshot, TransientState};
use crate::transient::{
    iterates, iteration_solution, newton_trace, report, step_ends, stepped, usable_timestep,
    uses_gear2, Gear, StepConfig, StepIssue, StepResult,
};

verus! {

/// Two states agree on everything that the solves of a step read.
pub open spec fn solve_alike<T: Number>(
    s: TransientState<T>,
    other: TransientState<T>,
    gear2: bool,
) -> bool {
    &&& s.node_volts@ == other.node_volts@
    &&& s.prev_node_volts@ == other.prev_node_volts@
    &&& s.cap_volts@ == other.cap_volts@
    &&& s.inductor_currents@ == other.inductor_currents@
    &&& s.tj_cap_volts@ == other.tj_cap_volts@
    &&& s.relay_active@ == other.relay_active@
    &&& s.gear2_ready == other.gear2_ready
    &&& s.prev_dt == other.prev_dt
    &&& gear2 ==> s.prev_cap_volts@ == other.prev_cap_volts@
    &&& gear2 ==> s.prev_inductor_currents@ == other.prev_inductor_currents@
}

proof fn lemma_same_capacitors<T: Number, P>(
    e: Equations<T>,
    c: CompiledNetlist<T, P>,
    s: TransientState<T>,
    other: TransientState<T>,
    dt: T,
    gear2: bool,
    k: nat,
)
    requires
        solve_alike(s, other, gear2),
    ensures
        with_capacitors(e, c, s, dt, gear2, k) == with_capacitors(e, c, other, dt, gear2, k),
    decreases k,
{
    if k > 0 {
        lemma_same_capacitors(e, c, s, other, dt, gear2, (k - 1) as nat);
    }
}

proof fn lemma_same_inductors<T: Number, P>(
    e: Equations<T>,
    c: CompiledNetlist<T, P>,
    s: TransientState<T>,
    other: TransientState<T>,
    dt: T,
    gear2: bool,
    k: nat,
)
    requires
        solve_alike(s, other, gear2),
    ensures
        with_inductors(e, c, s, dt, gear2, k) == with_inductors(e, c, other, dt, gear2, k),
        with_couplings(e, c, s, dt, gear2, k) == with_couplings(e, c, other, dt, gear2, k),
    decreases k,
{
    if k > 0 {
        lemma_same_inductors(e, c, s, other, dt, gear2, (k - 1) as nat);
    }
}

proof fn lemma_same_base<T: Number, P>(
    c: CompiledNetlist<T, P>,
    s: TransientState<T>,
    other: TransientState<T>,
    dt: T,
    gear2: bool,
)
    requires
        solve_alike(s, other, gear2),
    ensures
        step_equations(c, s, dt, gear2) == step_equations(c, other, dt, gear2),
{
    let resistive = with_sources(
        with_gmin(
            static_equations(c, c.static_stamps@.len()),
            c.gmin_indices@,
            gmin(),
            c.gmin_indices@.len(),
        ),
        c,
        c.voltage_source_branch_rows@.len(),
    );
    let capacitive = with_capacitors(resistive, c, s, dt, gear2, c.cap_count as nat);
    let inductive = with_inductors(capacitive, c, s, dt, gear2, c.inductor_count as nat);
    lemma_same_capacitors(resistive, c, s, other, dt, gear2, c.cap_count as nat);
    lemma_same_inductors(capacitive, c, s, other, dt, gear2, c.inductor_count as nat);
    lemma_same_inductors(inductive, c, s, other, dt, gear2, c.inductor_coupling_pairs@.len());
}

/// Where two states and two configurations agree on what the solves read, one is
/// solved as the other is.
proof fn lemma_same_run<T: Number, P, K: Kernel<T, P>>(
    k: K,
    c: CompiledNetlist<T, P>,
    s: TransientState<T>,
    config: StepConfig<T>,
    other: TransientState<T>,
    other_config: StepConfig<T>,
    trace: Seq<Moment<T>>,
)
    requires
        solve_alike(s, other, uses_gear2(config, s)),
        config.dt == other_config.dt,
        uses_gear2(config, s) == uses_gear2(other_config, other),
        newton_trace(k, c, s, config, trace),
    ensures
        newton_trace(k, c, other, other_config, trace),
        forall|at: Moment<T>, x: Option<Seq<T>>| #[trigger]
            iteration_solution(k, c, s, config, at, x) ==> iteration_solution(
                k,
                c,
                other,
                other_config,
                at,
                x,
            ),
{
    lemma_same_base(c, s, other, config.dt, uses_gear2(config, s));
    assert forall|at: Moment<T>, x: Option<Seq<T>>| #[trigger]
        iteration_solution(k, c, s, config, at, x) implies iteration_solution(
        k,
        c,
        other,
        other_config,
        at,
        x,
    ) by {}
    assert(first_estimate(c, s, config.dt) =~= first_estimate(c, other, config.dt));
    assert forall|i: int, j: int|
        #![trigger trace[i], trace[j]]
        0 <= i && j == i + 1 && j < trace.len() implies iterates(
        k,
        c,
        other,
        other_config,
        i as nat,
        trace[i],
        trace[j],
    ) by {
        assert(iterates(k, c, s, config, i as nat, trace[i], trace[j]));
    }
}

proof fn lemma_gear_makes_no_difference<T: Number, P, K: Kernel<T, P>>(
    k: K,
    c: CompiledNetlist<T, P>,
    s: TransientState<T>,
    one: StepConfig<T>,
    other: StepConfig<T>,
    r: Result<StepResult<T>, StepIssue>,
    after: TransientState<T>,
)
    requires
        one.dt == other.dt,
        one.estimate_lte == other.estimate_lte,
        uses_gear2(one, s) == uses_gear2(other, s),
        stepped(k, c, s, one, r, after),
    ensures
        stepped(k, c, s, other, r, after),
{
    if usable_timestep(one.dt) {
        let trace = choose|trace: Seq<Moment<T>>| #[trigger]
            newton_trace(k, c, s, one, trace) && step_ends(k, c, s, one, trace, r, after);
        lemma_same_run(k, c, s, one, s, other, trace);
        assert(step_ends(k, c, s, other, trace, r, after));
    }
}

/// Without history, or after a relay toggled, BDF-2 is backward Euler: the two step
/// to the same outcomes.
pub proof fn law_bdf2_falls_back_to_backward_euler<T: Number, P, K: Kernel<T, P>>(
    k: K,
    c: CompiledNetlist<T, P>,
    s: TransientState<T>,
    dt: T,
    estimate_lte: bool,
    r: Result<StepResult<T>, StepIssue>,
    after: TransientState<T>,
)
    requires
        !s.gear2_ready || s.relay_toggled,
    ensures
        stepped(
            k,
            c,
            s,
            (StepConfig { dt, gear: Gear::Bdf2, estimate_lte }),
            r,
            after,
        ) <==> stepped(
            k,
            c,
            s,
            (StepConfig { dt, gear: Gear::Be, estimate_lte }),
            r,
            after,
        ),
{
    let bdf2 = StepConfig { dt, gear: Gear::Bdf2, estimate_lte };
    let be = StepConfig { dt, gear: Gear::Be, estimate_lte };
    if stepped(k, c, s, bdf2, r, after) {
        lemma_gear_makes_no_difference(k, c, s, bdf2, be, r, after);
    }
    if stepped(k, c, s, be, r, after) {
        lemma_gear_makes_no_difference(k, c, s, be, bdf2, r, after);
    }
}

/// After a committed step in which a relay toggled, the next step integrates by
/// backward Euler whatever was asked for.
pub proof fn law_step_after_toggle_is_backward_euler<T: Number, P, K: Kernel<T, P>>(
    k: K,
    c: CompiledNetlist<T, P>,
    s: TransientState<T>,
    config: StepConfig<T>,
    r: Result<StepResult<T>, StepIssue>,
    after: TransientState<T>,
    dt: T,
    estimate_lte: bool,
    next_r: Result<StepResult<T>, StepIssue>,
    next: TransientState<T>,
)
    requires
        stepped(k, c, s, config, r, after),
        r is Ok,
        after.relay_active@ != s.relay_active@,
    ensures
        stepped(
            k,
            c,
            after,
            (StepConfig { dt, gear: Gear::Bdf2, estimate_lte }),
            next_r,
            next,
        ) <==> stepped(
            k,
            c,
            after,
            (StepConfig { dt, gear: Gear::Be, estimate_lte }),
            next_r,
            next,
        ),
{
    law_step_records_toggle(k, c, s, config, r, after);
    law_bdf2_falls_back_to_backward_euler(k, c, after, dt, estimate_lte, next_r, next);
}

/// What a step reports when the truncation error is asked for, or not, instead.
pub open spec fn reported<T: Number>(
    s: TransientState<T>,
    after: TransientState<T>,
    config: StepConfig<T>,
    r: Result<StepResult<T>, StepIssue>,
) -> Result<StepResult<T>, StepIssue> {
    match r {
        Ok(result) => Ok(report(s, after, config, result.iters)),
        Err(issue) => Err(issue),
    }
}

/// Asking for the truncation error, or not asking, changes neither the iterations nor
/// the state: only the report of the error differs.
pub proof fn law_asking_for_error_changes_nothing<T: Number, P, K: Kernel<T, P>>(
    k: K,
    c: CompiledNetlist<T, P>,
    s: TransientState<T>,
    config: StepConfig<T>,
    estimate_lte: bool,
    r: Result<StepResult<T>, StepIssue>,
    after: TransientState<T>,
)
    requires
        stepped(k, c, s, config, r, after),
    ensures
        stepped(
            k,
            c,
            s,
            (StepConfig { estimate_lte, ..config }),
            reported(s, after, (StepConfig { estimate_lte, ..config }), r),
            after,
        ),
{
    let other = StepConfig { estimate_lte, ..config };
    if usable_timestep(config.dt) {
        let trace = choose|trace: Seq<Moment<T>>| #[trigger]
            newton_trace(k, c, s, config, trace) && step_ends(k, c, s, config, trace, r, after);
        lemma_same_run(k, c, s, config, s, other, trace);
        assert(step_ends(k, c, s, other, trace, reported(s, after, other, r), after));
    }
}

/// `other` after a step that failed in the same way: its relays moved, or nothing did
/// where the timestep was refused.
pub open spec fn failed_likewise<T: Number>(
    other: TransientState<T>,
    dt: T,
    after: TransientState<T>,
) -> TransientState<T> {
    if usable_timestep(dt) {
        TransientState {
            relay_active: after.relay_active,
            relay_toggled: after.relay_toggled,
            ..other
        }
    } else {
        other
    }
}

/// Backward Euler does not read the history of BDF-2: from two states that differ
/// only there, the same step can be taken.  The older history follows each state.
pub proof fn law_backward_euler_ignores_history<T: Number, P, K: Kernel<T, P>>(
    k: K,
    c: CompiledNetlist<T, P>,
    s: TransientState<T>,
    other: TransientState<T>,
    dt: T,
    r: Result<StepResult<T>, StepIssue>,
    after: TransientState<T>,
)
    requires
        other@ == (Snapshot {
            prev_cap_volts: other.prev_cap_volts@,
            prev_inductor_currents: other.prev_inductor_currents@,
            prev2_node_volts: other.prev2_node_volts@,
            prev2_cap_volts: other.prev2_cap_volts@,
            prev2_inductor_currents: other.prev2_inductor_currents@,
            ..s@
        }),
        stepped(k, c, s, (StepConfig { dt, gear: Gear::Be, estimate_lte: false }), r, after),
    ensures
        stepped(
            k,
            c,
            other,
            (StepConfig { dt, gear: Gear::Be, estimate_lte: false }),
            r,
            match r {
                Ok(_) => TransientState {
                    prev2_cap_volts: other.prev_cap_volts,
                    prev2_inductor_currents: other.prev_inductor_currents,
                    ..after
                },
                Err(_) => failed_likewise(other, dt, after),
            },
        ),
{
    let be = StepConfig { dt, gear: Gear::Be, estimate_lte: false };
    assert(other@.node_volts == s@.node_volts && other@.prev_node_volts == s@.prev_node_volts);
    assert(other@.cap_volts == s@.cap_volts && other@.inductor_currents == s@.inductor_currents);
    assert(other@.tj_cap_volts == s@.tj_cap_volts && other@.relay_active == s@.relay_active);
    assert(other@.gear2_ready == s@.gear2_ready && other@.prev_dt == s@.prev_dt);
    assert(other@.relay_toggled == s@.relay_toggled);
    if usable_timestep(dt) {
        let trace = choose|trace: Seq<Moment<T>>| #[trigger]
            newton_trace(k, c, s, be, trace) && step_ends(k, c, s, be, trace, r, after);
        lemma_same_run(k, c, s, be, other, be, trace);
        let end = match r {
            Ok(_) => TransientState {
                prev2_cap_volts: other.prev_cap_volts,
                prev2_inductor_currents: other.prev_inductor_currents,
                ..after
            },
            Err(_) => failed_likewise(other, dt, after),
        };
        assert(step_ends(k, c, other, be, trace, r, end));
    }
}

/// Two states agree on everything that a step reads: all but the older history and
/// the source currents.
pub open spec fn steps_alike<T: Number>(s: TransientState<T>, other: TransientState<T>) -> bool {
    other@ == (Snapshot {
        prev2_node_volts: other.prev2_node_volts@,
        prev2_cap_volts: other.prev2_cap_volts@,
        prev2_inductor_currents: other.prev2_inductor_currents@,
        voltage_source_currents: other.voltage_source_currents@,
        ..s@
    })
}

/// A step depends on nothing but what a restored state carries over.  From either of
/// two states that agree on it, the same step to the same state can be taken, the
/// older history included; and the same failure, which leaves each state its own
/// fields.
pub proof fn law_restored_state_steps_the_same<T: Number, P, K: Kernel<T, P>>(
    k: K,
    c: CompiledNetlist<T, P>,
    s: TransientState<T>,
    other: TransientState<T>,
    config: StepConfig<T>,
    r: Result<StepResult<T>, StepIssue>,
    after: TransientState<T>,
)
    requires
        steps_alike(s, other),
        stepped(k, c, s, config, r, after),
    ensures
        stepped(
            k,
            c,
            other,
            config,
            r,
            if r is Ok {
                after
            } else {
                failed_likewise(other, config.dt, after)
            },
        ),
{
    assert(other@.node_volts == s@.node_volts && other@.prev_node_volts == s@.prev_node_volts);
    assert(other@.cap_volts == s@.cap_volts && other@.prev_cap_volts == s@.prev_cap_volts);
    assert(other@.inductor_currents == s@.inductor_currents);
    assert(other@.prev_inductor_currents == s@.prev_inductor_currents);
    assert(other@.tj_cap_volts == s@.tj_cap_volts && other@.relay_active == s@.relay_active);
    assert(other@.gear2_ready == s@.gear2_ready && other@.prev_dt == s@.prev_dt);
    assert(other@.relay_toggled == s@.relay_toggled);
    if usable_timestep(config.dt) {
        let trace = choose|trace: Seq<Moment<T>>| #[trigger]
            newton_trace(k, c, s, config, trace) && step_ends(k, c, s, config, trace, r, after);
        lemma_same_run(k, c, s, config, other, config, trace);
        let end = if r is Ok {
            after
        } else {
            failed_likewise(other, config.dt, after)
        };
        assert(step_ends(k, c, other, config, trace, r, end));
    }
}

} // verus!
