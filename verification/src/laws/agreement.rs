//! Which simulations agree where the services of the kernel are functions.

use vstd::prelude::*;

use crate::compiled::CompiledNetlist;
use crate::dc::{dc_solved, DcIssue};
use crate::kernel::Kernel;
use crate::laws::at_rest::{law_operating_point_ignores_storage, layouts_rest_alike};
use crate::laws::history::{
    failed_likewise, law_asking_for_error_changes_nothing, law_backward_euler_ignores_history,
    law_bdf2_falls_back_to_backward_euler, law_restored_state_steps_the_same, reported,
    steps_alike,
};
use crate::laws::operating_point::{law_dc_ignores_history, operated_likewise};
use crate::laws::reproducible::{
    law_operating_point_is_reproducible, law_steps_are_reproducible, unambiguous,
};
use crate::laws::steps::{law_failed_step_keeps_state, law_step_records_toggle};
use crate::number::Number;
use crate::simulator::{geared, record, Simulator};
use crate::state::{Snapshot, TransientState};
use crate::transient::{stepped, Gear, StepConfig, StepIssue, StepResult};

verus! {

/// Without history, or after a relay toggled, a BDF-2 step and a backward Euler step
/// have one outcome and leave one state.
pub proof fn law_fallen_back_steps_agree<T: Number, P, K: Kernel<T, P>>(
    k: K,
    c: CompiledNetlist<T, P>,
    s: TransientState<T>,
    dt: T,
    estimate_lte: bool,
    r: Result<StepResult<T>, StepIssue>,
    after: TransientState<T>,
    other_r: Result<StepResult<T>, StepIssue>,
    other_after: TransientState<T>,
)
    requires
        unambiguous(k),
        !s.gear2_ready || s.relay_toggled,
        stepped(k, c, s, (StepConfig { dt, gear: Gear::Bdf2, estimate_lte }), r, after),
        stepped(k, c, s, (StepConfig { dt, gear: Gear::Be, estimate_lte }), other_r, other_after),
    ensures
        r == other_r,
        after@ == other_after@,
{
    law_bdf2_falls_back_to_backward_euler(k, c, s, dt, estimate_lte, r, after);
    law_steps_are_reproducible(
        k,
        c,
        s,
        StepConfig { dt, gear: Gear::Be, estimate_lte },
        r,
        after,
        other_r,
        other_after,
    );
}

/// After a committed step in which a relay toggled, a BDF-2 step and a backward Euler
/// step have one outcome and leave one state.
pub proof fn law_steps_after_toggle_agree<T: Number, P, K: Kernel<T, P>>(
    k: K,
    c: CompiledNetlist<T, P>,
    before: TransientState<T>,
    config: StepConfig<T>,
    first: Result<StepResult<T>, StepIssue>,
    s: TransientState<T>,
    dt: T,
    estimate_lte: bool,
    r: Result<StepResult<T>, StepIssue>,
    after: TransientState<T>,
    other_r: Result<StepResult<T>, StepIssue>,
    other_after: TransientState<T>,
)
    requires
        unambiguous(k),
        stepped(k, c, before, config, first, s),
        first is Ok,
        s.relay_active@ != before.relay_active@,
        stepped(k, c, s, (StepConfig { dt, gear: Gear::Bdf2, estimate_lte }), r, after),
        stepped(k, c, s, (StepConfig { dt, gear: Gear::Be, estimate_lte }), other_r, other_after),
    ensures
        r == other_r,
        after@ == other_after@,
{
    law_step_records_toggle(k, c, before, config, first, s);
    law_fallen_back_steps_agree(
        k,
        c,
        s,
        dt,
        estimate_lte,
        r,
        after,
        other_r,
        other_after,
    );
}

/// A step that reports its truncation error and one that does not take the same
/// iterations, or fail alike, and leave one state.
pub proof fn law_steps_agree_whether_error_is_asked_for<T: Number, P, K: Kernel<T, P>>(
    k: K,
    c: CompiledNetlist<T, P>,
    s: TransientState<T>,
    config: StepConfig<T>,
    estimate_lte: bool,
    r: Result<StepResult<T>, StepIssue>,
    after: TransientState<T>,
    other_r: Result<StepResult<T>, StepIssue>,
    other_after: TransientState<T>,
)
    requires
        unambiguous(k),
        stepped(k, c, s, config, r, after),
        stepped(k, c, s, (StepConfig { estimate_lte, ..config }), other_r, other_after),
    ensures
        match (r, other_r) {
            (Ok(a), Ok(b)) => a.iters == b.iters,
            (Err(a), Err(b)) => a == b,
            _ => false,
        },
        after@ == other_after@,
{
    let other = StepConfig { estimate_lte, ..config };
    law_asking_for_error_changes_nothing(k, c, s, config, estimate_lte, r, after);
    law_steps_are_reproducible(
        k,
        c,
        s,
        other,
        reported(s, after, other, r),
        after,
        other_r,
        other_after,
    );
}

/// Backward Euler steps from two states that differ only in the history of BDF-2 have
/// one outcome, and agree on everything but that history.
pub proof fn law_backward_euler_steps_agree<T: Number, P, K: Kernel<T, P>>(
    k: K,
    c: CompiledNetlist<T, P>,
    s: TransientState<T>,
    other: TransientState<T>,
    dt: T,
    r: Result<StepResult<T>, StepIssue>,
    after: TransientState<T>,
    other_r: Result<StepResult<T>, StepIssue>,
    other_after: TransientState<T>,
)
    requires
        unambiguous(k),
        other@ == (Snapshot {
            prev_cap_volts: other.prev_cap_volts@,
            prev_inductor_currents: other.prev_inductor_currents@,
            prev2_node_volts: other.prev2_node_volts@,
            prev2_cap_volts: other.prev2_cap_volts@,
            prev2_inductor_currents: other.prev2_inductor_currents@,
            ..s@
        }),
        stepped(k, c, s, (StepConfig { dt, gear: Gear::Be, estimate_lte: false }), r, after),
        stepped(
            k,
            c,
            other,
            (StepConfig { dt, gear: Gear::Be, estimate_lte: false }),
            other_r,
            other_after,
        ),
    ensures
        r == other_r,
        other_after@ == (Snapshot {
            prev_cap_volts: other_after.prev_cap_volts@,
            prev_inductor_currents: other_after.prev_inductor_currents@,
            prev2_node_volts: other_after.prev2_node_volts@,
            prev2_cap_volts: other_after.prev2_cap_volts@,
            prev2_inductor_currents: other_after.prev2_inductor_currents@,
            ..after@
        }),
{
    let be = StepConfig { dt, gear: Gear::Be, estimate_lte: false };
    law_backward_euler_ignores_history(k, c, s, other, dt, r, after);
    let there = match r {
        Ok(_) => TransientState {
            prev2_cap_volts: other.prev_cap_volts,
            prev2_inductor_currents: other.prev_inductor_currents,
            ..after
        },
        Err(_) => failed_likewise(other, dt, after),
    };
    law_steps_are_reproducible(k, c, other, be, r, there, other_r, other_after);
    if r is Err {
        law_failed_step_keeps_state(k, c, s, be, r, after);
    }
    assert(other_after@ =~= (Snapshot {
        prev_cap_volts: other_after.prev_cap_volts@,
        prev_inductor_currents: other_after.prev_inductor_currents@,
        prev2_node_volts: other_after.prev2_node_volts@,
        prev2_cap_volts: other_after.prev2_cap_volts@,
        prev2_inductor_currents: other_after.prev2_inductor_currents@,
        ..after@
    }));
}

/// Steps from two states that agree on what a restored state carries over have one
/// outcome.  Where it is a success they leave one state, and otherwise the same
/// relays.
pub proof fn law_restored_steps_agree<T: Number, P, K: Kernel<T, P>>(
    k: K,
    c: CompiledNetlist<T, P>,
    s: TransientState<T>,
    other: TransientState<T>,
    config: StepConfig<T>,
    r: Result<StepResult<T>, StepIssue>,
    after: TransientState<T>,
    other_r: Result<StepResult<T>, StepIssue>,
    other_after: TransientState<T>,
)
    requires
        unambiguous(k),
        steps_alike(s, other),
        stepped(k, c, s, config, r, after),
        stepped(k, c, other, config, other_r, other_after),
    ensures
        r == other_r,
        r is Ok ==> after@ == other_after@,
        steps_alike(after, other_after),
{
    law_restored_state_steps_the_same(k, c, s, other, config, r, after);
    let there = if r is Ok {
        after
    } else {
        failed_likewise(other, config.dt, after)
    };
    law_steps_are_reproducible(k, c, other, config, r, there, other_r, other_after);
    if r is Err {
        law_failed_step_keeps_state(k, c, s, config, r, after);
    }
    assert(other_after@ =~= (Snapshot {
        prev2_node_volts: other_after.prev2_node_volts@,
        prev2_cap_volts: other_after.prev2_cap_volts@,
        prev2_inductor_currents: other_after.prev2_inductor_currents@,
        voltage_source_currents: other_after.voltage_source_currents@,
        ..after@
    }));
}

/// Two simulators of one layout whose states agree on what a restored state carries
/// over give the same record for the same step.  Whatever the outcome, they read the
/// same voltages and their states agree again, so that any number of steps goes the
/// same way; after a success the states are equal.
pub proof fn law_restored_simulators_agree<T: Number, P, K: Kernel<T, P>>(
    k: K,
    a: Simulator<T, P>,
    b: Simulator<T, P>,
    dt: T,
    gear: u8,
    r: Result<StepResult<T>, StepIssue>,
    a_after: Simulator<T, P>,
    other_r: Result<StepResult<T>, StepIssue>,
    b_after: Simulator<T, P>,
    node_id: u32,
)
    requires
        unambiguous(k),
        a.wf(),
        b.wf(),
        a.circuit() is Some,
        a.circuit() == b.circuit(),
        a.netlist().ground_node_id == b.netlist().ground_node_id,
        steps_alike(a.solver()->0, b.solver()->0),
        a.same_circuit(a_after),
        b.same_circuit(b_after),
        stepped(k, a.circuit()->0, a.solver()->0, geared(dt, gear), r, a_after.solver()->0),
        stepped(k, b.circuit()->0, b.solver()->0, geared(dt, gear), other_r, b_after.solver()->0),
    ensures
        record(r) == record(other_r),
        steps_alike(a_after.solver()->0, b_after.solver()->0),
        r is Ok ==> a_after.snapshot() == b_after.snapshot(),
        a_after.voltage_at(node_id) == b_after.voltage_at(node_id),
{
    law_restored_steps_agree(
        k,
        a.circuit()->0,
        a.solver()->0,
        b.solver()->0,
        geared(dt, gear),
        r,
        a_after.solver()->0,
        other_r,
        b_after.solver()->0,
    );
    assert(a_after.solver()->0@.node_volts == b_after.solver()->0@.node_volts);
}

/// Two states agree on the operating point: on all that an operating-point solve
/// writes.
pub open spec fn same_point<T: Number>(a: Snapshot<T>, b: Snapshot<T>) -> bool {
    &&& a.node_volts == b.node_volts
    &&& a.cap_volts == b.cap_volts
    &&& a.inductor_currents == b.inductor_currents
    &&& a.voltage_source_currents == b.voltage_source_currents
    &&& a.tj_cap_volts == b.tj_cap_volts
    &&& a.relay_active == b.relay_active
    &&& a.relay_toggled == b.relay_toggled
    &&& a.gear2_ready == b.gear2_ready
    &&& a.prev_dt == b.prev_dt
}

/// Operating points neither depend on the transient history nor on the values of
/// capacitors and inductors: from states with the same relays, whatever else they
/// hold, on layouts that are alike at rest, there is one outcome.  Where it is a
/// success there is one operating point, and otherwise the relays agree.
pub proof fn law_operating_points_agree<T: Number, P, K: Kernel<T, P>>(
    k: K,
    c: CompiledNetlist<T, P>,
    d: CompiledNetlist<T, P>,
    s: TransientState<T>,
    other: TransientState<T>,
    r: Result<usize, DcIssue>,
    after: TransientState<T>,
    other_r: Result<usize, DcIssue>,
    other_after: TransientState<T>,
)
    requires
        unambiguous(k),
        c.wf(),
        d.wf(),
        layouts_rest_alike(c, d),
        s.relay_active@ == other.relay_active@,
        dc_solved(k, c, s, r, after),
        dc_solved(k, d, other, other_r, other_after),
    ensures
        r == other_r,
        r is Ok ==> same_point(after@, other_after@),
        after.relay_active@ == other_after.relay_active@,
{
    let there = operated_likewise(other, r, after);
    law_dc_ignores_history(k, c, s, other, r, after);
    law_operating_point_ignores_storage(k, c, d, other, r, there);
    law_operating_point_is_reproducible(k, d, other, r, there, other_r, other_after);
    assert(there@.node_volts == after@.node_volts || r is Err);
}

/// Operating points do not depend on the transient history: on one layout, from
/// states with the same relays, there is one outcome, and one operating point or the
/// same relays.
pub proof fn law_operating_points_agree_on_one_layout<T: Number, P, K: Kernel<T, P>>(
    k: K,
    c: CompiledNetlist<T, P>,
    s: TransientState<T>,
    other: TransientState<T>,
    r: Result<usize, DcIssue>,
    after: TransientState<T>,
    other_r: Result<usize, DcIssue>,
    other_after: TransientState<T>,
)
    requires
        unambiguous(k),
        s.relay_active@ == other.relay_active@,
        dc_solved(k, c, s, r, after),
        dc_solved(k, c, other, other_r, other_after),
    ensures
        r == other_r,
        r is Ok ==> same_point(after@, other_after@),
        after.relay_active@ == other_after.relay_active@,
{
    let there = operated_likewise(other, r, after);
    law_dc_ignores_history(k, c, s, other, r, after);
    law_operating_point_is_reproducible(k, c, other, r, there, other_r, other_after);
    assert(there@.node_volts == after@.node_volts || r is Err);
}

} // verus!
