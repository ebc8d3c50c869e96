//! When steps and solves go on, when they end, and what they leave.

use vstd::prelude::*;

use crate::companion::gmin;
use crate::compiled::CompiledNetlist;
use crate::dc::{
    accepted, dc_budget, dc_concludes, dc_equations, dc_next, dc_pass, dc_progress, dc_solved,
    dc_start, direct_pass, factor_answer, stepped_conductance, stepping, stepping_ends, DcIssue,
    DcMoment,
};
use crate::kernel::Kernel;
use crate::laws::operating_point::law_failed_dc_keeps_state;
use crate::laws::steps::law_failed_step_keeps_state;
use crate::netlist::{Element, Netlist};
use crate::newton::{
    asked_delta, first_estimate, iteration_budget, next_moment, progress, refined, step_budget,
    within_tolerance, Moment,
};
use crate::number::{all_finite, zero, Number};
use crate::relays::relays_next;
use crate::simulator::{bytes_as_flags, flags_as_bytes, geared, record, Simulator};
use crate::state::{replacement, TransientState};
use crate::transient::{
    first_moment, newton_trace, step_ends, stepped, truncation_error, Gear, StepConfig, StepIssue,
    StepResult,
};

verus! {

/// A timestep that is not positive, or not an ordinary number, is refused and changes
/// nothing; any other is not refused.
pub proof fn law_bad_timesteps_are_refused<T: Number, P, K: Kernel<T, P>>(
    k: K,
    c: CompiledNetlist<T, P>,
    s: TransientState<T>,
    config: StepConfig<T>,
    r: Result<StepResult<T>, StepIssue>,
    after: TransientState<T>,
)
    requires
        stepped(k, c, s, config, r, after),
    ensures
        config.dt.at_most(zero()) || !config.dt.finite() <==> r == Err::<StepResult<T>, StepIssue>(
            StepIssue::BadTimestep,
        ),
        config.dt.at_most(zero()) || !config.dt.finite() ==> after == s,
{
    if !config.dt.at_most(zero()) && config.dt.finite() {
        let trace = choose|trace: Seq<Moment<T>>| #[trigger]
            newton_trace(k, c, s, config, trace) && step_ends(k, c, s, config, trace, r, after);
        assert(step_ends(k, c, s, config, trace, r, after));
    }
}

/// A step that fails keeps every voltage, every current and the whole history; what can
/// change are the relays, and then that is on record.
pub proof fn law_failed_step_keeps_every_value<T: Number, P, K: Kernel<T, P>>(
    k: K,
    c: CompiledNetlist<T, P>,
    s: TransientState<T>,
    config: StepConfig<T>,
    r: Result<StepResult<T>, StepIssue>,
    after: TransientState<T>,
)
    requires
        stepped(k, c, s, config, r, after),
        r is Err,
    ensures
        after.node_volts == s.node_volts,
        after.prev_node_volts == s.prev_node_volts,
        after.prev2_node_volts == s.prev2_node_volts,
        after.cap_volts == s.cap_volts,
        after.prev_cap_volts == s.prev_cap_volts,
        after.prev2_cap_volts == s.prev2_cap_volts,
        after.inductor_currents == s.inductor_currents,
        after.prev_inductor_currents == s.prev_inductor_currents,
        after.prev2_inductor_currents == s.prev2_inductor_currents,
        after.tj_cap_volts == s.tj_cap_volts,
        after.voltage_source_currents == s.voltage_source_currents,
        after.gear2_ready == s.gear2_ready,
        after.prev_dt == s.prev_dt,
        after.relay_active@ != s.relay_active@ ==> after.relay_toggled,
        after.relay_active@ == s.relay_active@ ==> after.relay_toggled == s.relay_toggled,
{
    law_failed_step_keeps_state(k, c, s, config, r, after);
}

/// The truncation error that a step reports is that of the state it left, by the method
/// it used.
pub proof fn law_step_reports_error_of_its_state<T: Number, P, K: Kernel<T, P>>(
    k: K,
    c: CompiledNetlist<T, P>,
    s: TransientState<T>,
    config: StepConfig<T>,
    r: Result<StepResult<T>, StepIssue>,
    after: TransientState<T>,
)
    requires
        stepped(k, c, s, config, r, after),
        r is Ok,
        r->Ok_0.lte is Some,
    ensures
        r->Ok_0.lte->0 == truncation_error(
            after,
            config.gear == Gear::Bdf2 && s.gear2_ready && !s.relay_toggled,
        ),
{
    let trace = choose|trace: Seq<Moment<T>>| #[trigger]
        newton_trace(k, c, s, config, trace) && step_ends(k, c, s, config, trace, r, after);
    assert(step_ends(k, c, s, config, trace, r, after));
}

/// A circuit without devices gets one iteration, one with relays three, with diodes ten,
/// with transistors twenty; an operating-point pass one, twenty, fifty and a hundred.
/// The most demanding kind of device counts.
pub proof fn law_budgets_go_by_devices<T, P>(c: CompiledNetlist<T, P>)
    ensures
        c.transistor_count > 0 ==> step_budget(c) == 20 && dc_budget(c) == 100,
        c.transistor_count == 0 && c.diode_count > 0 ==> step_budget(c) == 10 && dc_budget(c) == 50,
        c.transistor_count == 0 && c.diode_count == 0 && c.relay_count > 0 ==> step_budget(c) == 3
            && dc_budget(c) == 20,
        c.transistor_count == 0 && c.diode_count == 0 && c.relay_count == 0 ==> step_budget(c) == 1
            && dc_budget(c) == 1,
        step_budget(c) == iteration_budget(c.transistor_count, c.diode_count, c.relay_count),
{
}

/// An iteration diverges where its estimate holds something other than ordinary numbers.
/// Otherwise it settles where the budget is spent, or where it is within tolerance: from
/// the second iteration on if the start was predicted, from the third on if not.
pub proof fn law_iterations_settle<T: Number, P>(
    c: CompiledNetlist<T, P>,
    predicted: bool,
    iteration: nat,
    at: Moment<T>,
    x: Seq<T>,
)
    ensures
        progress(c, predicted, iteration, at, x) is Diverged <==> !all_finite(
            refined(c, iteration, at, x),
        ),
        progress(c, predicted, iteration, at, x) is Settled <==> all_finite(
            refined(c, iteration, at, x),
        ) && (iteration + 1 >= step_budget(c) || (within_tolerance(c, iteration, at, x) && (
        iteration >= 2 || (predicted && iteration == 1)))),
{
}

/// After an iteration the relays follow the new estimate from where they were.
pub proof fn law_relays_follow_iterations<T: Number, P>(
    c: CompiledNetlist<T, P>,
    s: TransientState<T>,
    dt: T,
    iteration: nat,
    at: Moment<T>,
    x: Seq<T>,
)
    ensures
        first_moment(c, s, dt).relays == s.relay_active@,
        next_moment(c, iteration, at, x).est == refined(c, iteration, at, x),
        next_moment(c, iteration, at, x).relays == relays_next(
            c,
            at.relays,
            refined(c, iteration, at, x),
        ),
{
}

/// An operating-point pass takes every solution over as its estimate, undamped; it limits
/// against the estimate before, if it limits.  The relays follow the solution unless the
/// pass ends with it.
pub proof fn law_passes_take_solutions_over<T: Number, P>(
    c: CompiledNetlist<T, P>,
    limiting: bool,
    i: nat,
    at: DcMoment<T>,
    x: Seq<T>,
)
    ensures
        dc_next(c, limiting, i, at, x).est == x,
        limiting ==> dc_next(c, limiting, i, at, x).prev == at.est,
        dc_progress(c, limiting, i, at.est, x) is Diverged <==> !all_finite(x),
        dc_progress(c, limiting, i, at.est, x) is Exhausted ==> i + 1 >= dc_budget(c),
        dc_progress(c, limiting, i, at.est, x) is Iterate ==> i + 1 < dc_budget(c),
        dc_progress(c, limiting, i, at.est, x) is Iterate || dc_progress(
            c,
            limiting,
            i,
            at.est,
            x,
        ) is Exhausted ==> dc_next(c, limiting, i, at, x).relays == relays_next(c, at.relays, x),
        dc_progress(c, limiting, i, at.est, x) is Converged || dc_progress(
            c,
            limiting,
            i,
            at.est,
            x,
        ) is Diverged ==> dc_next(c, limiting, i, at, x).relays == at.relays,
{
}

/// A circuit at rest: no voltages but those that the capacitors declare, which are also
/// their history; no currents; every relay at rest; no step taken.
pub proof fn law_rest_state<T: Number, P>(c: CompiledNetlist<T, P>, i: int)
    ensures
        TransientState::<T>::initial(c).node_volts.len() == c.n,
        0 <= i < c.n ==> TransientState::<T>::initial(c).node_volts[i] == zero::<T>()
            && TransientState::<T>::initial(c).prev_node_volts[i] == zero::<T>()
            && TransientState::<T>::initial(c).prev2_node_volts[i] == zero::<T>(),
        0 <= i < c.cap_count ==> {
            let declared = c.elements@[c.capacitor_indices@[i] as int]->initial_voltage;
            &&& TransientState::<T>::initial(c).cap_volts[i] == declared
            &&& TransientState::<T>::initial(c).prev_cap_volts[i] == declared
            &&& TransientState::<T>::initial(c).prev2_cap_volts[i] == declared
        },
        0 <= i < c.inductor_count ==> TransientState::<T>::initial(c).inductor_currents[i]
            == zero::<T>() && TransientState::<T>::initial(c).prev_inductor_currents[i]
            == zero::<T>() && TransientState::<T>::initial(c).prev2_inductor_currents[i]
            == zero::<T>(),
        0 <= i < 2 * c.transistor_count ==> TransientState::<T>::initial(c).tj_cap_volts[i]
            == zero::<T>(),
        0 <= i < c.m ==> TransientState::<T>::initial(c).voltage_source_currents[i] == zero::<T>(),
        0 <= i < c.relay_count ==> !TransientState::<T>::initial(c).relay_active[i],
        !TransientState::<T>::initial(c).relay_toggled,
        !TransientState::<T>::initial(c).gear2_ready,
        TransientState::<T>::initial(c).prev_dt == zero::<T>(),
{
}

/// Gear 2 is BDF-2 and every other number backward Euler, over the same timestep and
/// without an estimate of the error.
pub proof fn law_gear_numbers<T: Number>(dt: T, gear: u8)
    ensures
        gear == 2 ==> geared(dt, gear).gear == Gear::Bdf2,
        gear != 2 ==> geared(dt, gear).gear == Gear::Be,
        geared(dt, gear).dt == dt,
        !geared(dt, gear).estimate_lte,
{
}

/// The record of a step: on success its iterations and no issue, on failure the number of
/// what went wrong and no iterations.
pub proof fn law_step_records<T>(r: Result<StepResult<T>, StepIssue>)
    ensures
        record(r).ok <==> r is Ok,
        r matches Ok(result) ==> record(r).iters == result.iters as u32 && record(r).issue == 0,
        r is Err ==> record(r).iters == 0,
        r == Err::<StepResult<T>, StepIssue>(StepIssue::SingularMatrix) ==> record(r).issue == 1,
        r == Err::<StepResult<T>, StepIssue>(StepIssue::NewtonDidNotConverge) ==> record(r).issue
            == 2,
        r == Err::<StepResult<T>, StepIssue>(StepIssue::BadTimestep) ==> record(r).issue == 3,
{
}

/// A node of a compiled simulator reads the voltage of its own row.
pub proof fn law_nodes_read_their_rows<T: Number, P>(sim: Simulator<T, P>, node_id: u32)
    requires
        sim.wf(),
        sim.circuit() is Some,
        sim.netlist().has_node(node_id),
    ensures
        sim.circuit()->0.node_index@.contains_key(node_id),
        sim.voltage_at(node_id)
            == sim.snapshot()->0.node_volts[sim.circuit()->0.node_index@[node_id] as int],
{
}

/// The terminals of an element, in their order.
pub proof fn law_terminals<T>(e: Element<T>)
    ensures
        e matches Element::Resistor { a, b, .. } ==> e.terminals() == seq![a, b],
        e matches Element::Capacitor { a, b, .. } ==> e.terminals() == seq![a, b],
        e matches Element::Inductor { a, b, .. } ==> e.terminals() == seq![a, b],
        e matches Element::VoltageSource { positive_node, negative_node, .. } ==> e.terminals()
            == seq![positive_node, negative_node],
        e matches Element::Transistor { base, collector, emitter, .. } ==> e.terminals() == seq![
            base,
            collector,
            emitter,
        ],
        e matches Element::Diode { anode, cathode, .. } ==> e.terminals() == seq![anode, cathode],
        e is Coupling ==> e.terminals().len() == 0,
        e matches Element::Relay {
            coil_positive,
            coil_negative,
            common,
            normally_closed,
            normally_open,
            ..
        } ==> e.terminals() == seq![
            coil_positive,
            coil_negative,
            common,
            normally_closed,
            normally_open,
        ],
{
}

/// A pass converges where its solution is made of ordinary numbers and accepted.
pub proof fn law_passes_converge<T: Number, P>(
    c: CompiledNetlist<T, P>,
    limiting: bool,
    i: nat,
    est: Seq<T>,
    x: Seq<T>,
)
    ensures
        dc_progress(c, limiting, i, est, x) is Converged <==> all_finite(x) && accepted(
            c,
            limiting,
            i,
            est,
            x,
        ),
{
}

/// An iteration remembers the change that was asked for; before the first there is none
/// to compare with.
pub proof fn law_asked_changes_are_remembered<T: Number, P>(
    c: CompiledNetlist<T, P>,
    s: TransientState<T>,
    dt: T,
    iteration: nat,
    at: Moment<T>,
    x: Seq<T>,
)
    ensures
        first_moment(c, s, dt).last_delta == T::unbounded(),
        first_moment(c, s, dt).est == first_estimate(c, s, dt),
        next_moment(c, iteration, at, x).last_delta == asked_delta(at.est, x, c.n as nat),
{
}

/// An operating-point solve first runs without limiting at the normal conductance, from
/// the start estimate and the relays of the state.  If that succeeds, its end is the
/// operating point.  Otherwise the stepping begins at the start estimate again, with the
/// relays where the first pass left them: one pass with limiting after the other, each
/// from where the one before ended; after eleven the last end is the operating point, and
/// where one fails there is none.
pub proof fn law_solves_go_pass_by_pass<T: Number, P, K: Kernel<T, P>>(
    k: K,
    c: CompiledNetlist<T, P>,
    s: TransientState<T>,
    r: Result<usize, DcIssue>,
    after: TransientState<T>,
)
    requires
        dc_solved(k, c, s, r, after),
    ensures
        exists|direct: Result<usize, DcIssue>, reached: DcMoment<T>|
            #[trigger] dc_pass(
                k,
                c,
                dc_equations(c),
                gmin::<T>(),
                false,
                (DcMoment { est: dc_start(c), prev: dc_start(c), relays: s.relay_active@ }),
                direct,
                reached,
            ) && (direct is Ok ==> r == direct && after.node_volts@ == reached.est.take(c.n as int)
                && after.relay_active@ == reached.relays) && (direct is Err ==> exists|
                factor: T,
                stages: Seq<DcMoment<T>>,
                counts: Seq<usize>,
            |
                factor_answer(k, factor) && #[trigger] runs_pass_by_pass(
                    k,
                    c,
                    factor,
                    stages,
                    counts,
                ) && stages[0] == (DcMoment {
                    est: dc_start(c),
                    prev: dc_start(c),
                    relays: reached.relays,
                }) && (r is Ok ==> counts.len() == 11 && after.node_volts@
                    == stages.last().est.take(c.n as int) && after.relay_active@
                    == stages.last().relays) && (r is Err ==> counts.len() <= 10)),
{
    let (direct, reached) = choose|direct: Result<usize, DcIssue>, reached: DcMoment<T>|
     #[trigger]
        direct_pass(k, c, s, direct, reached) && dc_concludes(k, c, s, direct, reached, r, after);
    if direct is Err {
        let start = DcMoment { est: dc_start(c), prev: dc_start(c), relays: reached.relays };
        let (factor, stages, counts) = choose|
            factor: T,
            stages: Seq<DcMoment<T>>,
            counts: Seq<usize>,
        |
            factor_answer(k, factor) && #[trigger] stepping(
                k,
                c,
                factor,
                start,
                stages,
                counts,
            ) && stepping_ends(k, c, s, factor, stages, counts, r, after);
        assert forall|i: int, j: int|
            #![trigger stages[i], stages[j]]
            0 <= i && j == i + 1 && j < stages.len() implies dc_pass(
            k,
            c,
            dc_equations(c),
            stepped_conductance(factor, i as nat),
            true,
            stages[i],
            Ok(counts[i]),
            stages[j],
        ) by {
            assert(counts[i] == counts[i]);
        }
        assert(runs_pass_by_pass(k, c, factor, stages, counts));
    }
}

/// Pass `i` leads from stage `i` to the next, in as many iterations as it counted.
pub open spec fn runs_pass_by_pass<T: Number, P, K: Kernel<T, P>>(
    k: K,
    c: CompiledNetlist<T, P>,
    factor: T,
    stages: Seq<DcMoment<T>>,
    counts: Seq<usize>,
) -> bool {
    &&& stages.len() == counts.len() + 1
    &&& forall|i: int, j: int|
        #![trigger stages[i], stages[j]]
        0 <= i && j == i + 1 && j < stages.len() ==> dc_pass(
            k,
            c,
            dc_equations(c),
            stepped_conductance(factor, i as nat),
            true,
            stages[i],
            Ok(counts[i]),
            stages[j],
        )
}

/// Adding an element puts it last in the netlist; ground stays.
pub proof fn law_elements_are_appended<T: Number, P>(
    sim: Simulator<T, P>,
    e: Element<T>,
    after: Simulator<T, P>,
    i: int,
)
    requires
        sim.added(e, after),
    ensures
        after.netlist().elements@.len() == sim.netlist().elements@.len() + 1,
        after.netlist().elements@.last() == e,
        0 <= i < sim.netlist().elements@.len() ==> after.netlist().elements@[i]
            == sim.netlist().elements@[i],
        after.netlist().ground_node_id == sim.netlist().ground_node_id,
{
}

/// A list of another length than the one it is to replace is ignored.
pub proof fn law_mismatched_lists_are_ignored<A>(present: Seq<A>, new: Seq<A>)
    ensures
        new.len() != present.len() ==> replacement(present, new) == present,
        new.len() == present.len() ==> replacement(present, new) == new,
{
}

/// Relay flags as bytes: 1 for an energised relay, 0 for one at rest, and any byte but 0
/// energises.
pub proof fn law_relay_bytes(flags: Seq<bool>, bytes: Seq<u8>, i: int)
    ensures
        flags_as_bytes(flags).len() == flags.len(),
        bytes_as_flags(bytes).len() == bytes.len(),
        0 <= i < flags.len() ==> flags_as_bytes(flags)[i] == (if flags[i] {
            1u8
        } else {
            0u8
        }),
        0 <= i < bytes.len() ==> bytes_as_flags(bytes)[i] == (bytes[i] != 0),
{
}

/// Sources and inductors are found by their IDs, among the elements of their kind.
pub proof fn law_branches_are_found_by_id<T: Number, P>(
    c: CompiledNetlist<T, P>,
    i: int,
    wanted: Seq<char>,
)
    ensures
        Simulator::is_source(c, i, wanted) <==> (c.elements@[c.voltage_source_indices@[i] as int]
            matches Element::VoltageSource { id, .. } && id@ == wanted),
        Simulator::is_inductor(c, i, wanted) <==> (c.elements@[c.inductor_indices@[i] as int]
            matches Element::Inductor { id, .. } && id@ == wanted),
{
}

/// A list is finite where each of its values is.
pub proof fn law_finite_lists<T: Number>(values: Seq<T>)
    ensures
        all_finite(values) <==> forall|i: int|
            0 <= i < values.len() ==> (#[trigger] values[i]).finite(),
{
}

/// A netlist has the nodes at which some element has a terminal, ground aside.
pub proof fn law_nodes_are_terminals<T: Number>(netlist: Netlist<T>, id: u32)
    ensures
        netlist.has_node(id) <==> id != netlist.ground_node_id && exists|i: int, t: int|
            #![trigger netlist.elements@[i].terminals()[t]]
            0 <= i < netlist.elements@.len() && 0 <= t < netlist.elements@[i].terminals().len()
                && netlist.elements@[i].terminals()[t] == id,
{
    if netlist.has_node(id) {
        let i = choose|i: int|
            0 <= i < netlist.elements@.len() && #[trigger] netlist.elements@[i].touches(id);
        let t = choose|t: int|
            0 <= t < netlist.elements@[i].terminals().len()
                && #[trigger] netlist.elements@[i].terminals()[t] == id;
        assert(netlist.elements@[i].terminals()[t] == id);
    }
    if id != netlist.ground_node_id && exists|i: int, t: int|
        #![trigger netlist.elements@[i].terminals()[t]]
        0 <= i < netlist.elements@.len() && 0 <= t < netlist.elements@[i].terminals().len()
            && netlist.elements@[i].terminals()[t] == id {
        let (i, t) = choose|i: int, t: int|
            #![trigger netlist.elements@[i].terminals()[t]]
            0 <= i < netlist.elements@.len() && 0 <= t < netlist.elements@[i].terminals().len()
                && netlist.elements@[i].terminals()[t] == id;
        assert(netlist.elements@[i].touches(id));
    }
}

/// An operating-point solve that fails keeps every voltage, every current and the whole
/// history; what can change are the relays, and then that is on record.
pub proof fn law_failed_solve_keeps_every_value<T: Number, P, K: Kernel<T, P>>(
    k: K,
    c: CompiledNetlist<T, P>,
    s: TransientState<T>,
    r: Result<usize, DcIssue>,
    after: TransientState<T>,
)
    requires
        dc_solved(k, c, s, r, after),
        r is Err,
    ensures
        after.node_volts == s.node_volts,
        after.prev_node_volts == s.prev_node_volts,
        after.prev2_node_volts == s.prev2_node_volts,
        after.cap_volts == s.cap_volts,
        after.prev_cap_volts == s.prev_cap_volts,
        after.prev2_cap_volts == s.prev2_cap_volts,
        after.inductor_currents == s.inductor_currents,
        after.prev_inductor_currents == s.prev_inductor_currents,
        after.prev2_inductor_currents == s.prev2_inductor_currents,
        after.tj_cap_volts == s.tj_cap_volts,
        after.voltage_source_currents == s.voltage_source_currents,
        after.gear2_ready == s.gear2_ready,
        after.prev_dt == s.prev_dt,
        after.relay_active@ != s.relay_active@ ==> after.relay_toggled,
        after.relay_active@ == s.relay_active@ ==> after.relay_toggled == s.relay_toggled,
{
    law_failed_dc_keeps_state(k, c, s, r, after);
}

/// An operating point starts a new history: no step has been taken, no relay toggled, and
/// the next step has no previous length.
pub proof fn law_operating_point_starts_anew<T: Number, P, K: Kernel<T, P>>(
    k: K,
    c: CompiledNetlist<T, P>,
    s: TransientState<T>,
    r: Result<usize, DcIssue>,
    after: TransientState<T>,
)
    requires
        dc_solved(k, c, s, r, after),
        r is Ok,
    ensures
        !after.gear2_ready,
        !after.relay_toggled,
        after.prev_dt == zero::<T>(),
{
    let (direct, reached) = choose|direct: Result<usize, DcIssue>, reached: DcMoment<T>|
     #[trigger]
        direct_pass(k, c, s, direct, reached) && dc_concludes(k, c, s, direct, reached, r, after);
    assert(dc_concludes(k, c, s, direct, reached, r, after));
}

/// The current of a source or an inductor is read at its own place in the state: that of
/// the first element with its ID.
pub proof fn law_branches_read_their_currents<T: Number, P>(
    sim: Simulator<T, P>,
    id: Seq<char>,
    i: int,
    r: T,
)
    requires
        sim.circuit() is Some,
        sim.solver() is Some,
    ensures
        sim.source_reads(id, r) && 0 <= i < sim.circuit()->0.voltage_source_indices@.len()
            && Simulator::is_source(sim.circuit()->0, i, id) && (forall|j: int|
            0 <= j < i ==> !#[trigger] Simulator::is_source(sim.circuit()->0, j, id)) ==> r
            == sim.snapshot()->0.voltage_source_currents[i],
        sim.inductor_reads(id, r) && 0 <= i < sim.circuit()->0.inductor_indices@.len()
            && Simulator::is_inductor(sim.circuit()->0, i, id) && (forall|j: int|
            0 <= j < i ==> !#[trigger] Simulator::is_inductor(sim.circuit()->0, j, id)) ==> r
            == sim.snapshot()->0.inductor_currents[i],
{
    let c = sim.circuit()->0;
    if sim.source_reads(id, r) && 0 <= i < c.voltage_source_indices@.len() && Simulator::is_source(
        c,
        i,
        id,
    ) && (forall|j: int| 0 <= j < i ==> !#[trigger] Simulator::is_source(c, j, id)) {
        let k = choose|k: int|
            0 <= k < c.voltage_source_indices@.len() && #[trigger] Simulator::is_source(c, k, id)
                && (forall|j: int| 0 <= j < k ==> !#[trigger] Simulator::is_source(c, j, id)) && r
                == sim.solver()->0.voltage_source_currents@[k];
        assert(k == i);
    }
    if sim.inductor_reads(id, r) && 0 <= i < c.inductor_indices@.len() && Simulator::is_inductor(
        c,
        i,
        id,
    ) && (forall|j: int| 0 <= j < i ==> !#[trigger] Simulator::is_inductor(c, j, id)) {
        let k = choose|k: int|
            0 <= k < c.inductor_indices@.len() && #[trigger] Simulator::is_inductor(c, k, id) && (
            forall|j: int| 0 <= j < k ==> !#[trigger] Simulator::is_inductor(c, j, id)) && r
                == sim.solver()->0.inductor_currents@[k];
        assert(k == i);
    }
}

/// An ID that no element of the kind has reads 0, and so does every ID before compiling.
pub proof fn law_unknown_branches_read_zero<T: Number, P>(
    sim: Simulator<T, P>,
    id: Seq<char>,
    r: T,
)
    ensures
        sim.circuit() is None && (sim.source_reads(id, r) || sim.inductor_reads(id, r)) ==> r
            == zero::<T>(),
        sim.circuit() is Some && sim.source_reads(id, r) && (forall|j: int|
            0 <= j < sim.circuit()->0.voltage_source_indices@.len()
                ==> !#[trigger] Simulator::is_source(sim.circuit()->0, j, id)) ==> r
            == zero::<T>(),
        sim.circuit() is Some && sim.inductor_reads(id, r) && (forall|j: int|
            0 <= j < sim.circuit()->0.inductor_indices@.len()
                ==> !#[trigger] Simulator::is_inductor(sim.circuit()->0, j, id)) ==> r
            == zero::<T>(),
{
}

} // verus!
