//! What holds of the simulator as an application sees it.

use vstd::prelude::*;

use crate::compiled::CompiledNetlist;
use crate::kernel::Kernel;
use crate::laws::history::{
    failed_likewise, law_bdf2_falls_back_to_backward_euler, law_restored_state_steps_the_same,
    steps_alike,
};
use crate::number::{zero, Number};
use crate::simulator::{
    bytes_as_flags, flags_as_bytes, geared, restored, restored_but_toggle, Simulator,
};
use crate::state::{zeros, Snapshot, TransientState};
use crate::transient::{stepped, StepConfig, StepIssue, StepResult};

verus! {

/// Ground is at 0 V, whatever the state.
pub proof fn law_ground_reads_zero<T: Number, P>(sim: Simulator<T, P>)
    ensures
        sim.voltage_at(sim.netlist().ground_node_id) == zero::<T>(),
{
}

/// A node that no element mentions reads 0 V.
pub proof fn law_unknown_node_reads_zero<T: Number, P>(sim: Simulator<T, P>, node_id: u32)
    requires
        sim.wf(),
        !sim.netlist().has_node(node_id),
    ensures
        sim.voltage_at(node_id) == zero::<T>(),
{
}

/// Adding an element drops what was compiled: every node reads 0 V until the
/// netlist is compiled again.
pub proof fn law_adding_invalidates<T: Number, P>(
    sim: Simulator<T, P>,
    e: crate::netlist::Element<T>,
    after: Simulator<T, P>,
    node_id: u32,
)
    requires
        sim.added(e, after),
    ensures
        after.circuit() is None,
        after.snapshot() is None,
        after.voltage_at(node_id) == zero::<T>(),
{
}

/// On the first step after compiling, after an operating-point solve or after a relay
/// toggled, the gear number makes no difference.
pub proof fn law_first_step_ignores_gear<T: Number, P, K: Kernel<T, P>>(
    sim: Simulator<T, P>,
    k: K,
    dt: T,
    gear: u8,
    r: Result<StepResult<T>, StepIssue>,
    after: TransientState<T>,
)
    requires
        sim.circuit() is Some,
        sim.solver() is Some,
        !sim.snapshot()->0.gear2_ready || sim.snapshot()->0.relay_toggled,
    ensures
        stepped(k, sim.circuit()->0, sim.solver()->0, geared(dt, gear), r, after) <==> stepped(
            k,
            sim.circuit()->0,
            sim.solver()->0,
            geared(dt, 1),
            r,
            after,
        ),
{
    law_bdf2_falls_back_to_backward_euler(
        k,
        sim.circuit()->0,
        sim.solver()->0,
        dt,
        false,
        r,
        after,
    );
}

/// A compiled simulator counts the nodes that its elements mention, ground aside, and
/// there is at least one.
pub proof fn law_nodes_are_those_of_the_netlist<T: Number, P>(sim: Simulator<T, P>)
    requires
        sim.wf(),
        sim.circuit() is Some,
    ensures
        sim.circuit()->0.node_index@.dom() == Set::new(|id: u32| sim.netlist().has_node(id)),
        sim.circuit()->0.n == sim.circuit()->0.node_index@.dom().len(),
        sim.circuit()->0.n > 0,
{
    let c = sim.circuit()->0;
    let nodes = Set::new(|id: u32| sim.netlist().has_node(id));
    assert forall|id: u32| c.node_index@.dom().contains(id) == nodes.contains(id) by {
        assert(c.node_index@.contains_key(id) <==> sim.netlist().has_node(id));
    }
    assert(c.node_index@.dom() =~= nodes);
    let id = choose|id: u32| sim.netlist().has_node(id);
    assert(c.node_index@.contains_key(id));
    assert(c.node_index@.dom().contains(id));
    assert(c.node_index@.dom().len() > 0);
}

/// A freshly compiled simulator has no history.
pub proof fn law_compiling_restarts<T: Number, P>(
    sim: Simulator<T, P>,
    answer: Option<CompiledNetlist<T, P>>,
    after: Simulator<T, P>,
)
    requires
        sim.installed(answer, true, after),
    ensures
        after.circuit() is Some,
        after.snapshot() is Some,
        !after.snapshot()->0.gear2_ready,
        after.snapshot()->0.node_volts == zeros::<T>(after.circuit()->0.n as nat),
{
}

/// Relay flags survive the way through bytes.
pub proof fn law_relay_flags_round_trip(flags: Seq<bool>)
    ensures
        bytes_as_flags(flags_as_bytes(flags)) == flags,
{
    assert(bytes_as_flags(flags_as_bytes(flags)) =~= flags);
}

/// Two snapshots have the same dimensions.
pub open spec fn same_shape<T>(a: Snapshot<T>, b: Snapshot<T>) -> bool {
    &&& a.node_volts.len() == b.node_volts.len()
    &&& a.prev_node_volts.len() == b.prev_node_volts.len()
    &&& a.cap_volts.len() == b.cap_volts.len()
    &&& a.prev_cap_volts.len() == b.prev_cap_volts.len()
    &&& a.inductor_currents.len() == b.inductor_currents.len()
    &&& a.prev_inductor_currents.len() == b.prev_inductor_currents.len()
    &&& a.tj_cap_volts.len() == b.tj_cap_volts.len()
    &&& a.relay_active.len() == b.relay_active.len()
}

/// Exporting from one simulator and importing into a rebuilt one of the same
/// dimensions carries over everything that the next step reads; only the older
/// history and the source currents, which the next step overwrites, stay behind.
pub proof fn law_export_import_restores<T>(target: Snapshot<T>, source: Snapshot<T>)
    requires
        same_shape(target, source),
    ensures
        restored(target, source) == (Snapshot {
            prev2_node_volts: target.prev2_node_volts,
            prev2_cap_volts: target.prev2_cap_volts,
            prev2_inductor_currents: target.prev2_inductor_currents,
            voltage_source_currents: target.voltage_source_currents,
            ..source
        }),
{
    law_relay_flags_round_trip(source.relay_active);
}

/// A simulator that took over the state of another one of the same dimensions has all
/// that the next step reads.
pub proof fn law_carried_over_states_step_alike<T: Number, P>(
    source: Simulator<T, P>,
    target: Simulator<T, P>,
    after: Simulator<T, P>,
)
    requires
        source.wf(),
        target.wf(),
        source.circuit() is Some,
        target.circuit() is Some,
        same_shape(target.snapshot()->0, source.snapshot()->0),
        target.carried_over(source, after),
    ensures
        steps_alike(source.solver()->0, after.solver()->0),
{
    law_export_import_restores(target.snapshot()->0, source.snapshot()->0);
}

/// A simulator that took over the state of another one of the same dimensions goes
/// on as that one would: from its state the same steps can be taken, and the same
/// failures met.
pub proof fn law_carried_over_simulator_goes_on<T: Number, P, K: Kernel<T, P>>(
    source: Simulator<T, P>,
    target: Simulator<T, P>,
    after: Simulator<T, P>,
    k: K,
    config: StepConfig<T>,
    r: Result<StepResult<T>, StepIssue>,
    end: TransientState<T>,
)
    requires
        source.wf(),
        target.wf(),
        source.circuit() is Some,
        target.circuit() is Some,
        same_shape(target.snapshot()->0, source.snapshot()->0),
        target.carried_over(source, after),
        stepped(k, after.circuit()->0, source.solver()->0, config, r, end),
    ensures
        stepped(
            k,
            after.circuit()->0,
            after.solver()->0,
            config,
            r,
            if r is Ok {
                end
            } else {
                failed_likewise(after.solver()->0, config.dt, end)
            },
        ),
{
    law_carried_over_states_step_alike(source, target, after);
    law_restored_state_steps_the_same(
        k,
        after.circuit()->0,
        source.solver()->0,
        after.solver()->0,
        config,
        r,
        end,
    );
}

/// Where no relay toggled last, neither in the simulator that the exports come from nor
/// in the one that they go to, the exports but for `export_relay_toggled` do what all of
/// them do.
pub proof fn law_exports_carry_over_unless_toggled<T: Number, P>(
    source: Simulator<T, P>,
    target: Simulator<T, P>,
    after: Simulator<T, P>,
)
    requires
        source.snapshot() is Some,
        target.snapshot() is Some,
        !source.snapshot()->0.relay_toggled,
        !target.snapshot()->0.relay_toggled,
        target.same_circuit(after),
        after.snapshot() == Some(
            restored_but_toggle(target.snapshot()->0, source.snapshot()->0),
        ),
    ensures
        target.carried_over(source, after),
{
}

/// The exports but for `export_relay_toggled` carry over all that the next step reads
/// where no relay toggled last, neither in the simulator that they come from nor in the
/// one that they go to: from its state the same steps can be taken, and the same
/// failures met.
pub proof fn law_exports_suffice_unless_toggled<T: Number, P, K: Kernel<T, P>>(
    source: Simulator<T, P>,
    target: Simulator<T, P>,
    after: Simulator<T, P>,
    k: K,
    config: StepConfig<T>,
    r: Result<StepResult<T>, StepIssue>,
    end: TransientState<T>,
)
    requires
        source.wf(),
        target.wf(),
        source.circuit() is Some,
        target.circuit() is Some,
        same_shape(target.snapshot()->0, source.snapshot()->0),
        !source.snapshot()->0.relay_toggled,
        !target.snapshot()->0.relay_toggled,
        target.same_circuit(after),
        after.snapshot() == Some(
            restored_but_toggle(target.snapshot()->0, source.snapshot()->0),
        ),
        stepped(k, after.circuit()->0, source.solver()->0, config, r, end),
    ensures
        stepped(
            k,
            after.circuit()->0,
            after.solver()->0,
            config,
            r,
            if r is Ok {
                end
            } else {
                failed_likewise(after.solver()->0, config.dt, end)
            },
        ),
{
    law_exports_carry_over_unless_toggled(source, target, after);
    law_carried_over_simulator_goes_on(source, target, after, k, config, r, end);
}

/// A freshly compiled circuit has no toggled relay, so that it can be restored by the
/// exports but for `export_relay_toggled`.
pub proof fn law_compiled_circuit_has_not_toggled<T: Number, P>(
    sim: Simulator<T, P>,
    answer: Option<CompiledNetlist<T, P>>,
    after: Simulator<T, P>,
)
    requires
        sim.installed(answer, true, after),
    ensures
        !after.snapshot()->0.relay_toggled,
{
}

/// The whole state can be set back: what was read from a simulator fits it, and every
/// field is again what it was.
pub proof fn law_full_state_round_trip<T: Number, P>(
    sim: Simulator<T, P>,
    saved: TransientState<T>,
    later: Simulator<T, P>,
    r: bool,
    after: Simulator<T, P>,
)
    requires
        sim.wf(),
        sim.snapshot() == Some(saved@),
        sim.same_circuit(later),
        later.reset_to(saved, r, after),
    ensures
        r,
        sim.same_circuit(after),
        after.snapshot() == sim.snapshot(),
{
}

/// After the whole state has been set back, the same steps can be taken as from the
/// state that was read, and the same failures met.
pub proof fn law_full_state_goes_on<T: Number, P, K: Kernel<T, P>>(
    sim: Simulator<T, P>,
    saved: TransientState<T>,
    later: Simulator<T, P>,
    after: Simulator<T, P>,
    k: K,
    config: StepConfig<T>,
    r: Result<StepResult<T>, StepIssue>,
    end: TransientState<T>,
)
    requires
        sim.wf(),
        sim.snapshot() == Some(saved@),
        sim.same_circuit(later),
        later.reset_to(saved, true, after),
        stepped(k, sim.circuit()->0, sim.solver()->0, config, r, end),
    ensures
        stepped(
            k,
            after.circuit()->0,
            after.solver()->0,
            config,
            r,
            if r is Ok {
                end
            } else {
                failed_likewise(after.solver()->0, config.dt, end)
            },
        ),
{
    law_restored_state_steps_the_same(
        k,
        after.circuit()->0,
        sim.solver()->0,
        after.solver()->0,
        config,
        r,
        end,
    );
}

/// Importing what was just exported changes nothing.
pub proof fn law_export_import_is_identity<T>(s: Snapshot<T>)
    ensures
        restored(s, s) == s,
{
    law_export_import_restores(s, s);
}

/// A rebuilt simulator that numbers its nodes like the old one and has been
/// restored from it reads the same voltage at every node: values can change under
/// a running circuit without a jump.
pub proof fn law_restored_simulator_reads_the_same<T: Number, P>(
    old_sim: Simulator<T, P>,
    new_sim: Simulator<T, P>,
    node_id: u32,
)
    requires
        old_sim.wf(),
        new_sim.wf(),
        old_sim.circuit() is Some,
        new_sim.circuit() is Some,
        old_sim.netlist().ground_node_id == new_sim.netlist().ground_node_id,
        old_sim.circuit()->0.node_index@ == new_sim.circuit()->0.node_index@,
        new_sim.snapshot()->0.node_volts == old_sim.snapshot()->0.node_volts,
    ensures
        new_sim.voltage_at(node_id) == old_sim.voltage_at(node_id),
{
}

} // verus!
