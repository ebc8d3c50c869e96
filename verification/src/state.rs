//! The state that the solver carries from one step to the next.

use vstd::prelude::*;

use crate::compiled::CompiledNetlist;
use crate::netlist::Element;
use crate::number::{copy_of, filled, Number, zero};

verus! {

/// Solver state between steps: the current operating point and the history that
/// multi-step integration needs.
#[derive(Debug, Clone)]
pub struct TransientState<T> {
    /// Node voltages.
    pub node_volts: Vec<T>,
    /// Per-capacitor voltage, positive minus negative terminal.
    pub cap_volts: Vec<T>,
    /// Capacitor voltages one step earlier.
    pub prev_cap_volts: Vec<T>,
    /// Per-inductor branch current.
    pub inductor_currents: Vec<T>,
    /// Inductor currents one step earlier.
    pub prev_inductor_currents: Vec<T>,
    /// Inductor currents two steps earlier.
    pub prev2_inductor_currents: Vec<T>,
    /// Node voltages one step earlier, from which the predictor extrapolates.
    pub prev_node_volts: Vec<T>,
    /// Node voltages two steps earlier, for the error estimate.
    pub prev2_node_volts: Vec<T>,
    /// Capacitor voltages two steps earlier.
    pub prev2_cap_volts: Vec<T>,
    /// Junction voltages, `[Q0_Vbe, Q0_Vbc, Q1_Vbe, Q1_Vbc, ...]`.
    pub tj_cap_volts: Vec<T>,
    /// Branch current of each voltage source.
    pub voltage_source_currents: Vec<T>,
    /// Whether each relay is energised (its normally open contact closed).
    pub relay_active: Vec<bool>,
    /// The relays moved in the last step, or on the way to one that failed since.
    pub relay_toggled: bool,
    /// A step has been committed since the last operating-point solve.
    pub gear2_ready: bool,
    /// Length of the previous step.
    pub prev_dt: T,
}

/// What a [`TransientState`] holds.
#[verifier::ext_equal]
pub struct Snapshot<T> {
    pub node_volts: Seq<T>,
    pub cap_volts: Seq<T>,
    pub prev_cap_volts: Seq<T>,
    pub inductor_currents: Seq<T>,
    pub prev_inductor_currents: Seq<T>,
    pub prev2_inductor_currents: Seq<T>,
    pub prev_node_volts: Seq<T>,
    pub prev2_node_volts: Seq<T>,
    pub prev2_cap_volts: Seq<T>,
    pub tj_cap_volts: Seq<T>,
    pub voltage_source_currents: Seq<T>,
    pub relay_active: Seq<bool>,
    pub relay_toggled: bool,
    pub gear2_ready: bool,
    pub prev_dt: T,
}

impl<T> View for TransientState<T> {
    type V = Snapshot<T>;

    open spec fn view(&self) -> Snapshot<T> {
        Snapshot {
            node_volts: self.node_volts@,
            cap_volts: self.cap_volts@,
            prev_cap_volts: self.prev_cap_volts@,
            inductor_currents: self.inductor_currents@,
            prev_inductor_currents: self.prev_inductor_currents@,
            prev2_inductor_currents: self.prev2_inductor_currents@,
            prev_node_volts: self.prev_node_volts@,
            prev2_node_volts: self.prev2_node_volts@,
            prev2_cap_volts: self.prev2_cap_volts@,
            tj_cap_volts: self.tj_cap_volts@,
            voltage_source_currents: self.voltage_source_currents@,
            relay_active: self.relay_active@,
            relay_toggled: self.relay_toggled,
            gear2_ready: self.gear2_ready,
            prev_dt: self.prev_dt,
        }
    }
}

/// The value of a field after an import: the new one where it has the length of
/// the old one, the old one otherwise.
pub open spec fn replacement<A>(present: Seq<A>, new: Seq<A>) -> Seq<A> {
    if new.len() == present.len() {
        new
    } else {
        present
    }
}

/// A sequence of `n` zeros.
pub open spec fn zeros<T: Number>(n: nat) -> Seq<T> {
    Seq::new(n, |i: int| zero())
}

impl<T: Number> TransientState<T> {
    /// The state has the dimensions of the compiled netlist.
    pub open spec fn fits<P>(self, c: CompiledNetlist<T, P>) -> bool {
        &&& self.node_volts@.len() == c.n
        &&& self.prev_node_volts@.len() == c.n
        &&& self.prev2_node_volts@.len() == c.n
        &&& self.cap_volts@.len() == c.cap_count
        &&& self.prev_cap_volts@.len() == c.cap_count
        &&& self.prev2_cap_volts@.len() == c.cap_count
        &&& self.inductor_currents@.len() == c.inductor_count
        &&& self.prev_inductor_currents@.len() == c.inductor_count
        &&& self.prev2_inductor_currents@.len() == c.inductor_count
        &&& self.tj_cap_volts@.len() == c.transistor_count * 2
        &&& self.voltage_source_currents@.len() == c.m
        &&& self.relay_active@.len() == c.relay_count
    }

    /// The initial voltages that the capacitors declare.
    pub open spec fn declared_cap_volts<P>(c: CompiledNetlist<T, P>) -> Seq<T> {
        Seq::new(
            c.cap_count as nat,
            |i: int| c.element(c.capacitor_indices@, i)->initial_voltage,
        )
    }

    /// A circuit at rest: everything is zero but for the initial voltages of the
    /// capacitors, which also fill their history.
    pub open spec fn initial<P>(c: CompiledNetlist<T, P>) -> Snapshot<T> {
        Snapshot {
            node_volts: zeros(c.n as nat),
            prev_node_volts: zeros(c.n as nat),
            prev2_node_volts: zeros(c.n as nat),
            cap_volts: Self::declared_cap_volts(c),
            prev_cap_volts: Self::declared_cap_volts(c),
            prev2_cap_volts: Self::declared_cap_volts(c),
            inductor_currents: zeros(c.inductor_count as nat),
            prev_inductor_currents: zeros(c.inductor_count as nat),
            prev2_inductor_currents: zeros(c.inductor_count as nat),
            tj_cap_volts: zeros((c.transistor_count * 2) as nat),
            voltage_source_currents: zeros(c.m as nat),
            relay_active: Seq::new(c.relay_count as nat, |i: int| false),
            relay_toggled: false,
            gear2_ready: false,
            prev_dt: zero(),
        }
    }

    /// State of a circuit at rest: everything is zero but for the initial
    /// voltages of the capacitors, which also fill their history.
    pub fn new<P>(c: &CompiledNetlist<T, P>) -> (r: Self)
        requires
            c.wf(),
        ensures
            r.fits(*c),
            r@ == Self::initial(*c),
    {
        let nothing = T::decimal(0, 0);
        let mut cap_volts: Vec<T> = Vec::new();
        let mut i: usize = 0;
        while i < c.cap_count
            invariant
                i <= c.cap_count,
                c.wf(),
                cap_volts@ == Self::declared_cap_volts(*c).take(i as int),
            decreases c.cap_count - i,
        {
            assert(c.element(c.capacitor_indices@, i as int) is Capacitor);
            if let Element::Capacitor { initial_voltage, .. } =
                &c.elements[c.capacitor_indices[i]] {
                cap_volts.push(*initial_voltage);
            }
            i += 1;
        }
        assert(c.transistor_node_indices.len() == c.transistor_count * 3);
        Self {
            node_volts: filled(nothing, c.n),
            prev_node_volts: filled(nothing, c.n),
            prev2_node_volts: filled(nothing, c.n),
            prev_cap_volts: copy_of(&cap_volts),
            prev2_cap_volts: copy_of(&cap_volts),
            cap_volts,
            inductor_currents: filled(nothing, c.inductor_count),
            prev_inductor_currents: filled(nothing, c.inductor_count),
            prev2_inductor_currents: filled(nothing, c.inductor_count),
            tj_cap_volts: filled(nothing, c.transistor_count * 2),
            voltage_source_currents: filled(nothing, c.m),
            relay_active: filled(false, c.relay_count),
            relay_toggled: false,
            gear2_ready: false,
            prev_dt: nothing,
        }
    }

    /// Whether the state has the dimensions of the compiled netlist.
    pub fn has_shape_of<P>(&self, c: &CompiledNetlist<T, P>) -> (r: bool)
        requires
            c.wf(),
        ensures
            r == self.fits(*c),
    {
        assert(c.transistor_node_indices.len() == c.transistor_count * 3);
        let nodes = self.node_volts.len() == c.n && self.prev_node_volts.len() == c.n
            && self.prev2_node_volts.len() == c.n;
        let caps = self.cap_volts.len() == c.cap_count && self.prev_cap_volts.len() == c.cap_count
            && self.prev2_cap_volts.len() == c.cap_count;
        let inductors = self.inductor_currents.len() == c.inductor_count
            && self.prev_inductor_currents.len() == c.inductor_count
            && self.prev2_inductor_currents.len() == c.inductor_count;
        let rest = self.tj_cap_volts.len() == c.transistor_count * 2
            && self.voltage_source_currents.len() == c.m && self.relay_active.len()
            == c.relay_count;
        nodes && caps && inductors && rest
    }

    /// A state with the same contents.
    pub fn copied(&self) -> (r: Self)
        ensures
            r@ == self@,
    {
        TransientState {
            node_volts: copy_of(&self.node_volts),
            cap_volts: copy_of(&self.cap_volts),
            prev_cap_volts: copy_of(&self.prev_cap_volts),
            inductor_currents: copy_of(&self.inductor_currents),
            prev_inductor_currents: copy_of(&self.prev_inductor_currents),
            prev2_inductor_currents: copy_of(&self.prev2_inductor_currents),
            prev_node_volts: copy_of(&self.prev_node_volts),
            prev2_node_volts: copy_of(&self.prev2_node_volts),
            prev2_cap_volts: copy_of(&self.prev2_cap_volts),
            tj_cap_volts: copy_of(&self.tj_cap_volts),
            voltage_source_currents: copy_of(&self.voltage_source_currents),
            relay_active: copy_of(&self.relay_active),
            relay_toggled: self.relay_toggled,
            gear2_ready: self.gear2_ready,
            prev_dt: self.prev_dt,
        }
    }
}

} // verus!
