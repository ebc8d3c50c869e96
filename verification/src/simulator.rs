//! The simulator as an application drives it: build a netlist, compile it, step
//! it, read voltages and currents.

use vstd::prelude::*;
use vstd::set_lib::*;

use crate::compiled::CompiledNetlist;
use crate::dc::{dc_solved, solve_dc, DcIssue};
use crate::kernel::Kernel;
use crate::netlist::{Element, Netlist};
use crate::number::{copy_of, one, Number, zero};
use crate::state::{replacement, Snapshot, TransientState};
use crate::transient::{self, step_with_config, stepped, Gear, StepConfig, StepIssue};
use crate::types::{Diode, Transistor};

verus! {

/// Outcome of a step as a plain record.
#[derive(Debug, Clone, Copy, PartialEq, Eq, Structural)]
pub struct StepResult {
    pub ok: bool,
    /// On success the Newton iterations, on failure 0.
    pub iters: u32,
    /// On failure 1 for a singular matrix, 2 if Newton did not converge, 3 for a
    /// bad timestep or a missing circuit; on success 0.
    pub issue: u32,
}

/// The record of what a step returned.
pub open spec fn record<T>(
    r: Result<transient::StepResult<T>, StepIssue>,
) -> StepResult {
    match r {
        Ok(result) => StepResult { ok: true, iters: result.iters as u32, issue: 0 },
        Err(StepIssue::SingularMatrix) => StepResult { ok: false, iters: 0, issue: 1 },
        Err(StepIssue::NewtonDidNotConverge) => StepResult { ok: false, iters: 0, issue: 2 },
        Err(StepIssue::BadTimestep) => StepResult { ok: false, iters: 0, issue: 3 },
    }
}

/// The configuration that a gear number selects: 2 is BDF-2, any other number
/// backward Euler.
pub open spec fn geared<T>(dt: T, gear: u8) -> StepConfig<T> {
    StepConfig {
        dt,
        gear: if gear == 2 {
            Gear::Bdf2
        } else {
            Gear::Be
        },
        estimate_lte: false,
    }
}

/// A netlist with its compiled form and its solver state.
pub struct Simulator<T, P> {
    netlist: Netlist<T>,
    compiled: Option<CompiledNetlist<T, P>>,
    state: Option<TransientState<T>>,
}

impl<T: Number, P> Simulator<T, P> {
    /// The netlist built so far.
    pub closed spec fn netlist(self) -> Netlist<T> {
        self.netlist
    }

    /// The compiled netlist; `None` until it is compiled, and again after any
    /// change to it.
    pub closed spec fn circuit(self) -> Option<CompiledNetlist<T, P>> {
        self.compiled
    }

    /// The solver state of the compiled netlist.
    pub closed spec fn solver(self) -> Option<TransientState<T>> {
        self.state
    }

    /// The contents of the solver state.
    pub open spec fn snapshot(self) -> Option<Snapshot<T>> {
        match self.solver() {
            Some(s) => Some(s@),
            None => None,
        }
    }

    /// A compiled netlist is a layout of the netlist, and comes with a state that fits
    /// it.
    pub open spec fn wf(self) -> bool {
        match self.circuit() {
            Some(c) => {
                &&& c.wf()
                &&& c.describes(self.netlist())
                &&& self.solver() is Some
                &&& self.solver()->0.fits(c)
            },
            None => self.solver() is None,
        }
    }

    /// The simulator after adding an element: the element is last in the netlist,
    /// and whatever was compiled is gone.
    pub open spec fn added(self, e: Element<T>, after: Self) -> bool {
        &&& after.netlist().elements@ == self.netlist().elements@.push(e)
        &&& after.netlist().ground_node_id == self.netlist().ground_node_id
        &&& after.circuit() is None
        &&& after.solver() is None
        &&& after.wf()
    }

    /// Netlist and compiled netlist are the same in both.
    pub open spec fn same_circuit(self, after: Self) -> bool {
        &&& after.netlist() == self.netlist()
        &&& after.circuit() == self.circuit()
        &&& after.wf()
    }

    /// Create an empty simulator with `ground_node_id` as the reference.
    pub fn new(ground_node_id: u32) -> (r: Simulator<T, P>)
        ensures
            r.netlist().elements@ == Seq::<Element<T>>::empty(),
            r.netlist().ground_node_id == ground_node_id,
            r.circuit() is None,
            r.solver() is None,
            r.wf(),
    {
        Simulator { netlist: Netlist::new(ground_node_id), compiled: None, state: None }
    }

    fn invalidate(&mut self)
        ensures
            final(self).netlist() == old(self).netlist(),
            final(self).circuit() is None,
            final(self).solver() is None,
    {
        self.compiled = None;
        self.state = None;
    }

    fn add_element(&mut self, e: Element<T>)
        ensures
            old(self).added(e, *final(self)),
    {
        self.invalidate();
        self.netlist.push(e);
    }

    /// Add a resistor.
    pub fn add_resistor(
        &mut self,
        id: String,
        a: u32,
        b: u32,
        resistance_ohms: T,
    )
        ensures
            old(self).added((Element::Resistor { id, a, b, resistance_ohms }), *final(self)),
    {
        self.add_element(Element::Resistor { id, a, b, resistance_ohms });
    }

    /// Add a capacitor.
    pub fn add_capacitor(
        &mut self,
        id: String,
        a: u32,
        b: u32,
        capacitance_farads: T,
        initial_voltage: T,
    )
        ensures
            old(self).added(
                (Element::Capacitor { id, a, b, capacitance_farads, initial_voltage }),
                *final(self),
            ),
    {
        self.add_element(Element::Capacitor { id, a, b, capacitance_farads, initial_voltage });
    }

    /// Add an inductor.  `coupling_group` and `coupling_polarity` make it a winding
    /// of a mutual-inductance group, whose strength an `add_coupling` gives; the
    /// polarity defaults to +1.
    pub fn add_inductor(
        &mut self,
        id: String,
        a: u32,
        b: u32,
        inductance_henry: T,
        saturation_current_a: Option<T>,
        coupling_group: Option<String>,
        coupling_polarity: Option<i32>,
    )
        ensures
            old(self).added(
                (Element::Inductor {
                    id,
                    a,
                    b,
                    inductance_henry,
                    saturation_current_a,
                    coupling_group,
                    coupling_polarity: match coupling_polarity {
                        Some(polarity) => polarity,
                        None => 1,
                    },
                }),
                *final(self),
            ),
    {
        let coupling_polarity = match coupling_polarity {
            Some(polarity) => polarity,
            None => 1,
        };
        self.add_element(
            Element::Inductor {
                id,
                a,
                b,
                inductance_henry,
                saturation_current_a,
                coupling_group,
                coupling_polarity,
            },
        );
    }

    /// Couple all inductors of a group with coefficient `k`.
    pub fn add_coupling(
        &mut self,
        id: String,
        coupling_group: String,
        k: T,
    )
        ensures
            old(self).added((Element::Coupling { id, coupling_group, k }), *final(self)),
    {
        self.add_element(Element::Coupling { id, coupling_group, k });
    }

    /// Add a voltage source.
    pub fn add_voltage_source(
        &mut self,
        id: String,
        positive_node: u32,
        negative_node: u32,
        voltage: T,
    )
        ensures
            old(self).added(
                (Element::VoltageSource { id, positive_node, negative_node, voltage }),
                *final(self),
            ),
    {
        self.add_element(Element::VoltageSource { id, positive_node, negative_node, voltage });
    }

    /// Add a diode.
    pub fn add_diode(
        &mut self,
        id: String,
        anode: u32,
        cathode: u32,
        diode: &Diode<T>,
    )
        ensures
            old(self).added((Element::Diode { id, anode, cathode, params: *diode }), *final(self)),
    {
        self.add_element(Element::Diode { id, anode, cathode, params: *diode });
    }

    /// Add a transistor.
    pub fn add_transistor(
        &mut self,
        id: String,
        base: u32,
        collector: u32,
        emitter: u32,
        q: &Transistor<T>,
    )
        ensures
            old(self).added(
                (Element::Transistor { id, base, collector, emitter, params: *q }),
                *final(self),
            ),
    {
        self.add_element(Element::Transistor { id, base, collector, emitter, params: *q });
    }

    /// Add a relay.  Pass `off_current < on_current` for proper hysteresis.
    #[allow(clippy::too_many_arguments)]
    pub fn add_relay(
        &mut self,
        id: String,
        coil_positive: u32,
        coil_negative: u32,
        common: u32,
        normally_closed: u32,
        normally_open: u32,
        coil_resistance_ohms: T,
        ron_ohms: T,
        roff_ohms: T,
        on_current: T,
        off_current: T,
    )
        ensures
            old(self).added(
                (Element::Relay {
                    id,
                    coil_positive,
                    coil_negative,
                    common,
                    normally_closed,
                    normally_open,
                    coil_resistance_ohms,
                    ron_ohms,
                    roff_ohms,
                    on_current,
                    off_current,
                }),
                *final(self),
            ),
    {
        self.add_element(
            Element::Relay {
                id,
                coil_positive,
                coil_negative,
                common,
                normally_closed,
                normally_open,
                coil_resistance_ohms,
                ron_ohms,
                roff_ohms,
                on_current,
                off_current,
            },
        );
    }

    /// What becomes of a compiler's answer: a layout of this netlist that is
    /// consistent is taken over, with the state of a circuit at rest; any other answer
    /// changes nothing.
    pub open spec fn installed(
        self,
        answer: Option<CompiledNetlist<T, P>>,
        r: bool,
        after: Self,
    ) -> bool {
        if answer matches Some(c) && c.wf() && c.describes(self.netlist()) {
            &&& r
            &&& after.netlist() == self.netlist()
            &&& after.circuit() == answer
            &&& after.snapshot() == Some(TransientState::initial(answer->0))
            &&& after.wf()
        } else {
            !r && after == self
        }
    }

    /// Takes over a compiled form of the netlist, with fresh solver state.  Returns
    /// whether there was a consistent one.  A netlist without a node but ground has
    /// none.
    pub fn install(&mut self, answer: Option<CompiledNetlist<T, P>>) -> (r: bool)
        ensures
            old(self).installed(answer, r, *final(self)),
    {
        match answer {
            Some(c) => {
                if !c.is_well_formed() || !c.is_layout_of(&self.netlist) {
                    return false;
                }
                let state = TransientState::new(&c);
                self.compiled = Some(c);
                self.state = Some(state);
                true
            },
            None => false,
        }
    }

    /// Build the compiled netlist and the solver state.  Must be called after the
    /// last `add_*` and before the first `step`.  Returns `false`, and changes
    /// nothing, if the netlist has no node but ground or the kernel has no consistent
    /// layout for it.
    pub fn compile<K: Kernel<T, P>>(&mut self, kernel: &K) -> (r: bool)
        ensures
            exists|answer: Option<CompiledNetlist<T, P>>| #[trigger]
                call_ensures(K::compile_netlist, (kernel, &old(self).netlist()), answer) && old(
                    self,
                ).installed(answer, r, *final(self)),
            (forall|id: u32| !#[trigger] old(self).netlist().has_node(id)) ==> !r && *final(self)
                == *old(self),
    {
        let answer = kernel.compile_netlist(&self.netlist);
        self.install(answer)
    }

    /// Advance the simulation by `dt` seconds by backward Euler.
    pub fn step<K: Kernel<T, P>>(&mut self, dt: T, kernel: &K) -> (r: StepResult)
        requires
            old(self).wf(),
        ensures
            old(self).same_circuit(*final(self)),
            old(self).circuit() is None ==> *final(self) == *old(self) && r == (StepResult {
                ok: false,
                iters: 0,
                issue: 3,
            }),
            old(self).circuit() matches Some(c) ==> exists|
                result: Result<transient::StepResult<T>, StepIssue>,
            | #[trigger]
                stepped(
                    *kernel,
                    c,
                    old(self).solver()->0,
                    geared(dt, 1),
                    result,
                    final(self).solver()->0,
                ) && r == record(result),
    {
        self.step_with_gear(dt, 1, kernel)
    }

    /// Advance with explicit gear selection: 2 is BDF-2, which falls back to
    /// backward Euler on the first step after compiling, after an operating-point
    /// solve or after a relay toggled; any other number is backward Euler.
    pub fn step_with_gear<K: Kernel<T, P>>(
        &mut self,
        dt: T,
        gear: u8,
        kernel: &K,
    ) -> (r: StepResult)
        requires
            old(self).wf(),
        ensures
            old(self).same_circuit(*final(self)),
            old(self).circuit() is None ==> *final(self) == *old(self) && r == (StepResult {
                ok: false,
                iters: 0,
                issue: 3,
            }),
            old(self).circuit() matches Some(c) ==> exists|
                result: Result<transient::StepResult<T>, StepIssue>,
            | #[trigger]
                stepped(
                    *kernel,
                    c,
                    old(self).solver()->0,
                    geared(dt, gear),
                    result,
                    final(self).solver()->0,
                ) && r == record(result),
    {
        let c = match &self.compiled {
            Some(c) => c,
            None => {
                return StepResult { ok: false, iters: 0, issue: 3 };
            },
        };
        let s = match &mut self.state {
            Some(s) => s,
            None => {
                return StepResult { ok: false, iters: 0, issue: 3 };
            },
        };
        let config = match gear {
            2 => StepConfig::bdf2(dt),
            _ => StepConfig::be(dt),
        };
        let result = step_with_config(c, s, config, kernel);
        assert(stepped(
            *kernel,
            *c,
            old(self).solver()->0,
            geared(dt, gear),
            result,
            self.solver()->0,
        ));
        match result {
            Ok(result) => StepResult { ok: true, iters: result.iters as u32, issue: 0 },
            Err(StepIssue::SingularMatrix) => StepResult { ok: false, iters: 0, issue: 1 },
            Err(StepIssue::NewtonDidNotConverge) => StepResult { ok: false, iters: 0, issue: 2 },
            Err(StepIssue::BadTimestep) => StepResult { ok: false, iters: 0, issue: 3 },
        }
    }

    /// Solve for the operating point and write it into the solver state.  Circuits
    /// with transistors need this before the first step.  Returns `true` on
    /// success, and `false` if nothing is compiled.
    pub fn solve_dc<K: Kernel<T, P>>(&mut self, kernel: &K) -> (r: bool)
        requires
            old(self).wf(),
        ensures
            old(self).same_circuit(*final(self)),
            old(self).circuit() is None ==> !r && *final(self) == *old(self),
            old(self).circuit() matches Some(c) ==> exists|result: Result<usize, DcIssue>|
             #[trigger]
                dc_solved(*kernel, c, old(self).solver()->0, result, final(self).solver()->0) && r
                    == (result is Ok),
    {
        let c = match &self.compiled {
            Some(c) => c,
            None => {
                return false;
            },
        };
        let s = match &mut self.state {
            Some(s) => s,
            None => {
                return false;
            },
        };
        let result = solve_dc(c, s, kernel);
        assert(dc_solved(*kernel, *c, old(self).solver()->0, result, self.solver()->0));
        match result {
            Ok(_) => true,
            Err(_) => false,
        }
    }

    /// What `node_voltage` reads.
    pub open spec fn voltage_at(self, node_id: u32) -> T {
        match self.circuit() {
            Some(c) => if node_id != self.netlist().ground_node_id
                && c.node_index@.contains_key(node_id) {
                self.solver()->0.node_volts@[c.node_index@[node_id] as int]
            } else {
                zero()
            },
            None => zero(),
        }
    }

    /// Voltage at a node ID; 0 if the node is ground, if no element mentions it, or
    /// if nothing is compiled.
    pub fn node_voltage(&self, node_id: u32) -> (r: T)
        requires
            self.wf(),
        ensures
            r == self.voltage_at(node_id),
    {
        broadcast use vstd::std_specs::hash::group_hash_axioms;

        let nothing = T::decimal(0, 0);
        let c = match &self.compiled {
            Some(c) => c,
            None => {
                return nothing;
            },
        };
        let s = match &self.state {
            Some(s) => s,
            None => {
                return nothing;
            },
        };
        if node_id == self.netlist.ground_node_id {
            return nothing;
        }
        match c.node_index.get(&node_id) {
            Some(idx) => s.node_volts[*idx],
            None => nothing,
        }
    }

    /// Position `i` of the list of voltage sources is the source with this ID.
    pub open spec fn is_source(c: CompiledNetlist<T, P>, i: int, id: Seq<char>) -> bool {
        let e = c.element(c.voltage_source_indices@, i);
        e is VoltageSource && e.name() == id
    }

    /// `r` is the current of the first source with this ID; 0 if there is none, or if
    /// nothing is compiled.
    pub open spec fn source_reads(self, id: Seq<char>, r: T) -> bool {
        match self.circuit() {
            None => r == zero::<T>(),
            Some(c) => {
                ||| exists|i: int|
                    0 <= i < c.voltage_source_indices@.len() && #[trigger] Self::is_source(
                        c,
                        i,
                        id,
                    ) && (forall|j: int| 0 <= j < i ==> !#[trigger] Self::is_source(c, j, id)) && r
                        == self.solver()->0.voltage_source_currents@[i]
                ||| (forall|j: int|
                    0 <= j < c.voltage_source_indices@.len() ==> !#[trigger] Self::is_source(
                        c,
                        j,
                        id,
                    )) && r == zero::<T>()
            },
        }
    }

    /// Voltage-source branch current by component ID; 0 if the component is unknown
    /// or nothing is compiled.  Of several sources with one ID the first counts.
    ///
    /// A positive current flows from the circuit into the + terminal, so a battery
    /// that drives a load has a negative one.
    pub fn voltage_source_current(&self, id: &str) -> (r: T)
        requires
            self.wf(),
        ensures
            self.circuit() is None ==> r == zero::<T>(),
            self.circuit() matches Some(c) ==> {
                ||| exists|i: int|
                    0 <= i < c.voltage_source_indices@.len() && #[trigger] Self::is_source(
                        c,
                        i,
                        id@,
                    ) && (forall|j: int| 0 <= j < i ==> !#[trigger] Self::is_source(c, j, id@))
                        && r == self.solver()->0.voltage_source_currents@[i]
                ||| (forall|j: int|
                    0 <= j < c.voltage_source_indices@.len() ==> !#[trigger] Self::is_source(
                        c,
                        j,
                        id@,
                    )) && r == zero::<T>()
            },
            self.source_reads(id@, r),
    {
        let nothing = T::decimal(0, 0);
        let c = match &self.compiled {
            Some(c) => c,
            None => {
                return nothing;
            },
        };
        let s = match &self.state {
            Some(s) => s,
            None => {
                return nothing;
            },
        };
        let wanted = id.to_string();
        let mut i: usize = 0;
        while i < c.voltage_source_indices.len()
            invariant
                i <= c.voltage_source_indices.len(),
                c.wf(),
                s.fits(*c),
                self.circuit() == Some(*c),
                self.solver() == Some(*s),
                wanted@ == id@,
                nothing == zero::<T>(),
                forall|j: int| 0 <= j < i ==> !#[trigger] Self::is_source(*c, j, id@),
            decreases c.voltage_source_indices.len() - i,
        {
            if let Element::VoltageSource { id: el_id, .. } =
                &c.elements[c.voltage_source_indices[i]] {
                if *el_id == wanted {
                    assert(Self::is_source(*c, i as int, id@));
                    return s.voltage_source_currents[i];
                }
            }
            i += 1;
        }
        nothing
    }

    /// Position `i` of the list of inductors is the inductor with this ID.
    pub open spec fn is_inductor(c: CompiledNetlist<T, P>, i: int, id: Seq<char>) -> bool {
        let e = c.element(c.inductor_indices@, i);
        e is Inductor && e.name() == id
    }

    /// `r` is the current of the first inductor with this ID; 0 if there is none, or if
    /// nothing is compiled.
    pub open spec fn inductor_reads(self, id: Seq<char>, r: T) -> bool {
        match self.circuit() {
            None => r == zero::<T>(),
            Some(c) => {
                ||| exists|i: int|
                    0 <= i < c.inductor_indices@.len() && #[trigger] Self::is_inductor(c, i, id)
                        && (forall|j: int| 0 <= j < i ==> !#[trigger] Self::is_inductor(c, j, id))
                        && r == self.solver()->0.inductor_currents@[i]
                ||| (forall|j: int|
                    0 <= j < c.inductor_indices@.len() ==> !#[trigger] Self::is_inductor(
                        c,
                        j,
                        id,
                    )) && r == zero::<T>()
            },
        }
    }

    /// Inductor branch current by component ID; 0 if the component is unknown or
    /// nothing is compiled.  A positive current flows from terminal `a` to `b`.
    pub fn inductor_current(&self, id: &str) -> (r: T)
        requires
            self.wf(),
        ensures
            self.circuit() is None ==> r == zero::<T>(),
            self.circuit() matches Some(c) ==> {
                ||| exists|i: int|
                    0 <= i < c.inductor_indices@.len() && #[trigger] Self::is_inductor(c, i, id@)
                        && (forall|j: int| 0 <= j < i ==> !#[trigger] Self::is_inductor(c, j, id@))
                        && r == self.solver()->0.inductor_currents@[i]
                ||| (forall|j: int|
                    0 <= j < c.inductor_indices@.len() ==> !#[trigger] Self::is_inductor(
                        c,
                        j,
                        id@,
                    )) && r == zero::<T>()
            },
            self.inductor_reads(id@, r),
    {
        let nothing = T::decimal(0, 0);
        let c = match &self.compiled {
            Some(c) => c,
            None => {
                return nothing;
            },
        };
        let s = match &self.state {
            Some(s) => s,
            None => {
                return nothing;
            },
        };
        let wanted = id.to_string();
        let mut i: usize = 0;
        while i < c.inductor_indices.len()
            invariant
                i <= c.inductor_indices.len(),
                c.wf(),
                s.fits(*c),
                self.circuit() == Some(*c),
                self.solver() == Some(*s),
                wanted@ == id@,
                nothing == zero::<T>(),
                forall|j: int| 0 <= j < i ==> !#[trigger] Self::is_inductor(*c, j, id@),
            decreases c.inductor_indices.len() - i,
        {
            if let Element::Inductor { id: el_id, .. } = &c.elements[c.inductor_indices[i]] {
                if *el_id == wanted {
                    assert(Self::is_inductor(*c, i as int, id@));
                    return s.inductor_currents[i];
                }
            }
            i += 1;
        }
        nothing
    }

    /// Number of non-ground nodes; 0 if nothing is compiled.
    pub fn node_count(&self) -> (r: u32)
        ensures
            self.circuit() is None ==> r == 0,
            self.circuit() matches Some(c) ==> r == c.n as u32 && (self.wf() ==> r as int == c.n),
    {
        proof {
            if self.wf() && self.circuit() is Some {
                lemma_nodes_fit_u32(
                    self.circuit()->0.node_index@.dom(),
                    self.netlist().ground_node_id,
                );
            }
        }
        match &self.compiled {
            Some(c) => c.n as u32,
            None => 0,
        }
    }

    /// Copy of the node voltages; empty if nothing is compiled.
    pub fn export_node_volts(&self) -> (r: Vec<T>)
        ensures
            r@ == (match self.snapshot() {
                Some(s) => s.node_volts,
                None => Seq::empty(),
            }),
    {
        match &self.state {
            Some(s) => copy_of(&s.node_volts),
            None => Vec::new(),
        }
    }

    /// Replaces the node voltages.  Ignored if the length differs or nothing is compiled.
    pub fn import_node_volts(&mut self, v: Vec<T>)
        ensures
            old(self).wf() ==> old(self).same_circuit(*final(self)),
            final(self).snapshot() == (match old(self).snapshot() {
                Some(s) => Some(Snapshot { node_volts: replacement(s.node_volts, v@), ..s }),
                None => None,
            }),
    {
        if let Some(s) = &mut self.state {
            if v.len() == s.node_volts.len() {
                s.node_volts = v;
            }
        }
    }

    /// Copy of the node voltages one step earlier; empty if nothing is compiled.
    pub fn export_prev_node_volts(&self) -> (r: Vec<T>)
        ensures
            r@ == (match self.snapshot() {
                Some(s) => s.prev_node_volts,
                None => Seq::empty(),
            }),
    {
        match &self.state {
            Some(s) => copy_of(&s.prev_node_volts),
            None => Vec::new(),
        }
    }

    /// Replaces the node voltages one step earlier.  Ignored if the length differs
    /// or nothing is compiled.
    pub fn import_prev_node_volts(&mut self, v: Vec<T>)
        ensures
            old(self).wf() ==> old(self).same_circuit(*final(self)),
            final(self).snapshot() == (match old(self).snapshot() {
                Some(s) => Some(
                    Snapshot {
                        prev_node_volts: replacement(s.prev_node_volts, v@),
                        ..s
                    },
                ),
                None => None,
            }),
    {
        if let Some(s) = &mut self.state {
            if v.len() == s.prev_node_volts.len() {
                s.prev_node_volts = v;
            }
        }
    }

    /// Copy of the capacitor voltages; empty if nothing is compiled.
    pub fn export_cap_volts(&self) -> (r: Vec<T>)
        ensures
            r@ == (match self.snapshot() {
                Some(s) => s.cap_volts,
                None => Seq::empty(),
            }),
    {
        match &self.state {
            Some(s) => copy_of(&s.cap_volts),
            None => Vec::new(),
        }
    }

    /// Replaces the capacitor voltages.  Ignored if the length differs or nothing is compiled.
    pub fn import_cap_volts(&mut self, v: Vec<T>)
        ensures
            old(self).wf() ==> old(self).same_circuit(*final(self)),
            final(self).snapshot() == (match old(self).snapshot() {
                Some(s) => Some(Snapshot { cap_volts: replacement(s.cap_volts, v@), ..s }),
                None => None,
            }),
    {
        if let Some(s) = &mut self.state {
            if v.len() == s.cap_volts.len() {
                s.cap_volts = v;
            }
        }
    }

    /// Copy of the capacitor voltages one step earlier; empty if nothing is compiled.
    pub fn export_prev_cap_volts(&self) -> (r: Vec<T>)
        ensures
            r@ == (match self.snapshot() {
                Some(s) => s.prev_cap_volts,
                None => Seq::empty(),
            }),
    {
        match &self.state {
            Some(s) => copy_of(&s.prev_cap_volts),
            None => Vec::new(),
        }
    }

    /// Replaces the capacitor voltages one step earlier.  Ignored if the length differs
    /// or nothing is compiled.
    pub fn import_prev_cap_volts(&mut self, v: Vec<T>)
        ensures
            old(self).wf() ==> old(self).same_circuit(*final(self)),
            final(self).snapshot() == (match old(self).snapshot() {
                Some(s) => Some(
                    Snapshot {
                        prev_cap_volts: replacement(s.prev_cap_volts, v@),
                        ..s
                    },
                ),
                None => None,
            }),
    {
        if let Some(s) = &mut self.state {
            if v.len() == s.prev_cap_volts.len() {
                s.prev_cap_volts = v;
            }
        }
    }

    /// Copy of the inductor currents; empty if nothing is compiled.
    pub fn export_inductor_currents(&self) -> (r: Vec<T>)
        ensures
            r@ == (match self.snapshot() {
                Some(s) => s.inductor_currents,
                None => Seq::empty(),
            }),
    {
        match &self.state {
            Some(s) => copy_of(&s.inductor_currents),
            None => Vec::new(),
        }
    }

    /// Replaces the inductor currents.  Ignored if the length differs or nothing is compiled.
    pub fn import_inductor_currents(&mut self, v: Vec<T>)
        ensures
            old(self).wf() ==> old(self).same_circuit(*final(self)),
            final(self).snapshot() == (match old(self).snapshot() {
                Some(s) => Some(
                    Snapshot {
                        inductor_currents: replacement(s.inductor_currents, v@),
                        ..s
                    },
                ),
                None => None,
            }),
    {
        if let Some(s) = &mut self.state {
            if v.len() == s.inductor_currents.len() {
                s.inductor_currents = v;
            }
        }
    }

    /// Copy of the inductor currents one step earlier; empty if nothing is compiled.
    pub fn export_prev_inductor_currents(&self) -> (r: Vec<T>)
        ensures
            r@ == (match self.snapshot() {
                Some(s) => s.prev_inductor_currents,
                None => Seq::empty(),
            }),
    {
        match &self.state {
            Some(s) => copy_of(&s.prev_inductor_currents),
            None => Vec::new(),
        }
    }

    /// Replaces the inductor currents one step earlier.  Ignored if the length differs
    /// or nothing is compiled.
    pub fn import_prev_inductor_currents(&mut self, v: Vec<T>)
        ensures
            old(self).wf() ==> old(self).same_circuit(*final(self)),
            final(self).snapshot() == (match old(self).snapshot() {
                Some(s) => Some(
                    Snapshot {
                        prev_inductor_currents: replacement(s.prev_inductor_currents, v@),
                        ..s
                    },
                ),
                None => None,
            }),
    {
        if let Some(s) = &mut self.state {
            if v.len() == s.prev_inductor_currents.len() {
                s.prev_inductor_currents = v;
            }
        }
    }

    /// Copy of the junction voltages; empty if nothing is compiled.
    pub fn export_tj_cap_volts(&self) -> (r: Vec<T>)
        ensures
            r@ == (match self.snapshot() {
                Some(s) => s.tj_cap_volts,
                None => Seq::empty(),
            }),
    {
        match &self.state {
            Some(s) => copy_of(&s.tj_cap_volts),
            None => Vec::new(),
        }
    }

    /// Replaces the junction voltages.  Ignored if the length differs or nothing is compiled.
    pub fn import_tj_cap_volts(&mut self, v: Vec<T>)
        ensures
            old(self).wf() ==> old(self).same_circuit(*final(self)),
            final(self).snapshot() == (match old(self).snapshot() {
                Some(s) => Some(Snapshot { tj_cap_volts: replacement(s.tj_cap_volts, v@), ..s }),
                None => None,
            }),
    {
        if let Some(s) = &mut self.state {
            if v.len() == s.tj_cap_volts.len() {
                s.tj_cap_volts = v;
            }
        }
    }

    /// Copy of the relay flags, 1 for an energised relay and 0 for one at rest;
    /// empty if nothing is compiled.  The flags do not say whether a relay toggled in
    /// the last step: `export_relay_toggled` does.
    pub fn export_relay_active(&self) -> (r: Vec<u8>)
        ensures
            r@ == (match self.snapshot() {
                Some(s) => flags_as_bytes(s.relay_active),
                None => Seq::empty(),
            }),
    {
        let mut bytes: Vec<u8> = Vec::new();
        if let Some(s) = &self.state {
            let mut i: usize = 0;
            while i < s.relay_active.len()
                invariant
                    i <= s.relay_active.len(),
                    bytes@ == flags_as_bytes(s.relay_active@).take(i as int),
                decreases s.relay_active.len() - i,
            {
                bytes.push(
                    if s.relay_active[i] {
                        1
                    } else {
                        0
                    },
                );
                i += 1;
            }
            assert(bytes@ == flags_as_bytes(s.relay_active@));
        }
        bytes
    }

    /// Replaces the relay flags; any byte but 0 energises.  Ignored if the length
    /// differs or nothing is compiled.
    pub fn import_relay_active(&mut self, v: Vec<u8>)
        ensures
            old(self).wf() ==> old(self).same_circuit(*final(self)),
            final(self).snapshot() == (match old(self).snapshot() {
                Some(s) => Some(
                    Snapshot {
                        relay_active: replacement(s.relay_active, bytes_as_flags(v@)),
                        ..s
                    },
                ),
                None => None,
            }),
    {
        if let Some(s) = &mut self.state {
            if v.len() == s.relay_active.len() {
                let mut flags: Vec<bool> = Vec::new();
                let mut i: usize = 0;
                while i < v.len()
                    invariant
                        i <= v.len(),
                        flags@ == bytes_as_flags(v@).take(i as int),
                    decreases v.len() - i,
                {
                    flags.push(v[i] != 0);
                    i += 1;
                }
                assert(flags@ == bytes_as_flags(v@));
                s.relay_active = flags;
            }
        }
    }

    /// Whether a relay toggled in the last step; `false` if nothing is compiled.
    ///
    /// The next step falls back to backward Euler then.  None of the other exports
    /// carries this: a simulator restored from them alone takes the same steps only if
    /// no relay toggled last.
    pub fn export_relay_toggled(&self) -> (r: bool)
        ensures
            r == (match self.snapshot() {
                Some(s) => s.relay_toggled,
                None => false,
            }),
    {
        match &self.state {
            Some(s) => s.relay_toggled,
            None => false,
        }
    }

    /// Sets whether a relay toggled in the last step, which none of the other imports
    /// does.  Ignored if nothing is compiled.
    pub fn import_relay_toggled(&mut self, toggled: bool)
        ensures
            old(self).wf() ==> old(self).same_circuit(*final(self)),
            final(self).snapshot() == (match old(self).snapshot() {
                Some(s) => Some(Snapshot { relay_toggled: toggled, ..s }),
                None => None,
            }),
    {
        if let Some(s) = &mut self.state {
            s.relay_toggled = toggled;
        }
    }

    /// Whether a step has been committed since the last operating-point solve;
    /// `false` if nothing is compiled.
    pub fn export_gear2_ready(&self) -> (r: bool)
        ensures
            r == (match self.snapshot() {
                Some(s) => s.gear2_ready,
                None => false,
            }),
    {
        match &self.state {
            Some(s) => s.gear2_ready,
            None => false,
        }
    }

    /// Sets whether there is history to integrate from.  Ignored if nothing is
    /// compiled.
    pub fn import_gear2_ready(&mut self, ready: bool)
        ensures
            old(self).wf() ==> old(self).same_circuit(*final(self)),
            final(self).snapshot() == (match old(self).snapshot() {
                Some(s) => Some(Snapshot { gear2_ready: ready, ..s }),
                None => None,
            }),
    {
        if let Some(s) = &mut self.state {
            s.gear2_ready = ready;
        }
    }

    /// Length of the previous step; 0 if nothing is compiled.
    pub fn export_prev_dt(&self) -> (r: T)
        ensures
            r == (match self.snapshot() {
                Some(s) => s.prev_dt,
                None => zero(),
            }),
    {
        match &self.state {
            Some(s) => s.prev_dt,
            None => T::decimal(0, 0),
        }
    }

    /// Copy of the whole solver state, the older history and the source currents
    /// too; `None` if nothing is compiled.
    pub fn get_full_state(&self) -> (r: Option<TransientState<T>>)
        ensures
            r is Some == self.solver() is Some,
            r matches Some(s) ==> Some(s@) == self.snapshot(),
    {
        match &self.state {
            Some(s) => Some(s.copied()),
            None => None,
        }
    }

    /// What becomes of a whole state that is handed in: one that fits the compiled
    /// netlist is taken as it is; any other changes nothing.
    pub open spec fn reset_to(self, state: TransientState<T>, r: bool, after: Self) -> bool {
        if self.circuit() matches Some(c) && state.fits(c) {
            &&& r
            &&& self.same_circuit(after)
            &&& after.solver() == Some(state)
            &&& after.snapshot() == Some(state@)
        } else {
            !r && after == self
        }
    }

    /// Replaces the whole solver state.  Returns whether it was taken: it is ignored
    /// if its dimensions differ or nothing is compiled.
    pub fn set_full_state(&mut self, state: TransientState<T>) -> (r: bool)
        requires
            old(self).wf(),
        ensures
            old(self).reset_to(state, r, *final(self)),
    {
        match &self.compiled {
            Some(c) => {
                if !state.has_shape_of(c) {
                    return false;
                }
            },
            None => {
                return false;
            },
        }
        self.state = Some(state);
        true
    }

    /// What the exports give; empty lists, no history and no previous step if nothing
    /// is compiled.
    pub open spec fn exported(self) -> Snapshot<T> {
        match self.snapshot() {
            Some(s) => s,
            None => Snapshot {
                node_volts: Seq::empty(),
                cap_volts: Seq::empty(),
                prev_cap_volts: Seq::empty(),
                inductor_currents: Seq::empty(),
                prev_inductor_currents: Seq::empty(),
                prev2_inductor_currents: Seq::empty(),
                prev_node_volts: Seq::empty(),
                prev2_node_volts: Seq::empty(),
                prev2_cap_volts: Seq::empty(),
                tj_cap_volts: Seq::empty(),
                voltage_source_currents: Seq::empty(),
                relay_active: Seq::empty(),
                relay_toggled: false,
                gear2_ready: false,
                prev_dt: zero(),
            },
        }
    }

    /// The simulator after importing everything that `source` exports.
    pub open spec fn carried_over(self, source: Self, after: Self) -> bool {
        &&& self.same_circuit(after)
        &&& after.snapshot() == (match self.snapshot() {
            Some(s) => Some(restored(s, source.exported())),
            None => None,
        })
    }

    /// Takes over everything that `source` exports, list by list: a circuit rebuilt
    /// with other element values goes on where the old one was.
    pub fn carry_over(&mut self, source: &Simulator<T, P>)
        requires
            old(self).wf(),
        ensures
            old(self).carried_over(*source, *final(self)),
    {
        self.import_node_volts(source.export_node_volts());
        self.import_prev_node_volts(source.export_prev_node_volts());
        self.import_cap_volts(source.export_cap_volts());
        self.import_prev_cap_volts(source.export_prev_cap_volts());
        self.import_inductor_currents(source.export_inductor_currents());
        self.import_prev_inductor_currents(source.export_prev_inductor_currents());
        self.import_tj_cap_volts(source.export_tj_cap_volts());
        self.import_relay_active(source.export_relay_active());
        self.import_relay_toggled(source.export_relay_toggled());
        self.import_gear2_ready(source.export_gear2_ready());
        self.import_prev_dt(source.export_prev_dt());
        assert(old(self).snapshot() matches Some(s) ==> self.snapshot()->0 =~= restored(
            s,
            source.exported(),
        ));
    }

    /// Sets the length of the previous step.  Ignored if nothing is compiled.
    pub fn import_prev_dt(&mut self, dt: T)
        ensures
            old(self).wf() ==> old(self).same_circuit(*final(self)),
            final(self).snapshot() == (match old(self).snapshot() {
                Some(s) => Some(Snapshot { prev_dt: dt, ..s }),
                None => None,
            }),
    {
        if let Some(s) = &mut self.state {
            s.prev_dt = dt;
        }
    }
}

/// There are fewer 32-bit node numbers than fill the type, ground aside.
proof fn lemma_nodes_fit_u32(nodes: Set<u32>, ground: u32)
    requires
        nodes.finite(),
        !nodes.contains(ground),
    ensures
        nodes.len() <= u32::MAX,
{
    let value = |id: u32| id as int;
    let values = nodes.map(value);
    let others = set_int_range(0, u32::MAX + 1).remove(ground as int);
    lemma_int_range(0, u32::MAX + 1);
    lemma_map_size(nodes, values, value);
    assert(values.subset_of(others));
    lemma_len_subset(values, others);
}

/// `target` after importing everything that `source` exports.
pub open spec fn restored<T>(target: Snapshot<T>, source: Snapshot<T>) -> Snapshot<T> {
    Snapshot {
        node_volts: replacement(target.node_volts, source.node_volts),
        prev_node_volts: replacement(target.prev_node_volts, source.prev_node_volts),
        cap_volts: replacement(target.cap_volts, source.cap_volts),
        prev_cap_volts: replacement(target.prev_cap_volts, source.prev_cap_volts),
        inductor_currents: replacement(target.inductor_currents, source.inductor_currents),
        prev_inductor_currents: replacement(
            target.prev_inductor_currents,
            source.prev_inductor_currents,
        ),
        tj_cap_volts: replacement(target.tj_cap_volts, source.tj_cap_volts),
        relay_active: replacement(
            target.relay_active,
            bytes_as_flags(flags_as_bytes(source.relay_active)),
        ),
        relay_toggled: source.relay_toggled,
        gear2_ready: source.gear2_ready,
        prev_dt: source.prev_dt,
        ..target
    }
}

/// `target` after importing everything that `source` exports but whether a relay
/// toggled.
pub open spec fn restored_but_toggle<T>(target: Snapshot<T>, source: Snapshot<T>) -> Snapshot<T> {
    Snapshot { relay_toggled: target.relay_toggled, ..restored(target, source) }
}

/// Smoke test of a binding to this crate: returns the input plus one.
pub fn ping<T: Number>(x: T) -> (r: T)
    ensures
        r == x.sum(one()),
{
    x.plus(T::decimal(1, 0))
}

/// Relay flags as bytes, 1 for an energised relay.
pub open spec fn flags_as_bytes(flags: Seq<bool>) -> Seq<u8> {
    Seq::new(
        flags.len(),
        |i: int|
            if flags[i] {
                1u8
            } else {
                0u8
            },
    )
}

/// Bytes as relay flags; any byte but 0 energises.
pub open spec fn bytes_as_flags(bytes: Seq<u8>) -> Seq<bool> {
    Seq::new(bytes.len(), |i: int| bytes[i] != 0)
}

} // verus!
