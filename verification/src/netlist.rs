//! Netlist data structures: the circuit elements and the nodes they connect.
//!
//! Node IDs are `u32` identifiers chosen by the caller.  One of them, given when
//! the netlist is made, is ground and sits at 0 V in every solve; node 0 is the
//! usual choice but any ID will do.

use vstd::prelude::*;

use crate::number::Number;
use crate::types::{Diode, Polarity, Transistor};

verus! {

/// A single circuit element: the nodes it connects to and the parameters of its
/// model.
#[allow(inconsistent_fields)]
#[derive(Debug, Clone, PartialEq)]
pub enum Element<T> {
    Resistor { id: String, a: u32, b: u32, resistance_ohms: T },
    Capacitor { id: String, a: u32, b: u32, capacitance_farads: T, initial_voltage: T },
    Inductor {
        id: String,
        a: u32,
        b: u32,
        inductance_henry: T,
        /// Current above which the core saturates and the inductance collapses.
        saturation_current_a: Option<T>,
        /// All inductors of one group are mutually coupled, with the strength
        /// that the group's `Coupling` element gives.
        coupling_group: Option<String>,
        /// Winding direction relative to the group's flux axis: +1 or -1.
        coupling_polarity: i32,
    },
    VoltageSource { id: String, positive_node: u32, negative_node: u32, voltage: T },
    Transistor { id: String, base: u32, collector: u32, emitter: u32, params: Transistor<T> },
    Diode { id: String, anode: u32, cathode: u32, params: Diode<T> },
    /// Couples the inductors of a group with coefficient `k`; has no nodes.
    Coupling { id: String, coupling_group: String, k: T },
    /// Single-pole double-throw relay.
    ///
    /// The coil is a resistor between `coil_positive` and `coil_negative`.  The
    /// contact joins `common` to the active throw through `ron_ohms` and to the
    /// inactive one through `roff_ohms`; the active throw is `normally_closed`
    /// while the relay is at rest and `normally_open` while it is energised.
    Relay {
        id: String,
        coil_positive: u32,
        coil_negative: u32,
        common: u32,
        normally_closed: u32,
        normally_open: u32,
        coil_resistance_ohms: T,
        ron_ohms: T,
        roff_ohms: T,
        /// Coil current above which the relay energises.
        on_current: T,
        /// Coil current below which the relay releases.
        off_current: T,
    },
}

impl<T> Element<T> {
    /// The element's ID.
    pub open spec fn name(self) -> Seq<char> {
        match self {
            Element::Resistor { id, .. } => id@,
            Element::Capacitor { id, .. } => id@,
            Element::Inductor { id, .. } => id@,
            Element::VoltageSource { id, .. } => id@,
            Element::Transistor { id, .. } => id@,
            Element::Diode { id, .. } => id@,
            Element::Coupling { id, .. } => id@,
            Element::Relay { id, .. } => id@,
        }
    }

    /// The nodes the element touches, terminal by terminal.
    pub open spec fn terminals(self) -> Seq<u32> {
        match self {
            Element::Resistor { a, b, .. } => seq![a, b],
            Element::Capacitor { a, b, .. } => seq![a, b],
            Element::Inductor { a, b, .. } => seq![a, b],
            Element::VoltageSource { positive_node, negative_node, .. } => seq![
                positive_node,
                negative_node,
            ],
            Element::Transistor { base, collector, emitter, .. } => seq![base, collector, emitter],
            Element::Diode { anode, cathode, .. } => seq![anode, cathode],
            Element::Coupling { .. } => seq![],
            Element::Relay {
                coil_positive,
                coil_negative,
                common,
                normally_closed,
                normally_open,
                ..
            } => seq![coil_positive, coil_negative, common, normally_closed, normally_open],
        }
    }

    /// Whether the element has a terminal at the node.
    pub open spec fn touches(self, node: u32) -> bool {
        exists|t: int|
            0 <= t < self.terminals().len() && #[trigger] self.terminals()[t] == node
    }

    /// Two elements are the same: their kinds, IDs, nodes and parameters are.
    pub open spec fn alike(self, other: Self) -> bool {
        match (self, other) {
            (
                Element::Resistor { id, a, b, resistance_ohms },
                Element::Resistor { id: id2, a: a2, b: b2, resistance_ohms: resistance2 },
            ) => id@ == id2@ && a == a2 && b == b2 && resistance_ohms == resistance2,
            (
                Element::Capacitor { id, a, b, capacitance_farads, initial_voltage },
                Element::Capacitor {
                    id: id2,
                    a: a2,
                    b: b2,
                    capacitance_farads: capacitance2,
                    initial_voltage: initial2,
                },
            ) => id@ == id2@ && a == a2 && b == b2 && capacitance_farads == capacitance2
                && initial_voltage == initial2,
            (
                Element::Inductor {
                    id,
                    a,
                    b,
                    inductance_henry,
                    saturation_current_a,
                    coupling_group,
                    coupling_polarity,
                },
                Element::Inductor {
                    id: id2,
                    a: a2,
                    b: b2,
                    inductance_henry: inductance2,
                    saturation_current_a: saturation2,
                    coupling_group: group2,
                    coupling_polarity: polarity2,
                },
            ) => id@ == id2@ && a == a2 && b == b2 && inductance_henry == inductance2
                && saturation_current_a == saturation2 && group_name(coupling_group) == group_name(
                group2,
            ) && coupling_polarity == polarity2,
            (
                Element::VoltageSource { id, positive_node, negative_node, voltage },
                Element::VoltageSource {
                    id: id2,
                    positive_node: positive2,
                    negative_node: negative2,
                    voltage: voltage2,
                },
            ) => id@ == id2@ && positive_node == positive2 && negative_node == negative2
                && voltage == voltage2,
            (
                Element::Transistor { id, base, collector, emitter, params },
                Element::Transistor {
                    id: id2,
                    base: base2,
                    collector: collector2,
                    emitter: emitter2,
                    params: params2,
                },
            ) => id@ == id2@ && base == base2 && collector == collector2 && emitter == emitter2
                && params == params2,
            (
                Element::Diode { id, anode, cathode, params },
                Element::Diode { id: id2, anode: anode2, cathode: cathode2, params: params2 },
            ) => id@ == id2@ && anode == anode2 && cathode == cathode2 && params == params2,
            (
                Element::Coupling { id, coupling_group, k },
                Element::Coupling { id: id2, coupling_group: group2, k: k2 },
            ) => id@ == id2@ && coupling_group@ == group2@ && k == k2,
            (
                Element::Relay {
                    id,
                    coil_positive,
                    coil_negative,
                    common,
                    normally_closed,
                    normally_open,
                    coil_resistance_ohms,
                    ron_ohms,
                    roff_ohms,
                    on_current,
                    off_current,
                },
                Element::Relay {
                    id: id2,
                    coil_positive: positive2,
                    coil_negative: negative2,
                    common: common2,
                    normally_closed: closed2,
                    normally_open: open2,
                    coil_resistance_ohms: coil2,
                    ron_ohms: ron2,
                    roff_ohms: roff2,
                    on_current: on2,
                    off_current: off2,
                },
            ) => id@ == id2@ && coil_positive == positive2 && coil_negative == negative2 && common
                == common2 && normally_closed == closed2 && normally_open == open2
                && coil_resistance_ohms == coil2 && ron_ohms == ron2 && roff_ohms == roff2
                && on_current == on2 && off_current == off2,
            _ => false,
        }
    }

    /// Element ID, for diagnostics and for reading branch currents back.
    pub fn id(&self) -> (r: &str)
        ensures
            r@ == self.name(),
    {
        match self {
            Element::Resistor { id, .. }
            | Element::Capacitor { id, .. }
            | Element::Inductor { id, .. }
            | Element::VoltageSource { id, .. }
            | Element::Transistor { id, .. }
            | Element::Diode { id, .. }
            | Element::Coupling { id, .. }
            | Element::Relay { id, .. } => id.as_str(),
        }
    }

    /// All nodes this element touches; none for a `Coupling`.
    pub fn nodes(&self) -> (r: Vec<u32>)
        ensures
            r@ == self.terminals(),
    {
        match self {
            Element::Resistor { a, b, .. }
            | Element::Capacitor { a, b, .. }
            | Element::Inductor { a, b, .. } => vec![*a, *b],
            Element::VoltageSource { positive_node, negative_node, .. } => {
                vec![*positive_node, *negative_node]
            },
            Element::Transistor { base, collector, emitter, .. } => {
                vec![*base, *collector, *emitter]
            },
            Element::Diode { anode, cathode, .. } => vec![*anode, *cathode],
            Element::Coupling { .. } => Vec::new(),
            Element::Relay {
                coil_positive,
                coil_negative,
                common,
                normally_closed,
                normally_open,
                ..
            } => vec![*coil_positive, *coil_negative, *common, *normally_closed, *normally_open],
        }
    }
}

/// The name of a coupling group, if there is one.
pub open spec fn group_name(group: Option<String>) -> Option<Seq<char>> {
    match group {
        Some(name) => Some(name@),
        None => None,
    }
}

fn same_group(a: &Option<String>, b: &Option<String>) -> (r: bool)
    ensures
        r == (group_name(*a) == group_name(*b)),
{
    match (a, b) {
        (Some(x), Some(y)) => *x == *y,
        (None, None) => true,
        _ => false,
    }
}

fn same_option<T: Number>(a: Option<T>, b: Option<T>) -> (r: bool)
    ensures
        r == (a == b),
{
    match (a, b) {
        (Some(x), Some(y)) => x.same(y),
        (None, None) => true,
        _ => false,
    }
}

fn same_diode<T: Number>(a: &Diode<T>, b: &Diode<T>) -> (r: bool)
    ensures
        r == (*a == *b),
{
    a.is_sat.same(b.is_sat) && a.n.same(b.n) && same_option(a.bv, b.bv) && same_option(a.ibv, b.ibv)
}

fn same_transistor<T: Number>(a: &Transistor<T>, b: &Transistor<T>) -> (r: bool)
    ensures
        r == (*a == *b),
{
    let same_polarity = match (a.polarity, b.polarity) {
        (Polarity::Npn, Polarity::Npn) => true,
        (Polarity::Pnp, Polarity::Pnp) => true,
        _ => false,
    };
    same_polarity && a.beta.same(b.beta) && a.is_sat.same(b.is_sat) && a.nf.same(b.nf)
        && a.vaf.same(b.vaf) && a.cje_farads.same(b.cje_farads) && a.cjc_farads.same(b.cjc_farads)
        && same_option(a.br, b.br) && same_option(a.nr, b.nr) && same_option(a.var_, b.var_)
        && same_option(a.ikf, b.ikf) && same_option(a.ikr, b.ikr) && same_option(a.ise, b.ise)
        && same_option(a.ne, b.ne) && same_option(a.isc, b.isc) && same_option(a.nc, b.nc)
        && same_option(a.tf_seconds, b.tf_seconds) && same_option(a.tr_seconds, b.tr_seconds)
}

impl<T: Number> Element<T> {
    /// Whether two elements are the same.
    pub fn is_alike(&self, other: &Element<T>) -> (r: bool)
        ensures
            r == self.alike(*other),
    {
        match (self, other) {
            (
                Element::Resistor { id, a, b, resistance_ohms },
                Element::Resistor { id: id2, a: a2, b: b2, resistance_ohms: resistance2 },
            ) => *id == *id2 && *a == *a2 && *b == *b2 && resistance_ohms.same(*resistance2),
            (
                Element::Capacitor { id, a, b, capacitance_farads, initial_voltage },
                Element::Capacitor {
                    id: id2,
                    a: a2,
                    b: b2,
                    capacitance_farads: capacitance2,
                    initial_voltage: initial2,
                },
            ) => *id == *id2 && *a == *a2 && *b == *b2 && capacitance_farads.same(*capacitance2)
                && initial_voltage.same(*initial2),
            (
                Element::Inductor {
                    id,
                    a,
                    b,
                    inductance_henry,
                    saturation_current_a,
                    coupling_group,
                    coupling_polarity,
                },
                Element::Inductor {
                    id: id2,
                    a: a2,
                    b: b2,
                    inductance_henry: inductance2,
                    saturation_current_a: saturation2,
                    coupling_group: group2,
                    coupling_polarity: polarity2,
                },
            ) => *id == *id2 && *a == *a2 && *b == *b2 && inductance_henry.same(*inductance2)
                && same_option(*saturation_current_a, *saturation2) && same_group(
                coupling_group,
                group2,
            ) && *coupling_polarity == *polarity2,
            (
                Element::VoltageSource { id, positive_node, negative_node, voltage },
                Element::VoltageSource {
                    id: id2,
                    positive_node: positive2,
                    negative_node: negative2,
                    voltage: voltage2,
                },
            ) => *id == *id2 && *positive_node == *positive2 && *negative_node == *negative2
                && voltage.same(*voltage2),
            (
                Element::Transistor { id, base, collector, emitter, params },
                Element::Transistor {
                    id: id2,
                    base: base2,
                    collector: collector2,
                    emitter: emitter2,
                    params: params2,
                },
            ) => *id == *id2 && *base == *base2 && *collector == *collector2 && *emitter
                == *emitter2 && same_transistor(params, params2),
            (
                Element::Diode { id, anode, cathode, params },
                Element::Diode { id: id2, anode: anode2, cathode: cathode2, params: params2 },
            ) => *id == *id2 && *anode == *anode2 && *cathode == *cathode2 && same_diode(
                params,
                params2,
            ),
            (
                Element::Coupling { id, coupling_group, k },
                Element::Coupling { id: id2, coupling_group: group2, k: k2 },
            ) => *id == *id2 && *coupling_group == *group2 && k.same(*k2),
            (
                Element::Relay {
                    id,
                    coil_positive,
                    coil_negative,
                    common,
                    normally_closed,
                    normally_open,
                    coil_resistance_ohms,
                    ron_ohms,
                    roff_ohms,
                    on_current,
                    off_current,
                },
                Element::Relay {
                    id: id2,
                    coil_positive: positive2,
                    coil_negative: negative2,
                    common: common2,
                    normally_closed: closed2,
                    normally_open: open2,
                    coil_resistance_ohms: coil2,
                    ron_ohms: ron2,
                    roff_ohms: roff2,
                    on_current: on2,
                    off_current: off2,
                },
            ) => *id == *id2 && *coil_positive == *positive2 && *coil_negative == *negative2
                && *common == *common2 && *normally_closed == *closed2 && *normally_open == *open2
                && coil_resistance_ohms.same(*coil2) && ron_ohms.same(*ron2) && roff_ohms.same(
                *roff2,
            ) && on_current.same(*on2) && off_current.same(*off2),
            _ => false,
        }
    }
}

/// A complete netlist: every element, and the node that is ground.
#[derive(Debug, Clone)]
pub struct Netlist<T> {
    pub elements: Vec<Element<T>>,
    pub ground_node_id: u32,
}

impl<T> Netlist<T> {
    /// Whether an element mentions the node, and it is not ground.
    pub open spec fn has_node(self, id: u32) -> bool {
        id != self.ground_node_id && exists|i: int|
            0 <= i < self.elements@.len() && #[trigger] self.elements@[i].touches(id)
    }

    /// Whether an element mentions the node, and it is not ground.
    pub fn lists_node(&self, id: u32) -> (r: bool)
        ensures
            r == self.has_node(id),
    {
        if id == self.ground_node_id {
            return false;
        }
        let mut i: usize = 0;
        while i < self.elements.len()
            invariant
                i <= self.elements.len(),
                id != self.ground_node_id,
                forall|j: int| 0 <= j < i ==> !#[trigger] self.elements@[j].touches(id),
            decreases self.elements.len() - i,
        {
            let nodes = self.elements[i].nodes();
            let mut t: usize = 0;
            while t < nodes.len()
                invariant
                    t <= nodes.len(),
                    i < self.elements.len(),
                    id != self.ground_node_id,
                    nodes@ == self.elements@[i as int].terminals(),
                    forall|u: int| 0 <= u < t ==> #[trigger] nodes@[u] != id,
                decreases nodes.len() - t,
            {
                if nodes[t] == id {
                    assert(self.elements@[i as int].terminals()[t as int] == id);
                    assert(self.elements@[i as int].touches(id));
                    return true;
                }
                t += 1;
            }
            i += 1;
        }
        false
    }

    /// Empty netlist ready to be populated by `push`.
    pub fn new(ground_node_id: u32) -> (r: Self)
        ensures
            r.elements@ == Seq::<Element<T>>::empty(),
            r.ground_node_id == ground_node_id,
    {
        Self { elements: Vec::new(), ground_node_id }
    }

    /// Appends an element and returns the netlist, so that calls can be chained.
    pub fn push(&mut self, e: Element<T>) -> (r: &mut Self)
        ensures
            r.elements@ == old(self).elements@.push(e),
            r.ground_node_id == old(self).ground_node_id,
            *final(self) == *final(r),
    {
        self.elements.push(e);
        self
    }
}

} // verus!
