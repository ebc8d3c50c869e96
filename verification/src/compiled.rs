//! A netlist laid out for the solver.
//!
//! Compilation gives every non-ground node a compact row number, adds one row
//! for each voltage source and each inductor, and lists for every kind of
//! element where it stands in the netlist and which rows it touches.  The
//! solver reads this layout; it never changes it.

use std::collections::HashMap;

use vstd::prelude::*;

use crate::netlist::{Element, Netlist};
use crate::number::Number;

verus! {

/// A matrix entry that does not change during a simulation: resistors and the
/// incidence of voltage sources and inductors.
#[derive(Clone, Copy, Debug, PartialEq)]
pub struct StaticStamp<T> {
    pub row: usize,
    pub col: usize,
    pub value: T,
}

/// The signed mutual inductance by which the current of inductor `j` acts on
/// inductor `i`.  A coupled pair is listed in both orders.
#[derive(Clone, Copy, Debug, PartialEq)]
pub struct CouplingPair<T> {
    pub i: usize,
    pub j: usize,
    pub mutual: T,
}

/// The layout of a netlist in the matrix.
///
/// Unknowns `0..n` are the node voltages, `n..n + m` the currents of the voltage
/// sources, and the rest the currents of the inductors.  Compact node numbers
/// are `i32`; a negative one is ground.
///
/// The kernel that compiled the netlist adds a pattern of its own, of type `P`, by
/// which it factors the matrix.
#[derive(Debug, Clone)]
pub struct CompiledNetlist<T, P> {
    /// Number of non-ground nodes.
    pub n: usize,
    /// Number of voltage sources.
    pub m: usize,
    /// Number of unknowns.
    pub size: usize,
    pub elements: Vec<Element<T>>,
    /// Compact number of each non-ground node ID.
    pub node_index: HashMap<u32, usize>,
    pub static_stamps: Vec<StaticStamp<T>>,
    /// Places of the diagonal entries that get the regularising conductance.
    pub gmin_indices: Vec<usize>,
    pub voltage_source_indices: Vec<usize>,
    pub voltage_source_branch_rows: Vec<usize>,
    pub voltage_source_values: Vec<T>,
    pub cap_count: usize,
    pub capacitor_indices: Vec<usize>,
    /// Four per capacitor: its two nodes, then the places of the entries (a, b)
    /// and (b, a), negative where there is none.
    pub cap_stamp_indices: Vec<i32>,
    pub inductor_count: usize,
    pub inductor_indices: Vec<usize>,
    pub inductor_branch_rows: Vec<usize>,
    pub inductor_coupling_pairs: Vec<CouplingPair<T>>,
    pub transistor_count: usize,
    pub transistor_indices: Vec<usize>,
    /// Three per transistor: base, collector, emitter.
    pub transistor_node_indices: Vec<i32>,
    pub diode_count: usize,
    pub diode_indices: Vec<usize>,
    /// Two per diode: anode, cathode.
    pub diode_node_indices: Vec<i32>,
    pub relay_count: usize,
    pub relay_indices: Vec<usize>,
    /// Five per relay: coil +, coil -, common, normally closed, normally open.
    pub relay_node_indices: Vec<i32>,
    /// Where the matrix may hold values, as the kernel's factorisation has it.
    pub pattern: P,
}

/// Every number in the list is ground or a row below `n`.
pub open spec fn nodes_below(nodes: Seq<i32>, n: int) -> bool {
    forall|i: int| 0 <= i < nodes.len() ==> #[trigger] nodes[i] < n
}

/// Every number in the list is `bound` or above.
pub open spec fn all_from(numbers: Seq<usize>, bound: int) -> bool {
    forall|i: int| 0 <= i < numbers.len() ==> #[trigger] numbers[i] >= bound
}

/// Every number in the list is below `bound`.
pub open spec fn all_below(numbers: Seq<usize>, bound: int) -> bool {
    forall|i: int| 0 <= i < numbers.len() ==> #[trigger] numbers[i] < bound
}

fn under(number: i32, bound: usize) -> (r: bool)
    ensures
        r == (number < bound),
{
    number < 0 || (number as usize) < bound
}

fn nodes_under(nodes: &Vec<i32>, n: usize) -> (r: bool)
    ensures
        r == nodes_below(nodes@, n as int),
{
    let mut i: usize = 0;
    while i < nodes.len()
        invariant
            i <= nodes.len(),
            forall|j: int| 0 <= j < i ==> #[trigger] nodes@[j] < n,
        decreases nodes.len() - i,
    {
        if !under(nodes[i], n) {
            return false;
        }
        i += 1;
    }
    true
}

fn all_under(numbers: &Vec<usize>, bound: usize) -> (r: bool)
    ensures
        r == all_below(numbers@, bound as int),
{
    let mut i: usize = 0;
    while i < numbers.len()
        invariant
            i <= numbers.len(),
            forall|j: int| 0 <= j < i ==> #[trigger] numbers@[j] < bound,
        decreases numbers.len() - i,
    {
        if numbers[i] >= bound {
            return false;
        }
        i += 1;
    }
    true
}

fn all_at_least(numbers: &Vec<usize>, bound: usize) -> (r: bool)
    ensures
        r == all_from(numbers@, bound as int),
{
    let mut i: usize = 0;
    while i < numbers.len()
        invariant
            i <= numbers.len(),
            forall|j: int| 0 <= j < i ==> #[trigger] numbers@[j] >= bound,
        decreases numbers.len() - i,
    {
        if numbers[i] < bound {
            return false;
        }
        i += 1;
    }
    true
}

impl<T, P> CompiledNetlist<T, P> {
    /// The element behind position `i` of one of the lists of elements.
    pub open spec fn element(self, list: Seq<usize>, i: int) -> Element<T> {
        self.elements@[list[i] as int]
    }

    /// The two nodes of capacitor `i` (`k` 0 and 1) and the places of its entries
    /// off the diagonal (`k` 2 and 3).
    pub open spec fn cap_slot(self, i: int, k: int) -> i32 {
        self.cap_stamp_indices@[i * 4 + k]
    }

    /// Base, collector and emitter (`k` 0, 1, 2) of transistor `i`.
    pub open spec fn transistor_node(self, i: int, k: int) -> i32 {
        self.transistor_node_indices@[i * 3 + k]
    }

    /// Anode and cathode (`k` 0, 1) of diode `i`.
    pub open spec fn diode_node(self, i: int, k: int) -> i32 {
        self.diode_node_indices@[i * 2 + k]
    }

    /// Coil +, coil -, common, normally closed and normally open (`k` 0 to 4) of
    /// relay `i`.
    pub open spec fn relay_node(self, i: int, k: int) -> i32 {
        self.relay_node_indices@[i * 5 + k]
    }

    /// The matrix can be indexed, and the static parts of it are within it.
    pub open spec fn matrix_wf(self) -> bool {
        &&& self.size * self.size <= usize::MAX
        &&& self.n + self.m <= self.size
        &&& forall|k: int|
            0 <= k < self.static_stamps@.len() ==> (#[trigger] self.static_stamps@[k]).row
                < self.size && self.static_stamps@[k].col < self.size
        &&& all_below(self.gmin_indices@, self.size * self.size)
    }

    pub open spec fn sources_wf(self) -> bool {
        &&& self.voltage_source_indices@.len() <= self.m
        &&& all_below(self.voltage_source_indices@, self.elements@.len() as int)
        &&& self.voltage_source_branch_rows@.len() <= self.voltage_source_values@.len()
        &&& all_below(self.voltage_source_branch_rows@, self.size as int)
    }

    pub open spec fn capacitors_wf(self) -> bool {
        &&& self.capacitor_indices@.len() == self.cap_count
        &&& all_below(self.capacitor_indices@, self.elements@.len() as int)
        &&& forall|i: int|
            0 <= i < self.cap_count ==> #[trigger] self.element(
                self.capacitor_indices@,
                i,
            ) is Capacitor
        &&& self.cap_stamp_indices@.len() == self.cap_count * 4
        &&& forall|i: int|
            0 <= i < self.cap_count ==> #[trigger] self.cap_slot(i, 0) < self.n && self.cap_slot(
                i,
                1,
            ) < self.n && self.cap_slot(i, 2) < self.size * self.size && self.cap_slot(i, 3)
                < self.size * self.size
    }

    pub open spec fn inductors_wf(self) -> bool {
        &&& self.inductor_indices@.len() == self.inductor_count
        &&& all_below(self.inductor_indices@, self.elements@.len() as int)
        &&& forall|i: int|
            0 <= i < self.inductor_count ==> #[trigger] self.element(
                self.inductor_indices@,
                i,
            ) is Inductor
        &&& self.inductor_branch_rows@.len() == self.inductor_count
        &&& all_below(self.inductor_branch_rows@, self.size as int)
        &&& all_from(self.inductor_branch_rows@, self.n + self.m)
        &&& forall|k: int|
            0 <= k < self.inductor_coupling_pairs@.len() ==> (
            #[trigger] self.inductor_coupling_pairs@[k]).i < self.inductor_count
                && self.inductor_coupling_pairs@[k].j < self.inductor_count
    }

    pub open spec fn transistors_wf(self) -> bool {
        &&& self.transistor_indices@.len() == self.transistor_count
        &&& all_below(self.transistor_indices@, self.elements@.len() as int)
        &&& forall|i: int|
            0 <= i < self.transistor_count ==> #[trigger] self.element(
                self.transistor_indices@,
                i,
            ) is Transistor
        &&& self.transistor_node_indices@.len() == self.transistor_count * 3
        &&& nodes_below(self.transistor_node_indices@, self.n as int)
    }

    pub open spec fn diodes_wf(self) -> bool {
        &&& self.diode_indices@.len() == self.diode_count
        &&& all_below(self.diode_indices@, self.elements@.len() as int)
        &&& forall|i: int|
            0 <= i < self.diode_count ==> #[trigger] self.element(
                self.diode_indices@,
                i,
            ) is Diode
        &&& self.diode_node_indices@.len() == self.diode_count * 2
        &&& nodes_below(self.diode_node_indices@, self.n as int)
    }

    pub open spec fn relays_wf(self) -> bool {
        &&& self.relay_indices@.len() == self.relay_count
        &&& all_below(self.relay_indices@, self.elements@.len() as int)
        &&& forall|i: int|
            0 <= i < self.relay_count ==> #[trigger] self.element(
                self.relay_indices@,
                i,
            ) is Relay
        &&& self.relay_node_indices@.len() == self.relay_count * 5
        &&& nodes_below(self.relay_node_indices@, self.n as int)
    }

    /// There are as many node IDs as rows for them, and every one has a number that
    /// is such a row.
    pub open spec fn index_wf(self) -> bool {
        &&& self.node_index@.len() == self.n
        &&& forall|id: u32|
            self.node_index@.contains_key(id) ==> (#[trigger] self.node_index@[id]) < self.n
    }

    /// The layout is one of this netlist: it holds the same elements in the same
    /// order, and its nodes are those that the elements mention, ground aside.  A
    /// netlist without such a node has no layout.
    pub open spec fn describes(self, netlist: Netlist<T>) -> bool {
        &&& self.elements@.len() == netlist.elements@.len()
        &&& forall|i: int|
            0 <= i < self.elements@.len() ==> #[trigger] self.elements@[i].alike(
                netlist.elements@[i],
            )
        &&& forall|id: u32| #[trigger]
            self.node_index@.contains_key(id) <==> netlist.has_node(id)
        &&& exists|id: u32| netlist.has_node(id)
    }

    /// The layout is consistent: every index is within what it points into, and
    /// every list points at elements of its own kind.
    pub open spec fn wf(self) -> bool {
        &&& self.matrix_wf()
        &&& self.sources_wf()
        &&& self.capacitors_wf()
        &&& self.inductors_wf()
        &&& self.transistors_wf()
        &&& self.diodes_wf()
        &&& self.relays_wf()
        &&& self.index_wf()
    }

    /// The two nodes and two places of a capacitor.
    pub fn cap_slot_at(&self, i: usize, k: usize) -> (r: i32)
        requires
            self.capacitors_wf(),
            i < self.cap_count,
            k < 4,
        ensures
            r == self.cap_slot(i as int, k as int),
    {
        assert(self.cap_stamp_indices.len() == self.cap_count * 4);
        self.cap_stamp_indices[i * 4 + k]
    }

    /// A terminal of a transistor.
    pub fn transistor_terminal(&self, i: usize, k: usize) -> (r: i32)
        requires
            self.transistors_wf(),
            i < self.transistor_count,
            k < 3,
        ensures
            r == self.transistor_node(i as int, k as int),
            r < self.n,
    {
        assert(self.transistor_node_indices.len() == self.transistor_count * 3);
        self.transistor_node_indices[i * 3 + k]
    }

    /// A terminal of a diode.
    pub fn diode_terminal(&self, i: usize, k: usize) -> (r: i32)
        requires
            self.diodes_wf(),
            i < self.diode_count,
            k < 2,
        ensures
            r == self.diode_node(i as int, k as int),
            r < self.n,
    {
        assert(self.diode_node_indices.len() == self.diode_count * 2);
        self.diode_node_indices[i * 2 + k]
    }

    /// A terminal of a relay.
    pub fn relay_terminal(&self, i: usize, k: usize) -> (r: i32)
        requires
            self.relays_wf(),
            i < self.relay_count,
            k < 5,
        ensures
            r == self.relay_node(i as int, k as int),
            r < self.n,
    {
        assert(self.relay_node_indices.len() == self.relay_count * 5);
        self.relay_node_indices[i * 5 + k]
    }

    fn check_matrix(&self) -> (r: bool)
        ensures
            r == self.matrix_wf(),
    {
        let area = match self.size.checked_mul(self.size) {
            Some(area) => area,
            None => {
                return false;
            },
        };
        if self.n > self.size || self.m > self.size - self.n {
            return false;
        }
        let mut k: usize = 0;
        while k < self.static_stamps.len()
            invariant
                k <= self.static_stamps.len(),
                forall|j: int|
                    0 <= j < k ==> (#[trigger] self.static_stamps@[j]).row < self.size
                        && self.static_stamps@[j].col < self.size,
            decreases self.static_stamps.len() - k,
        {
            let stamp = &self.static_stamps[k];
            if stamp.row >= self.size || stamp.col >= self.size {
                return false;
            }
            k += 1;
        }
        all_under(&self.gmin_indices, area)
    }

    fn check_sources(&self) -> (r: bool)
        ensures
            r == self.sources_wf(),
    {
        self.voltage_source_indices.len() <= self.m && all_under(
            &self.voltage_source_indices,
            self.elements.len(),
        ) && self.voltage_source_branch_rows.len() <= self.voltage_source_values.len()
            && all_under(&self.voltage_source_branch_rows, self.size)
    }

    fn check_capacitors(&self) -> (r: bool)
        requires
            self.matrix_wf(),
        ensures
            r == self.capacitors_wf(),
    {
        let area = self.size * self.size;
        if self.capacitor_indices.len() != self.cap_count || !all_under(
            &self.capacitor_indices,
            self.elements.len(),
        ) || self.cap_stamp_indices.len() % 4 != 0 || self.cap_stamp_indices.len() / 4
            != self.cap_count {
            return false;
        }
        let mut i: usize = 0;
        while i < self.cap_count
            invariant
                i <= self.cap_count,
                area == self.size * self.size,
                self.capacitor_indices@.len() == self.cap_count,
                self.cap_stamp_indices.len() == self.cap_count * 4,
                all_below(self.capacitor_indices@, self.elements@.len() as int),
                forall|j: int|
                    0 <= j < i ==> #[trigger] self.element(
                        self.capacitor_indices@,
                        j,
                    ) is Capacitor,
                forall|j: int|
                    0 <= j < i ==> #[trigger] self.cap_slot(j, 0) < self.n && self.cap_slot(j, 1)
                        < self.n && self.cap_slot(j, 2) < self.size * self.size && self.cap_slot(
                        j,
                        3,
                    ) < self.size * self.size,
            decreases self.cap_count - i,
        {
            let a = self.cap_stamp_indices[i * 4];
            let b = self.cap_stamp_indices[i * 4 + 1];
            let ab = self.cap_stamp_indices[i * 4 + 2];
            let ba = self.cap_stamp_indices[i * 4 + 3];
            if !under(a, self.n) || !under(b, self.n) || !under(ab, area) || !under(ba, area) {
                assert(!(self.cap_slot(i as int, 0) < self.n && self.cap_slot(i as int, 1) < self.n
                    && self.cap_slot(i as int, 2) < self.size * self.size && self.cap_slot(
                    i as int,
                    3,
                ) < self.size * self.size));
                return false;
            }
            match &self.elements[self.capacitor_indices[i]] {
                Element::Capacitor { .. } => {},
                _ => {
                    assert(!(self.element(self.capacitor_indices@, i as int) is Capacitor));
                    return false;
                },
            }
            i += 1;
        }
        assert(self.capacitors_wf());
        true
    }

    fn check_inductors(&self) -> (r: bool)
        requires
            self.n + self.m <= self.size,
        ensures
            r == self.inductors_wf(),
    {
        if !all_at_least(&self.inductor_branch_rows, self.n + self.m) {
            return false;
        }
        if self.inductor_indices.len() != self.inductor_count || !all_under(
            &self.inductor_indices,
            self.elements.len(),
        ) || self.inductor_branch_rows.len() != self.inductor_count || !all_under(
            &self.inductor_branch_rows,
            self.size,
        ) {
            return false;
        }
        let mut i: usize = 0;
        while i < self.inductor_count
            invariant
                i <= self.inductor_count,
                self.inductor_indices@.len() == self.inductor_count,
                all_below(self.inductor_indices@, self.elements@.len() as int),
                forall|j: int|
                    0 <= j < i ==> #[trigger] self.element(self.inductor_indices@, j) is Inductor,
            decreases self.inductor_count - i,
        {
            match &self.elements[self.inductor_indices[i]] {
                Element::Inductor { .. } => {},
                _ => {
                    assert(!(self.element(self.inductor_indices@, i as int) is Inductor));
                    return false;
                },
            }
            i += 1;
        }
        let mut k: usize = 0;
        while k < self.inductor_coupling_pairs.len()
            invariant
                k <= self.inductor_coupling_pairs.len(),
                forall|j: int|
                    0 <= j < k ==> (#[trigger] self.inductor_coupling_pairs@[j]).i
                        < self.inductor_count && self.inductor_coupling_pairs@[j].j
                        < self.inductor_count,
            decreases self.inductor_coupling_pairs.len() - k,
        {
            let pair = &self.inductor_coupling_pairs[k];
            if pair.i >= self.inductor_count || pair.j >= self.inductor_count {
                return false;
            }
            k += 1;
        }
        true
    }

    fn check_transistors(&self) -> (r: bool)
        ensures
            r == self.transistors_wf(),
    {
        if self.transistor_indices.len() != self.transistor_count || !all_under(
            &self.transistor_indices,
            self.elements.len(),
        ) || self.transistor_node_indices.len() % 3 != 0 || self.transistor_node_indices.len() / 3
            != self.transistor_count || !nodes_under(&self.transistor_node_indices, self.n) {
            return false;
        }
        let mut i: usize = 0;
        while i < self.transistor_count
            invariant
                i <= self.transistor_count,
                self.transistor_indices@.len() == self.transistor_count,
                all_below(self.transistor_indices@, self.elements@.len() as int),
                forall|j: int|
                    0 <= j < i ==> #[trigger] self.element(
                        self.transistor_indices@,
                        j,
                    ) is Transistor,
            decreases self.transistor_count - i,
        {
            match &self.elements[self.transistor_indices[i]] {
                Element::Transistor { .. } => {},
                _ => {
                    assert(!(self.element(self.transistor_indices@, i as int) is Transistor));
                    return false;
                },
            }
            i += 1;
        }
        true
    }

    fn check_diodes(&self) -> (r: bool)
        ensures
            r == self.diodes_wf(),
    {
        if self.diode_indices.len() != self.diode_count || !all_under(
            &self.diode_indices,
            self.elements.len(),
        ) || self.diode_node_indices.len() % 2 != 0 || self.diode_node_indices.len() / 2
            != self.diode_count || !nodes_under(&self.diode_node_indices, self.n) {
            return false;
        }
        let mut i: usize = 0;
        while i < self.diode_count
            invariant
                i <= self.diode_count,
                self.diode_indices@.len() == self.diode_count,
                all_below(self.diode_indices@, self.elements@.len() as int),
                forall|j: int|
                    0 <= j < i ==> #[trigger] self.element(self.diode_indices@, j) is Diode,
            decreases self.diode_count - i,
        {
            match &self.elements[self.diode_indices[i]] {
                Element::Diode { .. } => {},
                _ => {
                    assert(!(self.element(self.diode_indices@, i as int) is Diode));
                    return false;
                },
            }
            i += 1;
        }
        true
    }

    fn check_relays(&self) -> (r: bool)
        ensures
            r == self.relays_wf(),
    {
        if self.relay_indices.len() != self.relay_count || !all_under(
            &self.relay_indices,
            self.elements.len(),
        ) || self.relay_node_indices.len() % 5 != 0 || self.relay_node_indices.len() / 5
            != self.relay_count || !nodes_under(&self.relay_node_indices, self.n) {
            return false;
        }
        let mut i: usize = 0;
        while i < self.relay_count
            invariant
                i <= self.relay_count,
                self.relay_indices@.len() == self.relay_count,
                all_below(self.relay_indices@, self.elements@.len() as int),
                forall|j: int|
                    0 <= j < i ==> #[trigger] self.element(self.relay_indices@, j) is Relay,
            decreases self.relay_count - i,
        {
            match &self.elements[self.relay_indices[i]] {
                Element::Relay { .. } => {},
                _ => {
                    assert(!(self.element(self.relay_indices@, i as int) is Relay));
                    return false;
                },
            }
            i += 1;
        }
        true
    }

    fn check_index(&self) -> (r: bool)
        ensures
            r == self.index_wf(),
    {
        broadcast use vstd::std_specs::hash::group_hash_axioms;

        if self.node_index.len() != self.n {
            return false;
        }
        let ghost m = self.node_index@;
        for v in iter: self.node_index.values()
            invariant
                m == self.node_index@,
                iter.seq().unref().to_set() == m.values(),
                forall|j: int| 0 <= j < iter.index() ==> *(#[trigger] iter.seq()[j]) < self.n,
        {
            if *v >= self.n {
                proof {
                    let all = iter.seq().unref();
                    assert(all[iter.index() as int] == *v);
                    assert(all.to_set().contains(*v));
                    let id = choose|id: u32| #[trigger] m.contains_key(id) && m[id] == *v;
                    assert(m[id] >= self.n);
                }
                return false;
            }
        }
        assert forall|id: u32| m.contains_key(id) implies (#[trigger] m[id]) < self.n by {
            assert(m.values().contains(m[id]));
        }
        true
    }

    /// Whether the layout is consistent.  The solver may be given no other.
    pub fn is_well_formed(&self) -> (r: bool)
        ensures
            r == self.wf(),
    {
        self.check_matrix() && self.check_sources() && self.check_capacitors()
            && self.check_inductors() && self.check_transistors() && self.check_diodes()
            && self.check_relays() && self.check_index()
    }
}

impl<T: Number, P> CompiledNetlist<T, P> {
    fn same_elements(&self, netlist: &Netlist<T>) -> (r: bool)
        ensures
            r == (self.elements@.len() == netlist.elements@.len() && forall|i: int|
                0 <= i < self.elements@.len() ==> #[trigger] self.elements@[i].alike(
                    netlist.elements@[i],
                )),
    {
        if self.elements.len() != netlist.elements.len() {
            return false;
        }
        let mut i: usize = 0;
        while i < self.elements.len()
            invariant
                i <= self.elements.len(),
                self.elements@.len() == netlist.elements@.len(),
                forall|j: int|
                    0 <= j < i ==> #[trigger] self.elements@[j].alike(netlist.elements@[j]),
            decreases self.elements.len() - i,
        {
            if !self.elements[i].is_alike(&netlist.elements[i]) {
                assert(!self.elements@[i as int].alike(netlist.elements@[i as int]));
                return false;
            }
            i += 1;
        }
        true
    }

    /// Whether every node of the netlist has a number.
    fn numbers_all(&self, netlist: &Netlist<T>) -> (r: bool)
        ensures
            r == (forall|id: u32| #[trigger]
                netlist.has_node(id) ==> self.node_index@.contains_key(id)),
    {
        broadcast use vstd::std_specs::hash::group_hash_axioms;

        let mut i: usize = 0;
        while i < netlist.elements.len()
            invariant
                i <= netlist.elements.len(),
                forall|j: int, t: int|
                    #![trigger netlist.elements@[j].terminals()[t]]
                    0 <= j < i && 0 <= t < netlist.elements@[j].terminals().len()
                        && netlist.elements@[j].terminals()[t] != netlist.ground_node_id
                        ==> self.node_index@.contains_key(netlist.elements@[j].terminals()[t]),
            decreases netlist.elements.len() - i,
        {
            let nodes = netlist.elements[i].nodes();
            let mut t: usize = 0;
            while t < nodes.len()
                invariant
                    t <= nodes.len(),
                    i < netlist.elements.len(),
                    nodes@ == netlist.elements@[i as int].terminals(),
                    forall|u: int|
                        #![trigger nodes@[u]]
                        0 <= u < t && nodes@[u] != netlist.ground_node_id
                            ==> self.node_index@.contains_key(nodes@[u]),
                decreases nodes.len() - t,
            {
                broadcast use vstd::std_specs::hash::group_hash_axioms;

                if nodes[t] != netlist.ground_node_id && !self.node_index.contains_key(&nodes[t]) {
                    assert(netlist.elements@[i as int].terminals()[t as int] == nodes@[t as int]);
                    assert(netlist.elements@[i as int].touches(nodes@[t as int]));
                    assert(netlist.has_node(nodes@[t as int]));
                    return false;
                }
                t += 1;
            }
            i += 1;
        }
        assert forall|id: u32| #[trigger]
            netlist.has_node(id) implies self.node_index@.contains_key(id) by {
            let j = choose|j: int|
                0 <= j < netlist.elements@.len() && #[trigger] netlist.elements@[j].touches(id);
            let t = choose|t: int|
                0 <= t < netlist.elements@[j].terminals().len()
                    && netlist.elements@[j].terminals()[t] == id;
            assert(netlist.elements@[j].terminals()[t] == id);
        }
        true
    }

    /// Whether every number belongs to a node of the netlist.
    fn numbers_only(&self, netlist: &Netlist<T>) -> (r: bool)
        ensures
            r == (forall|id: u32| #[trigger]
                self.node_index@.contains_key(id) ==> netlist.has_node(id)),
    {
        broadcast use vstd::std_specs::hash::group_hash_axioms;

        let ghost m = self.node_index@;
        for id in iter: self.node_index.keys()
            invariant
                m == self.node_index@,
                iter.seq().unref().to_set() == m.dom(),
                forall|j: int|
                    0 <= j < iter.index() ==> netlist.has_node(*#[trigger] iter.seq()[j]),
        {
            if !netlist.lists_node(*id) {
                proof {
                    let all = iter.seq().unref();
                    assert(all[iter.index() as int] == *id);
                    assert(all.to_set().contains(*id));
                    assert(m.contains_key(*id));
                }
                return false;
            }
        }
        assert forall|id: u32| #[trigger]
            self.node_index@.contains_key(id) implies netlist.has_node(id) by {
            assert(m.dom().contains(id));
        }
        true
    }

    /// Whether the layout is one of this netlist.
    pub fn is_layout_of(&self, netlist: &Netlist<T>) -> (r: bool)
        ensures
            r == self.describes(*netlist),
    {
        broadcast use vstd::std_specs::hash::group_hash_axioms;

        if !self.same_elements(netlist) || !self.numbers_all(netlist) || !self.numbers_only(
            netlist,
        ) {
            return false;
        }
        if self.node_index.len() == 0 {
            assert(self.node_index@.dom().len() == 0);
            assert forall|id: u32| !netlist.has_node(id) by {
                if netlist.has_node(id) {
                    assert(self.node_index@.dom().contains(id));
                }
            }
            return false;
        }
        proof {
            let id = self.node_index@.dom().choose();
            assert(self.node_index@.contains_key(id));
            assert(netlist.has_node(id));
        }
        true
    }
}

} // verus!
