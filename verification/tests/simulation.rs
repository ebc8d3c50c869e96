//! Whole circuits, on hardware doubles.

use std::cell::{Cell, RefCell};
use std::collections::HashMap;

use rust_e_sim::companion::step_system;
use rust_e_sim::compiled::{CompiledNetlist, CouplingPair, StaticStamp};
use rust_e_sim::dc::{solve_dc, DcIssue};
use rust_e_sim::equations::System;
use rust_e_sim::kernel::Kernel;
use rust_e_sim::netlist::{Element, Netlist};
use rust_e_sim::number::Number;
use rust_e_sim::relays::{stamp_relays, update_relay_states};
use rust_e_sim::simulator::{ping, Simulator, StepResult};
use rust_e_sim::state::TransientState;
use rust_e_sim::transient::{step, step_with_config, StepConfig, StepIssue};
use rust_e_sim::types::{Diode, DiodeStamp, Polarity, Transistor, TransistorStamp};

/// Hardware doubles as the number type of the solver.
#[derive(Debug, Clone, Copy, PartialEq)]
struct F64(f64);

impl Number for F64 {
    fn sum(self, other: Self) -> Self {
        self.plus(other)
    }
    fn difference(self, other: Self) -> Self {
        self.minus(other)
    }
    fn product(self, other: Self) -> Self {
        self.times(other)
    }
    fn quotient(self, other: Self) -> Self {
        self.over(other)
    }
    fn opposite(self) -> Self {
        self.negated()
    }
    fn magnitude(self) -> Self {
        self.abs()
    }
    fn greatest(self, other: Self) -> Self {
        self.larger(other)
    }
    fn least(self, other: Self) -> Self {
        self.smaller(other)
    }
    fn below(self, other: Self) -> bool {
        self.lt(other)
    }
    fn at_most(self, other: Self) -> bool {
        self.le(other)
    }
    fn finite(self) -> bool {
        self.is_finite()
    }
    fn decimal_value(mantissa: i64, places: u32) -> Self {
        Self::decimal(mantissa, places)
    }
    fn unbounded() -> Self {
        Self::infinity()
    }
    fn plus(self, other: Self) -> Self {
        F64(self.0 + other.0)
    }
    fn minus(self, other: Self) -> Self {
        F64(self.0 - other.0)
    }
    fn times(self, other: Self) -> Self {
        F64(self.0 * other.0)
    }
    fn over(self, other: Self) -> Self {
        F64(self.0 / other.0)
    }
    fn negated(self) -> Self {
        F64(-self.0)
    }
    fn abs(self) -> Self {
        F64(self.0.abs())
    }
    fn larger(self, other: Self) -> Self {
        F64(self.0.max(other.0))
    }
    fn smaller(self, other: Self) -> Self {
        F64(self.0.min(other.0))
    }
    fn same(self, other: Self) -> bool {
        self.0.to_bits() == other.0.to_bits()
    }
    fn lt(self, other: Self) -> bool {
        self.0 < other.0
    }
    fn le(self, other: Self) -> bool {
        self.0 <= other.0
    }
    fn is_finite(self) -> bool {
        self.0.is_finite()
    }
    fn decimal(mantissa: i64, places: u32) -> Self {
        F64(mantissa as f64 / 10f64.powi(places as i32))
    }
    fn infinity() -> Self {
        F64(f64::INFINITY)
    }
}

fn f(x: f64) -> F64 {
    F64(x)
}

/// Dense elimination with partial pivoting.
fn eliminate(matrix: &[F64], rhs: &[F64], size: usize) -> Option<Vec<F64>> {
    let mut m: Vec<f64> = matrix.iter().map(|v| v.0).collect();
    let mut b: Vec<f64> = rhs.iter().map(|v| v.0).collect();
    for k in 0..size {
        let mut pivot = k;
        for r in k + 1..size {
            if m[r * size + k].abs() > m[pivot * size + k].abs() {
                pivot = r;
            }
        }
        if m[pivot * size + k].abs() < 1e-18 {
            return None;
        }
        for c in 0..size {
            m.swap(k * size + c, pivot * size + c);
        }
        b.swap(k, pivot);
        for r in k + 1..size {
            let q = m[r * size + k] / m[k * size + k];
            if q != 0.0 {
                for c in k..size {
                    m[r * size + c] -= q * m[k * size + c];
                }
                b[r] -= q * b[k];
            }
        }
    }
    for k in (0..size).rev() {
        for c in k + 1..size {
            b[k] -= m[k * size + c] * b[c];
        }
        b[k] /= m[k * size + k];
    }
    Some(b.into_iter().map(F64).collect())
}

fn row(index: &HashMap<u32, usize>, node: u32) -> i32 {
    match index.get(&node) {
        Some(i) => *i as i32,
        None => -1,
    }
}

/// The pattern of a layout: which places of its matrix the static stamps fill.
#[derive(Debug, Clone, PartialEq)]
struct Marks(Vec<bool>);

/// A straightforward layout: nodes in the order of their IDs, then voltage
/// sources, then inductors.
fn lay_out(netlist: &Netlist<F64>) -> Option<CompiledNetlist<F64, Marks>> {
    let mut ids: Vec<u32> = Vec::new();
    for e in netlist.elements.iter() {
        for node in e.nodes() {
            if node != netlist.ground_node_id && !ids.contains(&node) {
                ids.push(node);
            }
        }
    }
    if ids.is_empty() {
        return None;
    }
    ids.sort();
    let node_index: HashMap<u32, usize> =
        ids.iter().enumerate().map(|(i, id)| (*id, i)).collect();
    let n = ids.len();
    let count = |wanted: fn(&Element<F64>) -> bool| -> Vec<usize> {
        (0..netlist.elements.len()).filter(|i| wanted(&netlist.elements[*i])).collect()
    };
    let sources = count(|e| matches!(e, Element::VoltageSource { .. }));
    let capacitors = count(|e| matches!(e, Element::Capacitor { .. }));
    let inductors = count(|e| matches!(e, Element::Inductor { .. }));
    let transistors = count(|e| matches!(e, Element::Transistor { .. }));
    let diodes = count(|e| matches!(e, Element::Diode { .. }));
    let relays = count(|e| matches!(e, Element::Relay { .. }));
    let m = sources.len();
    let size = n + m + inductors.len();
    let mut static_stamps: Vec<StaticStamp<F64>> = Vec::new();
    let mut stamp = |row: i32, col: i32, value: f64| {
        if row >= 0 && col >= 0 {
            static_stamps.push(StaticStamp {
                row: row as usize,
                col: col as usize,
                value: F64(value),
            });
        }
    };
    let mut cap_stamp_indices: Vec<i32> = Vec::new();
    let mut values: Vec<F64> = Vec::new();
    let mut branch = n as i32;
    let mut inductor_branch = (n + m) as i32;
    for e in netlist.elements.iter() {
        let at: Vec<i32> = e.nodes().iter().map(|id| row(&node_index, *id)).collect();
        match e {
            Element::Resistor { resistance_ohms, .. } => {
                let g = 1.0 / resistance_ohms.0;
                stamp(at[0], at[0], g);
                stamp(at[1], at[1], g);
                stamp(at[0], at[1], -g);
                stamp(at[1], at[0], -g);
            }
            Element::VoltageSource { voltage, .. } => {
                stamp(at[0], branch, 1.0);
                stamp(at[1], branch, -1.0);
                stamp(branch, at[0], 1.0);
                stamp(branch, at[1], -1.0);
                values.push(*voltage);
                branch += 1;
            }
            Element::Inductor { .. } => {
                stamp(at[0], inductor_branch, 1.0);
                stamp(at[1], inductor_branch, -1.0);
                stamp(inductor_branch, at[0], 1.0);
                stamp(inductor_branch, at[1], -1.0);
                inductor_branch += 1;
            }
            Element::Capacitor { .. } => {
                let both = at[0] >= 0 && at[1] >= 0;
                cap_stamp_indices.push(at[0]);
                cap_stamp_indices.push(at[1]);
                cap_stamp_indices.push(if both { at[0] * size as i32 + at[1] } else { -1 });
                cap_stamp_indices.push(if both { at[1] * size as i32 + at[0] } else { -1 });
            }
            _ => {}
        }
    }
    let mut pairs: Vec<CouplingPair<F64>> = Vec::new();
    for e in netlist.elements.iter() {
        if let Element::Coupling { coupling_group: group, k, .. } = e {
            let member = |li: usize| -> Option<(f64, f64)> {
                match &netlist.elements[inductors[li]] {
                    Element::Inductor {
                        inductance_henry, coupling_group, coupling_polarity, ..
                    } if coupling_group.as_ref() == Some(group) => {
                        Some((inductance_henry.0, *coupling_polarity as f64))
                    }
                    _ => None,
                }
            };
            for i in 0..inductors.len() {
                for j in 0..inductors.len() {
                    if let (Some((li, si)), Some((lj, sj))) = (member(i), member(j)) {
                        if i != j {
                            let mutual = F64(k.0 * (li * lj).sqrt() * si * sj);
                            pairs.push(CouplingPair { i, j, mutual });
                        }
                    }
                }
            }
        }
    }
    let rows_of = |list: &Vec<usize>| -> Vec<i32> {
        list.iter()
            .flat_map(|i| netlist.elements[*i].nodes())
            .map(|id| row(&node_index, id))
            .collect()
    };
    let mut marks = vec![false; size * size];
    for stamp in static_stamps.iter() {
        marks[stamp.row * size + stamp.col] = true;
    }
    Some(CompiledNetlist {
        n,
        m,
        size,
        elements: netlist.elements.clone(),
        static_stamps,
        gmin_indices: (0..n).map(|i| i * size + i).collect(),
        voltage_source_branch_rows: (n..n + m).collect(),
        voltage_source_values: values,
        voltage_source_indices: sources,
        cap_count: capacitors.len(),
        capacitor_indices: capacitors,
        cap_stamp_indices,
        inductor_count: inductors.len(),
        inductor_branch_rows: (n + m..size).collect(),
        inductor_indices: inductors,
        inductor_coupling_pairs: pairs,
        transistor_count: transistors.len(),
        transistor_node_indices: rows_of(&transistors),
        transistor_indices: transistors,
        diode_count: diodes.len(),
        diode_node_indices: rows_of(&diodes),
        diode_indices: diodes,
        relay_count: relays.len(),
        relay_node_indices: rows_of(&relays),
        relay_indices: relays,
        node_index,
        pattern: Marks(marks),
    })
}

/// Services for the solver: the layout above, elimination for both solvers, a
/// Shockley diode without limiting, and a transistor that conducts from base to
/// emitter and amplifies by its `beta`.  Solvers can be told to fail, and calls
/// are counted.
struct Bench {
    sparse_fails: bool,
    dense_fails: bool,
    sparse_calls: Cell<usize>,
    dense_calls: Cell<usize>,
    limited_calls: Cell<usize>,
    /// The systems that the sparse and the dense solver were given last.
    sparse_system: RefCell<(Vec<F64>, Vec<F64>)>,
    dense_system: RefCell<(Vec<F64>, Vec<F64>)>,
    /// The patterns that the sparse solver was given.
    patterns: RefCell<Vec<Marks>>,
    /// Transistors conduct exponentially rather than in two straight lines.
    exponential: bool,
}

fn bench() -> Bench {
    Bench {
        sparse_fails: false,
        dense_fails: false,
        sparse_calls: Cell::new(0),
        dense_calls: Cell::new(0),
        limited_calls: Cell::new(0),
        sparse_system: RefCell::new((Vec::new(), Vec::new())),
        dense_system: RefCell::new((Vec::new(), Vec::new())),
        patterns: RefCell::new(Vec::new()),
        exponential: false,
    }
}

fn level(volts: &[F64], node: i32) -> f64 {
    if node >= 0 {
        volts[node as usize].0
    } else {
        0.0
    }
}

/// A transistor in forward active mode: the collector current is exponential in the
/// base-emitter voltage, goes on in a straight line above 0.75 V, and grows with the
/// collector-emitter voltage (the Early effect, taken as given).
fn forward_active(q: &Transistor<F64>, vbe: f64, vce: f64) -> TransistorStamp<F64> {
    let vt = 0.02585 * q.nf.0;
    let early = 1.0 + vce.max(0.0) / q.vaf.0;
    let v = vbe.min(0.75);
    let gm = q.is_sat.0 / vt * (v / vt).exp() * early + 1e-12;
    let ic = q.is_sat.0 * ((v / vt).exp() - 1.0) * early + gm * (vbe - v);
    let i_eq_c = ic - gm * vbe;
    let beta = q.beta.0;
    TransistorStamp {
        g_be: F64(gm / beta),
        g_bc: F64(0.0),
        gm: F64(gm),
        gmu: F64(0.0),
        gpi: F64(gm / beta),
        gmu_b: F64(0.0),
        i_eq_b: F64(i_eq_c / beta),
        i_eq_c: F64(i_eq_c),
        i_eq_e: F64(-(1.0 + 1.0 / beta) * i_eq_c),
    }
}

impl Kernel<F64, Marks> for Bench {
    fn compile_netlist(&self, netlist: &Netlist<F64>) -> Option<CompiledNetlist<F64, Marks>> {
        lay_out(netlist)
    }

    fn transistor_stamp(
        &self,
        q: &Transistor<F64>,
        volts: &Vec<F64>,
        bi: i32,
        ci: i32,
        ei: i32,
        prev_volts: Option<&Vec<F64>>,
    ) -> TransistorStamp<F64> {
        if prev_volts.is_some() {
            self.limited_calls.set(self.limited_calls.get() + 1);
        }
        let vbe = level(volts, bi) - level(volts, ei);
        if self.exponential {
            return forward_active(q, vbe, level(volts, ci) - level(volts, ei));
        }
        let gpi = if vbe > 0.6 { 1e-2 } else { 1e-9 };
        let ib = if vbe > 0.6 { gpi * (vbe - 0.6) } else { gpi * vbe };
        let i_eq_b = ib - gpi * vbe;
        let beta = q.beta.0;
        TransistorStamp {
            g_be: F64(gpi),
            g_bc: F64(0.0),
            gm: F64(beta * gpi),
            gmu: F64(0.0),
            gpi: F64(gpi),
            gmu_b: F64(0.0),
            i_eq_b: F64(i_eq_b),
            i_eq_c: F64(beta * i_eq_b),
            i_eq_e: F64(-(1.0 + beta) * i_eq_b),
        }
    }

    fn diode_stamp(
        &self,
        d: &Diode<F64>,
        volts: &Vec<F64>,
        ai: i32,
        ki: i32,
        prev_volts: Option<&Vec<F64>>,
    ) -> DiodeStamp<F64> {
        if prev_volts.is_some() {
            self.limited_calls.set(self.limited_calls.get() + 1);
        }
        let vt = 0.02585 * d.n.0;
        let v = (level(volts, ai) - level(volts, ki)).min(0.9);
        let gd = d.is_sat.0 / vt * (v / vt).exp();
        let id = d.is_sat.0 * ((v / vt).exp() - 1.0);
        DiodeStamp { gd: F64(gd), ieq: F64(id - gd * v) }
    }

    fn sparse_solve(
        &self,
        matrix: Vec<F64>,
        rhs: &Vec<F64>,
        size: usize,
        pattern: &Marks,
    ) -> Option<Vec<F64>> {
        self.sparse_calls.set(self.sparse_calls.get() + 1);
        *self.sparse_system.borrow_mut() = (matrix.clone(), rhs.clone());
        self.patterns.borrow_mut().push(pattern.clone());
        if self.sparse_fails {
            None
        } else {
            eliminate(&matrix, rhs, size)
        }
    }

    fn dense_solve(&self, matrix: Vec<F64>, rhs: Vec<F64>, size: usize) -> Option<Vec<F64>> {
        self.dense_calls.set(self.dense_calls.get() + 1);
        *self.dense_system.borrow_mut() = (matrix.clone(), rhs.clone());
        if self.dense_fails {
            None
        } else {
            eliminate(&matrix, &rhs, size)
        }
    }

    fn power(&self, base: F64, exponent: F64) -> F64 {
        F64(base.0.powf(exponent.0))
    }
}

fn source(id: &str, positive_node: u32, negative_node: u32, voltage: f64) -> Element<F64> {
    Element::VoltageSource {
        id: id.to_string(),
        positive_node,
        negative_node,
        voltage: F64(voltage),
    }
}

fn resistor(id: &str, a: u32, b: u32, resistance_ohms: f64) -> Element<F64> {
    Element::Resistor { id: id.to_string(), a, b, resistance_ohms: F64(resistance_ohms) }
}

fn capacitor(id: &str, a: u32, b: u32, farads: f64, initial_voltage: f64) -> Element<F64> {
    Element::Capacitor {
        id: id.to_string(),
        a,
        b,
        capacitance_farads: F64(farads),
        initial_voltage: F64(initial_voltage),
    }
}

fn inductor(id: &str, a: u32, b: u32, henry: f64, group: Option<&str>) -> Element<F64> {
    Element::Inductor {
        id: id.to_string(),
        a,
        b,
        inductance_henry: F64(henry),
        saturation_current_a: None,
        coupling_group: group.map(|g| g.to_string()),
        coupling_polarity: 1,
    }
}

/// 5 V through 1 kOhm into 1 uF.
fn rc() -> Netlist<F64> {
    let mut nl = Netlist::new(0);
    nl.push(source("V1", 1, 0, 5.0));
    nl.push(resistor("R1", 1, 2, 1_000.0));
    nl.push(capacitor("C1", 2, 0, 1e-6, 0.0));
    nl
}

fn at(c: &CompiledNetlist<F64, Marks>, s: &TransientState<F64>, node: u32) -> f64 {
    s.node_volts[*c.node_index.get(&node).unwrap()].0
}

#[test]
fn rc_charges_to_target() {
    let k = bench();
    let compiled = lay_out(&rc()).unwrap();
    let mut state = TransientState::new(&compiled);
    for _ in 0..5_000 {
        step(&compiled, &mut state, f(1e-6), &k).expect("step failed");
    }
    let final_v = at(&compiled, &state, 2);
    assert!((final_v - 4.966).abs() < 0.05, "RC charge: expected ~4.966 V, got {}", final_v);
    assert!((state.cap_volts[0].0 - final_v).abs() < 1e-9);
}

#[test]
fn rc_one_time_constant() {
    let k = bench();
    let compiled = lay_out(&rc()).unwrap();
    let mut state = TransientState::new(&compiled);
    for _ in 0..1_000 {
        step(&compiled, &mut state, f(1e-6), &k).unwrap();
    }
    let v = at(&compiled, &state, 2);
    assert!((v - 3.16).abs() < 0.05, "after one time constant: expected ~3.16 V, got {}", v);
}

fn transformer(coupled: bool) -> Netlist<F64> {
    let mut nl = Netlist::new(0);
    nl.push(source("V1", 1, 0, 1.0));
    nl.push(resistor("Rin", 1, 2, 1.0));
    nl.push(inductor("L1", 2, 0, 1e-3, Some("rust-e-sim-core")));
    nl.push(inductor("L2", 3, 0, 1e-3, Some("rust-e-sim-core")));
    nl.push(resistor("Rload", 3, 0, 100.0));
    if coupled {
        nl.push(Element::Coupling {
            id: "K".to_string(),
            coupling_group: "rust-e-sim-core".to_string(),
            k: F64(0.9),
        });
    }
    nl
}

#[test]
fn transformer_couples_primary_to_secondary() {
    let k = bench();
    let c = lay_out(&transformer(true)).unwrap();
    assert_eq!(c.inductor_coupling_pairs.len(), 2, "expected 2 ordered pairs");
    let mut s = TransientState::new(&c);
    let mut v3_history = Vec::new();
    for _ in 0..200 {
        step(&c, &mut s, f(1e-6), &k).unwrap();
        v3_history.push(at(&c, &s, 3));
    }
    let max_v3 = v3_history.iter().cloned().fold(0.0_f64, f64::max);
    let min_v3 = v3_history.iter().cloned().fold(0.0_f64, f64::min);
    assert!(
        max_v3 > 1e-4 || min_v3 < -1e-4,
        "secondary should respond to primary ramp; max={}, min={}",
        max_v3,
        min_v3
    );
    for &v in &v3_history {
        assert!(v.is_finite() && v.abs() < 100.0, "v3 escape: {}", v);
    }
}

#[test]
fn without_coupling_the_secondary_stays_quiet() {
    let k = bench();
    let c = lay_out(&transformer(false)).unwrap();
    let mut s = TransientState::new(&c);
    for _ in 0..200 {
        step(&c, &mut s, f(1e-6), &k).unwrap();
        assert!(at(&c, &s, 3).abs() < 1e-12);
    }
    assert!(s.inductor_currents[0].0 > 0.1);
}

#[test]
fn voltage_source_current_dc_ohms_law() {
    let k = bench();
    let mut nl = Netlist::new(0);
    nl.push(source("V1", 1, 0, 12.0));
    nl.push(resistor("R1", 1, 0, 10.0));
    let compiled = lay_out(&nl).unwrap();
    let mut state = TransientState::new(&compiled);
    solve_dc(&compiled, &mut state, &k).expect("DC ok");
    assert_eq!(state.voltage_source_currents.len(), 1);
    let i = state.voltage_source_currents[0].0;
    assert!((i - (-1.2)).abs() < 1e-7, "Expected I = -1.2 A (source convention), got {i}");
}

#[test]
fn inductor_current_dc_steady_state() {
    let k = bench();
    let mut nl = Netlist::new(0);
    nl.push(source("V1", 1, 0, 9.0));
    nl.push(resistor("R1", 1, 2, 100.0));
    nl.push(inductor("L1", 2, 0, 10e-3, None));
    let compiled = lay_out(&nl).unwrap();
    let mut state = TransientState::new(&compiled);
    solve_dc(&compiled, &mut state, &k).expect("DC ok");
    let i = state.inductor_currents[0].0;
    assert!((i - 0.09).abs() < 1e-9, "Expected inductor current = +0.09 A at DC, got {i}");
    let i_vs = state.voltage_source_currents[0].0;
    assert!(
        (i_vs + i).abs() < 1e-7,
        "KCL violated: VS current {i_vs} + inductor current {i} should be ~0"
    );
}

#[test]
fn voltage_source_current_rc_charging() {
    let k = bench();
    let v_supply = 5.0;
    let r_ohms = 1_000.0;
    let c_farads = 1e-6;
    let tau = r_ohms * c_farads;
    let mut nl = Netlist::new(0);
    nl.push(source("V1", 1, 0, v_supply));
    nl.push(resistor("R1", 1, 2, r_ohms));
    nl.push(capacitor("C1", 2, 0, c_farads, 0.0));
    let compiled = lay_out(&nl).unwrap();
    let mut state = TransientState::new(&compiled);

    let dt = 10e-6_f64;
    let cfg = StepConfig::be(f(dt));
    let mut sampled = Vec::new();
    let total = 500;
    let sample_steps = [1usize, 100, 500];
    for step in 1..=total {
        step_with_config(&compiled, &mut state, cfg, &k).expect("step ok");
        if sample_steps.contains(&step) {
            sampled.push((step, state.voltage_source_currents[0].0));
        }
    }
    for (step, i_measured) in sampled {
        let t = step as f64 * dt;
        let i_expected = -(v_supply / r_ohms) * (-t / tau).exp();
        let err = (i_measured - i_expected).abs() / i_expected.abs().max(1e-9);
        assert!(
            err < 0.06,
            "step {step}: I_measured = {i_measured}, expected {i_expected} ({}% off)",
            err * 100.0,
        );
    }
}

fn relay_circuit() -> Netlist<F64> {
    let mut nl = Netlist::new(0);
    nl.push(source("V1", 1, 0, 9.0));
    nl.push(resistor("Rsense", 1, 2, 1.0));
    nl.push(source("V2", 3, 0, 5.0));
    nl.push(resistor("Rload_NC", 4, 0, 1000.0));
    nl.push(resistor("Rload_NO", 5, 0, 1000.0));
    nl.push(Element::Relay {
        id: "RL1".to_string(),
        coil_positive: 2,
        coil_negative: 0,
        common: 3,
        normally_closed: 4,
        normally_open: 5,
        coil_resistance_ohms: F64(100.0),
        ron_ohms: F64(1.0),
        roff_ohms: F64(1e6),
        on_current: F64(0.020),
        off_current: F64(0.010),
    });
    nl
}

#[test]
fn relay_energises_at_dc_and_switches_contact() {
    let k = bench();
    let compiled = lay_out(&relay_circuit()).unwrap();
    let mut state = TransientState::new(&compiled);
    assert_eq!(state.relay_active, vec![false]);

    solve_dc(&compiled, &mut state, &k).expect("DC ok");
    assert!(state.relay_active[0], "relay should be energised at DC");

    let v_no = at(&compiled, &state, 5);
    let v_nc = at(&compiled, &state, 4);
    assert!((v_no - 4.995).abs() < 0.02, "V_NO = 5V via Ron, got {v_no}");
    assert!(v_nc < 0.01, "V_NC = 0V via Roff, got {v_nc}");

    let v_coil_p = at(&compiled, &state, 2);
    let i_coil = (v_coil_p / 100.0).abs();
    assert!(
        (i_coil - 0.089).abs() < 0.001,
        "I_coil = 89 mA expected, got {i_coil} A (V_coil_p = {v_coil_p})"
    );
    assert!(i_coil > 0.020);

    let coil = *compiled.node_index.get(&2).unwrap();
    let mut probe_state = state.clone();
    let mut probe_est = vec![f(0.0); compiled.size];
    probe_est[coil] = f(0.5);
    update_relay_states(&compiled, &mut probe_state.relay_active, &probe_est);
    assert!(!probe_state.relay_active[0], "relay should release when I_coil < off_current");

    let mut hold_state = state.clone();
    probe_est[coil] = f(1.5);
    update_relay_states(&compiled, &mut hold_state.relay_active, &probe_est);
    assert!(hold_state.relay_active[0], "relay in dead band should hold energised state");
    // A relay at rest stays at rest in the dead band, too.
    hold_state.relay_active[0] = false;
    update_relay_states(&compiled, &mut hold_state.relay_active, &probe_est);
    assert!(!hold_state.relay_active[0]);
}

#[test]
fn relay_with_floating_nc_still_works() {
    let k = bench();
    let mut nl = Netlist::new(0);
    nl.push(source("V1", 1, 0, 9.0));
    nl.push(resistor("KEY1", 1, 7, 0.001));
    nl.push(source("V2", 3, 0, 3.0));
    nl.push(resistor("LAMP1", 8, 0, 17.5));
    nl.push(Element::Relay {
        id: "RL1".to_string(),
        coil_positive: 0,
        coil_negative: 7,
        common: 8,
        normally_closed: 9,
        normally_open: 3,
        coil_resistance_ohms: F64(150.0),
        ron_ohms: F64(0.05),
        roff_ohms: F64(1e6),
        on_current: F64(0.02),
        off_current: F64(0.015),
    });
    let compiled = lay_out(&nl).unwrap();
    let mut state = TransientState::new(&compiled);
    solve_dc(&compiled, &mut state, &k).expect("DC solve should succeed despite floating NC");
    assert!(state.relay_active[0], "relay should energise (I_coil = 60 mA > 20 mA)");
    let v_lamp_high = at(&compiled, &state, 8);
    assert!(
        (v_lamp_high - 2.99).abs() < 0.02,
        "V across lamp should be 2.99 V (bulb lit), got {v_lamp_high}"
    );
    let v_nc = at(&compiled, &state, 9);
    assert!(
        (v_nc - v_lamp_high).abs() < 0.01,
        "floating NC should track V_common to within ~10 mV, got V_NC={v_nc}, V_common={v_lamp_high}"
    );
}

#[test]
fn nan_in_state_is_caught_not_committed() {
    let k = bench();
    let compiled = lay_out(&rc()).unwrap();
    let mut state = TransientState::new(&compiled);
    step(&compiled, &mut state, f(1e-6), &k).expect("first step must succeed");
    for v in state.node_volts.iter_mut() {
        *v = f(f64::NAN);
    }
    let before = state.clone();
    let result = step(&compiled, &mut state, f(1e-6), &k);
    match result {
        Err(StepIssue::NewtonDidNotConverge) => {}
        Err(other) => panic!("expected NewtonDidNotConverge, got {other:?}"),
        Ok(_) => panic!("expected failure; NaN state was silently committed"),
    }
    // Nothing was committed.
    assert_eq!(state.cap_volts, before.cap_volts);
    assert_eq!(state.prev_cap_volts, before.prev_cap_volts);
    assert_eq!(state.voltage_source_currents, before.voltage_source_currents);
    assert_eq!(state.prev_dt, before.prev_dt);
}

#[test]
fn dc_reseed_recovers_from_nan_state() {
    let k = bench();
    let compiled = lay_out(&rc()).unwrap();
    let mut state = TransientState::new(&compiled);
    for _ in 0..10 {
        step(&compiled, &mut state, f(1e-6), &k).unwrap();
    }
    for v in state.node_volts.iter_mut() {
        *v = f(f64::NAN);
    }
    for v in state.cap_volts.iter_mut() {
        *v = f(f64::NAN);
    }
    solve_dc(&compiled, &mut state, &k).expect("solve_dc should recover");
    for v in state.node_volts.iter() {
        assert!(v.0.is_finite(), "node_volts NaN after DC reseed: {}", v.0);
    }
    for v in state.cap_volts.iter() {
        assert!(v.0.is_finite(), "cap_volts NaN after DC reseed: {}", v.0);
    }
    step(&compiled, &mut state, f(1e-6), &k).expect("step after DC reseed must succeed");
}

#[test]
fn lte_estimation_rc() {
    let k = bench();
    let compiled = lay_out(&rc()).unwrap();
    let mut state = TransientState::new(&compiled);
    let cfg = StepConfig::be(f(1e-4)).with_lte();
    let r1 = step_with_config(&compiled, &mut state, cfg, &k).unwrap();
    assert!(r1.lte.is_none());
    let r2 = step_with_config(&compiled, &mut state, cfg, &k).unwrap();
    assert!(r2.lte.is_some());
    let r3 = step_with_config(&compiled, &mut state, cfg, &k).unwrap();
    assert!(r3.lte.is_some());
    // Half the largest second difference of the state variables.
    assert_eq!(r3.lte.unwrap().0, largest_bend(&state, 0.5));
    // Not asked for, not reported.
    let r4 = step_with_config(&compiled, &mut state, StepConfig::be(f(1e-4)), &k).unwrap();
    assert!(r4.lte.is_none());
}

#[test]
fn bdf2_error_estimate_uses_its_own_factor() {
    let k = bench();
    let compiled = lay_out(&rc()).unwrap();
    let mut state = TransientState::new(&compiled);
    let cfg = StepConfig::bdf2(f(1e-4)).with_lte();
    for _ in 0..3 {
        step_with_config(&compiled, &mut state, cfg, &k).unwrap();
    }
    let r = step_with_config(&compiled, &mut state, cfg, &k).unwrap();
    assert_eq!(r.lte.unwrap().0, largest_bend(&state, 0.22));
}

#[test]
fn truncation_error_sees_every_state_variable() {
    // An inductor between two fixed nodes: its current bends when it saturates while no
    // voltage moves.
    let k = bench();
    let mut nl = Netlist::new(0);
    nl.push(source("V1", 1, 0, 1.0));
    nl.push(Element::Inductor {
        id: "L1".to_string(),
        a: 1,
        b: 0,
        inductance_henry: F64(1.0),
        saturation_current_a: Some(F64(1.5)),
        coupling_group: None,
        coupling_polarity: 1,
    });
    let c = lay_out(&nl).unwrap();
    let mut s = TransientState::new(&c);
    let cfg = StepConfig::be(f(1.0)).with_lte();
    for _ in 0..2 {
        step_with_config(&c, &mut s, cfg, &k).unwrap();
    }
    assert_eq!(s.inductor_currents[0].0.round(), 2.0);
    // The current goes on to 102 A: the second difference is 99, half of it the error.
    let r = step_with_config(&c, &mut s, cfg, &k).unwrap();
    assert_eq!(s.node_volts[0], s.prev_node_volts[0]);
    assert!((r.lte.unwrap().0 - 49.5).abs() < 1e-6, "{:?}", r.lte);

    // A capacitor between two nodes bends more than either of them.
    let mut nl = rc();
    nl.push(capacitor("C2", 1, 2, 1e-6, 0.0));
    let c = lay_out(&nl).unwrap();
    let mut s = TransientState::new(&c);
    s.cap_volts[1] = f(3.0);
    s.prev_cap_volts[1] = f(-3.0);
    s.gear2_ready = true;
    let r = step_with_config(&c, &mut s, StepConfig::be(f(1e-4)).with_lte(), &k).unwrap();
    let bend = (s.cap_volts[1].0 - 6.0 - 3.0).abs();
    assert_eq!(r.lte.unwrap().0, largest_bend(&s, 0.5));
    assert_eq!(r.lte.unwrap().0, 0.5 * bend);
}

#[test]
fn asking_for_the_error_changes_nothing_else() {
    let k = bench();
    let c = lay_out(&rc()).unwrap();
    let mut quiet = TransientState::new(&c);
    let mut asked = TransientState::new(&c);
    for _ in 0..10 {
        let a = step_with_config(&c, &mut quiet, StepConfig::bdf2(f(1e-4)), &k).unwrap();
        let b = step_with_config(&c, &mut asked, StepConfig::bdf2(f(1e-4)).with_lte(), &k).unwrap();
        assert_eq!(a.iters, b.iters);
        assert!(a.lte.is_none());
        if let Some(e) = b.lte {
            assert!(e.0 >= 0.0);
        }
    }
    assert_same_state(&quiet, &asked);
}

#[test]
fn backward_euler_does_not_read_bdf2_history() {
    let k = bench();
    let mut nl = rc();
    nl.push(inductor("L1", 2, 0, 1.0, None));
    let c = lay_out(&nl).unwrap();
    let mut s = TransientState::new(&c);
    for _ in 0..5 {
        step(&c, &mut s, f(1e-4), &k).unwrap();
    }
    let mut other = s.clone();
    other.prev_cap_volts[0] = f(f64::NAN);
    other.prev_inductor_currents[0] = f(77.0);
    other.prev2_node_volts[0] = f(f64::NAN);
    other.prev2_cap_volts[0] = f(1.0);
    other.prev2_inductor_currents[0] = f(1.0);
    assert_eq!(step(&c, &mut s, f(1e-4), &k), step(&c, &mut other, f(1e-4), &k));
    assert_eq!(s.node_volts, other.node_volts);
    assert_eq!(s.cap_volts, other.cap_volts);
    assert_eq!(s.inductor_currents, other.inductor_currents);
    assert_eq!(s.voltage_source_currents, other.voltage_source_currents);
    assert_eq!(s.prev_cap_volts, other.prev_cap_volts);
    // BDF-2 does read it.
    other.prev_cap_volts[0] = f(3.0);
    let cfg = StepConfig::bdf2(f(1e-4));
    step_with_config(&c, &mut s, cfg, &k).unwrap();
    step_with_config(&c, &mut other, cfg, &k).unwrap();
    assert_ne!(s.node_volts, other.node_volts);
}

/// The relay circuit with a capacitor at the normally open throw, and a relay that
/// picks up late.
fn late_relay() -> Netlist<F64> {
    let mut nl = relay_circuit();
    nl.push(capacitor("C5", 5, 0, 1e-6, 0.0));
    if let Element::Relay { on_current, .. } = &mut nl.elements[5] {
        *on_current = F64(0.05);
    }
    nl
}

#[test]
fn step_after_a_relay_toggle_is_backward_euler() {
    let k = bench();
    let c = lay_out(&late_relay()).unwrap();
    let mut s = TransientState::new(&c);
    let bdf2 = StepConfig::bdf2(f(1e-4));
    let be = StepConfig::be(f(1e-4));
    let mut toggles = 0;
    for _ in 0..12 {
        let before = s.relay_active.clone();
        step_with_config(&c, &mut s, bdf2, &k).unwrap();
        let toggled = s.relay_active != before;
        assert_eq!(s.relay_toggled, toggled);
        let mut one = s.clone();
        let mut other = s.clone();
        let lte = |cfg: StepConfig<F64>| cfg.with_lte();
        let a = step_with_config(&c, &mut one, lte(bdf2), &k).unwrap();
        let b = step_with_config(&c, &mut other, lte(be), &k).unwrap();
        if toggled {
            toggles += 1;
            assert_eq!((a.iters, a.lte), (b.iters, b.lte));
            assert_same_state(&one, &other);
        } else if toggles == 1 {
            assert_ne!(one.node_volts, other.node_volts);
        }
    }
    assert_eq!(toggles, 1);
    // An operating point starts over.
    s.relay_toggled = true;
    solve_dc(&c, &mut s, &k).unwrap();
    assert!(!s.relay_toggled);
}

#[test]
fn relay_toggle_on_the_way_to_a_failure_is_recorded() {
    // The second solve fails, after the first one energised the relay.
    let k = Stubborn { inner: bench(), refuse_first: 0, seen: RefCell::new(Vec::new()) };
    let failing = FailsFrom { inner: bench(), from: 2 };
    let c = lay_out(&relay_circuit()).unwrap();
    let mut s = TransientState::new(&c);
    for v in s.node_volts.iter_mut() {
        *v = f(4.0);
    }
    let before = s.clone();
    assert_eq!(step(&c, &mut s, f(1e-4), &failing), Err(StepIssue::SingularMatrix));
    assert_eq!(s.relay_active, vec![true]);
    assert!(s.relay_toggled);
    assert_eq!(s.node_volts, before.node_volts);
    assert_eq!(s.cap_volts, before.cap_volts);
    // The next step that is committed moves no relay.
    step(&c, &mut s, f(1e-4), &k).unwrap();
    assert!(!s.relay_toggled);
}

fn largest_bend(s: &TransientState<F64>, factor: f64) -> f64 {
    let mut largest: f64 = 0.0;
    for (x, prev, prev2) in [
        (&s.node_volts, &s.prev_node_volts, &s.prev2_node_volts),
        (&s.cap_volts, &s.prev_cap_volts, &s.prev2_cap_volts),
        (&s.inductor_currents, &s.prev_inductor_currents, &s.prev2_inductor_currents),
    ] {
        for i in 0..x.len() {
            let second = x[i].0 - 2.0 * prev[i].0 + prev2[i].0;
            largest = largest.max(factor * second.abs());
        }
    }
    largest
}

fn assert_same_state(a: &TransientState<F64>, b: &TransientState<F64>) {
    assert_eq!(a.node_volts, b.node_volts);
    assert_eq!(a.prev_node_volts, b.prev_node_volts);
    assert_eq!(a.prev2_node_volts, b.prev2_node_volts);
    assert_eq!(a.cap_volts, b.cap_volts);
    assert_eq!(a.prev_cap_volts, b.prev_cap_volts);
    assert_eq!(a.prev2_cap_volts, b.prev2_cap_volts);
    assert_eq!(a.inductor_currents, b.inductor_currents);
    assert_eq!(a.prev_inductor_currents, b.prev_inductor_currents);
    assert_eq!(a.prev2_inductor_currents, b.prev2_inductor_currents);
    assert_eq!(a.tj_cap_volts, b.tj_cap_volts);
    assert_eq!(a.voltage_source_currents, b.voltage_source_currents);
    assert_eq!(a.relay_active, b.relay_active);
    assert_eq!(a.relay_toggled, b.relay_toggled);
    assert_eq!(a.gear2_ready, b.gear2_ready);
    assert_eq!(a.prev_dt, b.prev_dt);
}

/// Solvers that have no solution from a given call on.
struct FailsFrom {
    inner: Bench,
    from: usize,
}

impl Kernel<F64, Marks> for FailsFrom {
    fn compile_netlist(&self, netlist: &Netlist<F64>) -> Option<CompiledNetlist<F64, Marks>> {
        self.inner.compile_netlist(netlist)
    }
    fn transistor_stamp(
        &self,
        q: &Transistor<F64>,
        volts: &Vec<F64>,
        bi: i32,
        ci: i32,
        ei: i32,
        prev_volts: Option<&Vec<F64>>,
    ) -> TransistorStamp<F64> {
        self.inner.transistor_stamp(q, volts, bi, ci, ei, prev_volts)
    }
    fn diode_stamp(
        &self,
        d: &Diode<F64>,
        volts: &Vec<F64>,
        ai: i32,
        ki: i32,
        prev_volts: Option<&Vec<F64>>,
    ) -> DiodeStamp<F64> {
        self.inner.diode_stamp(d, volts, ai, ki, prev_volts)
    }
    fn sparse_solve(
        &self,
        matrix: Vec<F64>,
        rhs: &Vec<F64>,
        size: usize,
        pattern: &Marks,
    ) -> Option<Vec<F64>> {
        let x = self.inner.sparse_solve(matrix, rhs, size, pattern);
        if self.inner.sparse_calls.get() >= self.from {
            None
        } else {
            x
        }
    }
    fn dense_solve(&self, _matrix: Vec<F64>, _rhs: Vec<F64>, _size: usize) -> Option<Vec<F64>> {
        None
    }
    fn power(&self, base: F64, exponent: F64) -> F64 {
        self.inner.power(base, exponent)
    }
}

#[test]
fn first_backward_euler_step_in_exact_numbers() {
    // 1 V through 1 Ohm into 1 F with dt = 1 s: v = 1/2 but for gmin; the current
    // follows.  A single iteration is taken.
    let k = bench();
    let mut nl = Netlist::new(0);
    nl.push(source("V1", 1, 0, 1.0));
    nl.push(resistor("R1", 1, 2, 1.0));
    nl.push(capacitor("C1", 2, 0, 1.0, 0.0));
    let c = lay_out(&nl).unwrap();
    let mut s = TransientState::new(&c);
    let iters = step(&c, &mut s, f(1.0), &k).unwrap();
    assert_eq!(iters, 1);
    assert!((at(&c, &s, 1) - 1.0).abs() < 1e-12);
    assert!((at(&c, &s, 2) - 0.5).abs() < 1e-8);
    assert!((s.voltage_source_currents[0].0 + 0.5).abs() < 1e-8);
    assert!(s.gear2_ready);
    assert_eq!(s.prev_dt, f(1.0));
    assert_eq!(s.prev_node_volts, vec![f(0.0), f(0.0)]);
}

#[test]
fn bdf2_step_in_exact_numbers() {
    // Same circuit: 3/2 (v - 4/3 * 1/2 + 0) = 1 - v gives v = 0.8 on the second
    // step.
    let k = bench();
    let mut nl = Netlist::new(0);
    nl.push(source("V1", 1, 0, 1.0));
    nl.push(resistor("R1", 1, 2, 1.0));
    nl.push(capacitor("C1", 2, 0, 1.0, 0.0));
    let c = lay_out(&nl).unwrap();
    let mut s = TransientState::new(&c);
    let cfg = StepConfig::bdf2(f(1.0));
    step_with_config(&c, &mut s, cfg, &k).unwrap();
    assert!((at(&c, &s, 2) - 0.5).abs() < 1e-8);
    step_with_config(&c, &mut s, cfg, &k).unwrap();
    assert!((at(&c, &s, 2) - 0.8).abs() < 1e-8);
}

#[test]
fn initial_capacitor_voltage_is_kept() {
    let mut nl = Netlist::new(0);
    nl.push(resistor("R1", 1, 0, 1_000.0));
    nl.push(capacitor("C1", 1, 0, 1e-6, 2.5));
    let c = lay_out(&nl).unwrap();
    let s = TransientState::new(&c);
    assert_eq!(s.cap_volts, vec![f(2.5)]);
    assert_eq!(s.prev_cap_volts, vec![f(2.5)]);
    assert_eq!(s.prev2_cap_volts, vec![f(2.5)]);
    assert_eq!(s.node_volts, vec![f(0.0)]);
    assert!(!s.gear2_ready);
}

#[test]
fn first_step_ignores_the_gear() {
    let k = bench();
    let c = lay_out(&rc()).unwrap();
    let mut be = TransientState::new(&c);
    let mut bdf2 = TransientState::new(&c);
    for round in 0..2 {
        let dt = f(1e-4);
        step_with_config(&c, &mut be, StepConfig::be(dt), &k).unwrap();
        step_with_config(&c, &mut bdf2, StepConfig::bdf2(dt), &k).unwrap();
        assert_eq!(be.node_volts, bdf2.node_volts);
        // The second step tells them apart.
        step_with_config(&c, &mut be, StepConfig::be(dt), &k).unwrap();
        step_with_config(&c, &mut bdf2, StepConfig::bdf2(dt), &k).unwrap();
        assert_ne!(be.node_volts, bdf2.node_volts, "round {round}");
        // An operating-point solve starts over.
        solve_dc(&c, &mut be, &k).unwrap();
        solve_dc(&c, &mut bdf2, &k).unwrap();
        assert!(!bdf2.gear2_ready);
        assert_eq!(bdf2.prev_dt, f(0.0));
        be.cap_volts[0] = f(4.9);
        bdf2.cap_volts[0] = f(4.9);
    }
}

#[test]
fn bad_timesteps_are_refused() {
    let k = bench();
    let c = lay_out(&rc()).unwrap();
    let mut s = TransientState::new(&c);
    for dt in [0.0, -1e-6, f64::NAN, f64::INFINITY, f64::NEG_INFINITY] {
        let r = step(&c, &mut s, f(dt), &k);
        assert_eq!(r, Err(StepIssue::BadTimestep), "dt = {dt}");
    }
    assert_eq!(k.sparse_calls.get(), 0);
    assert!(!s.gear2_ready);
}

#[test]
fn singular_matrix_when_both_solvers_fail() {
    let mut k = bench();
    k.sparse_fails = true;
    k.dense_fails = true;
    let c = lay_out(&rc()).unwrap();
    let mut s = TransientState::new(&c);
    let before = s.clone();
    assert_eq!(step(&c, &mut s, f(1e-6), &k), Err(StepIssue::SingularMatrix));
    assert_eq!(k.sparse_calls.get(), 1);
    assert_eq!(k.dense_calls.get(), 1);
    assert_eq!(s.node_volts, before.node_volts);
    assert!(!s.gear2_ready);
    // The operating point tries once directly and once with stepping.
    assert_eq!(solve_dc(&c, &mut s, &k), Err(DcIssue::SingularMatrix));
    assert_eq!(k.dense_calls.get(), 3);
}

#[test]
fn dense_fallback_takes_over() {
    let mut k = bench();
    k.sparse_fails = true;
    let c = lay_out(&rc()).unwrap();
    let mut s = TransientState::new(&c);
    let mut reference = TransientState::new(&c);
    step(&c, &mut s, f(1e-6), &k).unwrap();
    step(&c, &mut reference, f(1e-6), &bench()).unwrap();
    assert_eq!(k.dense_calls.get(), 1);
    assert_eq!(s.node_volts, reference.node_volts);
}

#[test]
fn both_solvers_see_the_same_system() {
    // With a diode at 0.5 V, a transistor and a charged capacitor the right-hand side
    // holds companion currents; each stands in it once.
    let mut k = bench();
    k.sparse_fails = true;
    k.dense_fails = true;
    let mut nl = Netlist::new(0);
    nl.push(resistor("R1", 1, 0, 1_000.0));
    nl.push(Element::Diode {
        id: "D1".to_string(),
        anode: 1,
        cathode: 0,
        params: Diode::shockley(F64(1e-14), F64(1.0)),
    });
    let c = lay_out(&nl).unwrap();
    let mut s = TransientState::new(&c);
    s.node_volts[0] = f(0.5);
    assert_eq!(step(&c, &mut s, f(1e-6), &k), Err(StepIssue::SingularMatrix));
    let d = Diode::shockley(F64(1e-14), F64(1.0));
    let once = k.diode_stamp(&d, &vec![f(0.5)], 0, -1, None);
    assert!(once.ieq().0 < 0.0);
    assert_eq!(k.dense_system.borrow().1[0].0, 0.0 - once.ieq().0);
    assert_eq!(*k.sparse_system.borrow(), *k.dense_system.borrow());

    nl.push(capacitor("C1", 1, 0, 1e-6, 0.3));
    let q = Transistor::new(
        true, F64(100.0), F64(1e-14), F64(1.0), F64(100.0), F64(1e-12), F64(1e-12), None, None,
        None, None, None, None, None, None, None, None, None,
    );
    nl.push(Element::Transistor {
        id: "Q1".to_string(),
        base: 1,
        collector: 2,
        emitter: 0,
        params: q,
    });
    let c = lay_out(&nl).unwrap();
    let mut s = TransientState::new(&c);
    s.node_volts[0] = f(0.7);
    assert_eq!(step(&c, &mut s, f(1e-6), &k), Err(StepIssue::SingularMatrix));
    assert_eq!(*k.sparse_system.borrow(), *k.dense_system.borrow());
    // In the operating point, too, directly and with limiting.
    assert_eq!(solve_dc(&c, &mut s, &k), Err(DcIssue::SingularMatrix));
    assert_eq!(*k.sparse_system.borrow(), *k.dense_system.borrow());
    assert!(k.limited_calls.get() > 0);
}

#[test]
fn dense_fallback_finds_the_same_operating_point() {
    let mut nl = Netlist::new(0);
    nl.push(source("V1", 1, 0, 5.0));
    nl.push(resistor("R1", 1, 2, 1_000.0));
    nl.push(Element::Diode {
        id: "D1".to_string(),
        anode: 2,
        cathode: 0,
        params: Diode::shockley(F64(1e-14), F64(1.0)),
    });
    let c = lay_out(&nl).unwrap();
    let mut sparse = TransientState::new(&c);
    let mut dense = TransientState::new(&c);
    let mut k = bench();
    k.sparse_fails = true;
    assert_eq!(solve_dc(&c, &mut sparse, &bench()), solve_dc(&c, &mut dense, &k));
    assert_eq!(sparse.node_volts, dense.node_volts);
}

#[test]
fn diode_clamps_its_node() {
    let k = bench();
    let mut nl = Netlist::new(0);
    nl.push(source("V1", 1, 0, 5.0));
    nl.push(resistor("R1", 1, 2, 1_000.0));
    nl.push(Element::Diode {
        id: "D1".to_string(),
        anode: 2,
        cathode: 0,
        params: Diode::shockley(F64(1e-14), F64(1.0)),
    });
    let c = lay_out(&nl).unwrap();
    let mut s = TransientState::new(&c);
    let iters = solve_dc(&c, &mut s, &k).unwrap();
    assert!(iters > 1);
    let v = at(&c, &s, 2);
    assert!(v > 0.6 && v < 0.75, "diode drop {v}");
    // The current through the resistor is that through the diode.
    let i = 1e-14 * ((v / 0.02585).exp() - 1.0);
    assert!((i - (5.0 - v) / 1_000.0).abs() < 1e-4);
    // Steps stay within the budget of a circuit with diodes and keep the point.
    for _ in 0..20 {
        let r = step(&c, &mut s, f(1e-6), &k).unwrap();
        assert!((1..=10).contains(&r));
    }
    assert!((at(&c, &s, 2) - v).abs() < 0.02);
}

#[test]
fn transistor_follows_its_base() {
    let k = bench();
    let mut nl = Netlist::new(0);
    nl.push(source("VCC", 1, 0, 12.0));
    nl.push(source("VB", 2, 0, 2.0));
    nl.push(resistor("RE", 4, 0, 1_000.0));
    nl.push(resistor("RC", 1, 3, 1_000.0));
    let q = Transistor::new(
        true, F64(100.0), F64(1e-14), F64(1.0), F64(100.0), F64(1e-12), F64(1e-12), None, None,
        None, None, None, None, None, None, None, None, None,
    );
    nl.push(Element::Transistor {
        id: "Q1".to_string(),
        base: 2,
        collector: 3,
        emitter: 4,
        params: q,
    });
    let c = lay_out(&nl).unwrap();
    let mut s = TransientState::new(&c);
    solve_dc(&c, &mut s, &k).unwrap();
    let ve = at(&c, &s, 4);
    assert!((ve - 1.4).abs() < 0.01, "emitter at {ve}");
    // Collector current over emitter current is beta / (beta + 1).
    let vc = at(&c, &s, 3);
    assert!(((12.0 - vc) - ve * 100.0 / 101.0).abs() < 1e-4, "collector at {vc}");
    assert_eq!(s.tj_cap_volts.len(), 2);
    assert!((s.tj_cap_volts[0].0 - (2.0 - ve)).abs() < 1e-9);
    assert!((s.tj_cap_volts[1].0 - (2.0 - vc)).abs() < 1e-9);
    // In a step the device is limited against the last node voltages.
    assert_eq!(k.limited_calls.get(), 0);
    let iters = step(&c, &mut s, f(1e-6), &k).unwrap();
    assert!((1..=20).contains(&iters));
    assert!(k.limited_calls.get() >= iters);
    assert!((at(&c, &s, 4) - ve).abs() < 0.05);
}

#[test]
fn inductor_saturates() {
    // With 1 V over 1 H for 1 s the current grows by 1 A; saturated, the
    // inductance is one hundredth, and it grows a hundredfold.
    let k = bench();
    let mut nl = Netlist::new(0);
    nl.push(source("V1", 1, 0, 1.0));
    nl.push(Element::Inductor {
        id: "L1".to_string(),
        a: 1,
        b: 0,
        inductance_henry: F64(1.0),
        saturation_current_a: Some(F64(0.5)),
        coupling_group: None,
        coupling_polarity: 1,
    });
    let c = lay_out(&nl).unwrap();
    let mut s = TransientState::new(&c);
    step(&c, &mut s, f(1.0), &k).unwrap();
    assert!((s.inductor_currents[0].0 - 1.0).abs() < 1e-9);
    step(&c, &mut s, f(1.0), &k).unwrap();
    assert!((s.inductor_currents[0].0 - 101.0).abs() < 1e-9);
    assert_eq!(s.prev_inductor_currents[0], f(1.0));
}

#[test]
fn large_changes_are_limited_to_one_volt_an_iteration() {
    // A linear circuit takes one iteration, so a 12 V source is reached volt by
    // volt.
    let k = bench();
    let mut nl = Netlist::new(0);
    nl.push(source("V1", 1, 0, 12.0));
    nl.push(resistor("R1", 1, 0, 10.0));
    let c = lay_out(&nl).unwrap();
    let mut s = TransientState::new(&c);
    step(&c, &mut s, f(1e-3), &k).unwrap();
    assert_eq!(at(&c, &s, 1), 1.0);
    // The next one starts where the predictor expects the node, at 2 V.
    step(&c, &mut s, f(1e-3), &k).unwrap();
    assert_eq!(at(&c, &s, 1), 3.0);
    // The prediction is clipped at 1.5 V.
    step(&c, &mut s, f(1e-3), &k).unwrap();
    assert_eq!(at(&c, &s, 1), 5.5);
}

#[test]
fn operating_point_does_not_depend_on_history() {
    let k = bench();
    let c = lay_out(&rc()).unwrap();
    let mut fresh = TransientState::new(&c);
    let mut used = TransientState::new(&c);
    for _ in 0..100 {
        step(&c, &mut used, f(1e-5), &k).unwrap();
    }
    let history = used.clone();
    assert_eq!(solve_dc(&c, &mut fresh, &k), Ok(1));
    assert_eq!(solve_dc(&c, &mut used, &k), Ok(1));
    assert_eq!(fresh.node_volts, used.node_volts);
    assert_eq!(fresh.cap_volts, used.cap_volts);
    assert_eq!(fresh.voltage_source_currents, used.voltage_source_currents);
    // The older history is left alone.
    assert_eq!(used.prev_node_volts, history.prev_node_volts);
    assert_eq!(used.prev2_node_volts, history.prev2_node_volts);
}

/// Solvers that find a solution only while the regularising conductance is large,
/// or only from a given call on.
struct Stubborn {
    inner: Bench,
    refuse_first: usize,
    seen: RefCell<Vec<f64>>,
}

impl Kernel<F64, Marks> for Stubborn {
    fn compile_netlist(&self, netlist: &Netlist<F64>) -> Option<CompiledNetlist<F64, Marks>> {
        self.inner.compile_netlist(netlist)
    }
    fn transistor_stamp(
        &self,
        q: &Transistor<F64>,
        volts: &Vec<F64>,
        bi: i32,
        ci: i32,
        ei: i32,
        prev_volts: Option<&Vec<F64>>,
    ) -> TransistorStamp<F64> {
        self.inner.transistor_stamp(q, volts, bi, ci, ei, prev_volts)
    }
    fn diode_stamp(
        &self,
        d: &Diode<F64>,
        volts: &Vec<F64>,
        ai: i32,
        ki: i32,
        prev_volts: Option<&Vec<F64>>,
    ) -> DiodeStamp<F64> {
        self.inner.diode_stamp(d, volts, ai, ki, prev_volts)
    }
    fn sparse_solve(
        &self,
        matrix: Vec<F64>,
        rhs: &Vec<F64>,
        size: usize,
        pattern: &Marks,
    ) -> Option<Vec<F64>> {
        self.seen.borrow_mut().push(matrix[0].0);
        if self.seen.borrow().len() <= self.refuse_first {
            None
        } else {
            self.inner.sparse_solve(matrix, rhs, size, pattern)
        }
    }
    fn dense_solve(&self, _matrix: Vec<F64>, _rhs: Vec<F64>, _size: usize) -> Option<Vec<F64>> {
        None
    }
    fn power(&self, base: F64, exponent: F64) -> F64 {
        self.inner.power(base, exponent)
    }
}

#[test]
fn operating_point_steps_the_conductance() {
    let k = Stubborn { inner: bench(), refuse_first: 1, seen: RefCell::new(Vec::new()) };
    let mut nl = Netlist::new(0);
    nl.push(resistor("R1", 1, 0, 1.0));
    let c = lay_out(&nl).unwrap();
    let mut s = TransientState::new(&c);
    // Eleven passes of one iteration each, after the one that failed.
    assert_eq!(solve_dc(&c, &mut s, &k), Ok(11));
    let seen = k.seen.borrow();
    assert_eq!(seen.len(), 12);
    assert_eq!(seen[0], 1.0 + 1e-9);
    assert_eq!(seen[1], 1.0 + 1e-2);
    assert!((seen[2] - 1.0 - 1.995e-3).abs() < 1e-5);
    for j in 2..12 {
        assert!(seen[j] < seen[j - 1]);
        assert!(seen[j] >= 1.0 + 1e-9);
    }
}

#[test]
fn operating_point_fails_where_stepping_fails() {
    let k = Stubborn { inner: bench(), refuse_first: 2, seen: RefCell::new(Vec::new()) };
    let c = lay_out(&relay_circuit()).unwrap();
    let mut s = TransientState::new(&c);
    s.gear2_ready = true;
    let before = s.clone();
    assert_eq!(solve_dc(&c, &mut s, &k), Err(DcIssue::SingularMatrix));
    assert_eq!(s.node_volts, before.node_volts);
    assert!(s.gear2_ready);
}

#[test]
fn operating_point_of_undefined_numbers_does_not_converge() {
    let k = bench();
    let mut nl = Netlist::new(0);
    nl.push(source("V1", 1, 0, f64::NAN));
    nl.push(resistor("R1", 1, 0, 1.0));
    let c = lay_out(&nl).unwrap();
    let mut s = TransientState::new(&c);
    assert_eq!(solve_dc(&c, &mut s, &k), Err(DcIssue::DidNotConverge));
    assert_eq!(s.node_volts, vec![f(0.0)]);
}

#[test]
fn answers_of_the_wrong_length_are_no_solution() {
    let c = lay_out(&rc()).unwrap();
    let mut smaller = c.clone();
    smaller.size = 2;
    assert!(!smaller.is_well_formed());
    let mut s = TransientState::new(&c);
    let k = Short { inner: bench() };
    assert_eq!(step(&c, &mut s, f(1e-6), &k), Err(StepIssue::SingularMatrix));
}

/// Answers of the wrong length: a layout that lacks a number, solutions with one
/// value too few or too many.
struct Short {
    inner: Bench,
}

impl Kernel<F64, Marks> for Short {
    fn compile_netlist(&self, _netlist: &Netlist<F64>) -> Option<CompiledNetlist<F64, Marks>> {
        let mut c = lay_out(&rc()).unwrap();
        c.cap_stamp_indices.pop();
        Some(c)
    }
    fn transistor_stamp(
        &self,
        q: &Transistor<F64>,
        volts: &Vec<F64>,
        bi: i32,
        ci: i32,
        ei: i32,
        prev_volts: Option<&Vec<F64>>,
    ) -> TransistorStamp<F64> {
        self.inner.transistor_stamp(q, volts, bi, ci, ei, prev_volts)
    }
    fn diode_stamp(
        &self,
        d: &Diode<F64>,
        volts: &Vec<F64>,
        ai: i32,
        ki: i32,
        prev_volts: Option<&Vec<F64>>,
    ) -> DiodeStamp<F64> {
        self.inner.diode_stamp(d, volts, ai, ki, prev_volts)
    }
    fn sparse_solve(
        &self,
        _matrix: Vec<F64>,
        _rhs: &Vec<F64>,
        size: usize,
        _pattern: &Marks,
    ) -> Option<Vec<F64>> {
        Some(vec![f(0.0); size - 1])
    }
    fn dense_solve(&self, _matrix: Vec<F64>, _rhs: Vec<F64>, size: usize) -> Option<Vec<F64>> {
        Some(vec![f(0.0); size + 1])
    }
    fn power(&self, base: F64, exponent: F64) -> F64 {
        self.inner.power(base, exponent)
    }
}

#[test]
fn ill_formed_layouts_are_not_installed() {
    let mut sim: Simulator<F64, Marks> = Simulator::new(0);
    sim.add_resistor("R1".to_string(), 1, 0, f(1.0));
    assert!(!sim.compile(&Short { inner: bench() }));
    assert_eq!(sim.node_count(), 0);
}

#[test]
fn layouts_of_other_netlists_are_not_installed() {
    let mut nl = rc();
    let good = lay_out(&nl).unwrap();
    assert!(good.is_layout_of(&nl));
    // Another value, name, kind, node or number of elements.
    let mut c = good.clone();
    c.elements[1] = resistor("R1", 1, 2, 999.0);
    assert!(!c.is_layout_of(&nl));
    let mut c = good.clone();
    c.elements[1] = resistor("R2", 1, 2, 1_000.0);
    assert!(!c.is_layout_of(&nl));
    let mut c = good.clone();
    c.elements[1] = inductor("R1", 1, 2, 1_000.0, None);
    assert!(!c.is_layout_of(&nl));
    let mut c = good.clone();
    c.elements[1] = resistor("R1", 2, 1, 1_000.0);
    assert!(!c.is_layout_of(&nl));
    let mut c = good.clone();
    c.elements.pop();
    assert!(!c.is_layout_of(&nl));
    // A node too many, one too few, or ground among them.
    let mut c = good.clone();
    c.node_index.insert(9, 0);
    assert!(!c.is_layout_of(&nl));
    let mut c = good.clone();
    c.node_index.remove(&1);
    assert!(!c.is_layout_of(&nl));
    let mut c = good.clone();
    c.node_index.insert(0, 0);
    assert!(!c.is_layout_of(&nl));
    nl.push(resistor("R9", 1, 0, 1.0));
    assert!(!good.is_layout_of(&nl));
    // Undefined parameters are compared, too.
    let mut odd = Netlist::new(0);
    odd.push(source("V1", 1, 0, f64::NAN));
    assert!(lay_out(&odd).unwrap().is_layout_of(&odd));

    // A simulator takes its own layout only, and an empty one takes none.
    let mut sim: Simulator<F64, Marks> = Simulator::new(0);
    assert!(!sim.install(Some(good.clone())));
    sim.add_voltage_source("V1".to_string(), 1, 0, f(5.0));
    sim.add_resistor("R1".to_string(), 1, 2, f(1_000.0));
    assert!(!sim.install(Some(good.clone())));
    sim.add_capacitor("C1".to_string(), 2, 0, f(1e-6), f(0.0));
    assert!(sim.install(Some(good)));
    assert_eq!(sim.node_count(), 2);
    let mut grounded: Simulator<F64, Marks> = Simulator::new(0);
    grounded.add_resistor("R1".to_string(), 0, 0, f(1.0));
    let mut empty = lay_out(&rc()).unwrap();
    empty.elements = vec![resistor("R1", 0, 0, 1.0)];
    empty.node_index.clear();
    assert!(!grounded.install(Some(empty)));
}

#[test]
fn every_kind_of_element_is_compared() {
    let q = Transistor::new(
        true, F64(100.0), F64(1e-14), F64(1.0), F64(100.0), F64(1e-12), F64(1e-12), None, None,
        None, None, None, None, None, None, None, Some(F64(1e-9)), None,
    );
    let mut q2 = q;
    q2.tf_seconds = None;
    let mut q3 = q;
    q3.polarity = Polarity::Pnp;
    let d = Diode::zener(F64(1e-14), F64(1.0), F64(5.0), None);
    let transistor = |params| Element::Transistor {
        id: "Q".to_string(),
        base: 1,
        collector: 2,
        emitter: 3,
        params,
    };
    let diode = |params| Element::Diode { id: "D".to_string(), anode: 1, cathode: 2, params };
    let coupling = |k: f64| Element::Coupling {
        id: "K".to_string(),
        coupling_group: "g".to_string(),
        k: F64(k),
    };
    let relay = relay_circuit().elements[5].clone();
    let late = late_relay().elements[5].clone();
    let all: Vec<Element<F64>> = vec![
        resistor("A", 1, 2, 1.0),
        resistor("A", 1, 2, 2.0),
        capacitor("A", 1, 2, 1.0, 0.0),
        capacitor("A", 1, 2, 1.0, -0.0),
        inductor("A", 1, 2, 1.0, None),
        inductor("A", 1, 2, 1.0, Some("g")),
        inductor("A", 1, 2, 1.0, Some("h")),
        source("A", 1, 2, 1.0),
        transistor(q),
        transistor(q2),
        transistor(q3),
        diode(d),
        diode(Diode::shockley(F64(1e-14), F64(1.0))),
        coupling(0.5),
        coupling(0.6),
        relay,
        late,
    ];
    for (i, a) in all.iter().enumerate() {
        for (j, b) in all.iter().enumerate() {
            assert_eq!(a.is_alike(b), i == j, "{i} {j}");
        }
    }
}

#[test]
fn operating_point_ignores_storage() {
    let k = bench();
    let build = |farads: f64, initial: f64, henry: f64| {
        let mut nl = Netlist::new(0);
        nl.push(source("V1", 1, 0, 9.0));
        nl.push(resistor("R1", 1, 2, 100.0));
        nl.push(inductor("L1", 2, 3, henry, None));
        nl.push(resistor("R2", 3, 0, 50.0));
        nl.push(capacitor("C1", 3, 0, farads, initial));
        nl
    };
    let one = lay_out(&build(1e-6, 0.0, 1e-3)).unwrap();
    let other = lay_out(&build(5.0, 7.0, 2.0)).unwrap();
    let mut a = TransientState::new(&one);
    let mut b = TransientState::new(&other);
    assert_eq!(solve_dc(&one, &mut a, &k), solve_dc(&other, &mut b, &k));
    assert_eq!(a.node_volts, b.node_volts);
    assert_eq!(a.inductor_currents, b.inductor_currents);
    assert_eq!(a.voltage_source_currents, b.voltage_source_currents);
    assert_eq!(a.cap_volts, b.cap_volts);
    // A short has no voltage across it.
    assert!((at(&one, &a, 2) - at(&one, &a, 3)).abs() < 1e-9);
}

#[test]
fn failed_operating_points_agree() {
    let c = lay_out(&relay_circuit()).unwrap();
    let mut fresh = TransientState::new(&c);
    let mut used = TransientState::new(&c);
    for v in used.node_volts.iter_mut() {
        *v = f(f64::NAN);
    }
    used.gear2_ready = true;
    let fails = || FailsFrom { inner: bench(), from: 3 };
    let r = solve_dc(&c, &mut fresh, &fails());
    assert_eq!(r, Err(DcIssue::SingularMatrix));
    assert_eq!(solve_dc(&c, &mut used, &fails()), r);
    assert_eq!(fresh.relay_active, vec![true]);
    assert_eq!(used.relay_active, fresh.relay_active);
    assert!(used.gear2_ready && used.relay_toggled && fresh.relay_toggled);
}

#[test]
fn relays_do_not_tell_directions() {
    let c = lay_out(&relay_circuit()).unwrap();
    for start in [false, true] {
        for volts in [0.5, 1.5, 2.5] {
            let est = vec![f(volts); c.size];
            let mirrored = vec![f(-volts); c.size];
            let mut a = vec![start];
            let mut b = vec![start];
            update_relay_states(&c, &mut a, &est);
            update_relay_states(&c, &mut b, &mirrored);
            assert_eq!(a, b);
        }
    }
}

#[test]
fn layouts_are_checked() {
    let good = lay_out(&rc()).unwrap();
    assert!(good.is_well_formed());
    let mut c = good.clone();
    c.capacitor_indices[0] = 0;
    assert!(!c.is_well_formed(), "a capacitor that is a source");
    let mut c = good.clone();
    c.capacitor_indices[0] = 3;
    assert!(!c.is_well_formed(), "an element beyond the list");
    let mut c = good.clone();
    c.gmin_indices.push(9);
    assert!(!c.is_well_formed(), "an entry beyond the matrix");
    let mut c = good.clone();
    c.node_index.insert(5, 2);
    assert!(!c.is_well_formed(), "a node beyond the rows");
    let mut c = good.clone();
    c.static_stamps[0].row = 3;
    assert!(!c.is_well_formed(), "a stamp beyond the matrix");
    let mut c = good.clone();
    c.voltage_source_branch_rows[0] = 3;
    assert!(!c.is_well_formed(), "a branch row beyond the matrix");
    let mut c = good.clone();
    c.diode_count = 1;
    assert!(!c.is_well_formed(), "a diode that is not listed");
    let mut c = good.clone();
    c.relay_node_indices.push(0);
    assert!(!c.is_well_formed(), "a terminal without a relay");
    let mut c = good.clone();
    c.node_index.remove(&2);
    assert!(!c.is_well_formed(), "a row without a node");
    let mut c = lay_out(&transformer(true)).unwrap();
    assert!(c.is_well_formed());
    c.inductor_branch_rows[0] = 0;
    assert!(!c.is_well_formed(), "a branch in the row of a node");
    let mut c = good.clone();
    c.inductor_coupling_pairs.push(CouplingPair { i: 0, j: 0, mutual: f(1.0) });
    assert!(!c.is_well_formed(), "a coupling without inductors");
    let mut c = good;
    c.size = usize::MAX;
    assert!(!c.is_well_formed(), "a matrix that cannot be indexed");
}

#[test]
fn ping_round_trip() {
    assert_eq!(ping(f(41.0)), f(42.0));
}

#[test]
fn simulator_rc_through_wasm_layer() {
    let k = bench();
    let mut sim: Simulator<F64, Marks> = Simulator::new(0);
    sim.add_voltage_source("V1".to_string(), 1, 0, f(5.0));
    sim.add_resistor("R1".to_string(), 1, 2, f(1_000.0));
    sim.add_capacitor("C1".to_string(), 2, 0, f(1e-6), f(0.0));
    assert!(sim.compile(&k));
    assert_eq!(sim.node_count(), 2);
    for _ in 0..1_000 {
        let r = sim.step(f(1e-6), &k);
        assert!(r.ok, "step failed: issue={}", r.issue);
    }
    let v = sim.node_voltage(2).0;
    assert!((v - 3.16).abs() < 0.05, "expected ~3.16 V after one time constant, got {}", v);
    assert_eq!(sim.node_voltage(0), f(0.0));
    assert_eq!(sim.node_voltage(999), f(0.0));
}

#[test]
fn state_preserved_across_rebuild() {
    let k = bench();
    let build_sim = |r_ohms: f64| {
        let mut sim: Simulator<F64, Marks> = Simulator::new(0);
        sim.add_voltage_source("V1".to_string(), 1, 0, f(5.0));
        sim.add_resistor("R1".to_string(), 1, 2, f(r_ohms));
        sim.add_capacitor("C1".to_string(), 2, 0, f(1e-6), f(0.0));
        assert!(sim.compile(&k));
        sim
    };
    let mut sim_a = build_sim(1_000.0);
    for _ in 0..500 {
        assert!(sim_a.step(f(1e-6), &k).ok);
    }
    let v_mid = sim_a.node_voltage(2).0;
    assert!((v_mid - 1.97).abs() < 0.05, "midpoint V_cap = {}", v_mid);

    let node_volts = sim_a.export_node_volts();
    let prev_node_volts = sim_a.export_prev_node_volts();
    let cap_volts = sim_a.export_cap_volts();
    let prev_cap_volts = sim_a.export_prev_cap_volts();
    let inductor_currents = sim_a.export_inductor_currents();
    let prev_inductor_currents = sim_a.export_prev_inductor_currents();
    let tj_cap_volts = sim_a.export_tj_cap_volts();
    let relay_active = sim_a.export_relay_active();
    let gear2_ready = sim_a.export_gear2_ready();
    let prev_dt = sim_a.export_prev_dt();

    let mut sim_b = build_sim(2_000.0);
    sim_b.import_node_volts(node_volts);
    sim_b.import_prev_node_volts(prev_node_volts);
    sim_b.import_cap_volts(cap_volts);
    sim_b.import_prev_cap_volts(prev_cap_volts);
    sim_b.import_inductor_currents(inductor_currents);
    sim_b.import_prev_inductor_currents(prev_inductor_currents);
    sim_b.import_tj_cap_volts(tj_cap_volts);
    sim_b.import_relay_active(relay_active);
    sim_b.import_gear2_ready(gear2_ready);
    sim_b.import_prev_dt(prev_dt);

    let v_after_restore = sim_b.node_voltage(2).0;
    assert!(
        (v_after_restore - v_mid).abs() < 1e-9,
        "expected seamless continuation at {} V, got {} V",
        v_mid,
        v_after_restore,
    );
    for _ in 0..1_000 {
        assert!(sim_b.step(f(1e-6), &k).ok);
    }
    let v_final = sim_b.node_voltage(2).0;
    assert!(
        (v_final - 3.16).abs() < 0.1,
        "expected V = 3.16 V after pot turn + further charge, got {}",
        v_final
    );
}

#[test]
fn restored_simulator_steps_like_the_first() {
    let k = bench();
    let build = || {
        let mut sim: Simulator<F64, Marks> = Simulator::new(0);
        sim.add_voltage_source("V1".to_string(), 1, 0, f(5.0));
        sim.add_resistor("R1".to_string(), 1, 2, f(1_000.0));
        sim.add_capacitor("C1".to_string(), 2, 0, f(1e-6), f(0.0));
        sim.add_inductor("L1".to_string(), 2, 0, f(1.0), None, None, None);
        assert!(sim.compile(&k));
        sim
    };
    let mut a = build();
    for _ in 0..50 {
        assert!(a.step_with_gear(f(1e-5), 2, &k).ok);
    }
    let mut b = build();
    b.import_node_volts(a.export_node_volts());
    b.import_prev_node_volts(a.export_prev_node_volts());
    b.import_cap_volts(a.export_cap_volts());
    b.import_prev_cap_volts(a.export_prev_cap_volts());
    b.import_inductor_currents(a.export_inductor_currents());
    b.import_prev_inductor_currents(a.export_prev_inductor_currents());
    b.import_tj_cap_volts(a.export_tj_cap_volts());
    b.import_relay_active(a.export_relay_active());
    b.import_relay_toggled(a.export_relay_toggled());
    b.import_gear2_ready(a.export_gear2_ready());
    b.import_prev_dt(a.export_prev_dt());
    assert_eq!(a.step_with_gear(f(1e-5), 2, &k), b.step_with_gear(f(1e-5), 2, &k));
    assert_eq!(a.export_node_volts(), b.export_node_volts());
    assert_eq!(a.export_cap_volts(), b.export_cap_volts());
    assert_eq!(a.export_inductor_currents(), b.export_inductor_currents());
    assert_eq!(a.voltage_source_current("V1"), b.voltage_source_current("V1"));
}

#[test]
fn imports_of_another_length_are_ignored() {
    let k = bench();
    let mut sim: Simulator<F64, Marks> = Simulator::new(0);
    sim.import_node_volts(vec![f(1.0)]);
    sim.import_gear2_ready(true);
    sim.import_prev_dt(f(1.0));
    assert!(sim.export_node_volts().is_empty());
    assert!(sim.export_relay_active().is_empty());
    assert!(!sim.export_gear2_ready());
    assert_eq!(sim.export_prev_dt(), f(0.0));
    sim.add_voltage_source("V1".to_string(), 1, 0, f(9.0));
    sim.add_relay(
        "RL1".to_string(), 1, 0, 2, 3, 4, f(100.0), f(1.0), f(1e6), f(0.02), f(0.01),
    );
    assert!(sim.compile(&k));
    sim.import_node_volts(vec![f(1.0)]);
    assert_eq!(sim.export_node_volts(), vec![f(0.0); 4]);
    sim.import_node_volts(vec![f(1.0), f(2.0), f(3.0), f(4.0)]);
    assert_eq!(sim.node_voltage(3), f(3.0));
    sim.import_relay_active(vec![1, 1]);
    assert_eq!(sim.export_relay_active(), vec![0]);
    sim.import_relay_active(vec![7]);
    assert_eq!(sim.export_relay_active(), vec![1]);
    assert!(!sim.export_relay_toggled());
    sim.import_relay_toggled(true);
    assert!(sim.export_relay_toggled());
    sim.import_tj_cap_volts(vec![f(1.0)]);
    assert!(sim.export_tj_cap_volts().is_empty());
}

#[test]
fn currents_are_read_by_component() {
    let k = bench();
    let mut sim: Simulator<F64, Marks> = Simulator::new(0);
    sim.add_voltage_source("V1".to_string(), 1, 0, f(9.0));
    sim.add_resistor("R1".to_string(), 1, 2, f(100.0));
    sim.add_inductor("L1".to_string(), 2, 0, f(10e-3), None, None, Some(-1));
    assert_eq!(sim.voltage_source_current("V1"), f(0.0));
    assert_eq!(sim.inductor_current("L1"), f(0.0));
    assert!(!sim.solve_dc(&k));
    assert!(sim.compile(&k));
    assert!(sim.solve_dc(&k));
    assert!((sim.voltage_source_current("V1").0 + 0.09).abs() < 1e-7);
    assert!((sim.inductor_current("L1").0 - 0.09).abs() < 1e-7);
    assert_eq!(sim.voltage_source_current("L1"), f(0.0));
    assert_eq!(sim.inductor_current("nobody"), f(0.0));
}

#[test]
fn adding_drops_what_was_compiled() {
    let k = bench();
    let mut sim: Simulator<F64, Marks> = Simulator::new(7);
    assert!(!sim.compile(&k), "nothing but ground");
    assert_eq!(sim.step(f(1e-6), &k), StepResult { ok: false, iters: 0, issue: 3 });
    sim.add_voltage_source("V1".to_string(), 1, 7, f(1.0));
    sim.add_resistor("R1".to_string(), 1, 7, f(1.0));
    assert!(sim.compile(&k));
    assert_eq!(sim.step(f(1e-6), &k), StepResult { ok: true, iters: 1, issue: 0 });
    assert_eq!(sim.node_voltage(1), f(1.0));
    assert_eq!(sim.node_voltage(7), f(0.0));
    sim.add_diode("D1".to_string(), 1, 7, &Diode::zener(f(1e-14), f(1.0), f(5.0), None));
    assert_eq!(sim.node_voltage(1), f(0.0));
    assert_eq!(sim.node_count(), 0);
    assert_eq!(sim.step(f(1e-6), &k).issue, 3);
    assert!(sim.compile(&k));
    assert_eq!(sim.step(f(0.0), &k), StepResult { ok: false, iters: 0, issue: 3 });
    assert!(sim.step_with_gear(f(1e-6), 2, &k).ok);
}

#[test]
fn failures_have_numbers() {
    let mut k = bench();
    let mut sim: Simulator<F64, Marks> = Simulator::new(0);
    sim.add_voltage_source("V1".to_string(), 1, 0, f(1.0));
    sim.add_coupling("K".to_string(), "core".to_string(), f(0.5));
    assert!(sim.compile(&k));
    sim.import_node_volts(vec![f(f64::NAN)]);
    assert_eq!(sim.step(f(1e-6), &k), StepResult { ok: false, iters: 0, issue: 2 });
    k.sparse_fails = true;
    k.dense_fails = true;
    assert_eq!(sim.step(f(1e-6), &k), StepResult { ok: false, iters: 0, issue: 1 });
    assert_eq!(sim.step(f(-1.0), &k), StepResult { ok: false, iters: 0, issue: 3 });
}

fn assert_symmetric(sys: &System<F64>) {
    for r in 0..sys.size {
        for c in 0..sys.size {
            assert_eq!(sys.matrix[r * sys.size + c], sys.matrix[c * sys.size + r]);
        }
    }
}

#[test]
fn coupled_inductors_make_a_symmetric_matrix() {
    let c = lay_out(&transformer(true)).unwrap();
    let s = TransientState::new(&c);
    for gear2 in [false, true] {
        let sys = step_system(&c, &s, f(1e-6), gear2);
        assert_symmetric(&sys);
        // The mutual entry is -M/dt, or -3M/(2 dt).
        let m = 0.9 * 1e-3 / 1e-6;
        let expected = if gear2 { -1.5 * m } else { -m };
        let (i, j) = (c.inductor_branch_rows[0], c.inductor_branch_rows[1]);
        assert!((sys.matrix[i * c.size + j].0 - expected).abs() < 1e-9);
    }
}

#[test]
fn relays_make_a_symmetric_matrix() {
    let c = lay_out(&relay_circuit()).unwrap();
    for active in [false, true] {
        let mut sys: System<F64> = System::blank(c.size);
        stamp_relays(&mut sys, &c, &vec![active]);
        assert_symmetric(&sys);
        let common = *c.node_index.get(&3).unwrap();
        let open = *c.node_index.get(&5).unwrap();
        let expected = if active { -1.0 } else { -1e-6 };
        assert_eq!(sys.matrix[common * c.size + open].0, expected);
    }
}

#[test]
fn relays_settle_at_once() {
    let c = lay_out(&relay_circuit()).unwrap();
    let coil = *c.node_index.get(&2).unwrap();
    for start in [false, true] {
        for volts in [0.0, 0.5, 1.0, 1.5, 2.0, 2.5, -2.5, 9.0] {
            let mut est = vec![f(0.0); c.size];
            est[coil] = f(volts);
            let mut active = vec![start];
            update_relay_states(&c, &mut active, &est);
            let once = active.clone();
            update_relay_states(&c, &mut active, &est);
            assert_eq!(active, once);
            // Thresholds are 2 V and 1 V, whichever way the current flows.
            if volts.abs() > 2.0 {
                assert!(once[0]);
            } else if volts.abs() < 1.0 {
                assert!(!once[0]);
            } else {
                assert_eq!(once[0], start);
            }
        }
    }
}

#[test]
fn relay_flips_within_a_step() {
    // The coil sees 9 V at once; the step starts at rest and ends energised.
    let k = bench();
    let c = lay_out(&relay_circuit()).unwrap();
    let mut s = TransientState::new(&c);
    for v in s.node_volts.iter_mut() {
        *v = f(4.0);
    }
    let iters = step(&c, &mut s, f(1e-3), &k).unwrap();
    assert!(iters <= 3);
    assert!(s.relay_active[0]);
}

#[test]
fn compiling_again_starts_over() {
    let k = bench();
    let mut sim: Simulator<F64, Marks> = Simulator::new(0);
    sim.add_voltage_source("V1".to_string(), 1, 0, f(1.0));
    sim.add_resistor("R1".to_string(), 1, 0, f(1.0));
    assert!(sim.compile(&k));
    assert!(sim.step(f(1e-6), &k).ok);
    assert!(sim.export_gear2_ready());
    assert_eq!(sim.export_prev_dt(), f(1e-6));
    assert!(sim.compile(&k));
    assert!(!sim.export_gear2_ready());
    assert_eq!(sim.export_node_volts(), vec![f(0.0)]);
}

#[test]
fn carry_over_takes_the_state() {
    let k = bench();
    let build = |r_ohms: f64| {
        let mut sim: Simulator<F64, Marks> = Simulator::new(0);
        sim.add_voltage_source("V1".to_string(), 1, 0, f(5.0));
        sim.add_resistor("R1".to_string(), 1, 2, f(r_ohms));
        sim.add_capacitor("C1".to_string(), 2, 0, f(1e-6), f(0.0));
        assert!(sim.compile(&k));
        sim
    };
    let mut a = build(1_000.0);
    for _ in 0..100 {
        assert!(a.step(f(1e-5), &k).ok);
    }
    let mut b = build(2_000.0);
    b.carry_over(&a);
    assert_eq!(b.node_voltage(2), a.node_voltage(2));
    assert_eq!(b.export_cap_volts(), a.export_cap_volts());
    assert_eq!(b.export_prev_node_volts(), a.export_prev_node_volts());
    assert_eq!(b.export_gear2_ready(), true);
    assert_eq!(b.export_prev_dt(), f(1e-5));
    // The source currents stay behind.
    assert_eq!(b.voltage_source_current("V1"), f(0.0));
    // From a simulator without circuit only the record of a step goes.
    b.carry_over(&Simulator::new(0));
    assert_eq!(b.node_voltage(2), a.node_voltage(2));
    assert_eq!(b.export_gear2_ready(), false);
}

#[test]
fn committed_voltages_agree() {
    let k = bench();
    let mut nl = rc();
    nl.push(capacitor("C2", 1, 2, 2e-6, 3.0));
    let c = lay_out(&nl).unwrap();
    let mut s = TransientState::new(&c);
    for _ in 0..20 {
        step(&c, &mut s, f(1e-4), &k).unwrap();
        assert_eq!(s.cap_volts[0].0, at(&c, &s, 2));
        assert_eq!(s.cap_volts[1].0, at(&c, &s, 1) - at(&c, &s, 2));
    }
    solve_dc(&c, &mut s, &k).unwrap();
    assert_eq!(s.cap_volts[1].0, at(&c, &s, 1) - at(&c, &s, 2));
}

#[test]
fn simulations_are_reproducible() {
    let run = || {
        let k = bench();
        let mut nl = relay_circuit();
        nl.push(resistor("R9", 1, 9, 470.0));
        nl.push(Element::Diode {
            id: "D1".to_string(),
            anode: 9,
            cathode: 0,
            params: Diode::shockley(F64(1e-14), F64(1.0)),
        });
        let c = lay_out(&nl).unwrap();
        let mut s = TransientState::new(&c);
        let dc = solve_dc(&c, &mut s, &k).unwrap();
        let mut iters = vec![dc];
        for _ in 0..50 {
            iters.push(step(&c, &mut s, f(1e-6), &k).unwrap());
        }
        (iters, s.node_volts, s.relay_active)
    };
    assert_eq!(run(), run());
}

#[test]
fn common_emitter_bjt_dc_via_solve_dc() {
    let k = Bench { exponential: true, ..bench() };
    let mut nl = Netlist::new(0);
    nl.push(source("VCC", 1, 0, 12.0));
    nl.push(resistor("R1", 1, 2, 47_000.0));
    nl.push(resistor("R2", 2, 0, 10_000.0));
    nl.push(resistor("RC", 1, 3, 1_000.0));
    nl.push(resistor("RE", 4, 0, 1_000.0));
    nl.push(Element::Transistor {
        id: "Q1".to_string(),
        base: 2,
        collector: 3,
        emitter: 4,
        params: Transistor::new(
            true,
            f(200.0),
            f(6.734e-15),
            f(1.0),
            f(74.03),
            f(0.0),
            f(0.0),
            None,
            None,
            None,
            None,
            None,
            None,
            None,
            None,
            None,
            None,
            None,
        ),
    });
    let compiled = lay_out(&nl).unwrap();
    let mut state = TransientState::new(&compiled);
    let iters = match solve_dc(&compiled, &mut state, &k) {
        Ok(iters) => iters,
        Err(e) => panic!("DC solve failed: {:?}", e),
    };
    assert!(iters >= 1);
    let vb = at(&compiled, &state, 2);
    let ve = at(&compiled, &state, 4);
    let vc = at(&compiled, &state, 3);
    assert!((vb - 2.054).abs() < 1.5e-1, "Vb = {}", vb);
    assert!((ve - 1.487).abs() < 1.5e-1, "Ve = {}", ve);
    assert!((vc - 10.51).abs() < 1.5e-1, "Vc = {}", vc);
    assert!(!state.gear2_ready);
}

#[test]
fn every_solve_follows_the_pattern_of_its_layout() {
    // One kernel serves two circuits in turn: each is factored by its own pattern.
    let k = bench();
    let mut divider: Simulator<F64, Marks> = Simulator::new(0);
    divider.add_voltage_source("V1".to_string(), 1, 0, f(2.0));
    divider.add_resistor("R1".to_string(), 1, 2, f(10.0));
    divider.add_resistor("R2".to_string(), 2, 0, f(10.0));
    let mut load: Simulator<F64, Marks> = Simulator::new(0);
    load.add_voltage_source("V1".to_string(), 1, 0, f(2.0));
    load.add_resistor("R1".to_string(), 1, 0, f(10.0));
    assert!(divider.compile(&k));
    assert!(load.compile(&k));

    let t = true;
    let o = false;
    let divider_marks = Marks(vec![t, t, t, t, t, o, t, o, o]);
    let load_marks = Marks(vec![t, t, t, o]);
    assert!(divider.step(f(1e-6), &k).ok);
    assert!(k.patterns.borrow().iter().all(|p| *p == divider_marks));
    assert!(!k.patterns.borrow().is_empty());
    k.patterns.borrow_mut().clear();
    assert!(load.step(f(1e-6), &k).ok);
    assert!(k.patterns.borrow().iter().all(|p| *p == load_marks));
    assert!(!k.patterns.borrow().is_empty());
    k.patterns.borrow_mut().clear();
    assert!(divider.solve_dc(&k));
    assert!(k.patterns.borrow().iter().all(|p| *p == divider_marks));
    assert!(!k.patterns.borrow().is_empty());
    assert!((divider.node_voltage(2).0 - 1.0).abs() < 1e-6);
}

#[test]
fn flags_beyond_the_last_relay_are_left_alone() {
    let c = lay_out(&relay_circuit()).unwrap();
    let mut est = vec![f(0.0); c.n];
    est[*c.node_index.get(&2).unwrap()] = f(8.9);
    let mut flags = vec![false, true, false];
    update_relay_states(&c, &mut flags, &est);
    assert_eq!(flags, vec![true, true, false]);
    est[*c.node_index.get(&2).unwrap()] = f(-8.9);
    let mut mirrored = vec![false, true, false];
    update_relay_states(&c, &mut mirrored, &est);
    assert_eq!(mirrored, flags);

    // Stamping reads one flag per relay and no more.
    let mut exact = System::blank(c.size);
    stamp_relays(&mut exact, &c, &vec![true]);
    let mut longer = System::blank(c.size);
    stamp_relays(&mut longer, &c, &vec![true, false, true]);
    assert_eq!(exact.matrix, longer.matrix);
}

#[test]
fn the_whole_state_is_read_and_set_back() {
    let k = bench();
    let mut sim: Simulator<F64, Marks> = Simulator::new(0);
    assert!(sim.get_full_state().is_none());
    for e in rc().elements {
        match e {
            Element::VoltageSource { id, positive_node, negative_node, voltage } => {
                sim.add_voltage_source(id, positive_node, negative_node, voltage);
            }
            Element::Resistor { id, a, b, resistance_ohms } => {
                sim.add_resistor(id, a, b, resistance_ohms);
            }
            Element::Capacitor { id, a, b, capacitance_farads, initial_voltage } => {
                sim.add_capacitor(id, a, b, capacitance_farads, initial_voltage);
            }
            _ => unreachable!(),
        }
    }
    assert!(sim.compile(&k));
    for _ in 0..10 {
        assert!(sim.step_with_gear(f(1e-5), 2, &k).ok);
    }
    let saved = sim.get_full_state().unwrap();
    // The older history and the source currents are there too.
    assert!(saved.prev2_node_volts[1].0 > 0.0);
    assert!(saved.prev2_node_volts[1].0 < saved.prev_node_volts[1].0);
    assert!(saved.prev2_cap_volts[0].0 < saved.prev_cap_volts[0].0);
    assert!(saved.voltage_source_currents[0].0 < 0.0);
    assert_eq!(saved.prev_dt, f(1e-5));
    let v_saved = sim.node_voltage(2);

    assert!(sim.step_with_gear(f(1e-5), 2, &k).ok);
    let v_next = sim.node_voltage(2);
    let i_next = sim.voltage_source_current("V1");
    assert!(v_next.0 > v_saved.0);

    assert!(sim.set_full_state(saved.clone()));
    assert_eq!(sim.node_voltage(2), v_saved);
    let again = sim.get_full_state().unwrap();
    assert_eq!(again.prev2_node_volts, saved.prev2_node_volts);
    assert_eq!(again.voltage_source_currents, saved.voltage_source_currents);
    assert!(sim.step_with_gear(f(1e-5), 2, &k).ok);
    assert_eq!(sim.node_voltage(2), v_next);
    assert_eq!(sim.voltage_source_current("V1"), i_next);

    // A state of other dimensions changes nothing.
    let mut wrong = saved.clone();
    wrong.relay_active = vec![true];
    assert!(!sim.set_full_state(wrong));
    assert_eq!(sim.node_voltage(2), v_next);
    // Nor does any state before compiling.
    let mut empty: Simulator<F64, Marks> = Simulator::new(0);
    assert!(!empty.set_full_state(saved));
    assert!(empty.get_full_state().is_none());
}
