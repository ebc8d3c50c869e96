//! The parts that circuits are simulated with.

use rust_e_sim::elimination::{edge_pairs, minimum_degree_order};
use rust_e_sim::equations::{
    stamp_bjt, stamp_diode, stamp_two_node_cap, stamp_two_node_conductance, System,
};
use rust_e_sim::fixed::{Fixed, SCALE};
use rust_e_sim::netlist::{Element, Netlist};
use rust_e_sim::newton::{are_finite, peak_of, total_iterations};
use rust_e_sim::number::Number;
use rust_e_sim::relays::node_potential;
use rust_e_sim::transient::{Gear, StepConfig};
use rust_e_sim::types::{Diode, DiodeStamp, Polarity, Transistor, TransistorStamp};

fn whole(n: i64) -> Fixed {
    Fixed { raw: n * SCALE }
}

fn entries(rows: &[i64]) -> Vec<Fixed> {
    rows.iter().map(|n| whole(*n)).collect()
}

#[test]
fn element_nodes_returns_correct_nodes() {
    let r = Element::Resistor { id: "R1".to_string(), a: 1, b: 2, resistance_ohms: 1000.0 };
    assert_eq!(r.nodes(), vec![1, 2]);

    let q = Element::Transistor {
        id: "Q1".to_string(),
        base: 3,
        collector: 4,
        emitter: 5,
        params: Transistor::new(
            true, 200.0, 1e-14, 1.0, 100.0, 0.0, 0.0, None, None, None, None, None, None, None,
            None, None, None, None,
        ),
    };
    assert_eq!(q.nodes(), vec![3, 4, 5]);
}

#[test]
fn netlist_builds_correctly() {
    let mut n = Netlist::new(0);
    n.push(Element::Resistor { id: "R1".to_string(), a: 1, b: 0, resistance_ohms: 1e3 });
    n.push(Element::Capacitor {
        id: "C1".to_string(),
        a: 1,
        b: 0,
        capacitance_farads: 1e-6,
        initial_voltage: 0.0,
    });
    assert_eq!(n.elements.len(), 2);
    assert_eq!(n.ground_node_id, 0);
    assert_eq!(n.elements[0].id(), "R1");
}

#[test]
fn every_element_names_itself_and_its_nodes() {
    let mut n: Netlist<f64> = Netlist::new(3);
    n.push(Element::Inductor {
        id: "L".to_string(),
        a: 1,
        b: 2,
        inductance_henry: 1.0,
        saturation_current_a: None,
        coupling_group: None,
        coupling_polarity: -1,
    })
    .push(Element::VoltageSource {
        id: "V".to_string(),
        positive_node: 4,
        negative_node: 5,
        voltage: 1.0,
    })
    .push(Element::Diode {
        id: "D".to_string(),
        anode: 6,
        cathode: 7,
        params: Diode::shockley(1e-14, 1.0),
    })
    .push(Element::Coupling { id: "K".to_string(), coupling_group: "g".to_string(), k: 0.5 })
    .push(Element::Relay {
        id: "X".to_string(),
        coil_positive: 1,
        coil_negative: 2,
        common: 3,
        normally_closed: 4,
        normally_open: 5,
        coil_resistance_ohms: 1.0,
        ron_ohms: 1.0,
        roff_ohms: 1.0,
        on_current: 1.0,
        off_current: 1.0,
    });
    let names: Vec<&str> = n.elements.iter().map(|e| e.id()).collect();
    assert_eq!(names, vec!["L", "V", "D", "K", "X"]);
    let nodes: Vec<Vec<u32>> = n.elements.iter().map(|e| e.nodes()).collect();
    assert_eq!(
        nodes,
        vec![vec![1, 2], vec![4, 5], vec![6, 7], vec![], vec![1, 2, 3, 4, 5]]
    );
}

#[test]
fn device_parameters() {
    let d = Diode::zener(1e-14, 1.0, 5.6, Some(2e-3));
    assert_eq!(d.bv, Some(5.6));
    assert_eq!(d.ibv, Some(2e-3));
    assert_eq!(Diode::zener(1e-14, 1.0, 5.6, None).ibv, None);
    assert_eq!(Diode::shockley(1e-14, 1.5).bv, None);
    assert_eq!(Diode::shockley(1e-14, 1.5).n, 1.5);
    let q = Transistor::new(
        false, 1.0, 2.0, 3.0, 4.0, 5.0, 6.0, Some(7.0), Some(8.0), Some(9.0), Some(10.0),
        Some(11.0), Some(12.0), Some(13.0), Some(14.0), Some(15.0), Some(16.0), Some(17.0),
    );
    assert_eq!(q.polarity, Polarity::Pnp);
    assert_eq!((q.beta, q.is_sat, q.nf, q.vaf), (1.0, 2.0, 3.0, 4.0));
    assert_eq!((q.cje_farads, q.cjc_farads), (5.0, 6.0));
    assert_eq!((q.br, q.nr, q.var_, q.ikf), (Some(7.0), Some(8.0), Some(9.0), Some(10.0)));
    assert_eq!((q.ikr, q.ise, q.ne, q.isc), (Some(11.0), Some(12.0), Some(13.0), Some(14.0)));
    assert_eq!((q.nc, q.tf_seconds, q.tr_seconds), (Some(15.0), Some(16.0), Some(17.0)));
}

#[test]
fn stamp_readings() {
    let d = DiodeStamp { gd: 1.0, ieq: 2.0 };
    assert_eq!((d.gd(), d.ieq()), (1.0, 2.0));
    let s = TransistorStamp {
        g_be: 1.0,
        g_bc: 2.0,
        gm: 3.0,
        gmu: 4.0,
        gpi: 5.0,
        gmu_b: 6.0,
        i_eq_b: 7.0,
        i_eq_c: 8.0,
        i_eq_e: 9.0,
    };
    assert_eq!((s.g_be(), s.g_bc(), s.gm(), s.gmu(), s.gpi()), (1.0, 2.0, 3.0, 4.0, 5.0));
    assert_eq!((s.gmu_b(), s.i_eq_b(), s.i_eq_c(), s.i_eq_e()), (6.0, 7.0, 8.0, 9.0));
}

#[test]
fn conductance_between_nodes() {
    let mut sys: System<Fixed> = System::blank(2);
    stamp_two_node_conductance(&mut sys, 0, 1, whole(3));
    assert_eq!(sys.matrix, entries(&[3, -3, -3, 3]));
    stamp_two_node_conductance(&mut sys, 1, -1, whole(5));
    assert_eq!(sys.matrix, entries(&[3, -3, -3, 8]));
    stamp_two_node_conductance(&mut sys, -1, -1, whole(100));
    assert_eq!(sys.matrix, entries(&[3, -3, -3, 8]));
    assert_eq!(sys.rhs, entries(&[0, 0]));
}

#[test]
fn conductance_from_a_node_to_itself_cancels() {
    let mut sys: System<Fixed> = System::blank(1);
    stamp_two_node_conductance(&mut sys, 0, 0, whole(3));
    assert_eq!(sys.matrix, entries(&[0]));
}

#[test]
fn capacitor_and_diode_companions() {
    let mut sys: System<Fixed> = System::blank(2);
    stamp_two_node_cap(&mut sys, 0, 1, whole(2), whole(7));
    assert_eq!(sys.matrix, entries(&[2, -2, -2, 2]));
    assert_eq!(sys.rhs, entries(&[7, -7]));
    stamp_diode(&mut sys, 1, -1, &DiodeStamp { gd: whole(4), ieq: whole(1) });
    assert_eq!(sys.matrix, entries(&[2, -2, -2, 6]));
    assert_eq!(sys.rhs, entries(&[7, -8]));
}

#[test]
fn transistor_companion() {
    let s = TransistorStamp {
        g_be: whole(0),
        g_bc: whole(0),
        gm: whole(1),
        gmu: whole(2),
        gpi: whole(4),
        gmu_b: whole(8),
        i_eq_b: whole(10),
        i_eq_c: whole(20),
        i_eq_e: whole(-30),
    };
    let mut sys: System<Fixed> = System::blank(3);
    stamp_bjt(&mut sys, 0, 1, 2, &s);
    // Rows base, collector, emitter; every row sums to nothing, and so does every
    // column.
    assert_eq!(sys.matrix, entries(&[12, -8, -4, 3, -2, -1, -15, 10, 5]));
    assert_eq!(sys.rhs, entries(&[-10, -20, 30]));
    let mut grounded: System<Fixed> = System::blank(2);
    stamp_bjt(&mut grounded, 0, 1, -1, &s);
    assert_eq!(grounded.matrix, entries(&[12, -8, 3, -2]));
    assert_eq!(grounded.rhs, entries(&[-10, -20]));
    let mut twice: System<Fixed> = System::blank(1);
    stamp_bjt(&mut twice, 0, -1, -1, &s);
    assert_eq!(twice.matrix, entries(&[12]));
    assert_eq!(twice.rhs, entries(&[-10]));
}

#[test]
fn fixed_point_arithmetic() {
    let half = Fixed::decimal(5, 1);
    assert_eq!(half.raw, SCALE / 2);
    assert_eq!(Fixed::decimal(-15, 1).raw, -SCALE - SCALE / 2);
    assert_eq!(whole(3).plus(half).raw, 3 * SCALE + SCALE / 2);
    assert_eq!(whole(3).minus(whole(5)), whole(-2));
    assert_eq!(whole(3).times(half).raw, SCALE + SCALE / 2);
    assert_eq!(whole(-3).times(whole(-4)), whole(12));
    assert_eq!(whole(3).over(half), whole(6));
    assert_eq!(whole(1).over(whole(3)).raw, SCALE / 3);
    assert_eq!(whole(-1).over(whole(3)).raw, -(SCALE / 3));
    assert_eq!(half.negated().raw, -SCALE / 2);
    assert_eq!(whole(-7).abs(), whole(7));
    assert_eq!(whole(2).larger(whole(3)), whole(3));
    assert_eq!(whole(2).smaller(whole(3)), whole(2));
    assert!(whole(2).same(whole(2)) && !whole(2).same(whole(3)));
    assert!(whole(2).lt(whole(3)) && !whole(3).lt(whole(3)) && whole(3).le(whole(3)));
}

#[test]
fn fixed_point_saturates() {
    let top = Fixed::infinity();
    assert_eq!(top.raw, i64::MAX);
    assert!(!top.is_finite());
    assert!(whole(1).is_finite());
    let big = whole(2_000_000_000);
    assert_eq!(big.plus(big), top);
    assert_eq!(big.times(big), top);
    assert_eq!(big.times(big.negated()).raw, i64::MIN);
    assert!(!big.times(big.negated()).is_finite());
    assert_eq!(Fixed { raw: i64::MIN }.abs(), top);
    assert_eq!(Fixed { raw: i64::MIN }.negated(), top);
}

#[test]
fn budgets() {
    assert_eq!(total_iterations(0, 0, 0), 1);
    assert_eq!(total_iterations(0, 0, 2), 3);
    assert_eq!(total_iterations(0, 1, 2), 10);
    assert_eq!(total_iterations(3, 1, 2), 20);
}

#[test]
fn peaks_and_levels() {
    assert_eq!(peak_of(&entries(&[1, 4, 2])), whole(4));
    assert_eq!(peak_of(&entries(&[-1])), whole(0));
    assert!(are_finite(&entries(&[1, -1])));
    assert!(!are_finite(&vec![whole(1), Fixed::infinity()]));
    assert_eq!(node_potential(&entries(&[5, 6]), 1), whole(6));
    assert_eq!(node_potential(&entries(&[5, 6]), -1), whole(0));
}

#[test]
fn step_configurations() {
    let be = StepConfig::be(whole(1));
    assert_eq!((be.dt, be.gear, be.estimate_lte), (whole(1), Gear::Be, false));
    let bdf2 = StepConfig::bdf2(whole(2)).with_lte();
    assert_eq!((bdf2.dt, bdf2.gear, bdf2.estimate_lte), (whole(2), Gear::Bdf2, true));
}

/// Greedy minimum degree: the node with the fewest neighbours goes first, the
/// lowest number where several have as few, and its neighbours become connected.
fn greedy(n: usize, edges: Vec<(usize, usize)>) -> Vec<i32> {
    let mut linked = vec![vec![false; n]; n];
    for (i, j) in edges {
        if i != j && i < n && j < n {
            linked[i][j] = true;
            linked[j][i] = true;
        }
    }
    let mut left: Vec<usize> = (0..n).collect();
    let mut order = Vec::new();
    while !left.is_empty() {
        let degree = |i: usize| left.iter().filter(|j| linked[i][**j]).count();
        let next = *left.iter().min_by_key(|i| degree(**i)).unwrap();
        left.retain(|i| *i != next);
        for &i in &left {
            for &j in &left {
                if i != j && linked[next][i] && linked[next][j] {
                    linked[i][j] = true;
                }
            }
        }
        order.push(next as i32);
    }
    order
}

#[test]
fn md_flat_edges() {
    let order = minimum_degree_order(5, &[0, 1, 1, 2, 2, 3, 3, 4], greedy);
    assert_eq!(order[0], 0);
    assert_eq!(order[1], 1);
}

#[test]
fn flat_lists_are_paired_up() {
    assert_eq!(edge_pairs(6, &[0, 1, 1, 2]), vec![(0, 1), (1, 2)]);
    assert_eq!(edge_pairs(6, &[3, 4, 5]), vec![(3, 4)]);
    assert!(edge_pairs(6, &[]).is_empty());
}

#[test]
fn self_loops_and_numbers_out_of_range_are_filtered() {
    assert_eq!(edge_pairs(3, &[0, 1, 1, 1, 2, 3, -1, 0, 2, 1]), vec![(0, 1), (2, 1)]);
    assert!(edge_pairs(0, &[0, 1]).is_empty());
    assert_eq!(minimum_degree_order(2, &[-1, 0, 0, 0], greedy), vec![0, 1]);
    // What is filtered does not change the order.
    assert_eq!(
        minimum_degree_order(5, &[0, 1, 1, 2, 7, 7, 2, 3, 3, 4, -2, 4, 9], greedy),
        minimum_degree_order(5, &[0, 1, 1, 2, 2, 3, 3, 4], greedy),
    );
}
