//! Kirchhoff's laws for a whole circuit.
//!
//! In exact arithmetic, the system that a step or an operating-point solve hands to the
//! linear solver has in each row an excess that is the sum of what the elements draw
//! there.  A solution balances all of them.

use vstd::prelude::*;

use crate::companion::{
    companion, effective_inductance, gmin, static_equations, step_equations, with_capacitors,
    with_couplings, with_gmin, with_inductors, with_sources,
};
use crate::compiled::CompiledNetlist;
use crate::dc::{dc_equations, dc_solution, DcMoment};
use crate::equations::{cell, Equations};
use crate::fixed::power_of_ten;
use crate::kernel::{
    devices_stamped, diode_answers, diodes_stamped, linear_solution, solved, transistor_answers,
    transistors_stamped, Kernel, Storage,
};
use crate::laws::currents::{
    given, law_companion_is_a_derivative, law_diode_carries_current, law_relay_carries_current,
    law_stored_charge_flows_through_junctions, law_transistor_at_rest_carries_current, storing,
};
use crate::laws::exact::{
    exact, excess, law_add_in_exact, law_assign_in_exact, law_blank_in_exact, law_deduct_in_exact,
    law_feed_in_exact, lemma_prod_add, lemma_prod_assoc, lemma_prod_neg, lemma_prod_unit,
    lemma_quotient_is, lemma_raise, lemma_ratio_add, lemma_ratio_prod, level, only_in, outflow,
    prod, ratio,
};
use crate::laws::stamps::branches_distinct;
use crate::newton::Moment;
use crate::number::Number;
use crate::relays::relays_stamped;
use crate::state::TransientState;
use crate::transient::{iteration_solution, uses_gear2, Gear, StepConfig};
use crate::types::{DiodeStamp, TransistorStamp};

verus! {

/// Each capacitor is stamped at the two entries between its nodes, and at none where a
/// node is ground.
pub open spec fn capacitors_placed<T, P>(c: CompiledNetlist<T, P>) -> bool {
    forall|i: int|
        0 <= i < c.cap_count ==> {
            let a = c.cap_slot(i, 0) as int;
            let b = c.cap_slot(i, 1) as int;
            if a >= 0 && b >= 0 {
                #[trigger] c.cap_slot(i, 2) == cell(a, b, c.size as nat) && c.cap_slot(i, 3)
                    == cell(b, a, c.size as nat)
            } else {
                c.cap_slot(i, 2) < 0 && c.cap_slot(i, 3) < 0
            }
        }
}

/// The branch rows of the voltage sources follow the rows of the nodes, in the order of
/// the sources.
pub open spec fn sources_in_order<T, P>(c: CompiledNetlist<T, P>) -> bool {
    &&& c.voltage_source_branch_rows@.len() == c.m
    &&& forall|i: int|
        0 <= i < c.voltage_source_branch_rows@.len()
            ==> #[trigger] c.voltage_source_branch_rows@[i] == c.n + i
}

/// The regularising conductance goes to the diagonal entries of the rows `nodes`.
pub open spec fn regularised_at<T, P>(c: CompiledNetlist<T, P>, nodes: Seq<int>) -> bool {
    &&& nodes.len() == c.gmin_indices@.len()
    &&& forall|i: int|
        0 <= i < nodes.len() ==> 0 <= #[trigger] nodes[i] < c.size && c.gmin_indices@[i] == cell(
            nodes[i],
            nodes[i],
            c.size as nat,
        )
}

/// The layout is as its description says.
pub open spec fn regular<T, P>(c: CompiledNetlist<T, P>, nodes: Seq<int>) -> bool {
    &&& capacitors_placed(c)
    &&& sources_in_order(c)
    &&& regularised_at(c, nodes)
    &&& branches_distinct(c)
}

/// What an element of the given size makes of a change of its variable from `p`, before
/// that `q`, to `v`: size times rate of change.
pub open spec fn driven(gear2: bool, dt: real, size: real, v: real, p: real, q: real) -> real {
    if gear2 {
        ratio(prod(size, (3 as real) * v - (4 as real) * p + q), (2 as real) * dt)
    } else {
        ratio(prod(size, v - p), dt)
    }
}

/// The currents through the first `k` static stamps, as row `r` sees them.
pub open spec fn static_currents<T, P>(
    val: spec_fn(T) -> real,
    c: CompiledNetlist<T, P>,
    x: Seq<T>,
    r: int,
    k: nat,
) -> real
    decreases k,
{
    if k == 0 {
        0 as real
    } else {
        let stamp = c.static_stamps@[k - 1];
        static_currents(val, c, x, r, (k - 1) as nat) + only_in(
            r,
            stamp.row as int,
            prod(val(stamp.value), val(x[stamp.col as int])),
        )
    }
}

/// The currents to ground through a conductance `g` at each of the first `k` nodes.
pub open spec fn leaks<T>(
    val: spec_fn(T) -> real,
    nodes: Seq<int>,
    g: real,
    x: Seq<T>,
    r: int,
    k: nat,
) -> real
    decreases k,
{
    if k == 0 {
        0 as real
    } else {
        leaks(val, nodes, g, x, r, (k - 1) as nat) + only_in(
            r,
            nodes[k - 1],
            prod(g, val(x[nodes[k - 1]])),
        )
    }
}

/// The voltage of the source whose row `r` is, among the first `k`.
pub open spec fn source_voltages<T, P>(
    val: spec_fn(T) -> real,
    c: CompiledNetlist<T, P>,
    r: int,
    k: nat,
) -> real
    decreases k,
{
    if k == 0 {
        0 as real
    } else {
        source_voltages(val, c, r, (k - 1) as nat) + only_in(
            r,
            c.n + (k - 1),
            val(c.voltage_source_values@[k - 1]),
        )
    }
}

/// The currents through the first `k` capacitors: `C dV/dt` from node to node.
pub open spec fn capacitor_currents<T: Number, P>(
    val: spec_fn(T) -> real,
    c: CompiledNetlist<T, P>,
    s: TransientState<T>,
    dt: T,
    gear2: bool,
    x: Seq<T>,
    r: int,
    k: nat,
) -> real
    decreases k,
{
    if k == 0 {
        0 as real
    } else {
        let i = k - 1;
        let a = c.cap_slot(i, 0) as int;
        let b = c.cap_slot(i, 1) as int;
        capacitor_currents(val, c, s, dt, gear2, x, r, i as nat) + outflow(
            r,
            a,
            b,
            driven(
                gear2,
                val(dt),
                val(c.element(c.capacitor_indices@, i)->capacitance_farads),
                level(val, x, a) - level(val, x, b),
                val(s.cap_volts@[i]),
                val(s.prev_cap_volts@[i]),
            ),
        )
    }
}

/// The voltages that the first `k` inductors induce in their own branches: `L dI/dt`.
pub open spec fn inductor_voltages<T: Number, P>(
    val: spec_fn(T) -> real,
    c: CompiledNetlist<T, P>,
    s: TransientState<T>,
    dt: T,
    gear2: bool,
    x: Seq<T>,
    r: int,
    k: nat,
) -> real
    decreases k,
{
    if k == 0 {
        0 as real
    } else {
        let i = k - 1;
        let inductor = c.element(c.inductor_indices@, i);
        let row = c.inductor_branch_rows@[i] as int;
        inductor_voltages(val, c, s, dt, gear2, x, r, i as nat) + only_in(
            r,
            row,
            driven(
                gear2,
                val(dt),
                val(
                    effective_inductance(
                        inductor->inductance_henry,
                        inductor->saturation_current_a,
                        s.inductor_currents@[i],
                    ),
                ),
                val(x[row]),
                val(s.inductor_currents@[i]),
                val(s.prev_inductor_currents@[i]),
            ),
        )
    }
}

/// The voltages that the first `k` couplings induce: `M dI/dt` of the one inductor in
/// the branch of the other.
pub open spec fn mutual_voltages<T: Number, P>(
    val: spec_fn(T) -> real,
    c: CompiledNetlist<T, P>,
    s: TransientState<T>,
    dt: T,
    gear2: bool,
    x: Seq<T>,
    r: int,
    k: nat,
) -> real
    decreases k,
{
    if k == 0 {
        0 as real
    } else {
        let pair = c.inductor_coupling_pairs@[k - 1];
        mutual_voltages(val, c, s, dt, gear2, x, r, (k - 1) as nat) + only_in(
            r,
            c.inductor_branch_rows@[pair.i as int] as int,
            driven(
                gear2,
                val(dt),
                val(pair.mutual),
                val(x[c.inductor_branch_rows@[pair.j as int] as int]),
                val(s.inductor_currents@[pair.j as int]),
                val(s.prev_inductor_currents@[pair.j as int]),
            ),
        )
    }
}

/// The currents through the first `k` transistors: conduction, and with storage the
/// charge of the junctions.
pub open spec fn transistor_currents<T: Number, P>(
    val: spec_fn(T) -> real,
    c: CompiledNetlist<T, P>,
    stamps: Seq<TransistorStamp<T>>,
    storage: Option<Storage<T>>,
    x: Seq<T>,
    r: int,
    k: nat,
) -> real
    decreases k,
{
    if k == 0 {
        0 as real
    } else {
        let i = k - 1;
        let s = stamps[i];
        let q = c.element(c.transistor_indices@, i)->Transistor_params;
        let base = c.transistor_node(i, 0) as int;
        let collector = c.transistor_node(i, 1) as int;
        let emitter = c.transistor_node(i, 2) as int;
        let vbe = level(val, x, base) - level(val, x, emitter);
        let vbc = level(val, x, base) - level(val, x, collector);
        let ib = prod(val(s.gpi), vbe) + prod(val(s.gmu_b), vbc);
        let ic = prod(val(s.gm), vbe) + prod(val(s.gmu), vbc);
        let cbe = storing(val(q.cje_farads) + prod(given(val, q.tf_seconds), val(s.gm)));
        let cbc = storing(val(q.cjc_farads) + prod(given(val, q.tr_seconds), val(s.gmu_b)));
        transistor_currents(val, c, stamps, storage, x, r, i as nat) + only_in(
            r,
            base,
            ib + val(s.i_eq_b),
        ) + only_in(r, collector, ic + val(s.i_eq_c)) + only_in(
            r,
            emitter,
            val(s.i_eq_e) - ib - ic,
        ) + (match storage {
            None => 0 as real,
            Some(storage) => outflow(
                r,
                base,
                emitter,
                ratio(prod(cbe, vbe - val(storage.tj_cap_volts[2 * i])), val(storage.dt)),
            ) + outflow(
                r,
                base,
                collector,
                ratio(prod(cbc, vbc - val(storage.tj_cap_volts[2 * i + 1])), val(storage.dt)),
            ),
        })
    }
}

/// The currents through the first `k` diodes, from anode to cathode.
pub open spec fn diode_currents<T: Number, P>(
    val: spec_fn(T) -> real,
    c: CompiledNetlist<T, P>,
    stamps: Seq<DiodeStamp<T>>,
    x: Seq<T>,
    r: int,
    k: nat,
) -> real
    decreases k,
{
    if k == 0 {
        0 as real
    } else {
        let anode = c.diode_node(k - 1, 0) as int;
        let cathode = c.diode_node(k - 1, 1) as int;
        let s = stamps[k - 1];
        diode_currents(val, c, stamps, x, r, (k - 1) as nat) + outflow(
            r,
            anode,
            cathode,
            prod(val(s.gd), level(val, x, anode) - level(val, x, cathode)) + val(s.ieq),
        )
    }
}

/// The currents through the coils and contacts of the first `k` relays.
pub open spec fn relay_currents<T: Number, P>(
    val: spec_fn(T) -> real,
    c: CompiledNetlist<T, P>,
    active: Seq<bool>,
    x: Seq<T>,
    r: int,
    k: nat,
) -> real
    decreases k,
{
    if k == 0 {
        0 as real
    } else {
        let i = k - 1;
        let relay = c.element(c.relay_indices@, i);
        let plus = c.relay_node(i, 0) as int;
        let minus = c.relay_node(i, 1) as int;
        let common = c.relay_node(i, 2) as int;
        let nc = c.relay_node(i, 3) as int;
        let no = c.relay_node(i, 4) as int;
        let (nc_ohms, no_ohms) = if active[i] {
            (val(relay->roff_ohms), val(relay->ron_ohms))
        } else {
            (val(relay->ron_ohms), val(relay->roff_ohms))
        };
        relay_currents(val, c, active, x, r, i as nat) + outflow(
            r,
            plus,
            minus,
            ratio(
                level(val, x, plus) - level(val, x, minus),
                val(relay->coil_resistance_ohms),
            ),
        ) + outflow(r, common, nc, ratio(level(val, x, common) - level(val, x, nc), nc_ohms))
            + outflow(r, common, no, ratio(level(val, x, common) - level(val, x, no), no_ohms))
    }
}

/// No coil and no contact of a relay has a resistance of 0.
pub open spec fn relays_resist<T, P>(val: spec_fn(T) -> real, c: CompiledNetlist<T, P>) -> bool {
    forall|i: int|
        0 <= i < c.relay_count ==> val(
            (#[trigger] c.element(c.relay_indices@, i))->coil_resistance_ohms,
        ) != 0 as real && val(c.element(c.relay_indices@, i)->ron_ohms) != 0 as real && val(
            c.element(c.relay_indices@, i)->roff_ohms,
        ) != 0 as real
}

proof fn lemma_static<T: Number, P>(
    val: spec_fn(T) -> real,
    c: CompiledNetlist<T, P>,
    x: Seq<T>,
    r: int,
    k: nat,
)
    requires
        exact(val),
        c.wf(),
        k <= c.static_stamps@.len(),
        0 <= r < c.size,
    ensures
        static_equations(c, k).wf(),
        static_equations(c, k).size == c.size,
        static_equations(c, k).rhs == Equations::<T>::blank(c.size as nat).rhs,
        excess(val, static_equations(c, k), x, r) == static_currents(val, c, x, r, k),
    decreases k,
{
    if k == 0 {
        law_blank_in_exact(val, c.size as nat, x, r);
    } else {
        lemma_static(val, c, x, r, (k - 1) as nat);
        let stamp = c.static_stamps@[k - 1];
        law_add_in_exact(
            val,
            static_equations(c, (k - 1) as nat),
            x,
            stamp.row as int,
            stamp.col as int,
            stamp.value,
            r,
        );
    }
}

proof fn lemma_leaks<T: Number, P>(
    val: spec_fn(T) -> real,
    e: Equations<T>,
    c: CompiledNetlist<T, P>,
    nodes: Seq<int>,
    g: T,
    x: Seq<T>,
    r: int,
    k: nat,
)
    requires
        exact(val),
        e.wf(),
        e.size == c.size,
        regularised_at(c, nodes),
        k <= nodes.len(),
        0 <= r < c.size,
    ensures
        with_gmin(e, c.gmin_indices@, g, k).wf(),
        with_gmin(e, c.gmin_indices@, g, k).size == e.size,
        with_gmin(e, c.gmin_indices@, g, k).rhs == e.rhs,
        excess(val, with_gmin(e, c.gmin_indices@, g, k), x, r) == excess(val, e, x, r) + leaks(
            val,
            nodes,
            val(g),
            x,
            r,
            k,
        ),
    decreases k,
{
    if k > 0 {
        lemma_leaks(val, e, c, nodes, g, x, r, (k - 1) as nat);
        let node = nodes[k - 1];
        lemma_raise(
            val,
            with_gmin(e, c.gmin_indices@, g, (k - 1) as nat),
            x,
            node,
            node,
            g,
            r,
        );
    }
}

proof fn lemma_sources<T: Number, P>(
    val: spec_fn(T) -> real,
    e: Equations<T>,
    c: CompiledNetlist<T, P>,
    x: Seq<T>,
    r: int,
    k: nat,
)
    requires
        exact(val),
        e.wf(),
        e.size == c.size,
        c.wf(),
        sources_in_order(c),
        k <= c.voltage_source_branch_rows@.len(),
        0 <= r < c.size,
        forall|row: int| 0 <= row < c.size ==> val(#[trigger] e.rhs[row]) == 0 as real,
    ensures
        with_sources(e, c, k).wf(),
        with_sources(e, c, k).size == e.size,
        forall|row: int|
            0 <= row < c.size && !(c.n <= row < c.n + k) ==> val(
                #[trigger] with_sources(e, c, k).rhs[row],
            ) == 0 as real,
        excess(val, with_sources(e, c, k), x, r) == excess(val, e, x, r) - source_voltages(
            val,
            c,
            r,
            k,
        ),
    decreases k,
{
    if k > 0 {
        lemma_sources(val, e, c, x, r, (k - 1) as nat);
        let before = with_sources(e, c, (k - 1) as nat);
        let row = c.voltage_source_branch_rows@[k - 1] as int;
        assert(row == c.n + (k - 1));
        assert(val(before.rhs[row]) == 0 as real);
        law_assign_in_exact(val, before, x, row, c.voltage_source_values@[k - 1], r);
    }
}

/// Capacitor `i` carries its capacitance times the rate at which its voltage changes,
/// from its one node to its other: what it draws from the one it gives to the other, and
/// nothing flows where the voltage stays as it was.
pub proof fn law_capacitor_carries_charge<T: Number, P>(
    val: spec_fn(T) -> real,
    e: Equations<T>,
    c: CompiledNetlist<T, P>,
    s: TransientState<T>,
    dt: T,
    gear2: bool,
    i: nat,
    x: Seq<T>,
    r: int,
)
    requires
        exact(val),
        val(dt) > 0 as real,
        c.wf(),
        capacitors_placed(c),
        i < c.cap_count,
        with_capacitors(e, c, s, dt, gear2, i).wf(),
        with_capacitors(e, c, s, dt, gear2, i).size == c.size,
        0 <= r < c.size,
    ensures
        with_capacitors(e, c, s, dt, gear2, i + 1).wf(),
        with_capacitors(e, c, s, dt, gear2, i + 1).size == c.size,
        forall|row: int|
            c.n <= row < c.size ==> #[trigger] with_capacitors(e, c, s, dt, gear2, i + 1).rhs[row]
                == with_capacitors(e, c, s, dt, gear2, i).rhs[row],
        ({
            let a = c.cap_slot(i as int, 0) as int;
            let b = c.cap_slot(i as int, 1) as int;
            let farads = val(c.element(c.capacitor_indices@, i as int)->capacitance_farads);
            let v = level(val, x, a) - level(val, x, b);
            let stored = val(s.cap_volts@[i as int]);
            let earlier = val(s.prev_cap_volts@[i as int]);
            excess(val, with_capacitors(e, c, s, dt, gear2, i + 1), x, r) == excess(
                val,
                with_capacitors(e, c, s, dt, gear2, i),
                x,
                r,
            ) + outflow(
                r,
                a,
                b,
                if gear2 {
                    ratio(
                        prod(farads, (3 as real) * v - (4 as real) * stored + earlier),
                        (2 as real) * val(dt),
                    )
                } else {
                    ratio(prod(farads, v - stored), val(dt))
                },
            )
        }),
{
    let before = with_capacitors(e, c, s, dt, gear2, i);
    let (g, ieq) = companion(
        gear2,
        dt,
        c.element(c.capacitor_indices@, i as int)->capacitance_farads,
        s.cap_volts@[i as int],
        s.prev_cap_volts@[i as int],
    );
    let a = c.cap_slot(i as int, 0) as int;
    let b = c.cap_slot(i as int, 1) as int;
    assert(a < c.n && b < c.n);
    let ab = c.cap_slot(i as int, 2) as int;
    let ba = c.cap_slot(i as int, 3) as int;
    let e1 = before.add(a, a, g);
    law_add_in_exact(val, before, x, a, a, g, r);
    let e2 = e1.add(b, b, g);
    law_add_in_exact(val, e1, x, b, b, g, r);
    let e3 = e2.lower_at(ab, g);
    let e4 = e3.lower_at(ba, g);
    assert(e3 == e2.deduct(a, b, g));
    law_deduct_in_exact(val, e2, x, a, b, g, r);
    assert(e4 == e3.deduct(b, a, g));
    law_deduct_in_exact(val, e3, x, b, a, g, r);
    let e5 = e4.feed(a, ieq);
    law_feed_in_exact(val, e4, x, a, ieq, r);
    law_feed_in_exact(val, e5, x, b, ieq, r);
    let va = level(val, x, a);
    let vb = level(val, x, b);
    lemma_prod_add(va, vb, val(g));
    law_companion_is_a_derivative(
        val,
        gear2,
        dt,
        c.element(c.capacitor_indices@, i as int)->capacitance_farads,
        s.cap_volts@[i as int],
        s.prev_cap_volts@[i as int],
        va - vb,
    );
    assert(with_capacitors(e, c, s, dt, gear2, i + 1) == e5.drain(b, ieq));
}

proof fn lemma_capacitors<T: Number, P>(
    val: spec_fn(T) -> real,
    e: Equations<T>,
    c: CompiledNetlist<T, P>,
    s: TransientState<T>,
    dt: T,
    gear2: bool,
    k: nat,
    x: Seq<T>,
    r: int,
)
    requires
        exact(val),
        val(dt) > 0 as real,
        c.wf(),
        capacitors_placed(c),
        k <= c.cap_count,
        e.wf(),
        e.size == c.size,
        0 <= r < c.size,
    ensures
        with_capacitors(e, c, s, dt, gear2, k).wf(),
        with_capacitors(e, c, s, dt, gear2, k).size == c.size,
        forall|row: int|
            c.n <= row < c.size ==> #[trigger] with_capacitors(e, c, s, dt, gear2, k).rhs[row]
                == e.rhs[row],
        excess(val, with_capacitors(e, c, s, dt, gear2, k), x, r) == excess(val, e, x, r)
            + capacitor_currents(val, c, s, dt, gear2, x, r, k),
    decreases k,
{
    if k > 0 {
        let i = (k - 1) as nat;
        lemma_capacitors(val, e, c, s, dt, gear2, i, x, r);
        law_capacitor_carries_charge(val, e, c, s, dt, gear2, i, x, r);
        assert(i + 1 == k);
        assert forall|row: int| c.n <= row < c.size implies #[trigger] with_capacitors(
            e,
            c,
            s,
            dt,
            gear2,
            k,
        ).rhs[row] == e.rhs[row] by {
            assert(with_capacitors(e, c, s, dt, gear2, i + 1).rhs[row] == with_capacitors(
                e,
                c,
                s,
                dt,
                gear2,
                i,
            ).rhs[row]);
        }
    }
}

/// In its branch row, inductor `i` takes from the voltage across it its inductance times
/// the rate at which its current changes, by the currents of the last step and, under
/// BDF-2, of the one before.  The right-hand side is replaced.
pub proof fn law_inductor_induces_voltage<T: Number, P>(
    val: spec_fn(T) -> real,
    e: Equations<T>,
    c: CompiledNetlist<T, P>,
    s: TransientState<T>,
    dt: T,
    gear2: bool,
    i: nat,
    x: Seq<T>,
    r: int,
)
    requires
        exact(val),
        val(dt) > 0 as real,
        c.wf(),
        i < c.inductor_count,
        with_inductors(e, c, s, dt, gear2, i).wf(),
        with_inductors(e, c, s, dt, gear2, i).size == c.size,
        0 <= r < c.size,
    ensures
        with_inductors(e, c, s, dt, gear2, i + 1).wf(),
        with_inductors(e, c, s, dt, gear2, i + 1).size == c.size,
        forall|row: int|
            0 <= row < c.size && row != c.inductor_branch_rows@[i as int]
                ==> #[trigger] with_inductors(e, c, s, dt, gear2, i + 1).rhs[row]
                == with_inductors(e, c, s, dt, gear2, i).rhs[row],
        ({
            let inductor = c.element(c.inductor_indices@, i as int);
            let row = c.inductor_branch_rows@[i as int] as int;
            let now = val(x[row]);
            let last = val(s.inductor_currents@[i as int]);
            let earlier = val(s.prev_inductor_currents@[i as int]);
            let henry = val(
                effective_inductance(
                    inductor->inductance_henry,
                    inductor->saturation_current_a,
                    s.inductor_currents@[i as int],
                ),
            );
            excess(val, with_inductors(e, c, s, dt, gear2, i + 1), x, r) == excess(
                val,
                with_inductors(e, c, s, dt, gear2, i),
                x,
                r,
            ) + only_in(
                r,
                row,
                val(with_inductors(e, c, s, dt, gear2, i).rhs[row]) - (if gear2 {
                    ratio(
                        prod(henry, (3 as real) * now - (4 as real) * last + earlier),
                        (2 as real) * val(dt),
                    )
                } else {
                    ratio(prod(henry, now - last), val(dt))
                }),
            )
        }),
{
    let before = with_inductors(e, c, s, dt, gear2, i);
    let inductor = c.element(c.inductor_indices@, i as int);
    let prev = s.inductor_currents@[i as int];
    let earlier = s.prev_inductor_currents@[i as int];
    let l = effective_inductance(
        inductor->inductance_henry,
        inductor->saturation_current_a,
        prev,
    );
    let (coeff, source) = companion(gear2, dt, l, prev, earlier);
    let row = c.inductor_branch_rows@[i as int] as int;
    assert(row < c.size);
    law_deduct_in_exact(val, before, x, row, row, coeff, r);
    let e1 = before.deduct(row, row, coeff);
    law_assign_in_exact(val, e1, x, row, source.opposite(), r);
    law_companion_is_a_derivative(val, gear2, dt, l, prev, earlier, val(x[row]));
    assert(with_inductors(e, c, s, dt, gear2, i + 1) == e1.assign(row, source.opposite()));
}

proof fn lemma_inductors<T: Number, P>(
    val: spec_fn(T) -> real,
    e: Equations<T>,
    c: CompiledNetlist<T, P>,
    s: TransientState<T>,
    dt: T,
    gear2: bool,
    k: nat,
    x: Seq<T>,
    r: int,
)
    requires
        exact(val),
        val(dt) > 0 as real,
        c.wf(),
        branches_distinct(c),
        k <= c.inductor_count,
        e.wf(),
        e.size == c.size,
        0 <= r < c.size,
        forall|row: int| c.n + c.m <= row < c.size ==> val(#[trigger] e.rhs[row]) == 0 as real,
    ensures
        with_inductors(e, c, s, dt, gear2, k).wf(),
        with_inductors(e, c, s, dt, gear2, k).size == c.size,
        forall|i: int|
            k <= i < c.inductor_count ==> val(
                with_inductors(e, c, s, dt, gear2, k).rhs[#[trigger] c.inductor_branch_rows@[i] as
                    int],
            ) == 0 as real,
        excess(val, with_inductors(e, c, s, dt, gear2, k), x, r) == excess(val, e, x, r)
            - inductor_voltages(val, c, s, dt, gear2, x, r, k),
    decreases k,
{
    if k > 0 {
        let i = (k - 1) as nat;
        lemma_inductors(val, e, c, s, dt, gear2, i, x, r);
        law_inductor_induces_voltage(val, e, c, s, dt, gear2, i, x, r);
        let row = c.inductor_branch_rows@[i as int] as int;
        assert(val(with_inductors(e, c, s, dt, gear2, i).rhs[row]) == 0 as real);
        assert(i + 1 == k);
        assert forall|j: int| k <= j < c.inductor_count implies val(
            with_inductors(e, c, s, dt, gear2, k).rhs[#[trigger] c.inductor_branch_rows@[j] as int],
        ) == 0 as real by {
            let other = c.inductor_branch_rows@[j] as int;
            assert(c.inductor_branch_rows@[i as int] != c.inductor_branch_rows@[j]);
            assert(with_inductors(e, c, s, dt, gear2, i + 1).rhs[other] == with_inductors(
                e,
                c,
                s,
                dt,
                gear2,
                i,
            ).rhs[other]);
        }
    }
}

/// Pair `k` takes from the branch of its first inductor the mutual inductance times the
/// rate at which the current of its second inductor changes.
pub proof fn law_coupling_induces_voltage<T: Number, P>(
    val: spec_fn(T) -> real,
    e: Equations<T>,
    c: CompiledNetlist<T, P>,
    s: TransientState<T>,
    dt: T,
    gear2: bool,
    k: nat,
    x: Seq<T>,
    r: int,
)
    requires
        exact(val),
        val(dt) > 0 as real,
        c.wf(),
        k < c.inductor_coupling_pairs@.len(),
        with_couplings(e, c, s, dt, gear2, k).wf(),
        with_couplings(e, c, s, dt, gear2, k).size == c.size,
        0 <= r < c.size,
    ensures
        with_couplings(e, c, s, dt, gear2, k + 1).wf(),
        with_couplings(e, c, s, dt, gear2, k + 1).size == c.size,
        ({
            let pair = c.inductor_coupling_pairs@[k as int];
            let now = val(x[c.inductor_branch_rows@[pair.j as int] as int]);
            let last = val(s.inductor_currents@[pair.j as int]);
            let earlier = val(s.prev_inductor_currents@[pair.j as int]);
            excess(val, with_couplings(e, c, s, dt, gear2, k + 1), x, r) == excess(
                val,
                with_couplings(e, c, s, dt, gear2, k),
                x,
                r,
            ) - only_in(
                r,
                c.inductor_branch_rows@[pair.i as int] as int,
                if gear2 {
                    ratio(
                        prod(val(pair.mutual), (3 as real) * now - (4 as real) * last + earlier),
                        (2 as real) * val(dt),
                    )
                } else {
                    ratio(prod(val(pair.mutual), now - last), val(dt))
                },
            )
        }),
{
    let before = with_couplings(e, c, s, dt, gear2, k);
    let pair = c.inductor_coupling_pairs@[k as int];
    let last = s.inductor_currents@[pair.j as int];
    let earlier = s.prev_inductor_currents@[pair.j as int];
    let (coeff, source) = companion(gear2, dt, pair.mutual, last, earlier);
    let row_i = c.inductor_branch_rows@[pair.i as int] as int;
    let row_j = c.inductor_branch_rows@[pair.j as int] as int;
    assert(row_i < c.size && row_j < c.size);
    law_deduct_in_exact(val, before, x, row_i, row_j, coeff, r);
    law_feed_in_exact(val, before.deduct(row_i, row_j, coeff), x, row_i, source, r);
    law_companion_is_a_derivative(val, gear2, dt, pair.mutual, last, earlier, val(x[row_j]));
    assert(with_couplings(e, c, s, dt, gear2, k + 1) == before.deduct(row_i, row_j, coeff).drain(
        row_i,
        source,
    ));
}

proof fn lemma_couplings<T: Number, P>(
    val: spec_fn(T) -> real,
    e: Equations<T>,
    c: CompiledNetlist<T, P>,
    s: TransientState<T>,
    dt: T,
    gear2: bool,
    k: nat,
    x: Seq<T>,
    r: int,
)
    requires
        exact(val),
        val(dt) > 0 as real,
        c.wf(),
        k <= c.inductor_coupling_pairs@.len(),
        e.wf(),
        e.size == c.size,
        0 <= r < c.size,
    ensures
        with_couplings(e, c, s, dt, gear2, k).wf(),
        with_couplings(e, c, s, dt, gear2, k).size == c.size,
        excess(val, with_couplings(e, c, s, dt, gear2, k), x, r) == excess(val, e, x, r)
            - mutual_voltages(val, c, s, dt, gear2, x, r, k),
    decreases k,
{
    if k > 0 {
        let i = (k - 1) as nat;
        lemma_couplings(val, e, c, s, dt, gear2, i, x, r);
        law_coupling_induces_voltage(val, e, c, s, dt, gear2, i, x, r);
        assert(i + 1 == k);
    }
}

pub proof fn lemma_gmin<T: Number>(val: spec_fn(T) -> real)
    requires
        exact(val),
    ensures
        val(gmin::<T>()) == ratio(1 as real, 1_000_000_000 as real),
{
    reveal_with_fuel(power_of_ten, 10);
    let v = val(T::decimal_value(1, 9));
    assert(prod(v, power_of_ten(9) as real) == 1 as real);
    assert(power_of_ten(9) == 1_000_000_000);
    lemma_quotient_is(1 as real, 1_000_000_000 as real, v);
}

/// The part of a step's system that stays the same through its iterations: static
/// stamps, a leak of 1e-9 at the regularised nodes, the currents of the capacitors; in
/// the row of a source its voltage, in the row of an inductor what changing currents
/// induce.
pub proof fn law_step_equations_balance<T: Number, P>(
    val: spec_fn(T) -> real,
    c: CompiledNetlist<T, P>,
    nodes: Seq<int>,
    s: TransientState<T>,
    dt: T,
    gear2: bool,
    x: Seq<T>,
    r: int,
)
    requires
        exact(val),
        val(dt) > 0 as real,
        c.wf(),
        regular(c, nodes),
        0 <= r < c.size,
    ensures
        step_equations(c, s, dt, gear2).wf(),
        step_equations(c, s, dt, gear2).size == c.size,
        excess(val, step_equations(c, s, dt, gear2), x, r) == static_currents(
            val,
            c,
            x,
            r,
            c.static_stamps@.len(),
        ) + leaks(val, nodes, ratio(1 as real, 1_000_000_000 as real), x, r, nodes.len())
            - source_voltages(val, c, r, c.m as nat) + capacitor_currents(
            val,
            c,
            s,
            dt,
            gear2,
            x,
            r,
            c.cap_count as nat,
        ) - inductor_voltages(val, c, s, dt, gear2, x, r, c.inductor_count as nat)
            - mutual_voltages(val, c, s, dt, gear2, x, r, c.inductor_coupling_pairs@.len()),
{
    let plain = static_equations(c, c.static_stamps@.len());
    lemma_static(val, c, x, r, c.static_stamps@.len());
    lemma_gmin(val);
    let leaky = with_gmin(plain, c.gmin_indices@, gmin(), c.gmin_indices@.len());
    lemma_leaks(val, plain, c, nodes, gmin(), x, r, nodes.len());
    assert forall|row: int| 0 <= row < c.size implies val(#[trigger] leaky.rhs[row])
        == 0 as real by {
        law_blank_in_exact(val, c.size as nat, x, row);
    }
    let resistive = with_sources(leaky, c, c.voltage_source_branch_rows@.len());
    lemma_sources(val, leaky, c, x, r, c.voltage_source_branch_rows@.len());
    let charged = with_capacitors(resistive, c, s, dt, gear2, c.cap_count as nat);
    lemma_capacitors(val, resistive, c, s, dt, gear2, c.cap_count as nat, x, r);
    assert forall|row: int| c.n + c.m <= row < c.size implies val(#[trigger] charged.rhs[row])
        == 0 as real by {
        assert(val(resistive.rhs[row]) == 0 as real);
    }
    let fluxed = with_inductors(charged, c, s, dt, gear2, c.inductor_count as nat);
    lemma_inductors(val, charged, c, s, dt, gear2, c.inductor_count as nat, x, r);
    lemma_couplings(
        val,
        fluxed,
        c,
        s,
        dt,
        gear2,
        c.inductor_coupling_pairs@.len(),
        x,
        r,
    );
}

/// The system of an operating-point solve without its devices: capacitors carry nothing,
/// and nothing is induced in inductors.
pub proof fn law_rest_equations_balance<T: Number, P>(
    val: spec_fn(T) -> real,
    c: CompiledNetlist<T, P>,
    nodes: Seq<int>,
    g: T,
    x: Seq<T>,
    r: int,
)
    requires
        exact(val),
        c.wf(),
        regular(c, nodes),
        0 <= r < c.size,
    ensures
        with_gmin(dc_equations(c), c.gmin_indices@, g, c.gmin_indices@.len()).wf(),
        with_gmin(dc_equations(c), c.gmin_indices@, g, c.gmin_indices@.len()).size == c.size,
        excess(
            val,
            with_gmin(dc_equations(c), c.gmin_indices@, g, c.gmin_indices@.len()),
            x,
            r,
        ) == static_currents(val, c, x, r, c.static_stamps@.len()) + leaks(
            val,
            nodes,
            val(g),
            x,
            r,
            nodes.len(),
        ) - source_voltages(val, c, r, c.m as nat),
{
    let plain = static_equations(c, c.static_stamps@.len());
    lemma_static(val, c, x, r, c.static_stamps@.len());
    assert forall|row: int| 0 <= row < c.size implies val(#[trigger] plain.rhs[row])
        == 0 as real by {
        law_blank_in_exact(val, c.size as nat, x, row);
    }
    lemma_sources(val, plain, c, x, r, c.voltage_source_branch_rows@.len());
    lemma_leaks(val, dc_equations(c), c, nodes, g, x, r, nodes.len());
}

proof fn lemma_transistors<T: Number, P>(
    val: spec_fn(T) -> real,
    e: Equations<T>,
    c: CompiledNetlist<T, P>,
    stamps: Seq<TransistorStamp<T>>,
    storage: Option<Storage<T>>,
    x: Seq<T>,
    r: int,
    k: nat,
)
    requires
        exact(val),
        storage matches Some(storage) ==> val(storage.dt) > 0 as real,
        e.wf(),
        e.size == c.size,
        c.wf(),
        k <= c.transistor_count,
        0 <= r < c.size,
    ensures
        transistors_stamped(e, c, stamps, storage, k).wf(),
        transistors_stamped(e, c, stamps, storage, k).size == c.size,
        excess(val, transistors_stamped(e, c, stamps, storage, k), x, r) == excess(val, e, x, r)
            + transistor_currents(val, c, stamps, storage, x, r, k),
    decreases k,
{
    if k > 0 {
        let i = (k - 1) as nat;
        lemma_transistors(val, e, c, stamps, storage, x, r, i);
        let before = transistors_stamped(e, c, stamps, storage, i);
        match storage {
            Some(known) => {
                assert(storage == Some(Storage { dt: known.dt, tj_cap_volts: known.tj_cap_volts }));
                law_transistor_at_rest_carries_current(
                    val,
                    before,
                    c,
                    i as int,
                    stamps[i as int],
                    x,
                    r,
                );
                law_stored_charge_flows_through_junctions(
                    val,
                    before,
                    c,
                    i as int,
                    stamps[i as int],
                    known.dt,
                    known.tj_cap_volts,
                    x,
                    r,
                );
            },
            None => {
                law_transistor_at_rest_carries_current(
                    val,
                    before,
                    c,
                    i as int,
                    stamps[i as int],
                    x,
                    r,
                );
            },
        }
    }
}

proof fn lemma_diodes<T: Number, P>(
    val: spec_fn(T) -> real,
    e: Equations<T>,
    c: CompiledNetlist<T, P>,
    stamps: Seq<DiodeStamp<T>>,
    x: Seq<T>,
    r: int,
    k: nat,
)
    requires
        exact(val),
        e.wf(),
        e.size == c.size,
        c.wf(),
        k <= c.diode_count,
        0 <= r < c.size,
    ensures
        diodes_stamped(e, c, stamps, k).wf(),
        diodes_stamped(e, c, stamps, k).size == c.size,
        excess(val, diodes_stamped(e, c, stamps, k), x, r) == excess(val, e, x, r)
            + diode_currents(val, c, stamps, x, r, k),
    decreases k,
{
    if k > 0 {
        let i = k - 1;
        lemma_diodes(val, e, c, stamps, x, r, i as nat);
        assert(c.diode_node_indices@[i * 2] < c.n && c.diode_node_indices@[i * 2 + 1] < c.n);
        law_diode_carries_current(
            val,
            diodes_stamped(e, c, stamps, i as nat),
            x,
            c.diode_node(i, 0) as int,
            c.diode_node(i, 1) as int,
            stamps[i],
            r,
        );
    }
}

proof fn lemma_relays<T: Number, P>(
    val: spec_fn(T) -> real,
    e: Equations<T>,
    c: CompiledNetlist<T, P>,
    active: Seq<bool>,
    x: Seq<T>,
    r: int,
    k: nat,
)
    requires
        exact(val),
        e.wf(),
        e.size == c.size,
        c.wf(),
        relays_resist(val, c),
        k <= c.relay_count,
        0 <= r < c.size,
    ensures
        relays_stamped(e, c, active, k).wf(),
        relays_stamped(e, c, active, k).size == c.size,
        excess(val, relays_stamped(e, c, active, k), x, r) == excess(val, e, x, r)
            + relay_currents(val, c, active, x, r, k),
    decreases k,
{
    if k > 0 {
        let i = k - 1;
        lemma_relays(val, e, c, active, x, r, i as nat);
        assert(val(c.element(c.relay_indices@, i)->coil_resistance_ohms) != 0 as real);
        law_relay_carries_current(
            val,
            relays_stamped(e, c, active, i as nat),
            c,
            i,
            active[i],
            x,
            r,
        );
    }
}

/// The devices add the currents through every transistor, diode and relay.
pub proof fn law_devices_balance<T: Number, P>(
    val: spec_fn(T) -> real,
    e: Equations<T>,
    c: CompiledNetlist<T, P>,
    transistors: Seq<TransistorStamp<T>>,
    diodes: Seq<DiodeStamp<T>>,
    storage: Option<Storage<T>>,
    active: Seq<bool>,
    x: Seq<T>,
    r: int,
)
    requires
        exact(val),
        storage matches Some(storage) ==> val(storage.dt) > 0 as real,
        e.wf(),
        e.size == c.size,
        c.wf(),
        relays_resist(val, c),
        0 <= r < c.size,
    ensures
        devices_stamped(e, c, transistors, diodes, storage, active).wf(),
        devices_stamped(e, c, transistors, diodes, storage, active).size == c.size,
        excess(val, devices_stamped(e, c, transistors, diodes, storage, active), x, r) == excess(
            val,
            e,
            x,
            r,
        ) + transistor_currents(val, c, transistors, storage, x, r, c.transistor_count as nat)
            + diode_currents(val, c, diodes, x, r, c.diode_count as nat) + relay_currents(
            val,
            c,
            active,
            x,
            r,
            c.relay_count as nat,
        ),
{
    let amplified = transistors_stamped(e, c, transistors, storage, c.transistor_count as nat);
    lemma_transistors(val, e, c, transistors, storage, x, r, c.transistor_count as nat);
    let rectified = diodes_stamped(amplified, c, diodes, c.diode_count as nat);
    lemma_diodes(val, amplified, c, diodes, x, r, c.diode_count as nat);
    lemma_relays(val, rectified, c, active, x, r, c.relay_count as nat);
}

/// `e` is the system of a circuit in a step: in every row, what all elements draw there.
pub open spec fn balances_step<T: Number, P>(
    c: CompiledNetlist<T, P>,
    nodes: Seq<int>,
    s: TransientState<T>,
    dt: T,
    gear2: bool,
    transistors: Seq<TransistorStamp<T>>,
    diodes: Seq<DiodeStamp<T>>,
    active: Seq<bool>,
    e: Equations<T>,
) -> bool {
    forall|val: spec_fn(T) -> real, x: Seq<T>, r: int|
        exact(val) && val(dt) > 0 as real && relays_resist(val, c) && 0 <= r < c.size
            ==> #[trigger] excess(val, e, x, r) == static_currents(
            val,
            c,
            x,
            r,
            c.static_stamps@.len(),
        ) + leaks(val, nodes, ratio(1 as real, 1_000_000_000 as real), x, r, nodes.len())
            - source_voltages(val, c, r, c.m as nat) + capacitor_currents(
            val,
            c,
            s,
            dt,
            gear2,
            x,
            r,
            c.cap_count as nat,
        ) - inductor_voltages(val, c, s, dt, gear2, x, r, c.inductor_count as nat)
            - mutual_voltages(val, c, s, dt, gear2, x, r, c.inductor_coupling_pairs@.len())
            + transistor_currents(
            val,
            c,
            transistors,
            Some(Storage { dt, tj_cap_volts: s.tj_cap_volts@ }),
            x,
            r,
            c.transistor_count as nat,
        ) + diode_currents(val, c, diodes, x, r, c.diode_count as nat) + relay_currents(
            val,
            c,
            active,
            x,
            r,
            c.relay_count as nat,
        )
}

/// Every iteration of a step solves Kirchhoff's laws of the circuit: with the transistors
/// and diodes linearised at the node voltages of the estimate (junctions of transistors
/// limited against the last step), charges and fluxes integrated from the state, and the
/// contacts where the relays are.  BDF-2 is in use only where it was asked for, there is
/// history and no relay toggled.
pub proof fn law_iterations_solve_the_circuit<T: Number, P, K: Kernel<T, P>>(
    k: K,
    c: CompiledNetlist<T, P>,
    nodes: Seq<int>,
    s: TransientState<T>,
    config: StepConfig<T>,
    at: Moment<T>,
    solution: Option<Seq<T>>,
)
    requires
        c.wf(),
        regular(c, nodes),
        iteration_solution(k, c, s, config, at, solution),
    ensures
        exists|transistors: Seq<TransistorStamp<T>>, diodes: Seq<DiodeStamp<T>>, e: Equations<T>|
            #[trigger] transistor_answers(
                k,
                c,
                at.est.take(c.n as int),
                Some(s.node_volts@),
                transistors,
            ) && #[trigger] diode_answers(k, c, at.est.take(c.n as int), None, diodes)
                && #[trigger] solved(k, e, c.size, c.pattern, solution) && balances_step(
                c,
                nodes,
                s,
                config.dt,
                config.gear == Gear::Bdf2 && s.gear2_ready && !s.relay_toggled,
                transistors,
                diodes,
                at.relays,
                e,
            ),
{
    let gear2 = uses_gear2(config, s);
    let storage = Some(Storage { dt: config.dt, tj_cap_volts: s.tj_cap_volts@ });
    let base = step_equations(c, s, config.dt, gear2);
    let (transistors, diodes) = choose|
        transistors: Seq<TransistorStamp<T>>,
        diodes: Seq<DiodeStamp<T>>,
    | #[trigger]
        transistor_answers(k, c, at.est.take(c.n as int), Some(s.node_volts@), transistors)
            && #[trigger] diode_answers(k, c, at.est.take(c.n as int), None, diodes) && solved(
            k,
            devices_stamped(base, c, transistors, diodes, storage, at.relays),
            c.size,
            c.pattern,
            solution,
        );
    let e = devices_stamped(base, c, transistors, diodes, storage, at.relays);
    assert forall|val: spec_fn(T) -> real, x: Seq<T>, r: int|
        exact(val) && val(config.dt) > 0 as real && relays_resist(val, c) && 0 <= r
            < c.size implies #[trigger] excess(val, e, x, r) == static_currents(
        val,
        c,
        x,
        r,
        c.static_stamps@.len(),
    ) + leaks(val, nodes, ratio(1 as real, 1_000_000_000 as real), x, r, nodes.len())
        - source_voltages(val, c, r, c.m as nat) + capacitor_currents(
        val,
        c,
        s,
        config.dt,
        gear2,
        x,
        r,
        c.cap_count as nat,
    ) - inductor_voltages(val, c, s, config.dt, gear2, x, r, c.inductor_count as nat)
        - mutual_voltages(val, c, s, config.dt, gear2, x, r, c.inductor_coupling_pairs@.len())
        + transistor_currents(
        val,
        c,
        transistors,
        storage,
        x,
        r,
        c.transistor_count as nat,
    ) + diode_currents(val, c, diodes, x, r, c.diode_count as nat) + relay_currents(
        val,
        c,
        at.relays,
        x,
        r,
        c.relay_count as nat,
    ) by {
        law_step_equations_balance(val, c, nodes, s, config.dt, gear2, x, r);
        law_devices_balance(val, base, c, transistors, diodes, storage, at.relays, x, r);
    }
    assert(balances_step(
        c,
        nodes,
        s,
        config.dt,
        gear2,
        transistors,
        diodes,
        at.relays,
        e,
    ));
}

/// `e` is the system of a circuit at rest, with the conductance `g` at the regularised
/// nodes.
pub open spec fn balances_at_rest<T: Number, P>(
    c: CompiledNetlist<T, P>,
    nodes: Seq<int>,
    g: T,
    transistors: Seq<TransistorStamp<T>>,
    diodes: Seq<DiodeStamp<T>>,
    active: Seq<bool>,
    e: Equations<T>,
) -> bool {
    forall|val: spec_fn(T) -> real, x: Seq<T>, r: int|
        exact(val) && relays_resist(val, c) && 0 <= r < c.size ==> #[trigger] excess(val, e, x, r)
            == static_currents(val, c, x, r, c.static_stamps@.len()) + leaks(
            val,
            nodes,
            val(g),
            x,
            r,
            nodes.len(),
        ) - source_voltages(val, c, r, c.m as nat) + transistor_currents(
            val,
            c,
            transistors,
            None,
            x,
            r,
            c.transistor_count as nat,
        ) + diode_currents(val, c, diodes, x, r, c.diode_count as nat) + relay_currents(
            val,
            c,
            active,
            x,
            r,
            c.relay_count as nat,
        )
}

/// Every iteration of an operating-point solve solves Kirchhoff's laws of the circuit at
/// rest: capacitors are open, inductors are shorts, junctions store nothing.  A pass with
/// limiting linearises the devices at the whole estimate and limits them against the one
/// before, a pass without at the node voltages alone.
pub proof fn law_passes_solve_the_circuit_at_rest<T: Number, P, K: Kernel<T, P>>(
    k: K,
    c: CompiledNetlist<T, P>,
    nodes: Seq<int>,
    g: T,
    limiting: bool,
    at: DcMoment<T>,
    solution: Option<Seq<T>>,
)
    requires
        c.wf(),
        regular(c, nodes),
        dc_solution(k, c, dc_equations(c), g, limiting, at, solution),
    ensures
        limiting ==> exists|
            transistors: Seq<TransistorStamp<T>>,
            diodes: Seq<DiodeStamp<T>>,
            e: Equations<T>,
        |
            #[trigger] transistor_answers(k, c, at.est, Some(at.prev), transistors)
                && #[trigger] diode_answers(k, c, at.est, Some(at.prev), diodes)
                && #[trigger] solved(
                k,
                e,
                c.size,
                c.pattern,
                solution,
            ) && balances_at_rest(c, nodes, g, transistors, diodes, at.relays, e),
        !limiting ==> exists|
            transistors: Seq<TransistorStamp<T>>,
            diodes: Seq<DiodeStamp<T>>,
            e: Equations<T>,
        |
            #[trigger] transistor_answers(k, c, at.est.take(c.n as int), None, transistors)
                && #[trigger] diode_answers(k, c, at.est.take(c.n as int), None, diodes)
                && #[trigger] solved(
                k,
                e,
                c.size,
                c.pattern,
                solution,
            ) && balances_at_rest(c, nodes, g, transistors, diodes, at.relays, e),
{
    let volts = if limiting {
        at.est
    } else {
        at.est.take(c.n as int)
    };
    let prev = if limiting {
        Some(at.prev)
    } else {
        None
    };
    let base = with_gmin(dc_equations(c), c.gmin_indices@, g, c.gmin_indices@.len());
    assert(linear_solution(k, c, base, volts, prev, prev, None, at.relays, solution));
    let (transistors, diodes) = choose|
        transistors: Seq<TransistorStamp<T>>,
        diodes: Seq<DiodeStamp<T>>,
    | #[trigger]
        transistor_answers(k, c, volts, prev, transistors) && #[trigger] diode_answers(
            k,
            c,
            volts,
            prev,
            diodes,
        ) && solved(
            k,
            devices_stamped(base, c, transistors, diodes, None, at.relays),
            c.size,
            c.pattern,
            solution,
        );
    let e = devices_stamped(base, c, transistors, diodes, None, at.relays);
    assert forall|val: spec_fn(T) -> real, x: Seq<T>, r: int|
        exact(val) && relays_resist(val, c) && 0 <= r < c.size implies #[trigger] excess(
        val,
        e,
        x,
        r,
    ) == static_currents(val, c, x, r, c.static_stamps@.len()) + leaks(
        val,
        nodes,
        val(g),
        x,
        r,
        nodes.len(),
    ) - source_voltages(val, c, r, c.m as nat) + transistor_currents(
        val,
        c,
        transistors,
        None,
        x,
        r,
        c.transistor_count as nat,
    ) + diode_currents(val, c, diodes, x, r, c.diode_count as nat) + relay_currents(
        val,
        c,
        at.relays,
        x,
        r,
        c.relay_count as nat,
    ) by {
        law_rest_equations_balance(val, c, nodes, g, x, r);
        law_devices_balance(val, base, c, transistors, diodes, None, at.relays, x, r);
    }
    assert(balances_at_rest(c, nodes, g, transistors, diodes, at.relays, e));
}

/// A capacitor conserves charge: what it adds to the equations of its two nodes cancels,
/// at any voltages, so that it neither draws current on the whole nor feeds any.
pub proof fn law_capacitor_conserves_charge<T: Number, P>(
    val: spec_fn(T) -> real,
    e: Equations<T>,
    c: CompiledNetlist<T, P>,
    s: TransientState<T>,
    dt: T,
    gear2: bool,
    i: nat,
    x: Seq<T>,
)
    requires
        exact(val),
        val(dt) > 0 as real,
        c.wf(),
        capacitors_placed(c),
        i < c.cap_count,
        with_capacitors(e, c, s, dt, gear2, i).wf(),
        with_capacitors(e, c, s, dt, gear2, i).size == c.size,
        0 <= c.cap_slot(i as int, 0),
        0 <= c.cap_slot(i as int, 1),
    ensures
        ({
            let a = c.cap_slot(i as int, 0) as int;
            let b = c.cap_slot(i as int, 1) as int;
            let before = with_capacitors(e, c, s, dt, gear2, i);
            let after = with_capacitors(e, c, s, dt, gear2, i + 1);
            excess(val, after, x, a) + excess(val, after, x, b) == excess(val, before, x, a)
                + excess(val, before, x, b)
        }),
{
    let a = c.cap_slot(i as int, 0) as int;
    let b = c.cap_slot(i as int, 1) as int;
    assert(a < c.n && b < c.n);
    law_capacitor_carries_charge(val, e, c, s, dt, gear2, i, x, a);
    law_capacitor_carries_charge(val, e, c, s, dt, gear2, i, x, b);
}

/// A capacitor whose voltage stays as it was adds nothing to any equation: it blocks
/// direct current.
pub proof fn law_settled_capacitor_is_idle<T: Number, P>(
    val: spec_fn(T) -> real,
    e: Equations<T>,
    c: CompiledNetlist<T, P>,
    s: TransientState<T>,
    dt: T,
    gear2: bool,
    i: nat,
    x: Seq<T>,
    r: int,
)
    requires
        exact(val),
        val(dt) > 0 as real,
        c.wf(),
        capacitors_placed(c),
        i < c.cap_count,
        with_capacitors(e, c, s, dt, gear2, i).wf(),
        with_capacitors(e, c, s, dt, gear2, i).size == c.size,
        0 <= r < c.size,
        level(val, x, c.cap_slot(i as int, 0) as int) - level(
            val,
            x,
            c.cap_slot(i as int, 1) as int,
        ) == val(s.cap_volts@[i as int]),
        gear2 ==> val(s.prev_cap_volts@[i as int]) == val(s.cap_volts@[i as int]),
    ensures
        excess(val, with_capacitors(e, c, s, dt, gear2, i + 1), x, r) == excess(
            val,
            with_capacitors(e, c, s, dt, gear2, i),
            x,
            r,
        ),
{
    law_capacitor_carries_charge(val, e, c, s, dt, gear2, i, x, r);
    let farads = val(c.element(c.capacitor_indices@, i as int)->capacitance_farads);
    lemma_prod_unit(farads);
    lemma_ratio_prod(farads, farads, val(dt));
    lemma_ratio_prod(farads, farads, (2 as real) * val(dt));
}

/// An inductor whose current runs on a straight line takes its inductance times the slope
/// from the voltage across it, under either method: the branch equation holds for the
/// next point of the line exactly where the voltage is that.
pub proof fn law_inductor_follows_ramps<T: Number, P>(
    val: spec_fn(T) -> real,
    e: Equations<T>,
    c: CompiledNetlist<T, P>,
    s: TransientState<T>,
    dt: T,
    gear2: bool,
    i: nat,
    x: Seq<T>,
    slope: real,
)
    requires
        exact(val),
        val(dt) > 0 as real,
        c.wf(),
        i < c.inductor_count,
        with_inductors(e, c, s, dt, gear2, i).wf(),
        with_inductors(e, c, s, dt, gear2, i).size == c.size,
        val(x[c.inductor_branch_rows@[i as int] as int]) == val(s.inductor_currents@[i as int])
            + prod(slope, val(dt)),
        gear2 ==> val(s.prev_inductor_currents@[i as int]) == val(s.inductor_currents@[i as int])
            - prod(slope, val(dt)),
    ensures
        ({
            let inductor = c.element(c.inductor_indices@, i as int);
            let row = c.inductor_branch_rows@[i as int] as int;
            let henry = val(
                effective_inductance(
                    inductor->inductance_henry,
                    inductor->saturation_current_a,
                    s.inductor_currents@[i as int],
                ),
            );
            let before = with_inductors(e, c, s, dt, gear2, i);
            excess(val, with_inductors(e, c, s, dt, gear2, i + 1), x, row) == excess(
                val,
                before,
                x,
                row,
            ) + val(before.rhs[row]) - prod(henry, slope)
        }),
{
    let inductor = c.element(c.inductor_indices@, i as int);
    let row = c.inductor_branch_rows@[i as int] as int;
    assert(row < c.size);
    law_inductor_induces_voltage(val, e, c, s, dt, gear2, i, x, row);
    let henry = val(
        effective_inductance(
            inductor->inductance_henry,
            inductor->saturation_current_a,
            s.inductor_currents@[i as int],
        ),
    );
    let d = val(dt);
    let w = (2 as real) * d;
    lemma_prod_add(d, d, slope);
    assert(prod(slope, w) == prod(slope, d) + prod(slope, d)) by {
        assert(d + d == w);
    }
    lemma_prod_assoc(henry, slope, d);
    lemma_prod_assoc(henry, slope, w);
    lemma_ratio_prod(henry, prod(henry, slope), d);
    lemma_ratio_prod(henry, prod(henry, slope), w);
}

/// The right-hand side of an inductor's row: minus `L / dt` times its last current under
/// backward Euler, and minus `L / (2 dt)` times four times its last current less the one
/// of a step earlier under BDF-2.
pub proof fn law_inductor_remembers_its_currents<T: Number, P>(
    val: spec_fn(T) -> real,
    e: Equations<T>,
    c: CompiledNetlist<T, P>,
    s: TransientState<T>,
    dt: T,
    gear2: bool,
    i: nat,
)
    requires
        exact(val),
        val(dt) > 0 as real,
        c.wf(),
        i < c.inductor_count,
        with_inductors(e, c, s, dt, gear2, i).wf(),
        with_inductors(e, c, s, dt, gear2, i).size == c.size,
    ensures
        ({
            let inductor = c.element(c.inductor_indices@, i as int);
            let henry = val(
                effective_inductance(
                    inductor->inductance_henry,
                    inductor->saturation_current_a,
                    s.inductor_currents@[i as int],
                ),
            );
            let last = val(s.inductor_currents@[i as int]);
            let earlier = val(s.prev_inductor_currents@[i as int]);
            val(
                with_inductors(
                    e,
                    c,
                    s,
                    dt,
                    gear2,
                    i + 1,
                ).rhs[c.inductor_branch_rows@[i as int] as int],
            ) == if gear2 {
                -ratio(prod(henry, (4 as real) * last - earlier), (2 as real) * val(dt))
            } else {
                -ratio(prod(henry, last), val(dt))
            }
        }),
{
    let inductor = c.element(c.inductor_indices@, i as int);
    let prev = s.inductor_currents@[i as int];
    let earlier = s.prev_inductor_currents@[i as int];
    let l = effective_inductance(
        inductor->inductance_henry,
        inductor->saturation_current_a,
        prev,
    );
    let row = c.inductor_branch_rows@[i as int] as int;
    assert(row < c.size);
    law_companion_is_a_derivative(val, gear2, dt, l, prev, earlier, 0 as real);
    let henry = val(l);
    let d = val(dt);
    lemma_prod_unit(val(companion(gear2, dt, l, prev, earlier).0));
    lemma_prod_neg(henry, val(prev));
    lemma_prod_neg(henry, (4 as real) * val(prev) - val(earlier));
    lemma_ratio_add(0 as real, prod(henry, val(prev)), d);
    lemma_ratio_add(
        0 as real,
        prod(henry, (4 as real) * val(prev) - val(earlier)),
        (2 as real) * d,
    );
    lemma_ratio_prod(henry, henry, d);
    lemma_ratio_prod(henry, henry, (2 as real) * d);
    assert((3 as real) * (0 as real) - (4 as real) * val(prev) + val(earlier) == -((4 as real)
        * val(prev) - val(earlier)));
    assert((0 as real) - val(prev) == -val(prev));
}

} // verus!
