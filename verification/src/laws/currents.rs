//! Which currents the stamps of the elements stand for.
//!
//! Every law here says, in exact arithmetic, what an element adds to the excess of each
//! row: the current that it draws out of the node of that row, at any voltages.

use vstd::prelude::*;

use crate::companion::{companion, effective_inductance};
use crate::compiled::CompiledNetlist;
use crate::equations::Equations;
use crate::kernel::{junction, or_zero, transistor_stamped, Storage};
use crate::laws::exact::{
    exact, excess, law_add_in_exact, law_deduct_in_exact, law_feed_in_exact, lemma_decimal,
    lemma_prod_add, lemma_prod_assoc, lemma_prod_neg, lemma_prod_unit,
    lemma_ratio_add, lemma_ratio_prod, level, only_in, outflow, prod, ratio,
};
use crate::number::{one, Number};
use crate::relays::relay_stamped;
use crate::types::{DiodeStamp, TransistorStamp};

verus! {

/// Ohm's law: a conductance carries `g` times the voltage across it, from the one node
/// to the other.
pub proof fn law_conductance_carries_current<T: Number>(
    val: spec_fn(T) -> real,
    e: Equations<T>,
    x: Seq<T>,
    a: int,
    b: int,
    g: T,
    r: int,
)
    requires
        exact(val),
        e.wf(),
        e.has_row(a),
        e.has_row(b),
        0 <= r < e.size,
    ensures
        e.conductance(a, b, g).wf(),
        e.conductance(a, b, g).size == e.size,
        e.conductance(a, b, g).rhs == e.rhs,
        excess(val, e.conductance(a, b, g), x, r) == excess(val, e, x, r) + outflow(
            r,
            a,
            b,
            prod(val(g), level(val, x, a) - level(val, x, b)),
        ),
{
    let e1 = e.add(a, a, g);
    let e2 = e1.add(b, b, g);
    let e3 = e2.deduct(a, b, g);
    law_add_in_exact(val, e, x, a, a, g, r);
    law_add_in_exact(val, e1, x, b, b, g, r);
    law_deduct_in_exact(val, e2, x, a, b, g, r);
    law_deduct_in_exact(val, e3, x, b, a, g, r);
    let w = val(g);
    let va = level(val, x, a);
    let vb = level(val, x, b);
    lemma_prod_add(va, vb, w);
}

/// A companion model carries the current of its conductance less its companion current,
/// from the one node to the other: what leaves the one enters the other.
pub proof fn law_companion_carries_current<T: Number>(
    val: spec_fn(T) -> real,
    e: Equations<T>,
    x: Seq<T>,
    a: int,
    b: int,
    g: T,
    ieq: T,
    r: int,
)
    requires
        exact(val),
        e.wf(),
        e.has_row(a),
        e.has_row(b),
        0 <= r < e.size,
    ensures
        e.capacitor(a, b, g, ieq).wf(),
        e.capacitor(a, b, g, ieq).size == e.size,
        excess(val, e.capacitor(a, b, g, ieq), x, r) == excess(val, e, x, r) + outflow(
            r,
            a,
            b,
            prod(val(g), level(val, x, a) - level(val, x, b)) - val(ieq),
        ),
{
    law_conductance_carries_current(val, e, x, a, b, g, r);
    let e1 = e.conductance(a, b, g);
    law_feed_in_exact(val, e1, x, a, ieq, r);
    law_feed_in_exact(val, e1.feed(a, ieq), x, b, ieq, r);
}

/// A linearised diode carries `gd V + ieq` from its anode to its cathode.
pub proof fn law_diode_carries_current<T: Number>(
    val: spec_fn(T) -> real,
    e: Equations<T>,
    x: Seq<T>,
    anode: int,
    cathode: int,
    s: DiodeStamp<T>,
    r: int,
)
    requires
        exact(val),
        e.wf(),
        e.has_row(anode),
        e.has_row(cathode),
        0 <= r < e.size,
    ensures
        e.diode(anode, cathode, s).wf(),
        e.diode(anode, cathode, s).size == e.size,
        excess(val, e.diode(anode, cathode, s), x, r) == excess(val, e, x, r) + outflow(
            r,
            anode,
            cathode,
            prod(val(s.gd), level(val, x, anode) - level(val, x, cathode)) + val(s.ieq),
        ),
{
    law_conductance_carries_current(val, e, x, anode, cathode, s.gd, r);
    let e1 = e.conductance(anode, cathode, s.gd);
    law_feed_in_exact(val, e1, x, anode, s.ieq, r);
    law_feed_in_exact(val, e1.drain(anode, s.ieq), x, cathode, s.ieq, r);
}

/// A linearised transistor draws from its base `gpi Vbe + gmu_b Vbc`, from its collector
/// `gm Vbe + gmu Vbc`, and gives both back at its emitter, each with its companion
/// current.
pub proof fn law_transistor_carries_current<T: Number>(
    val: spec_fn(T) -> real,
    e: Equations<T>,
    x: Seq<T>,
    base: int,
    collector: int,
    emitter: int,
    s: TransistorStamp<T>,
    r: int,
)
    requires
        exact(val),
        e.wf(),
        e.has_row(base),
        e.has_row(collector),
        e.has_row(emitter),
        0 <= r < e.size,
    ensures
        e.transistor(base, collector, emitter, s).wf(),
        e.transistor(base, collector, emitter, s).size == e.size,
        ({
            let vbe = level(val, x, base) - level(val, x, emitter);
            let vbc = level(val, x, base) - level(val, x, collector);
            let ib = prod(val(s.gpi), vbe) + prod(val(s.gmu_b), vbc);
            let ic = prod(val(s.gm), vbe) + prod(val(s.gmu), vbc);
            excess(val, e.transistor(base, collector, emitter, s), x, r) == excess(val, e, x, r)
                + only_in(r, base, ib + val(s.i_eq_b)) + only_in(r, collector, ic + val(s.i_eq_c))
                + only_in(r, emitter, val(s.i_eq_e) - ib - ic)
        }),
{
    let b = base;
    let c = collector;
    let m = emitter;
    let total = s.gpi.sum(s.gmu_b).sum(s.gm).sum(s.gmu).opposite();
    let e1 = e.add(b, b, s.gpi.sum(s.gmu_b));
    law_add_in_exact(val, e, x, b, b, s.gpi.sum(s.gmu_b), r);
    let e2 = e1.add(b, m, s.gpi.opposite());
    law_add_in_exact(val, e1, x, b, m, s.gpi.opposite(), r);
    let e3 = e2.add(b, c, s.gmu_b.opposite());
    law_add_in_exact(val, e2, x, b, c, s.gmu_b.opposite(), r);
    let e4 = e3.add(c, b, s.gm.sum(s.gmu));
    law_add_in_exact(val, e3, x, c, b, s.gm.sum(s.gmu), r);
    let e5 = e4.add(c, m, s.gm.opposite());
    law_add_in_exact(val, e4, x, c, m, s.gm.opposite(), r);
    let e6 = e5.add(c, c, s.gmu.opposite());
    law_add_in_exact(val, e5, x, c, c, s.gmu.opposite(), r);
    let e7 = e6.add(m, b, total);
    law_add_in_exact(val, e6, x, m, b, total, r);
    let e8 = e7.add(m, m, s.gpi.sum(s.gm));
    law_add_in_exact(val, e7, x, m, m, s.gpi.sum(s.gm), r);
    let e9 = e8.add(m, c, s.gmu_b.sum(s.gmu));
    law_add_in_exact(val, e8, x, m, c, s.gmu_b.sum(s.gmu), r);
    let e10 = e9.feed(b, s.i_eq_b.opposite());
    law_feed_in_exact(val, e9, x, b, s.i_eq_b.opposite(), r);
    let e11 = e10.feed(c, s.i_eq_c.opposite());
    law_feed_in_exact(val, e10, x, c, s.i_eq_c.opposite(), r);
    law_feed_in_exact(val, e11, x, m, s.i_eq_e.opposite(), r);
    lemma_transistor_terms(
        val(s.gpi),
        val(s.gmu_b),
        val(s.gm),
        val(s.gmu),
        level(val, x, b),
        level(val, x, c),
        level(val, x, m),
    );
}

proof fn lemma_transistor_terms(
    gpi: real,
    gmu_b: real,
    gm: real,
    gmu: real,
    vb: real,
    vc: real,
    ve: real,
)
    ensures
        prod(gpi + gmu_b, vb) + prod(-gpi, ve) + prod(-gmu_b, vc) == prod(gpi, vb - ve) + prod(
            gmu_b,
            vb - vc,
        ),
        prod(gm + gmu, vb) + prod(-gm, ve) + prod(-gmu, vc) == prod(gm, vb - ve) + prod(
            gmu,
            vb - vc,
        ),
        prod(-(gpi + gmu_b + gm + gmu), vb) + prod(gpi + gm, ve) + prod(gmu_b + gmu, vc) == -(prod(
            gpi,
            vb - ve,
        ) + prod(gmu_b, vb - vc)) - (prod(gm, vb - ve) + prod(gmu, vb - vc)),
{
    lemma_prod_add(gpi, gmu_b, vb);
    lemma_prod_add(gm, gmu, vb);
    lemma_prod_neg(gpi, ve);
    lemma_prod_neg(gmu_b, vc);
    lemma_prod_neg(gm, ve);
    lemma_prod_neg(gmu, vc);
    lemma_prod_add(vb, ve, gpi);
    lemma_prod_add(vb, vc, gmu_b);
    lemma_prod_add(vb, ve, gm);
    lemma_prod_add(vb, vc, gmu);
    lemma_prod_neg(gpi + gmu_b + gm + gmu, vb);
    lemma_prod_add(gpi + gmu_b + gm, gmu, vb);
    lemma_prod_add(gpi + gmu_b, gm, vb);
    lemma_prod_add(gpi, gm, ve);
    lemma_prod_add(gmu_b, gmu, vc);
}

/// The current of a companion model is the size of the element times the rate at which
/// its variable changes: the difference quotient of the last step under backward Euler,
/// and under BDF-2 the slope, at the new point, of the parabola through three points.
pub proof fn law_companion_is_a_derivative<T: Number>(
    val: spec_fn(T) -> real,
    gear2: bool,
    dt: T,
    size: T,
    prev: T,
    prev2: T,
    v: real,
)
    requires
        exact(val),
        val(dt) > 0 as real,
    ensures
        prod(val(companion(gear2, dt, size, prev, prev2).0), v) - val(
            companion(gear2, dt, size, prev, prev2).1,
        ) == if gear2 {
            ratio(
                prod(
                    val(size),
                    (3 as real) * v - (4 as real) * val(prev) + val(prev2),
                ),
                (2 as real) * val(dt),
            )
        } else {
            ratio(prod(val(size), v - val(prev)), val(dt))
        },
{
    let d = val(dt);
    let s = val(size);
    let p = val(prev);
    let q = val(prev2);
    lemma_decimal(val, 1, 0);
    lemma_decimal(val, 2, 0);
    lemma_decimal(val, 3, 0);
    lemma_decimal(val, 4, 0);
    if gear2 {
        let w = (2 as real) * d;
        lemma_prod_whole(d);
        lemma_prod_whole(s);
        lemma_prod_whole(p);
        // `3 s / w * v` and `s / w * (4 p - q)` over the common denominator.
        lemma_ratio_prod((3 as real) * s, v, w);
        lemma_ratio_prod(s, (4 as real) * p - q, w);
        lemma_ratio_add(prod((3 as real) * s, v), prod(s, (4 as real) * p - q), w);
        lemma_prod_whole(prod(s, v));
        lemma_triple(s, v);
        lemma_prod_add((3 as real) * v, (4 as real) * p - q, s);
        assert((3 as real) * v - ((4 as real) * p - q) == (3 as real) * v - (4 as real) * p + q);
    } else {
        lemma_ratio_prod(1 as real, s, d);
        lemma_prod_unit(s);
        lemma_ratio_prod(s, v, d);
        lemma_ratio_prod(s, p, d);
        lemma_ratio_add(prod(s, v), prod(s, p), d);
        lemma_prod_add(v, p, s);
    }
}

proof fn lemma_prod_whole(a: real)
    ensures
        prod(2 as real, a) == (2 as real) * a,
        prod(3 as real, a) == (3 as real) * a,
        prod(4 as real, a) == (4 as real) * a,
{
    reveal(prod);
}

proof fn lemma_triple(s: real, v: real)
    ensures
        prod((3 as real) * s, v) == prod(s, (3 as real) * v),
{
    lemma_prod_add(s, s, v);
    lemma_prod_add(s + s, s, v);
    lemma_prod_add(v, v, s);
    lemma_prod_add(v + v, v, s);
    assert(s + s + s == (3 as real) * s && v + v + v == (3 as real) * v);
}

/// Integration is exact where the variable runs on a straight line, and under BDF-2 on a
/// parabola, too: with values at one and two steps back on `v + slope t + bend t^2`, the
/// companion model carries the size of the element times the slope at the new point.
pub proof fn law_integration_is_exact_on_curves<T: Number>(
    val: spec_fn(T) -> real,
    gear2: bool,
    dt: T,
    size: T,
    prev: T,
    prev2: T,
    v: real,
    slope: real,
    bend: real,
)
    requires
        exact(val),
        val(dt) > 0 as real,
        !gear2 ==> bend == 0 as real,
        val(prev) == v - prod(slope, val(dt)) + prod(bend, prod(val(dt), val(dt))),
        val(prev2) == v - prod(slope, (2 as real) * val(dt)) + prod(
            bend,
            prod((2 as real) * val(dt), (2 as real) * val(dt)),
        ),
    ensures
        prod(val(companion(gear2, dt, size, prev, prev2).0), v) - val(
            companion(gear2, dt, size, prev, prev2).1,
        ) == prod(val(size), slope),
{
    law_companion_is_a_derivative(val, gear2, dt, size, prev, prev2, v);
    let d = val(dt);
    let s = val(size);
    if gear2 {
        let w = (2 as real) * d;
        let dd = prod(d, d);
        lemma_prod_add(d, d, slope);
        assert(d + d == w);
        lemma_prod_add(d, d, d);
        lemma_prod_add(d, d, w);
        assert(prod(w, w) == dd + dd + dd + dd);
        lemma_prod_add(dd, dd, bend);
        lemma_prod_add(dd + dd, dd, bend);
        lemma_prod_add(dd + dd + dd, dd, bend);
        assert((3 as real) * v - (4 as real) * val(prev) + val(prev2) == prod(slope, w));
        lemma_prod_assoc(s, slope, w);
        lemma_ratio_prod(s, prod(s, slope), w);
    } else {
        lemma_prod_unit(prod(d, d));
        assert(v - val(prev) == prod(slope, d));
        lemma_prod_assoc(s, slope, d);
        lemma_ratio_prod(s, prod(s, slope), d);
    }
}

/// A variable that does not change drives no current through its companion model.
pub proof fn law_settled_companion_is_idle<T: Number>(
    val: spec_fn(T) -> real,
    gear2: bool,
    dt: T,
    size: T,
    v: T,
)
    requires
        exact(val),
        val(dt) > 0 as real,
    ensures
        prod(val(companion(gear2, dt, size, v, v).0), val(v)) == val(
            companion(gear2, dt, size, v, v).1,
        ),
{
    let d = val(dt);
    lemma_prod_unit(d);
    lemma_prod_unit((2 as real) * d);
    lemma_prod_unit(prod(d, d));
    lemma_prod_unit(prod((2 as real) * d, (2 as real) * d));
    lemma_prod_unit(val(size));
    law_integration_is_exact_on_curves(
        val,
        gear2,
        dt,
        size,
        v,
        v,
        val(v),
        0 as real,
        0 as real,
    );
}

/// The charge current of a junction is its capacitance times the rate at which its
/// voltage changed since the last step, from the one node to the other: there is none
/// where the voltage is the stored one, and none at all without a capacitance.
pub proof fn law_junction_carries_charge<T: Number>(
    val: spec_fn(T) -> real,
    e: Equations<T>,
    x: Seq<T>,
    a: int,
    b: int,
    total: T,
    dt: T,
    v_prev: T,
    r: int,
)
    requires
        exact(val),
        val(dt) > 0 as real,
        e.wf(),
        e.has_row(a),
        e.has_row(b),
        0 <= r < e.size,
    ensures
        junction(e, a, b, total, dt, v_prev).wf(),
        junction(e, a, b, total, dt, v_prev).size == e.size,
        val(total) > 0 as real ==> excess(val, junction(e, a, b, total, dt, v_prev), x, r)
            == excess(val, e, x, r) + outflow(
            r,
            a,
            b,
            ratio(prod(val(total), level(val, x, a) - level(val, x, b) - val(v_prev)), val(dt)),
        ),
        !(val(total) > 0 as real) ==> junction(e, a, b, total, dt, v_prev) == e,
{
    lemma_decimal(val, 0, 0);
    if val(total) > 0 as real {
        let g = total.product(one::<T>().quotient(dt));
        law_companion_carries_current(val, e, x, a, b, g, g.product(v_prev), r);
        law_companion_is_a_derivative(
            val,
            false,
            dt,
            total,
            v_prev,
            v_prev,
            level(val, x, a) - level(val, x, b),
        );
    }
}

/// A junction whose voltage has not changed adds nothing to any equation.
pub proof fn law_settled_junction_is_idle<T: Number>(
    val: spec_fn(T) -> real,
    e: Equations<T>,
    x: Seq<T>,
    a: int,
    b: int,
    total: T,
    dt: T,
    v_prev: T,
    r: int,
)
    requires
        exact(val),
        val(dt) > 0 as real,
        e.wf(),
        e.has_row(a),
        e.has_row(b),
        0 <= r < e.size,
        level(val, x, a) - level(val, x, b) == val(v_prev),
    ensures
        excess(val, junction(e, a, b, total, dt, v_prev), x, r) == excess(val, e, x, r),
{
    law_junction_carries_charge(val, e, x, a, b, total, dt, v_prev, r);
    let c = val(total);
    let d = val(dt);
    lemma_prod_unit(c);
    lemma_ratio_prod(c, c, d);
}

/// A capacitance as a junction sees it: none unless it is positive.
pub open spec fn storing(capacitance: real) -> real {
    if capacitance > 0 as real {
        capacitance
    } else {
        0 as real
    }
}

/// A parameter as a real number, 0 where it is missing.
pub open spec fn given<T>(val: spec_fn(T) -> real, v: Option<T>) -> real {
    match v {
        Some(v) => val(v),
        None => 0 as real,
    }
}

/// A transistor at rest draws its conduction currents through base, collector and
/// emitter.
pub proof fn law_transistor_at_rest_carries_current<T: Number, P>(
    val: spec_fn(T) -> real,
    e: Equations<T>,
    c: CompiledNetlist<T, P>,
    i: int,
    s: TransistorStamp<T>,
    x: Seq<T>,
    r: int,
)
    requires
        exact(val),
        e.wf(),
        e.size == c.size,
        c.wf(),
        0 <= i < c.transistor_count,
        0 <= r < e.size,
    ensures
        transistor_stamped(e, c, i, s, None).wf(),
        transistor_stamped(e, c, i, s, None).size == e.size,
        ({
            let base = c.transistor_node(i, 0) as int;
            let collector = c.transistor_node(i, 1) as int;
            let emitter = c.transistor_node(i, 2) as int;
            let vbe = level(val, x, base) - level(val, x, emitter);
            let vbc = level(val, x, base) - level(val, x, collector);
            let ib = prod(val(s.gpi), vbe) + prod(val(s.gmu_b), vbc);
            let ic = prod(val(s.gm), vbe) + prod(val(s.gmu), vbc);
            excess(val, transistor_stamped(e, c, i, s, None), x, r) == excess(val, e, x, r)
                + only_in(r, base, ib + val(s.i_eq_b)) + only_in(r, collector, ic + val(s.i_eq_c))
                + only_in(r, emitter, val(s.i_eq_e) - ib - ic)
        }),
{
    assert(c.transistor_node_indices@[i * 3] < c.n && c.transistor_node_indices@[i * 3 + 1] < c.n
        && c.transistor_node_indices@[i * 3 + 2] < c.n);
    law_transistor_carries_current(
        val,
        e,
        x,
        c.transistor_node(i, 0) as int,
        c.transistor_node(i, 1) as int,
        c.transistor_node(i, 2) as int,
        s,
        r,
    );
}

/// A transistor in a step draws, besides its conduction currents, the charge currents of
/// its two junctions: `cje + tf gm` between base and emitter, `cjc + tr gmu_b` between
/// base and collector, each by the change of its voltage since the last step.
pub proof fn law_stored_charge_flows_through_junctions<T: Number, P>(
    val: spec_fn(T) -> real,
    e: Equations<T>,
    c: CompiledNetlist<T, P>,
    i: int,
    s: TransistorStamp<T>,
    dt: T,
    volts: Seq<T>,
    x: Seq<T>,
    r: int,
)
    requires
        exact(val),
        val(dt) > 0 as real,
        e.wf(),
        e.size == c.size,
        c.wf(),
        0 <= i < c.transistor_count,
        0 <= r < e.size,
    ensures
        transistor_stamped(
            e,
            c,
            i,
            s,
            Some(Storage { dt, tj_cap_volts: volts }),
        ).wf(),
        transistor_stamped(e, c, i, s, Some(Storage { dt, tj_cap_volts: volts })).size == e.size,
        ({
            let q = c.element(c.transistor_indices@, i)->Transistor_params;
            let base = c.transistor_node(i, 0) as int;
            let collector = c.transistor_node(i, 1) as int;
            let emitter = c.transistor_node(i, 2) as int;
            let vbe = level(val, x, base) - level(val, x, emitter);
            let vbc = level(val, x, base) - level(val, x, collector);
            let cbe = storing(val(q.cje_farads) + prod(given(val, q.tf_seconds), val(s.gm)));
            let cbc = storing(val(q.cjc_farads) + prod(given(val, q.tr_seconds), val(s.gmu_b)));
            let qbe = ratio(prod(cbe, vbe - val(volts[2 * i])), val(dt));
            let qbc = ratio(prod(cbc, vbc - val(volts[2 * i + 1])), val(dt));
            excess(
                val,
                transistor_stamped(e, c, i, s, Some(Storage { dt, tj_cap_volts: volts })),
                x,
                r,
            ) == excess(val, transistor_stamped(e, c, i, s, None), x, r) + outflow(
                r,
                base,
                emitter,
                qbe,
            ) + outflow(r, base, collector, qbc)
        }),
{
    let q = c.element(c.transistor_indices@, i)->Transistor_params;
    assert(c.transistor_node_indices@[i * 3] < c.n && c.transistor_node_indices@[i * 3 + 1] < c.n
        && c.transistor_node_indices@[i * 3 + 2] < c.n);
    let base = c.transistor_node(i, 0) as int;
    let collector = c.transistor_node(i, 1) as int;
    let emitter = c.transistor_node(i, 2) as int;
    lemma_decimal(val, 0, 0);
    law_transistor_at_rest_carries_current(val, e, c, i, s, x, r);
    let linear = e.transistor(base, collector, emitter, s);
    let cbe = q.cje_farads.sum(or_zero(q.tf_seconds).product(s.gm));
    let cbc = q.cjc_farads.sum(or_zero(q.tr_seconds).product(s.gmu_b));
    let first = junction(linear, base, emitter, cbe, dt, volts[2 * i]);
    law_junction_carries_charge(val, linear, x, base, emitter, cbe, dt, volts[2 * i], r);
    law_junction_carries_charge(val, first, x, base, collector, cbc, dt, volts[2 * i + 1], r);
    let vbe = level(val, x, base) - level(val, x, emitter) - val(volts[2 * i]);
    let vbc = level(val, x, base) - level(val, x, collector) - val(volts[2 * i + 1]);
    let d = val(dt);
    lemma_prod_unit(vbe);
    lemma_prod_unit(vbc);
    lemma_ratio_prod(d, d, d);
}

/// A relay conducts through its coil by the coil's resistance, from the common node to
/// the normally closed throw by `ron` at rest and `roff` when energised, and to the
/// normally open throw the other way round.
pub proof fn law_relay_carries_current<T: Number, P>(
    val: spec_fn(T) -> real,
    e: Equations<T>,
    c: CompiledNetlist<T, P>,
    i: int,
    active: bool,
    x: Seq<T>,
    r: int,
)
    requires
        exact(val),
        e.wf(),
        e.size == c.size,
        c.wf(),
        0 <= i < c.relay_count,
        0 <= r < e.size,
        val(c.element(c.relay_indices@, i)->coil_resistance_ohms) != 0 as real,
        val(c.element(c.relay_indices@, i)->ron_ohms) != 0 as real,
        val(c.element(c.relay_indices@, i)->roff_ohms) != 0 as real,
    ensures
        relay_stamped(e, c, i, active).wf(),
        relay_stamped(e, c, i, active).size == e.size,
        ({
            let relay = c.element(c.relay_indices@, i);
            let plus = c.relay_node(i, 0) as int;
            let minus = c.relay_node(i, 1) as int;
            let common = c.relay_node(i, 2) as int;
            let nc = c.relay_node(i, 3) as int;
            let no = c.relay_node(i, 4) as int;
            let (nc_ohms, no_ohms) = if active {
                (val(relay->roff_ohms), val(relay->ron_ohms))
            } else {
                (val(relay->ron_ohms), val(relay->roff_ohms))
            };
            excess(val, relay_stamped(e, c, i, active), x, r) == excess(val, e, x, r) + outflow(
                r,
                plus,
                minus,
                ratio(
                    level(val, x, plus) - level(val, x, minus),
                    val(relay->coil_resistance_ohms),
                ),
            ) + outflow(r, common, nc, ratio(level(val, x, common) - level(val, x, nc), nc_ohms))
                + outflow(r, common, no, ratio(level(val, x, common) - level(val, x, no), no_ohms))
        }),
{
    let relay = c.element(c.relay_indices@, i);
    assert(c.relay_node_indices@[i * 5] < c.n && c.relay_node_indices@[i * 5 + 1] < c.n
        && c.relay_node_indices@[i * 5 + 2] < c.n && c.relay_node_indices@[i * 5 + 3] < c.n
        && c.relay_node_indices@[i * 5 + 4] < c.n);
    lemma_decimal(val, 1, 0);
    let plus = c.relay_node(i, 0) as int;
    let minus = c.relay_node(i, 1) as int;
    let common = c.relay_node(i, 2) as int;
    let nc = c.relay_node(i, 3) as int;
    let no = c.relay_node(i, 4) as int;
    let (closed, opened) = if active {
        (no, nc)
    } else {
        (nc, no)
    };
    let coil = one::<T>().quotient(relay->coil_resistance_ohms);
    let ron = one::<T>().quotient(relay->ron_ohms);
    let roff = one::<T>().quotient(relay->roff_ohms);
    let e1 = e.conductance(plus, minus, coil);
    let e2 = e1.conductance(common, closed, ron);
    law_conductance_carries_current(val, e, x, plus, minus, coil, r);
    law_conductance_carries_current(val, e1, x, common, closed, ron, r);
    law_conductance_carries_current(val, e2, x, common, opened, roff, r);
    lemma_over(level(val, x, plus) - level(val, x, minus), val(relay->coil_resistance_ohms));
    lemma_over(level(val, x, common) - level(val, x, closed), val(relay->ron_ohms));
    lemma_over(level(val, x, common) - level(val, x, opened), val(relay->roff_ohms));
}

proof fn lemma_over(v: real, ohms: real)
    requires
        ohms != 0 as real,
    ensures
        prod(ratio(1 as real, ohms), v) == ratio(v, ohms),
{
    lemma_ratio_prod(1 as real, v, ohms);
    lemma_prod_unit(v);
}

/// An inductor saturates by the size of its current, whichever way it flows: up to the
/// saturation current it has its nominal inductance, and a hundredth of it beyond.
pub proof fn law_saturation_cuts_inductance<T: Number>(
    val: spec_fn(T) -> real,
    nominal: T,
    saturation: Option<T>,
    current: T,
)
    requires
        exact(val),
    ensures
        saturation is None ==> effective_inductance(nominal, saturation, current) == nominal,
        saturation matches Some(limit) ==> {
            &&& -val(limit) <= val(current) <= val(limit) ==> effective_inductance(
                nominal,
                saturation,
                current,
            ) == nominal
            &&& val(current) > val(limit) || val(current) < -val(limit) ==> prod(
                val(effective_inductance(nominal, saturation, current)),
                100 as real,
            ) == val(nominal)
        },
{
    lemma_decimal(val, 1, 2);
    let l = val(nominal);
    let w = val(T::decimal_value(1, 2));
    lemma_prod_assoc(l, w, 100 as real);
    lemma_prod_unit(l);
}

} // verus!
