//! What holds of the relays.

use vstd::arithmetic::div_mod::{lemma_div_is_ordered, lemma_div_pos_is_pos};
use vstd::prelude::*;

use crate::compiled::CompiledNetlist;
use crate::fixed::{abs, truncated, Fixed, SCALE};
use crate::laws::exact::{
    exact, lemma_decimal, lemma_divided, level, prod, ratio, size_of,
};
use crate::netlist::Element;
use crate::number::{all_finite, zero, Number};
use crate::relays::{coil_voltage, relay_after, relay_next, relays_next};

verus! {

/// Between its two thresholds a relay stays as it is.
pub proof fn law_relay_holds_in_dead_band<T: Number>(
    active: bool,
    v_coil: T,
    pick_up: T,
    drop_out: T,
)
    requires
        !pick_up.below(v_coil),
        !v_coil.below(drop_out),
    ensures
        relay_after(active, v_coil, pick_up, drop_out) == active,
{
}

/// Above the pick-up threshold and not below the drop-out one, a relay is
/// energised whatever it was before.
pub proof fn law_relay_energises<T: Number>(active: bool, v_coil: T, pick_up: T, drop_out: T)
    requires
        pick_up.below(v_coil),
        !v_coil.below(drop_out),
    ensures
        relay_after(active, v_coil, pick_up, drop_out),
{
}

/// Below the drop-out threshold and not above the pick-up one, a relay is at rest
/// whatever it was before.
pub proof fn law_relay_releases<T: Number>(active: bool, v_coil: T, pick_up: T, drop_out: T)
    requires
        !pick_up.below(v_coil),
        v_coil.below(drop_out),
    ensures
        !relay_after(active, v_coil, pick_up, drop_out),
{
}

/// With thresholds in order, a relay does not chatter: the same coil voltage moves
/// it at most once.
pub proof fn law_relay_settles<T: Number>(active: bool, v_coil: T, pick_up: T, drop_out: T)
    requires
        !(pick_up.below(v_coil) && v_coil.below(drop_out)),
    ensures
        relay_after(
            relay_after(active, v_coil, pick_up, drop_out),
            v_coil,
            pick_up,
            drop_out,
        ) == relay_after(active, v_coil, pick_up, drop_out),
{
}

/// Both thresholds of relay `i` are crossed at once: it would pick up at rest and
/// drop out when energised.
pub open spec fn torn<T: Number, P>(c: CompiledNetlist<T, P>, est: Seq<T>, i: int) -> bool {
    let relay = c.element(c.relay_indices@, i);
    let v_coil = coil_voltage(c, est, i);
    relay->on_current.product(relay->coil_resistance_ohms).below(v_coil) && v_coil.below(
        relay->off_current.product(relay->coil_resistance_ohms),
    )
}

/// Where no relay is torn they do not chatter: updating them again from the same
/// voltages changes nothing.
pub proof fn law_relays_settle<T: Number, P>(
    c: CompiledNetlist<T, P>,
    active: Seq<bool>,
    est: Seq<T>,
)
    requires
        forall|i: int| 0 <= i < c.relay_count ==> !#[trigger] torn(c, est, i),
    ensures
        relays_next(c, relays_next(c, active, est), est) == relays_next(c, active, est),
{
    let once = relays_next(c, active, est);
    let twice = relays_next(c, once, est);
    assert forall|i: int| 0 <= i < active.len() implies twice[i] == once[i] by {
        if i < c.relay_count {
            assert(!torn(c, est, i));
            assert(once[i] == relay_next(c, active, est, i));
        }
    }
    assert(twice =~= once);
}

/// Scaling by what is not negative keeps the order of a number type: nothing lies
/// above the larger product and below the smaller one.  So it is with doubles, whose
/// rounding is monotonic.
pub open spec fn scales_in_order<T: Number>() -> bool {
    forall|a: T, b: T, scale: T, v: T|
        #![trigger b.product(scale).below(v), v.below(a.product(scale))]
        a.at_most(b) && zero::<T>().at_most(scale) ==> !(b.product(scale).below(v) && v.below(
            a.product(scale),
        ))
}

proof fn lemma_truncated_ordered(low: int, high: int)
    requires
        low <= high,
    ensures
        truncated(low, SCALE as int) <= truncated(high, SCALE as int),
{
    assert(abs(SCALE as int) == SCALE);
    if low >= 0 {
        lemma_div_is_ordered(low, high, SCALE as int);
    } else if high < 0 {
        lemma_div_is_ordered(-high, -low, SCALE as int);
    } else {
        lemma_div_pos_is_pos(high, SCALE as int);
        lemma_div_pos_is_pos(-low, SCALE as int);
    }
}

/// The fixed-point numbers scale in order.
pub proof fn law_fixed_scales_in_order()
    ensures
        scales_in_order::<Fixed>(),
{
    assert forall|a: Fixed, b: Fixed, scale: Fixed, v: Fixed|
        #![trigger b.product(scale).below(v), v.below(a.product(scale))]
        a.at_most(b) && zero::<Fixed>().at_most(scale) implies !(b.product(scale).below(v)
        && v.below(a.product(scale))) by {
        assert(zero::<Fixed>().raw == 0);
        let low = a.raw * scale.raw;
        let high = b.raw * scale.raw;
        assert(low <= high) by (nonlinear_arith)
            requires
                a.raw <= b.raw,
                scale.raw >= 0,
                low == a.raw * scale.raw,
                high == b.raw * scale.raw,
        ;
        lemma_truncated_ordered(low, high);
    }
}

/// The thresholds of a relay are in order, and its coil resistance is not negative.
pub open spec fn ordered_relay<T: Number>(relay: Element<T>) -> bool {
    relay->off_current.at_most(relay->on_current) && zero::<T>().at_most(
        relay->coil_resistance_ohms,
    )
}

/// Thresholds in order rule out that both are crossed at once.
pub proof fn law_ordered_relay_is_not_torn<T: Number, P>(
    c: CompiledNetlist<T, P>,
    est: Seq<T>,
    i: int,
)
    requires
        scales_in_order::<T>(),
        ordered_relay(c.element(c.relay_indices@, i)),
    ensures
        !torn(c, est, i),
{
}

/// Relays with thresholds in order settle at once: updating them again from the same
/// voltages changes nothing.
pub proof fn law_ordered_relays_settle<T: Number, P>(
    c: CompiledNetlist<T, P>,
    active: Seq<bool>,
    est: Seq<T>,
)
    requires
        scales_in_order::<T>(),
        forall|i: int|
            0 <= i < c.relay_count ==> ordered_relay(#[trigger] c.element(c.relay_indices@, i)),
    ensures
        relays_next(c, relays_next(c, active, est), est) == relays_next(c, active, est),
{
    assert forall|i: int| 0 <= i < c.relay_count implies !#[trigger] torn(c, est, i) by {
        assert(ordered_relay(c.element(c.relay_indices@, i)));
        law_ordered_relay_is_not_torn(c, est, i);
    }
    law_relays_settle(c, active, est);
}

/// The estimate with every value negated.
pub open spec fn negated_estimate<T: Number>(est: Seq<T>) -> Seq<T> {
    Seq::new(est.len(), |i: int| est[i].opposite())
}

/// Negating two ordinary numbers keeps the magnitude of their difference, and negating
/// one keeps its distance from 0.  So it is with doubles, whose rounding is symmetric.
pub open spec fn mirrors_differences<T: Number>() -> bool {
    &&& forall|a: T, b: T|
        #![trigger a.opposite().difference(b.opposite())]
        a.finite() && b.finite() ==> a.opposite().difference(b.opposite()).magnitude()
            == a.difference(b).magnitude()
    &&& forall|a: T|
        #![trigger a.opposite().difference(zero())]
        a.finite() ==> a.opposite().difference(zero()).magnitude() == a.difference(
            zero(),
        ).magnitude()
    &&& forall|b: T|
        #![trigger zero::<T>().difference(b.opposite())]
        b.finite() ==> zero::<T>().difference(b.opposite()).magnitude() == zero::<T>().difference(
            b,
        ).magnitude()
}

/// The fixed-point numbers mirror differences.
pub proof fn law_fixed_mirrors_differences()
    ensures
        mirrors_differences::<Fixed>(),
{
    assert(zero::<Fixed>().raw == 0);
}

/// A coil does not tell the direction of its current: negating an estimate of ordinary
/// numbers moves the relays the same way.
pub proof fn law_relays_ignore_direction<T: Number, P>(
    c: CompiledNetlist<T, P>,
    active: Seq<bool>,
    est: Seq<T>,
)
    requires
        mirrors_differences::<T>(),
        c.wf(),
        est.len() >= c.n,
        all_finite(est),
    ensures
        relays_next(c, active, negated_estimate(est)) == relays_next(c, active, est),
{
    let mirrored = negated_estimate(est);
    assert forall|i: int| 0 <= i < active.len() implies relays_next(c, active, mirrored)[i]
        == relays_next(c, active, est)[i] by {
        if i < c.relay_count {
            assert(c.relay_node_indices@[i * 5] < c.n && c.relay_node_indices@[i * 5 + 1] < c.n);
            let p = c.relay_node(i, 0);
            let q = c.relay_node(i, 1);
            if p >= 0 {
                assert(est[p as int].finite());
                assert(mirrored[p as int] == est[p as int].opposite());
            }
            if q >= 0 {
                assert(est[q as int].finite());
                assert(mirrored[q as int] == est[q as int].opposite());
            }
            assert(coil_voltage(c, mirrored, i) == coil_voltage(c, est, i));
            assert(relay_next(c, active, mirrored, i) == relay_next(c, active, est, i));
        }
    }
    assert(relays_next(c, active, mirrored) =~= relays_next(c, active, est));
}

/// A relay goes by the current through its coil, whichever way it flows: at rest it
/// energises where the current exceeds its on-current, and energised it releases where
/// the current falls below its off-current.
pub proof fn law_relay_follows_coil_current<T: Number, P>(
    val: spec_fn(T) -> real,
    c: CompiledNetlist<T, P>,
    active: Seq<bool>,
    est: Seq<T>,
    i: int,
)
    requires
        exact(val),
        0 <= i < c.relay_count,
        i < active.len(),
        val(c.element(c.relay_indices@, i)->coil_resistance_ohms) > 0 as real,
    ensures
        relays_next(c, active, est).len() == active.len(),
        ({
            let relay = c.element(c.relay_indices@, i);
            let plus = level(val, est, c.relay_node_indices@[5 * i] as int);
            let minus = level(val, est, c.relay_node_indices@[5 * i + 1] as int);
            let current = ratio(size_of(plus - minus), val(relay->coil_resistance_ohms));
            relays_next(c, active, est)[i] == if active[i] {
                current >= val(relay->off_current)
            } else {
                current > val(relay->on_current)
            }
        }),
{
    lemma_decimal(val, 0, 0);
    assert(5 * i == i * 5);
    let relay = c.element(c.relay_indices@, i);
    let ohms = val(relay->coil_resistance_ohms);
    let v = val(coil_voltage(c, est, i));
    lemma_divided(v, ohms);
    lemma_compare(ratio(v, ohms), val(relay->on_current), ohms);
    lemma_compare(ratio(v, ohms), val(relay->off_current), ohms);
}

proof fn lemma_compare(a: real, b: real, scale: real)
    requires
        scale > 0 as real,
    ensures
        prod(a, scale) < prod(b, scale) <==> a < b,
        prod(b, scale) < prod(a, scale) <==> b < a,
{
    reveal(prod);
    assert(a < b ==> a * scale < b * scale) by (nonlinear_arith)
        requires
            scale > 0 as real,
    ;
    assert(b < a ==> b * scale < a * scale) by (nonlinear_arith)
        requires
            scale > 0 as real,
    ;
}

} // verus!
