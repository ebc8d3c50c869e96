//! The part of a step's system that stays the same through its Newton
//! iterations: resistors, sources, and the companion models by which implicit
//! integration replaces capacitors and inductors.

use vstd::prelude::*;

use crate::compiled::{all_below, CompiledNetlist};
use crate::equations::{Equations, System};
use crate::netlist::Element;
use crate::number::{one, Number};
use crate::state::TransientState;

verus! {

/// The regularising conductance, 1e-9.
pub open spec fn gmin<T: Number>() -> T {
    T::decimal_value(1, 9)
}

/// The first `k` static stamps in an otherwise blank system.
pub open spec fn static_equations<T: Number, P>(c: CompiledNetlist<T, P>, k: nat) -> Equations<T>
    decreases k,
{
    if k == 0 {
        Equations::blank(c.size as nat)
    } else {
        let stamp = c.static_stamps@[k - 1];
        static_equations(c, (k - 1) as nat).add(stamp.row as int, stamp.col as int, stamp.value)
    }
}

/// The conductance `g` added at the first `k` places.
pub open spec fn with_gmin<T: Number>(
    e: Equations<T>,
    places: Seq<usize>,
    g: T,
    k: nat,
) -> Equations<T>
    decreases k,
{
    if k == 0 {
        e
    } else {
        with_gmin(e, places, g, (k - 1) as nat).raise(places[k - 1] as int, g)
    }
}

/// The branch equations of the first `k` voltage sources: `V_pos - V_neg` is the
/// source's voltage.
pub open spec fn with_sources<T: Number, P>(
    e: Equations<T>,
    c: CompiledNetlist<T, P>,
    k: nat,
) -> Equations<T>
    decreases k,
{
    if k == 0 {
        e
    } else {
        with_sources(e, c, (k - 1) as nat).assign(
            c.voltage_source_branch_rows@[k - 1] as int,
            c.voltage_source_values@[k - 1],
        )
    }
}

/// Companion coefficients of an energy-storing element of size `x`, a
/// capacitance or an inductance: the conductance (or reactance) and the source
/// that the history contributes.
///
/// Backward Euler: `x / dt` and `(x / dt) prev`.
/// BDF-2: `3 x / (2 dt)` and `(x / (2 dt)) (4 prev - prev2)`.
pub open spec fn companion<T: Number>(gear2: bool, dt: T, x: T, prev: T, prev2: T) -> (T, T) {
    if gear2 {
        let two_dt = T::decimal_value(2, 0).product(dt);
        (
            T::decimal_value(3, 0).product(x).quotient(two_dt),
            x.quotient(two_dt).product(T::decimal_value(4, 0).product(prev).difference(prev2)),
        )
    } else {
        let g = x.product(one::<T>().quotient(dt));
        (g, g.product(prev))
    }
}

fn companion_of<T: Number>(gear2: bool, dt: T, x: T, prev: T, prev2: T) -> (r: (T, T))
    ensures
        r == companion(gear2, dt, x, prev, prev2),
{
    if gear2 {
        let two_dt = T::decimal(2, 0).times(dt);
        let g = T::decimal(3, 0).times(x).over(two_dt);
        let source = x.over(two_dt).times(T::decimal(4, 0).times(prev).minus(prev2));
        (g, source)
    } else {
        let g = x.times(T::decimal(1, 0).over(dt));
        (g, g.times(prev))
    }
}

/// The companion models of the first `k` capacitors.
pub open spec fn with_capacitors<T: Number, P>(
    e: Equations<T>,
    c: CompiledNetlist<T, P>,
    s: TransientState<T>,
    dt: T,
    gear2: bool,
    k: nat,
) -> Equations<T>
    decreases k,
{
    if k == 0 {
        e
    } else {
        let i = k - 1;
        let (g, ieq) = companion(
            gear2,
            dt,
            c.element(c.capacitor_indices@, i)->capacitance_farads,
            s.cap_volts@[i],
            s.prev_cap_volts@[i],
        );
        let a = c.cap_slot(i, 0) as int;
        let b = c.cap_slot(i, 1) as int;
        with_capacitors(e, c, s, dt, gear2, i as nat).add(a, a, g).add(b, b, g).lower_at(
            c.cap_slot(i, 2) as int,
            g,
        ).lower_at(c.cap_slot(i, 3) as int, g).feed(a, ieq).drain(b, ieq)
    }
}

/// The inductance that acts: one hundredth of the nominal one while the current
/// exceeds the saturation current.
pub open spec fn effective_inductance<T: Number>(
    nominal: T,
    saturation: Option<T>,
    current: T,
) -> T {
    if saturation matches Some(limit) && limit.below(current.magnitude()) {
        nominal.product(T::decimal_value(1, 2))
    } else {
        nominal
    }
}

/// The branch equations of the first `k` inductors.
pub open spec fn with_inductors<T: Number, P>(
    e: Equations<T>,
    c: CompiledNetlist<T, P>,
    s: TransientState<T>,
    dt: T,
    gear2: bool,
    k: nat,
) -> Equations<T>
    decreases k,
{
    if k == 0 {
        e
    } else {
        let i = k - 1;
        let inductor = c.element(c.inductor_indices@, i);
        let prev = s.inductor_currents@[i];
        let (coeff, source) = companion(
            gear2,
            dt,
            effective_inductance(
                inductor->inductance_henry,
                inductor->saturation_current_a,
                prev,
            ),
            prev,
            s.prev_inductor_currents@[i],
        );
        let row = c.inductor_branch_rows@[i] as int;
        with_inductors(e, c, s, dt, gear2, i as nat).deduct(row, row, coeff).assign(
            row,
            source.opposite(),
        )
    }
}

/// The first `k` mutual inductances.
pub open spec fn with_couplings<T: Number, P>(
    e: Equations<T>,
    c: CompiledNetlist<T, P>,
    s: TransientState<T>,
    dt: T,
    gear2: bool,
    k: nat,
) -> Equations<T>
    decreases k,
{
    if k == 0 {
        e
    } else {
        let pair = c.inductor_coupling_pairs@[k - 1];
        let (coeff, source) = companion(
            gear2,
            dt,
            pair.mutual,
            s.inductor_currents@[pair.j as int],
            s.prev_inductor_currents@[pair.j as int],
        );
        let row_i = c.inductor_branch_rows@[pair.i as int] as int;
        let row_j = c.inductor_branch_rows@[pair.j as int] as int;
        with_couplings(e, c, s, dt, gear2, (k - 1) as nat).deduct(row_i, row_j, coeff).drain(
            row_i,
            source,
        )
    }
}

/// Everything in the system of a step that does not change between its Newton
/// iterations.
pub open spec fn step_equations<T: Number, P>(
    c: CompiledNetlist<T, P>,
    s: TransientState<T>,
    dt: T,
    gear2: bool,
) -> Equations<T> {
    let resistive = with_sources(
        with_gmin(
            static_equations(c, c.static_stamps@.len()),
            c.gmin_indices@,
            gmin(),
            c.gmin_indices@.len(),
        ),
        c,
        c.voltage_source_branch_rows@.len(),
    );
    let charged = with_capacitors(resistive, c, s, dt, gear2, c.cap_count as nat);
    let fluxed = with_inductors(charged, c, s, dt, gear2, c.inductor_count as nat);
    with_couplings(fluxed, c, s, dt, gear2, c.inductor_coupling_pairs@.len())
}

/// The static stamps of a circuit.
pub fn static_system<T: Number, P>(c: &CompiledNetlist<T, P>) -> (r: System<T>)
    requires
        c.wf(),
    ensures
        r@ == static_equations(*c, c.static_stamps@.len()),
        r@.wf(),
        r.size == c.size,
{
    let mut sys = System::blank(c.size);
    let mut k: usize = 0;
    while k < c.static_stamps.len()
        invariant
            k <= c.static_stamps.len(),
            c.wf(),
            sys.size == c.size,
            sys@.wf(),
            sys@ == static_equations(*c, k as nat),
        decreases c.static_stamps.len() - k,
    {
        let stamp = &c.static_stamps[k];
        sys.add_entry(stamp.row, stamp.col, stamp.value);
        k += 1;
    }
    sys
}

/// Adds the conductance `g` at the given places.
pub fn stamp_gmin<T: Number>(sys: &mut System<T>, places: &Vec<usize>, g: T)
    requires
        old(sys)@.wf(),
        all_below(places@, old(sys).size * old(sys).size),
    ensures
        final(sys)@ == with_gmin(old(sys)@, places@, g, places@.len()),
        final(sys)@.wf(),
        final(sys).size == old(sys).size,
{
    let ghost start = sys@;
    let mut k: usize = 0;
    while k < places.len()
        invariant
            k <= places.len(),
            sys@.wf(),
            sys@.size == start.size,
            all_below(places@, (start.size * start.size) as int),
            sys@ == with_gmin(start, places@, g, k as nat),
        decreases places.len() - k,
    {
        sys.raise(places[k], g);
        k += 1;
    }
}

/// Writes the voltages of the sources into their branch equations.
pub fn stamp_sources<T: Number, P>(sys: &mut System<T>, c: &CompiledNetlist<T, P>)
    requires
        old(sys)@.wf(),
        old(sys).size == c.size,
        c.wf(),
    ensures
        final(sys)@ == with_sources(old(sys)@, *c, c.voltage_source_branch_rows@.len()),
        final(sys)@.wf(),
        final(sys).size == old(sys).size,
{
    let ghost start = sys@;
    let mut k: usize = 0;
    while k < c.voltage_source_branch_rows.len()
        invariant
            k <= c.voltage_source_branch_rows.len(),
            c.wf(),
            sys.size == c.size,
            sys@.wf(),
            sys@ == with_sources(start, *c, k as nat),
        decreases c.voltage_source_branch_rows.len() - k,
    {
        sys.assign(c.voltage_source_branch_rows[k], c.voltage_source_values[k]);
        k += 1;
    }
}

fn stamp_capacitors<T: Number, P>(
    sys: &mut System<T>,
    c: &CompiledNetlist<T, P>,
    s: &TransientState<T>,
    dt: T,
    gear2: bool,
)
    requires
        old(sys)@.wf(),
        old(sys).size == c.size,
        c.wf(),
        s.fits(*c),
    ensures
        final(sys)@ == with_capacitors(old(sys)@, *c, *s, dt, gear2, c.cap_count as nat),
        final(sys)@.wf(),
        final(sys).size == old(sys).size,
{
    let ghost start = sys@;
    let mut i: usize = 0;
    while i < c.cap_count
        invariant
            i <= c.cap_count,
            c.wf(),
            s.fits(*c),
            sys.size == c.size,
            sys@.wf(),
            sys@ == with_capacitors(start, *c, *s, dt, gear2, i as nat),
        decreases c.cap_count - i,
    {
        let ia = c.cap_slot_at(i, 0);
        let ib = c.cap_slot_at(i, 1);
        let ab = c.cap_slot_at(i, 2);
        let ba = c.cap_slot_at(i, 3);
        assert(c.element(c.capacitor_indices@, i as int) is Capacitor);
        if let Element::Capacitor { capacitance_farads, .. } =
            &c.elements[c.capacitor_indices[i]] {
            let (g, ieq) = companion_of(
                gear2,
                dt,
                *capacitance_farads,
                s.cap_volts[i],
                s.prev_cap_volts[i],
            );
            sys.add(ia, ia, g);
            sys.add(ib, ib, g);
            sys.lower_at(ab, g);
            sys.lower_at(ba, g);
            sys.feed(ia, ieq);
            sys.drain(ib, ieq);
        }
        i += 1;
    }
}

fn acting_inductance<T: Number>(nominal: T, saturation: Option<T>, current: T) -> (r: T)
    ensures
        r == effective_inductance(nominal, saturation, current),
{
    match saturation {
        Some(limit) => {
            if limit.lt(current.abs()) {
                nominal.times(T::decimal(1, 2))
            } else {
                nominal
            }
        },
        None => nominal,
    }
}

fn stamp_inductors<T: Number, P>(
    sys: &mut System<T>,
    c: &CompiledNetlist<T, P>,
    s: &TransientState<T>,
    dt: T,
    gear2: bool,
)
    requires
        old(sys)@.wf(),
        old(sys).size == c.size,
        c.wf(),
        s.fits(*c),
    ensures
        final(sys)@ == with_inductors(old(sys)@, *c, *s, dt, gear2, c.inductor_count as nat),
        final(sys)@.wf(),
        final(sys).size == old(sys).size,
{
    let ghost start = sys@;
    let mut i: usize = 0;
    while i < c.inductor_count
        invariant
            i <= c.inductor_count,
            c.wf(),
            s.fits(*c),
            sys.size == c.size,
            sys@.wf(),
            sys@ == with_inductors(start, *c, *s, dt, gear2, i as nat),
        decreases c.inductor_count - i,
    {
        assert(c.element(c.inductor_indices@, i as int) is Inductor);
        if let Element::Inductor { inductance_henry, saturation_current_a, .. } =
            &c.elements[c.inductor_indices[i]] {
            let prev = s.inductor_currents[i];
            let l_eff = acting_inductance(*inductance_henry, *saturation_current_a, prev);
            let (coeff, source) = companion_of(
                gear2,
                dt,
                l_eff,
                prev,
                s.prev_inductor_currents[i],
            );
            let row = c.inductor_branch_rows[i];
            sys.deduct_entry(row, row, coeff);
            sys.assign(row, source.negated());
        }
        i += 1;
    }
}

fn stamp_couplings<T: Number, P>(
    sys: &mut System<T>,
    c: &CompiledNetlist<T, P>,
    s: &TransientState<T>,
    dt: T,
    gear2: bool,
)
    requires
        old(sys)@.wf(),
        old(sys).size == c.size,
        c.wf(),
        s.fits(*c),
    ensures
        final(sys)@ == with_couplings(
            old(sys)@,
            *c,
            *s,
            dt,
            gear2,
            c.inductor_coupling_pairs@.len(),
        ),
        final(sys)@.wf(),
        final(sys).size == old(sys).size,
{
    let ghost start = sys@;
    let mut k: usize = 0;
    while k < c.inductor_coupling_pairs.len()
        invariant
            k <= c.inductor_coupling_pairs.len(),
            c.wf(),
            s.fits(*c),
            sys.size == c.size,
            sys@.wf(),
            sys@ == with_couplings(start, *c, *s, dt, gear2, k as nat),
        decreases c.inductor_coupling_pairs.len() - k,
    {
        let pair = &c.inductor_coupling_pairs[k];
        let (coeff, source) = companion_of(
            gear2,
            dt,
            pair.mutual,
            s.inductor_currents[pair.j],
            s.prev_inductor_currents[pair.j],
        );
        let row_i = c.inductor_branch_rows[pair.i];
        let row_j = c.inductor_branch_rows[pair.j];
        sys.deduct_entry(row_i, row_j, coeff);
        let lowered = sys.rhs[row_i].minus(source);
        sys.assign(row_i, lowered);
        k += 1;
    }
}

/// Builds the part of a step's system that does not change between its Newton
/// iterations.
pub fn step_system<T: Number, P>(
    c: &CompiledNetlist<T, P>,
    s: &TransientState<T>,
    dt: T,
    gear2: bool,
) -> (r: System<T>)
    requires
        c.wf(),
        s.fits(*c),
    ensures
        r@ == step_equations(*c, *s, dt, gear2),
        r@.wf(),
        r.size == c.size,
{
    let mut sys = static_system(c);
    stamp_gmin(&mut sys, &c.gmin_indices, T::decimal(1, 9));
    stamp_sources(&mut sys, c);
    stamp_capacitors(&mut sys, c, s, dt, gear2);
    stamp_inductors(&mut sys, c, s, dt, gear2);
    stamp_couplings(&mut sys, c, s, dt, gear2);
    sys
}

} // verus!
