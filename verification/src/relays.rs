//! Relays: the contact stamps, and the hysteresis that moves the contact.

use vstd::prelude::*;

use crate::compiled::CompiledNetlist;
use crate::equations::{stamp_two_node_conductance, Equations, System};
use crate::netlist::Element;
use crate::number::{Number, one, zero};

verus! {

/// The voltage of a node under an estimate of the unknowns; 0 for ground.
pub open spec fn potential<T: Number>(est: Seq<T>, node: i32) -> T {
    if node >= 0 {
        est[node as int]
    } else {
        zero()
    }
}

/// The voltage of a node under an estimate of the unknowns; 0 for ground.
pub fn node_potential<T: Number>(est: &Vec<T>, node: i32) -> (r: T)
    requires
        node < est.len(),
    ensures
        r == potential(est@, node),
{
    if node >= 0 {
        est[node as usize]
    } else {
        T::decimal(0, 0)
    }
}

/// The stamps of relay `i`: the coil, the closed contact and the open one.  At
/// rest the normally closed throw is the closed contact, otherwise the normally
/// open one.
pub open spec fn relay_stamped<T: Number, P>(
    e: Equations<T>,
    c: CompiledNetlist<T, P>,
    i: int,
    active: bool,
) -> Equations<T> {
    let relay = c.element(c.relay_indices@, i);
    let common = c.relay_node(i, 2) as int;
    let nc = c.relay_node(i, 3) as int;
    let no = c.relay_node(i, 4) as int;
    let (closed_throw, open_throw) = if active {
        (no, nc)
    } else {
        (nc, no)
    };
    e.conductance(
        c.relay_node(i, 0) as int,
        c.relay_node(i, 1) as int,
        one::<T>().quotient(relay->coil_resistance_ohms),
    ).conductance(common, closed_throw, one::<T>().quotient(relay->ron_ohms)).conductance(
        common,
        open_throw,
        one::<T>().quotient(relay->roff_ohms),
    )
}

/// The stamps of the first `k` relays.
pub open spec fn relays_stamped<T: Number, P>(
    e: Equations<T>,
    c: CompiledNetlist<T, P>,
    active: Seq<bool>,
    k: nat,
) -> Equations<T>
    decreases k,
{
    if k == 0 {
        e
    } else {
        relay_stamped(relays_stamped(e, c, active, (k - 1) as nat), c, k - 1, active[k - 1])
    }
}

/// Stamps every relay according to its contact.
pub fn stamp_relays<T: Number, P>(
    sys: &mut System<T>,
    c: &CompiledNetlist<T, P>,
    relay_active: &Vec<bool>,
)
    requires
        old(sys)@.wf(),
        old(sys).size == c.size,
        c.wf(),
        relay_active.len() >= c.relay_count,
    ensures
        final(sys)@ == relays_stamped(old(sys)@, *c, relay_active@, c.relay_count as nat),
        final(sys)@.wf(),
        final(sys).size == old(sys).size,
{
    let one = T::decimal(1, 0);
    let ghost start = sys@;
    let mut ri: usize = 0;
    while ri < c.relay_count
        invariant
            ri <= c.relay_count,
            c.wf(),
            sys.size == c.size,
            sys@.wf(),
            relay_active.len() >= c.relay_count,
            one == T::decimal_value(1, 0),
            sys@ == relays_stamped(start, *c, relay_active@, ri as nat),
        decreases c.relay_count - ri,
    {
        let coil_p = c.relay_terminal(ri, 0);
        let coil_n = c.relay_terminal(ri, 1);
        let common = c.relay_terminal(ri, 2);
        let nc = c.relay_terminal(ri, 3);
        let no = c.relay_terminal(ri, 4);
        assert(c.element(c.relay_indices@, ri as int) is Relay);
        if let Element::Relay { coil_resistance_ohms, ron_ohms, roff_ohms, .. } =
            &c.elements[c.relay_indices[ri]] {
            let (closed_throw, open_throw) = if relay_active[ri] {
                (no, nc)
            } else {
                (nc, no)
            };
            stamp_two_node_conductance(sys, coil_p, coil_n, one.over(*coil_resistance_ohms));
            stamp_two_node_conductance(sys, common, closed_throw, one.over(*ron_ohms));
            stamp_two_node_conductance(sys, common, open_throw, one.over(*roff_ohms));
        }
        ri += 1;
    }
}

/// Whether a relay is energised after its coil saw `v_coil` volts: it energises
/// above `pick_up`, releases below `drop_out`, and holds in between.
pub open spec fn relay_after<T: Number>(active: bool, v_coil: T, pick_up: T, drop_out: T) -> bool {
    if active {
        !v_coil.below(drop_out)
    } else {
        pick_up.below(v_coil)
    }
}

/// The magnitude of the voltage across the coil of relay `i`.
pub open spec fn coil_voltage<T: Number, P>(c: CompiledNetlist<T, P>, est: Seq<T>, i: int) -> T {
    potential(est, c.relay_node(i, 0)).difference(potential(est, c.relay_node(i, 1))).magnitude()
}

/// Relay `i` after a solve: the thresholds are the voltages at which the coil
/// carries its on and off currents.
pub open spec fn relay_next<T: Number, P>(
    c: CompiledNetlist<T, P>,
    active: Seq<bool>,
    est: Seq<T>,
    i: int,
) -> bool {
    let relay = c.element(c.relay_indices@, i);
    relay_after(
        active[i],
        coil_voltage(c, est, i),
        relay->on_current.product(relay->coil_resistance_ohms),
        relay->off_current.product(relay->coil_resistance_ohms),
    )
}

/// All relays after a solve; flags beyond the last relay stay as they are.
pub open spec fn relays_next<T: Number, P>(
    c: CompiledNetlist<T, P>,
    active: Seq<bool>,
    est: Seq<T>,
) -> Seq<bool> {
    Seq::new(
        active.len(),
        |i: int|
            if i < c.relay_count {
                relay_next(c, active, est, i)
            } else {
                active[i]
            },
    )
}

/// Moves each relay according to the voltage across its coil.
///
/// Comparing `|V_coil|` with `I_threshold * R_coil` is comparing the coil current
/// with the threshold, without a division.  Flags beyond the last relay are left
/// alone.
pub fn update_relay_states<T: Number, P>(
    c: &CompiledNetlist<T, P>,
    relay_active: &mut Vec<bool>,
    est: &Vec<T>,
)
    requires
        c.wf(),
        old(relay_active).len() >= c.relay_count,
        est.len() >= c.n,
    ensures
        final(relay_active)@ == relays_next(*c, old(relay_active)@, est@),
{
    let ghost before = relay_active@;
    let mut ri: usize = 0;
    while ri < c.relay_count
        invariant
            ri <= c.relay_count,
            c.wf(),
            est.len() >= c.n,
            before.len() >= c.relay_count,
            relay_active.len() == before.len(),
            forall|j: int| 0 <= j < ri ==> relay_active@[j] == relay_next(*c, before, est@, j),
            forall|j: int| ri <= j < before.len() ==> relay_active@[j] == before[j],
        decreases c.relay_count - ri,
    {
        let v_p = node_potential(est, c.relay_terminal(ri, 0));
        let v_n = node_potential(est, c.relay_terminal(ri, 1));
        let v_coil = v_p.minus(v_n).abs();
        assert(c.element(c.relay_indices@, ri as int) is Relay);
        if let Element::Relay { coil_resistance_ohms, on_current, off_current, .. } =
            &c.elements[c.relay_indices[ri]] {
            let pick_up = on_current.times(*coil_resistance_ohms);
            let drop_out = off_current.times(*coil_resistance_ohms);
            let was_active = relay_active[ri];
            let should_activate = pick_up.lt(v_coil);
            let should_release = v_coil.lt(drop_out);
            if !was_active && should_activate {
                relay_active[ri] = true;
            }
            if was_active && should_release {
                relay_active[ri] = false;
            }
        }
        ri += 1;
    }
}

} // verus!
