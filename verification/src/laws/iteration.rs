//! What the Newton iterations make of a solution, in exact arithmetic.

use vstd::prelude::*;

use crate::compiled::CompiledNetlist;
use crate::dc::{
    accepted, bias_guess, first_conductance, relative_change, stepped_conductance, supply_voltage,
    warm_start,
};
use crate::fixed::power_of_ten;
use crate::laws::balance::lemma_gmin;
use crate::laws::exact::{
    exact, lemma_decimal, lemma_prod_assoc, lemma_prod_unit, lemma_quotient_is, prod,
    ratio, size_of,
};
use crate::newton::{
    asked_delta, damping, first_estimate, limited, moved, refined, within_tolerance,
    Moment,
};
use crate::number::{one, peak, zero, Number};
use crate::state::TransientState;
use crate::transient::{bends, error_factor, state_errors, truncation_error};
use crate::types::Polarity;

verus! {

/// A number held within plus and minus `most`.
pub open spec fn held(v: real, most: real) -> real {
    if v > most {
        most
    } else if v < -most {
        -most
    } else {
        v
    }
}

/// The largest of the values, or 0 where none is positive.
pub proof fn law_peak_is_the_largest<T: Number>(
    val: spec_fn(T) -> real,
    values: Seq<T>,
    k: nat,
    i: int,
)
    requires
        exact(val),
        k <= values.len(),
        0 <= i < k,
    ensures
        val(values[i]) <= val(peak(values, k)),
        0 as real <= val(peak(values, k)),
    decreases k,
{
    lemma_peak_not_below_zero(val, values, k);
    if i < k - 1 {
        law_peak_is_the_largest(val, values, (k - 1) as nat, i);
    }
}

proof fn lemma_peak_not_below_zero<T: Number>(val: spec_fn(T) -> real, values: Seq<T>, k: nat)
    requires
        exact(val),
    ensures
        0 as real <= val(peak(values, k)),
    decreases k,
{
    lemma_decimal(val, 0, 0);
    if k > 0 {
        lemma_peak_not_below_zero(val, values, (k - 1) as nat);
    }
}

/// The largest value is one of the values, or 0.
pub proof fn law_peak_is_attained<T: Number>(val: spec_fn(T) -> real, values: Seq<T>, k: nat)
    requires
        exact(val),
        k <= values.len(),
    ensures
        val(peak(values, k)) == 0 as real || exists|i: int|
            0 <= i < k && val(peak(values, k)) == val(#[trigger] values[i]),
    decreases k,
{
    lemma_decimal(val, 0, 0);
    if k > 0 {
        law_peak_is_attained(val, values, (k - 1) as nat);
        assert(val(values[k - 1]) == val(values[k - 1]));
    }
}

/// A full step first; a tenth where the change asked for more than doubled; otherwise
/// six tenths in the second and third iteration, three tenths later.
pub proof fn law_damping<T: Number>(
    val: spec_fn(T) -> real,
    iteration: nat,
    asked: T,
    last_delta: T,
)
    requires
        exact(val),
    ensures
        iteration == 0 ==> val(damping(iteration, asked, last_delta)) == 1 as real,
        iteration > 0 && val(asked) > (2 as real) * val(last_delta) ==> prod(
            val(damping(iteration, asked, last_delta)),
            10 as real,
        ) == 1 as real,
        iteration > 0 && val(asked) <= (2 as real) * val(last_delta) ==> prod(
            val(damping(iteration, asked, last_delta)),
            10 as real,
        ) == if iteration < 3 {
            6 as real
        } else {
            3 as real
        },
{
    lemma_decimal(val, 1, 0);
    lemma_decimal(val, 2, 0);
    lemma_decimal(val, 1, 1);
    lemma_decimal(val, 6, 1);
    lemma_decimal(val, 3, 1);
    lemma_twice(val(last_delta));
}

proof fn lemma_twice(a: real)
    ensures
        prod(a, 2 as real) == (2 as real) * a,
        prod(2 as real, a) == (2 as real) * a,
{
    reveal(prod);
}

/// A node moves from its estimate toward the solution, by no more than 1 V, times the
/// damping; a branch current takes over the solution.
pub proof fn law_nodes_move_toward_the_solution<T: Number>(
    val: spec_fn(T) -> real,
    est: Seq<T>,
    x: Seq<T>,
    n: nat,
    damp: T,
    i: int,
)
    requires
        exact(val),
        0 <= i < x.len(),
    ensures
        moved(est, x, n, damp).len() == x.len(),
        i >= n ==> moved(est, x, n, damp)[i] == x[i],
        i < n ==> val(moved(est, x, n, damp)[i]) == val(est[i]) + prod(
            val(damp),
            held(val(x[i]) - val(est[i]), 1 as real),
        ),
{
    lemma_decimal(val, 1, 0);
}

/// A first iteration reaches every solution that is no more than 1 V away.
pub proof fn law_first_iteration_reaches_near_solutions<T: Number, P>(
    val: spec_fn(T) -> real,
    c: CompiledNetlist<T, P>,
    at: Moment<T>,
    x: Seq<T>,
    i: int,
)
    requires
        exact(val),
        0 <= i < x.len(),
        size_of(val(x[i]) - val(at.est[i])) <= 1 as real,
    ensures
        val(refined(c, 0, at, x)[i]) == val(x[i]),
{
    let asked = asked_delta(at.est, x, c.n as nat);
    let damp = damping::<T>(0, asked, at.last_delta);
    law_damping(val, 0, asked, at.last_delta);
    law_nodes_move_toward_the_solution(val, at.est, x, c.n as nat, damp, i);
    lemma_prod_unit(val(x[i]) - val(at.est[i]));
}

/// The change that a solution asks for is at least that of every node.
pub proof fn law_asked_change_bounds_nodes<T: Number>(
    val: spec_fn(T) -> real,
    est: Seq<T>,
    x: Seq<T>,
    n: nat,
    i: int,
)
    requires
        exact(val),
        0 <= i < n,
    ensures
        size_of(val(x[i]) - val(est[i])) <= val(asked_delta(est, x, n)),
{
    let moves = Seq::new(n, |i: int| x[i].difference(est[i]).magnitude());
    law_peak_is_the_largest(val, moves, n, i);
    assert(moves[i] == x[i].difference(est[i]).magnitude());
}

/// Where an iteration is within tolerance, no node had more than
/// `1e-4 max|V| + 1e-6` to move, with `max|V|` over the new voltages.
pub proof fn law_tolerance_bounds_moves<T: Number, P>(
    val: spec_fn(T) -> real,
    c: CompiledNetlist<T, P>,
    iteration: nat,
    at: Moment<T>,
    x: Seq<T>,
    most: real,
    i: int,
)
    requires
        exact(val),
        x.len() == c.size,
        c.n <= c.size,
        within_tolerance(c, iteration, at, x),
        0 as real <= most,
        forall|j: int|
            0 <= j < c.n ==> size_of(val(#[trigger] refined(c, iteration, at, x)[j])) <= most,
        0 <= i < c.n,
    ensures
        size_of(held(val(x[i]) - val(at.est[i]), 1 as real)) < prod(
            ratio(1 as real, 10_000 as real),
            most,
        ) + ratio(1 as real, 1_000_000 as real),
{
    let n = c.n as nat;
    let est = refined(c, iteration, at, x);
    let moves = Seq::new(n, |i: int| limited(x[i].difference(at.est[i])).magnitude());
    let sizes = Seq::new(n, |i: int| est[i].magnitude());
    lemma_decimal(val, 1, 0);
    lemma_tolerances(val);
    law_peak_is_the_largest(val, moves, n, i);
    assert(moves[i] == limited(x[i].difference(at.est[i])).magnitude());
    law_peak_is_attained(val, sizes, n);
    let max_v = val(peak(sizes, n));
    if max_v != 0 as real {
        let j = choose|j: int| 0 <= j < n && max_v == val(#[trigger] sizes[j]);
        assert(sizes[j] == est[j].magnitude());
        assert(size_of(val(est[j])) <= most);
    }
    lemma_small_share(max_v, most);
}

proof fn lemma_tolerances<T: Number>(val: spec_fn(T) -> real)
    requires
        exact(val),
    ensures
        val(T::decimal_value(1, 4)) == ratio(1 as real, 10_000 as real),
        val(T::decimal_value(1, 6)) == ratio(1 as real, 1_000_000 as real),
{
    reveal_with_fuel(power_of_ten, 7);
    let v = val(T::decimal_value(1, 4));
    let w = val(T::decimal_value(1, 6));
    assert(prod(v, power_of_ten(4) as real) == 1 as real);
    assert(prod(w, power_of_ten(6) as real) == 1 as real);
    assert(power_of_ten(4) == 10_000);
    assert(power_of_ten(6) == 1_000_000);
    lemma_quotient_is(1 as real, 10_000 as real, v);
    lemma_quotient_is(1 as real, 1_000_000 as real, w);
}

proof fn lemma_small_share(a: real, b: real)
    requires
        a <= b,
    ensures
        prod(ratio(1 as real, 10_000 as real), a) <= prod(ratio(1 as real, 10_000 as real), b),
{
    reveal(prod);
    reveal(ratio);
}

/// The predictor continues the last change of a node in a straight line: over a step of
/// the same length the node is expected to move as much again, held within 1.5 V.
/// Without history a node is expected to stay, and branch currents start at 0.
pub proof fn law_predictor_continues_straight_lines<T: Number, P>(
    val: spec_fn(T) -> real,
    c: CompiledNetlist<T, P>,
    s: TransientState<T>,
    dt: T,
    i: int,
)
    requires
        exact(val),
        0 <= i < c.size,
        val(dt) > 0 as real,
    ensures
        first_estimate(c, s, dt).len() == c.size,
        i >= c.n ==> val(first_estimate(c, s, dt)[i]) == 0 as real,
        i < c.n && !(s.gear2_ready && val(s.prev_dt) > 0 as real) ==> first_estimate(c, s, dt)[i]
            == s.node_volts@[i],
        i < c.n && s.gear2_ready && val(s.prev_dt) > 0 as real ==> {
            let change = val(s.node_volts@[i]) - val(s.prev_node_volts@[i]);
            let stretch = ratio(val(dt), val(s.prev_dt));
            val(first_estimate(c, s, dt)[i]) == val(s.node_volts@[i]) + held(
                prod(
                    change,
                    if stretch > 4 as real {
                        4 as real
                    } else {
                        stretch
                    },
                ),
                ratio(3 as real, 2 as real),
            )
        },
{
    lemma_decimal(val, 0, 0);
    lemma_decimal(val, 4, 0);
    lemma_decimal(val, 15, 1);
    let clip = val(T::decimal_value(15, 1));
    assert(clip == ratio(3 as real, 2 as real)) by {
        reveal(prod);
        reveal(ratio);
        assert(clip * (10 as real) == 15 as real);
    }
    assert(clip > 0 as real) by {
        reveal(prod);
    }
}

/// The error that a state variable suggests is a share of its second difference, 22
/// hundredths under BDF-2 and half under backward Euler: none on a straight line.
pub proof fn law_error_is_the_second_difference<T: Number>(
    val: spec_fn(T) -> real,
    x: Seq<T>,
    prev: Seq<T>,
    prev2: Seq<T>,
    gear2: bool,
    i: int,
)
    requires
        exact(val),
        0 <= i < x.len(),
    ensures
        bends(x, prev, prev2, error_factor(gear2)).len() == x.len(),
        val(bends(x, prev, prev2, error_factor(gear2))[i]) == prod(
            if gear2 {
                ratio(22 as real, 100 as real)
            } else {
                ratio(1 as real, 2 as real)
            },
            size_of(val(x[i]) - (2 as real) * val(prev[i]) + val(prev2[i])),
        ),
        val(x[i]) - val(prev[i]) == val(prev[i]) - val(prev2[i]) ==> val(
            bends(x, prev, prev2, error_factor(gear2))[i],
        ) == 0 as real,
{
    lemma_decimal(val, 2, 0);
    lemma_decimal(val, 22, 2);
    lemma_decimal(val, 5, 1);
    lemma_twice(val(prev[i]));
    let share = val(T::decimal_value(22, 2));
    let half = val(T::decimal_value(5, 1));
    lemma_quotient_is(22 as real, 100 as real, share);
    assert(half == ratio(1 as real, 2 as real)) by {
        reveal(prod);
        reveal(ratio);
        assert(half * (10 as real) == 5 as real);
    }
    lemma_prod_unit(share);
    lemma_prod_unit(half);
}

/// The truncation error is the largest error that any node voltage, capacitor voltage or
/// inductor current suggests.
pub proof fn law_truncation_error_covers_all_variables<T: Number>(
    val: spec_fn(T) -> real,
    s: TransientState<T>,
    gear2: bool,
    i: int,
)
    requires
        exact(val),
        0 <= i,
    ensures
        i < s.node_volts@.len() ==> val(
            bends(
                s.node_volts@,
                s.prev_node_volts@,
                s.prev2_node_volts@,
                error_factor(gear2),
            )[i],
        ) <= val(truncation_error(s, gear2)),
        i < s.cap_volts@.len() ==> val(
            bends(s.cap_volts@, s.prev_cap_volts@, s.prev2_cap_volts@, error_factor(gear2))[i],
        ) <= val(truncation_error(s, gear2)),
        i < s.inductor_currents@.len() ==> val(
            bends(
                s.inductor_currents@,
                s.prev_inductor_currents@,
                s.prev2_inductor_currents@,
                error_factor(gear2),
            )[i],
        ) <= val(truncation_error(s, gear2)),
        val(truncation_error(s, gear2)) == 0 as real || exists|j: int|
            0 <= j < state_errors(s, gear2).len() && val(truncation_error(s, gear2)) == val(
                #[trigger] state_errors(s, gear2)[j],
            ),
{
    let all = state_errors(s, gear2);
    let nodes = bends(
        s.node_volts@,
        s.prev_node_volts@,
        s.prev2_node_volts@,
        error_factor::<T>(gear2),
    );
    let caps = bends(
        s.cap_volts@,
        s.prev_cap_volts@,
        s.prev2_cap_volts@,
        error_factor::<T>(gear2),
    );
    let n = nodes.len();
    let m = caps.len();
    if i < n {
        assert(all[i as int] == nodes[i]);
        law_peak_is_the_largest(val, all, all.len(), i);
    }
    if i < m {
        assert(all[n + i] == caps[i]);
        law_peak_is_the_largest(val, all, all.len(), n + i);
    }
    if i < s.inductor_currents@.len() {
        law_peak_is_the_largest(val, all, all.len(), n + m + i);
    }
    law_peak_is_attained(val, all, all.len());
}

/// An operating-point pass may stop at a first solution only where the circuit is
/// linear, and later only where no unknown changed by as much as the tolerance relative
/// to `1 + max(|x|, |est|)`: 1e-6 with limiting, 1e-3 without.
pub proof fn law_accepted_solutions_are_close<T: Number, P>(
    val: spec_fn(T) -> real,
    c: CompiledNetlist<T, P>,
    limiting: bool,
    iteration: nat,
    est: Seq<T>,
    x: Seq<T>,
    i: int,
)
    requires
        exact(val),
        accepted(c, limiting, iteration, est, x),
        0 <= i < x.len(),
    ensures
        iteration == 0 ==> c.transistor_count == 0 && c.diode_count == 0 && c.relay_count == 0,
        iteration > 0 ==> ratio(
            size_of(val(x[i]) - val(est[i])),
            (1 as real) + if size_of(val(x[i])) < size_of(val(est[i])) {
                size_of(val(est[i]))
            } else {
                size_of(val(x[i]))
            },
        ) < if limiting {
            ratio(1 as real, 1_000_000 as real)
        } else {
            ratio(1 as real, 1_000 as real)
        },
{
    if iteration > 0 {
        lemma_decimal(val, 1, 0);
        lemma_tolerances(val);
        lemma_thousandth(val);
        let changes = Seq::new(
            x.len(),
            |i: int|
                x[i].difference(est[i]).magnitude().quotient(
                    one::<T>().sum(x[i].magnitude().greatest(est[i].magnitude())),
                ),
        );
        assert(relative_change(est, x) == peak(changes, x.len()));
        law_peak_is_the_largest(val, changes, x.len(), i);
        assert(changes[i] == x[i].difference(est[i]).magnitude().quotient(
            one::<T>().sum(x[i].magnitude().greatest(est[i].magnitude())),
        ));
    }
}

proof fn lemma_thousandth<T: Number>(val: spec_fn(T) -> real)
    requires
        exact(val),
    ensures
        val(T::decimal_value(1, 3)) == ratio(1 as real, 1_000 as real),
{
    reveal_with_fuel(power_of_ten, 4);
    let v = val(T::decimal_value(1, 3));
    assert(prod(v, power_of_ten(3) as real) == 1 as real);
    assert(power_of_ten(3) == 1_000);
    lemma_quotient_is(1 as real, 1_000 as real, v);
}

/// The supply that an operating-point solve starts from is at least 5 V and at least the
/// voltage of every source, whichever way it is poled.
pub proof fn law_supply_covers_sources<T: Number>(
    val: spec_fn(T) -> real,
    values: Seq<T>,
    k: nat,
    i: int,
)
    requires
        exact(val),
        k <= values.len(),
    ensures
        5 as real <= val(supply_voltage(values, k)),
        0 <= i < k ==> size_of(val(values[i])) <= val(supply_voltage(values, k)),
    decreases k,
{
    lemma_decimal(val, 5, 0);
    if k > 0 {
        law_supply_covers_sources(val, values, (k - 1) as nat, i);
    }
}

/// A transistor starts in its active region: collector at half the supply; an NPN with
/// its emitter at 0 V and its base 0.6 V above; a PNP with its emitter at the supply and
/// its base at nine tenths of it.
pub proof fn law_transistors_start_active<T: Number>(val: spec_fn(T) -> real, vcc: T)
    requires
        exact(val),
    ensures
        (2 as real) * val(bias_guess(Polarity::Npn, vcc).2) == val(vcc),
        (2 as real) * val(bias_guess(Polarity::Pnp, vcc).2) == val(vcc),
        val(bias_guess(Polarity::Npn, vcc).0) == 0 as real,
        (10 as real) * val(bias_guess(Polarity::Npn, vcc).1) == 6 as real,
        bias_guess(Polarity::Pnp, vcc).0 == vcc,
        (10 as real) * val(bias_guess(Polarity::Pnp, vcc).1) == (9 as real) * val(vcc),
{
    lemma_decimal(val, 0, 0);
    lemma_decimal(val, 5, 1);
    lemma_decimal(val, 6, 1);
    lemma_decimal(val, 9, 1);
    let v = val(vcc);
    let half = val(T::decimal_value(5, 1));
    let most = val(T::decimal_value(9, 1));
    let base = val(T::decimal_value(6, 1));
    lemma_tenths(half, 5, v);
    lemma_tenths(most, 9, v);
    lemma_tenths(base, 6, v);
}

proof fn lemma_tenths(share: real, tenths: int, v: real)
    requires
        prod(share, 10 as real) == tenths as real,
        tenths == 5 || tenths == 6 || tenths == 9,
    ensures
        (10 as real) * share == tenths as real,
        tenths == 5 ==> (2 as real) * prod(v, share) == v,
        tenths == 9 ==> (10 as real) * prod(v, share) == (9 as real) * v,
{
    lemma_tenfold(share);
    lemma_tenfold(v);
    lemma_tenfold(prod(v, share));
    lemma_prod_assoc(v, share, 10 as real);
}

proof fn lemma_tenfold(a: real)
    ensures
        prod(a, 5 as real) == (5 as real) * a,
        prod(a, 6 as real) == (6 as real) * a,
        prod(a, 9 as real) == (9 as real) * a,
        prod(a, 10 as real) == (10 as real) * a,
{
    reveal(prod);
}

/// A transistor is placed at its start: emitter, base and collector get their voltages,
/// every other unknown keeps its own, and without transistors all start at 0.
pub proof fn law_transistors_are_placed<T: Number, P>(
    c: CompiledNetlist<T, P>,
    vcc: T,
    k: nat,
    i: int,
)
    requires
        c.wf(),
        k < c.transistor_count,
        0 <= i < c.size,
        c.transistor_node(k as int, 0) != c.transistor_node(k as int, 1),
        c.transistor_node(k as int, 0) != c.transistor_node(k as int, 2),
        c.transistor_node(k as int, 1) != c.transistor_node(k as int, 2),
    ensures
        warm_start(c, vcc, 0)[i] == zero::<T>(),
        ({
            let polarity = c.element(c.transistor_indices@, k as int)->Transistor_params.polarity;
            let (emitter, base, collector) = bias_guess(polarity, vcc);
            warm_start(c, vcc, k + 1)[i] == if i == c.transistor_node_indices@[k as int * 3] {
                base
            } else if i == c.transistor_node_indices@[k as int * 3 + 1] {
                collector
            } else if i == c.transistor_node_indices@[k as int * 3 + 2] {
                emitter
            } else {
                warm_start(c, vcc, k)[i]
            }
        }),
{
    lemma_warm_start_size(c, vcc, k);
    let first = k as int * 3;
    assert(c.transistor_node_indices@[first] < c.n && c.transistor_node_indices@[first + 1] < c.n
        && c.transistor_node_indices@[first + 2] < c.n);
    assert((k + 1 - 1) as nat == k);
}

proof fn lemma_warm_start_size<T: Number, P>(c: CompiledNetlist<T, P>, vcc: T, k: nat)
    requires
        c.wf(),
        k <= c.transistor_count,
    ensures
        warm_start(c, vcc, k).len() == c.size,
    decreases k,
{
    if k > 0 {
        lemma_warm_start_size(c, vcc, (k - 1) as nat);
        let i = k - 1;
        assert(c.transistor_node_indices@[i * 3] < c.n && c.transistor_node_indices@[i * 3 + 1]
            < c.n && c.transistor_node_indices@[i * 3 + 2] < c.n);
    }
}

/// The conductance of the stepping starts at 1e-2 and is multiplied by the factor from
/// pass to pass, but does not fall below 1e-9.
pub proof fn law_conductance_comes_down<T: Number>(val: spec_fn(T) -> real, factor: T, j: nat)
    requires
        exact(val),
    ensures
        val(stepped_conductance(factor, 0)) == ratio(1 as real, 100 as real),
        val(stepped_conductance(factor, j + 1)) == {
            let lowered = prod(val(stepped_conductance(factor, j)), val(factor));
            let normal = ratio(1 as real, 1_000_000_000 as real);
            if lowered < normal {
                normal
            } else {
                lowered
            }
        },
{
    lemma_decimal(val, 1, 2);
    lemma_quotient_is(1 as real, 100 as real, val(first_conductance::<T>()));
    lemma_gmin(val);
    assert((j + 1 - 1) as nat == j);
}

/// The change that a solution asks for is that of some node, or 0.
pub proof fn law_asked_change_is_attained<T: Number>(
    val: spec_fn(T) -> real,
    est: Seq<T>,
    x: Seq<T>,
    n: nat,
)
    requires
        exact(val),
    ensures
        val(asked_delta(est, x, n)) == 0 as real || exists|i: int|
            0 <= i < n && val(asked_delta(est, x, n)) == size_of(
                val(#[trigger] x[i]) - val(est[i]),
            ),
{
    let moves = Seq::new(n, |i: int| x[i].difference(est[i]).magnitude());
    law_peak_is_attained(val, moves, n);
    if val(peak(moves, n)) != 0 as real {
        let i = choose|i: int| 0 <= i < n && val(peak(moves, n)) == val(#[trigger] moves[i]);
        assert(moves[i] == x[i].difference(est[i]).magnitude());
        assert(val(asked_delta(est, x, n)) == size_of(val(x[i]) - val(est[i])));
    }
}

/// An iteration is within tolerance where every node had less than `1e-4 |V| + 1e-6` to
/// move, for some node voltage `V` of the new estimate.
pub proof fn law_small_moves_are_within_tolerance<T: Number, P>(
    val: spec_fn(T) -> real,
    c: CompiledNetlist<T, P>,
    iteration: nat,
    at: Moment<T>,
    x: Seq<T>,
    j: int,
)
    requires
        exact(val),
        x.len() == c.size,
        c.n <= c.size,
        0 <= j < c.n,
        forall|i: int|
            0 <= i < c.n ==> size_of(
                held(val(#[trigger] x[i]) - val(at.est[i]), 1 as real),
            ) < prod(
                ratio(1 as real, 10_000 as real),
                size_of(val(refined(c, iteration, at, x)[j])),
            ) + ratio(1 as real, 1_000_000 as real),
    ensures
        within_tolerance(c, iteration, at, x),
{
    let n = c.n as nat;
    let est = refined(c, iteration, at, x);
    let moves = Seq::new(n, |i: int| limited(x[i].difference(at.est[i])).magnitude());
    let sizes = Seq::new(n, |i: int| est[i].magnitude());
    lemma_decimal(val, 1, 0);
    lemma_tolerances(val);
    law_peak_is_the_largest(val, sizes, n, j);
    assert(sizes[j] == est[j].magnitude());
    lemma_small_share(size_of(val(est[j])), val(peak(sizes, n)));
    law_peak_is_attained(val, moves, n);
    if val(peak(moves, n)) != 0 as real {
        let i = choose|i: int| 0 <= i < n && val(peak(moves, n)) == val(#[trigger] moves[i]);
        assert(moves[i] == limited(x[i].difference(at.est[i])).magnitude());
        assert(size_of(held(val(x[i]) - val(at.est[i]), 1 as real)) == val(moves[i]));
    } else {
        assert(size_of(held(val(x[j]) - val(at.est[j]), 1 as real)) >= 0 as real);
    }
}

/// A pass stops at the first solution of a linear circuit, and later wherever every
/// unknown changed by less than the tolerance.
pub proof fn law_close_solutions_are_accepted<T: Number, P>(
    val: spec_fn(T) -> real,
    c: CompiledNetlist<T, P>,
    limiting: bool,
    iteration: nat,
    est: Seq<T>,
    x: Seq<T>,
)
    requires
        exact(val),
        iteration == 0 ==> c.transistor_count == 0 && c.diode_count == 0 && c.relay_count == 0,
        iteration > 0 ==> forall|i: int|
            0 <= i < x.len() ==> ratio(
                size_of(val(#[trigger] x[i]) - val(est[i])),
                (1 as real) + if size_of(val(x[i])) < size_of(val(est[i])) {
                    size_of(val(est[i]))
                } else {
                    size_of(val(x[i]))
                },
            ) < if limiting {
                ratio(1 as real, 1_000_000 as real)
            } else {
                ratio(1 as real, 1_000 as real)
            },
    ensures
        accepted(c, limiting, iteration, est, x),
{
    if iteration > 0 {
        lemma_decimal(val, 1, 0);
        lemma_tolerances(val);
        lemma_thousandth(val);
        let changes = Seq::new(
            x.len(),
            |i: int|
                x[i].difference(est[i]).magnitude().quotient(
                    one::<T>().sum(x[i].magnitude().greatest(est[i].magnitude())),
                ),
        );
        assert(relative_change(est, x) == peak(changes, x.len()));
        law_peak_is_attained(val, changes, x.len());
        let most = val(peak(changes, x.len()));
        if most != 0 as real {
            let i = choose|i: int| 0 <= i < x.len() && most == val(#[trigger] changes[i]);
            assert(changes[i] == x[i].difference(est[i]).magnitude().quotient(
                one::<T>().sum(x[i].magnitude().greatest(est[i].magnitude())),
            ));
            assert(val(x[i]) == val(x[i]));
        }
        assert(ratio(1 as real, 1_000_000 as real) > 0 as real && ratio(1 as real, 1_000 as real)
            > 0 as real) by {
            reveal(ratio);
        }
    }
}

/// The supply is 5 V or the voltage of some source.
pub proof fn law_supply_is_attained<T: Number>(val: spec_fn(T) -> real, values: Seq<T>, k: nat)
    requires
        exact(val),
        k <= values.len(),
    ensures
        val(supply_voltage(values, k)) == 5 as real || exists|i: int|
            0 <= i < k && val(supply_voltage(values, k)) == size_of(val(#[trigger] values[i])),
    decreases k,
{
    lemma_decimal(val, 5, 0);
    if k > 0 {
        law_supply_is_attained(val, values, (k - 1) as nat);
        assert(val(values[k - 1]) == val(values[k - 1]));
    }
}

} // verus!
