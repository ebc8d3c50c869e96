//! The numerical services that the solver calls, and what it does with their
//! answers.
//!
//! Netlist compilation, device models and factorisation are supplied by the
//! caller.  The solver
//! assumes nothing of their answers: its contracts say what is handed to each
//! call, and hold for every answer.

use vstd::prelude::*;

use crate::compiled::CompiledNetlist;
use crate::equations::{stamp_bjt, stamp_diode, stamp_two_node_cap, Equations, System};
use crate::netlist::{Element, Netlist};
use crate::number::{copy_of, one, Number, zero};
use crate::relays::{relays_stamped, stamp_relays};
use crate::types::{Diode, DiodeStamp, Transistor, TransistorStamp};

verus! {

/// Netlist compilation, device models and linear solvers.  Compiling gives a layout
/// the pattern, of type `P`, by which its matrix is factored.
pub trait Kernel<T: Number, P> {
    /// Lays out a netlist for the solver; `None` if it has no node but ground.
    fn compile_netlist(&self, netlist: &Netlist<T>) -> Option<CompiledNetlist<T, P>>;

    /// Linearises a transistor at the given node voltages.  Node numbers are
    /// positions in `volts`, negative for ground.  With `prev_volts` the junction
    /// voltages are limited against that estimate.
    fn transistor_stamp(
        &self,
        q: &Transistor<T>,
        volts: &Vec<T>,
        bi: i32,
        ci: i32,
        ei: i32,
        prev_volts: Option<&Vec<T>>,
    ) -> TransistorStamp<T>;

    /// Linearises a diode at the given node voltages.  A Zener diode without a
    /// breakdown current has one of 1e-3 A.  With `prev_volts` the junction voltage is
    /// limited against that estimate.
    fn diode_stamp(
        &self,
        d: &Diode<T>,
        volts: &Vec<T>,
        ai: i32,
        ki: i32,
        prev_volts: Option<&Vec<T>>,
    ) -> DiodeStamp<T>;

    /// Solves the system by sparse factorisation along the pattern of its layout;
    /// `None` if a pivot is too small.
    fn sparse_solve(
        &self,
        matrix: Vec<T>,
        rhs: &Vec<T>,
        size: usize,
        pattern: &P,
    ) -> Option<Vec<T>>;

    /// Solves the system by dense elimination; `None` if it is singular.
    fn dense_solve(&self, matrix: Vec<T>, rhs: Vec<T>, size: usize) -> Option<Vec<T>>;

    /// `base` raised to the power `exponent`.
    fn power(&self, base: T, exponent: T) -> T;
}

/// The contents of an optional list.
pub open spec fn contents<T>(v: Option<&Vec<T>>) -> Option<Seq<T>> {
    match v {
        Some(v) => Some(v@),
        None => None,
    }
}

/// `r` is an answer of the transistor model for transistor `i` at the estimate.
pub open spec fn transistor_answer<T: Number, P, K: Kernel<T, P>>(
    k: K,
    c: CompiledNetlist<T, P>,
    i: int,
    est: Seq<T>,
    prev: Option<Seq<T>>,
    r: TransistorStamp<T>,
) -> bool {
    exists|v: Vec<T>, p: Option<&Vec<T>>|
        v@ == est && contents(p) == prev && #[trigger] call_ensures(
            K::transistor_stamp,
            (
                &k,
                &c.element(c.transistor_indices@, i)->Transistor_params,
                &v,
                c.transistor_node(i, 0),
                c.transistor_node(i, 1),
                c.transistor_node(i, 2),
                p,
            ),
            r,
        )
}

/// The list holds an answer of the transistor model for every transistor.
pub open spec fn transistor_answers<T: Number, P, K: Kernel<T, P>>(
    k: K,
    c: CompiledNetlist<T, P>,
    est: Seq<T>,
    prev: Option<Seq<T>>,
    stamps: Seq<TransistorStamp<T>>,
) -> bool {
    &&& stamps.len() == c.transistor_count
    &&& forall|i: int|
        0 <= i < stamps.len() ==> transistor_answer(k, c, i, est, prev, #[trigger] stamps[i])
}

/// `r` is an answer of the diode model for diode `i` at the estimate.
pub open spec fn diode_answer<T: Number, P, K: Kernel<T, P>>(
    k: K,
    c: CompiledNetlist<T, P>,
    i: int,
    est: Seq<T>,
    prev: Option<Seq<T>>,
    r: DiodeStamp<T>,
) -> bool {
    exists|v: Vec<T>, p: Option<&Vec<T>>|
        v@ == est && contents(p) == prev && #[trigger] call_ensures(
            K::diode_stamp,
            (
                &k,
                &c.element(c.diode_indices@, i)->Diode_params,
                &v,
                c.diode_node(i, 0),
                c.diode_node(i, 1),
                p,
            ),
            r,
        )
}

/// The list holds an answer of the diode model for every diode.
pub open spec fn diode_answers<T: Number, P, K: Kernel<T, P>>(
    k: K,
    c: CompiledNetlist<T, P>,
    est: Seq<T>,
    prev: Option<Seq<T>>,
    stamps: Seq<DiodeStamp<T>>,
) -> bool {
    &&& stamps.len() == c.diode_count
    &&& forall|i: int|
        0 <= i < stamps.len() ==> diode_answer(k, c, i, est, prev, #[trigger] stamps[i])
}

/// Asks the transistor model for every transistor.
pub fn transistor_stamps<T: Number, P, K: Kernel<T, P>>(
    kernel: &K,
    c: &CompiledNetlist<T, P>,
    est: &Vec<T>,
    prev: Option<&Vec<T>>,
) -> (r: Vec<TransistorStamp<T>>)
    requires
        c.wf(),
    ensures
        transistor_answers(*kernel, *c, est@, contents(prev), r@),
{
    let mut stamps: Vec<TransistorStamp<T>> = Vec::new();
    let mut i: usize = 0;
    while i < c.transistor_count
        invariant
            i <= c.transistor_count,
            c.wf(),
            stamps.len() == i,
            forall|j: int|
                0 <= j < i ==> transistor_answer(
                    *kernel,
                    *c,
                    j,
                    est@,
                    contents(prev),
                    #[trigger] stamps@[j],
                ),
        decreases c.transistor_count - i,
    {
        let bi = c.transistor_terminal(i, 0);
        let ci = c.transistor_terminal(i, 1);
        let ei = c.transistor_terminal(i, 2);
        assert(c.element(c.transistor_indices@, i as int) is Transistor);
        if let Element::Transistor { params, .. } = &c.elements[c.transistor_indices[i]] {
            let stamp = kernel.transistor_stamp(params, est, bi, ci, ei, prev);
            assert(transistor_answer(*kernel, *c, i as int, est@, contents(prev), stamp));
            stamps.push(stamp);
        }
        i += 1;
    }
    stamps
}

/// Asks the diode model for every diode.
pub fn diode_stamps<T: Number, P, K: Kernel<T, P>>(
    kernel: &K,
    c: &CompiledNetlist<T, P>,
    est: &Vec<T>,
    prev: Option<&Vec<T>>,
) -> (r: Vec<DiodeStamp<T>>)
    requires
        c.wf(),
    ensures
        diode_answers(*kernel, *c, est@, contents(prev), r@),
{
    let mut stamps: Vec<DiodeStamp<T>> = Vec::new();
    let mut i: usize = 0;
    while i < c.diode_count
        invariant
            i <= c.diode_count,
            c.wf(),
            stamps.len() == i,
            forall|j: int|
                0 <= j < i ==> diode_answer(
                    *kernel,
                    *c,
                    j,
                    est@,
                    contents(prev),
                    #[trigger] stamps@[j],
                ),
        decreases c.diode_count - i,
    {
        let ai = c.diode_terminal(i, 0);
        let ki = c.diode_terminal(i, 1);
        assert(c.element(c.diode_indices@, i as int) is Diode);
        if let Element::Diode { params, .. } = &c.elements[c.diode_indices[i]] {
            let stamp = kernel.diode_stamp(params, est, ai, ki, prev);
            assert(diode_answer(*kernel, *c, i as int, est@, contents(prev), stamp));
            stamps.push(stamp);
        }
        i += 1;
    }
    stamps
}

/// Charge storage in the junctions of the transistors: the timestep, and the
/// junction voltages at its start.
#[verifier::ext_equal]
pub struct Storage<T> {
    pub dt: T,
    pub tj_cap_volts: Seq<T>,
}

/// A parameter, or 0 where there is none.
pub open spec fn or_zero<T: Number>(v: Option<T>) -> T {
    match v {
        Some(v) => v,
        None => zero(),
    }
}

/// The companion model of a junction capacitance `total` between two nodes; none
/// unless the capacitance is positive.
pub open spec fn junction<T: Number>(
    e: Equations<T>,
    a: int,
    b: int,
    total: T,
    dt: T,
    v_prev: T,
) -> Equations<T> {
    if zero::<T>().below(total) {
        let g = total.product(one::<T>().quotient(dt));
        e.capacitor(a, b, g, g.product(v_prev))
    } else {
        e
    }
}

/// The stamps of transistor `i`: its linearisation and, with storage, its
/// junction capacitances `cje + tf gm` and `cjc + tr gmu_b` by backward Euler.
pub open spec fn transistor_stamped<T: Number, P>(
    e: Equations<T>,
    c: CompiledNetlist<T, P>,
    i: int,
    s: TransistorStamp<T>,
    storage: Option<Storage<T>>,
) -> Equations<T> {
    let q = c.element(c.transistor_indices@, i)->Transistor_params;
    let bi = c.transistor_node(i, 0) as int;
    let ci = c.transistor_node(i, 1) as int;
    let ei = c.transistor_node(i, 2) as int;
    let linear = e.transistor(bi, ci, ei, s);
    match storage {
        None => linear,
        Some(storage) => {
            let cbe = q.cje_farads.sum(or_zero(q.tf_seconds).product(s.gm));
            let cbc = q.cjc_farads.sum(or_zero(q.tr_seconds).product(s.gmu_b));
            junction(
                junction(linear, bi, ei, cbe, storage.dt, storage.tj_cap_volts[2 * i]),
                bi,
                ci,
                cbc,
                storage.dt,
                storage.tj_cap_volts[2 * i + 1],
            )
        },
    }
}

/// The stamps of the first `k` transistors.
pub open spec fn transistors_stamped<T: Number, P>(
    e: Equations<T>,
    c: CompiledNetlist<T, P>,
    stamps: Seq<TransistorStamp<T>>,
    storage: Option<Storage<T>>,
    k: nat,
) -> Equations<T>
    decreases k,
{
    if k == 0 {
        e
    } else {
        transistor_stamped(
            transistors_stamped(e, c, stamps, storage, (k - 1) as nat),
            c,
            k - 1,
            stamps[k - 1],
            storage,
        )
    }
}

/// The stamps of the first `k` diodes.
pub open spec fn diodes_stamped<T: Number, P>(
    e: Equations<T>,
    c: CompiledNetlist<T, P>,
    stamps: Seq<DiodeStamp<T>>,
    k: nat,
) -> Equations<T>
    decreases k,
{
    if k == 0 {
        e
    } else {
        diodes_stamped(e, c, stamps, (k - 1) as nat).diode(
            c.diode_node(k - 1, 0) as int,
            c.diode_node(k - 1, 1) as int,
            stamps[k - 1],
        )
    }
}

/// The stamps of all transistors, then all diodes, then all relays.
pub open spec fn devices_stamped<T: Number, P>(
    e: Equations<T>,
    c: CompiledNetlist<T, P>,
    transistors: Seq<TransistorStamp<T>>,
    diodes: Seq<DiodeStamp<T>>,
    storage: Option<Storage<T>>,
    active: Seq<bool>,
) -> Equations<T> {
    relays_stamped(
        diodes_stamped(
            transistors_stamped(e, c, transistors, storage, c.transistor_count as nat),
            c,
            diodes,
            c.diode_count as nat,
        ),
        c,
        active,
        c.relay_count as nat,
    )
}

/// The timestep and the junction voltages at its start, where charge storage is
/// modelled.
pub open spec fn storage_of<T>(storage: Option<(T, &Vec<T>)>) -> Option<Storage<T>> {
    match storage {
        Some((dt, volts)) => Some(Storage { dt, tj_cap_volts: volts@ }),
        None => None,
    }
}

fn given_or_zero<T: Number>(v: Option<T>) -> (r: T)
    ensures
        r == or_zero(v),
{
    match v {
        Some(v) => v,
        None => T::decimal(0, 0),
    }
}

fn stamp_junction<T: Number>(sys: &mut System<T>, a: i32, b: i32, total: T, dt: T, v_prev: T)
    requires
        old(sys)@.wf(),
        old(sys)@.has_row(a as int),
        old(sys)@.has_row(b as int),
    ensures
        final(sys)@ == junction(old(sys)@, a as int, b as int, total, dt, v_prev),
        final(sys)@.wf(),
        final(sys).size == old(sys).size,
{
    if T::decimal(0, 0).lt(total) {
        let g = total.times(T::decimal(1, 0).over(dt));
        stamp_two_node_cap(sys, a, b, g, g.times(v_prev));
    }
}

/// Stamps all transistors, diodes and relays.
pub fn stamp_devices<T: Number, P>(
    sys: &mut System<T>,
    c: &CompiledNetlist<T, P>,
    transistors: &Vec<TransistorStamp<T>>,
    diodes: &Vec<DiodeStamp<T>>,
    storage: Option<(T, &Vec<T>)>,
    relay_active: &Vec<bool>,
)
    requires
        old(sys)@.wf(),
        old(sys).size == c.size,
        c.wf(),
        transistors.len() == c.transistor_count,
        diodes.len() == c.diode_count,
        storage matches Some((_, volts)) ==> volts.len() == c.transistor_count * 2,
        relay_active.len() == c.relay_count,
    ensures
        final(sys)@ == devices_stamped(
            old(sys)@,
            *c,
            transistors@,
            diodes@,
            storage_of(storage),
            relay_active@,
        ),
        final(sys)@.wf(),
        final(sys).size == old(sys).size,
{
    let ghost start = sys@;
    let mut i: usize = 0;
    while i < c.transistor_count
        invariant
            i <= c.transistor_count,
            c.wf(),
            transistors.len() == c.transistor_count,
            storage matches Some((_, volts)) ==> volts.len() == c.transistor_count * 2,
            sys.size == c.size,
            sys@.wf(),
            sys@ == transistors_stamped(start, *c, transistors@, storage_of(storage), i as nat),
        decreases c.transistor_count - i,
    {
        let bi = c.transistor_terminal(i, 0);
        let ci = c.transistor_terminal(i, 1);
        let ei = c.transistor_terminal(i, 2);
        let s = &transistors[i];
        stamp_bjt(sys, bi, ci, ei, s);
        if let Some((dt, volts)) = storage {
            assert(c.element(c.transistor_indices@, i as int) is Transistor);
            if let Element::Transistor { params, .. } = &c.elements[c.transistor_indices[i]] {
                let cbe = params.cje_farads.plus(given_or_zero(params.tf_seconds).times(s.gm));
                let cbc = params.cjc_farads.plus(given_or_zero(params.tr_seconds).times(s.gmu_b));
                stamp_junction(sys, bi, ei, cbe, dt, volts[2 * i]);
                stamp_junction(sys, bi, ci, cbc, dt, volts[2 * i + 1]);
            }
        }
        i += 1;
    }
    let ghost amplified = sys@;
    let mut j: usize = 0;
    while j < c.diode_count
        invariant
            j <= c.diode_count,
            c.wf(),
            diodes.len() == c.diode_count,
            sys.size == c.size,
            sys@.wf(),
            sys@ == diodes_stamped(amplified, *c, diodes@, j as nat),
        decreases c.diode_count - j,
    {
        let ai = c.diode_terminal(j, 0);
        let ki = c.diode_terminal(j, 1);
        stamp_diode(sys, ai, ki, &diodes[j]);
        j += 1;
    }
    stamp_relays(sys, c, relay_active);
}

/// The list, if it has one value for each of `size` unknowns.
pub open spec fn usable<T>(answer: Option<Vec<T>>, size: nat) -> Option<Seq<T>> {
    match answer {
        Some(x) => if x@.len() == size {
            Some(x@)
        } else {
            None
        },
        None => None,
    }
}

/// `r` is an answer of the sparse solver for the system, given the pattern.
pub open spec fn sparse_answer<T: Number, P, K: Kernel<T, P>>(
    k: K,
    e: Equations<T>,
    size: usize,
    pattern: P,
    r: Option<Vec<T>>,
) -> bool {
    exists|matrix: Vec<T>, rhs: Vec<T>|
        matrix@ == e.matrix && rhs@ == e.rhs && #[trigger] call_ensures(
            K::sparse_solve,
            (&k, matrix, &rhs, size, &pattern),
            r,
        )
}

/// `r` is an answer of the dense solver for the system.
pub open spec fn dense_answer<T: Number, P, K: Kernel<T, P>>(
    k: K,
    e: Equations<T>,
    size: usize,
    r: Option<Vec<T>>,
) -> bool {
    exists|matrix: Vec<T>, rhs: Vec<T>|
        matrix@ == e.matrix && rhs@ == e.rhs && #[trigger] call_ensures(
            K::dense_solve,
            (&k, matrix, rhs, size),
            r,
        )
}

/// `x` comes of solving the system sparsely along the pattern or, where that gives
/// no solution, densely.
pub open spec fn solved<T: Number, P, K: Kernel<T, P>>(
    k: K,
    e: Equations<T>,
    size: usize,
    pattern: P,
    x: Option<Seq<T>>,
) -> bool {
    exists|sparse: Option<Vec<T>>| #[trigger]
        sparse_answer(k, e, size, pattern, sparse) && (match usable(sparse, size as nat) {
            Some(solution) => x == Some(solution),
            None => exists|dense: Option<Vec<T>>| #[trigger]
                dense_answer(k, e, size, dense) && x == usable(dense, size as nat),
        })
}

/// `x` comes of linearising the devices at the voltages `volts`, stamping them over
/// `base`, and solving; it is `None` where neither solver had a solution.
pub open spec fn linear_solution<T: Number, P, K: Kernel<T, P>>(
    k: K,
    c: CompiledNetlist<T, P>,
    base: Equations<T>,
    volts: Seq<T>,
    prev_transistor: Option<Seq<T>>,
    prev_diode: Option<Seq<T>>,
    storage: Option<Storage<T>>,
    active: Seq<bool>,
    x: Option<Seq<T>>,
) -> bool {
    exists|transistors: Seq<TransistorStamp<T>>, diodes: Seq<DiodeStamp<T>>| #[trigger]
        transistor_answers(k, c, volts, prev_transistor, transistors) && #[trigger] diode_answers(
            k,
            c,
            volts,
            prev_diode,
            diodes,
        ) && solved(
            k,
            devices_stamped(base, c, transistors, diodes, storage, active),
            c.size,
            c.pattern,
            x,
        )
}

/// Linearises the devices at the given voltages, stamps them over `base` and solves:
/// sparsely, or densely where the sparse solver has no solution.  Factoring spoils
/// the matrix, so the system is built anew for the dense solver.  An answer that
/// does not have one value for each unknown is no solution.
pub fn solve_linearised<T: Number, P, K: Kernel<T, P>>(
    kernel: &K,
    c: &CompiledNetlist<T, P>,
    base: &System<T>,
    volts: &Vec<T>,
    prev_transistor: Option<&Vec<T>>,
    prev_diode: Option<&Vec<T>>,
    storage: Option<(T, &Vec<T>)>,
    relay_active: &Vec<bool>,
) -> (r: Option<Vec<T>>)
    requires
        c.wf(),
        base@.wf(),
        base.size == c.size,
        storage matches Some((_, junctions)) ==> junctions.len() == c.transistor_count * 2,
        relay_active.len() == c.relay_count,
    ensures
        r matches Some(x) ==> x.len() == c.size,
        linear_solution(
            *kernel,
            *c,
            base@,
            volts@,
            contents(prev_transistor),
            contents(prev_diode),
            storage_of(storage),
            relay_active@,
            usable(r, c.size as nat),
        ),
{
    let transistors = transistor_stamps(kernel, c, volts, prev_transistor);
    let diodes = diode_stamps(kernel, c, volts, prev_diode);
    let mut sys = System {
        size: base.size,
        matrix: copy_of(&base.matrix),
        rhs: copy_of(&base.rhs),
    };
    assert(sys@ == base@);
    stamp_devices(&mut sys, c, &transistors, &diodes, storage, relay_active);
    let ghost stamped = sys@;
    let System { matrix, rhs, .. } = sys;
    let sparse = kernel.sparse_solve(matrix, &rhs, c.size, &c.pattern);
    assert(sparse_answer(*kernel, stamped, c.size, c.pattern, sparse));
    if let Some(x) = sparse {
        if x.len() == c.size {
            assert(solved(*kernel, stamped, c.size, c.pattern, Some(x@)));
            return Some(x);
        }
    }
    assert(usable(sparse, c.size as nat) is None);
    let mut again = System {
        size: base.size,
        matrix: copy_of(&base.matrix),
        rhs: copy_of(&base.rhs),
    };
    assert(again@ == base@);
    stamp_devices(&mut again, c, &transistors, &diodes, storage, relay_active);
    let System { matrix, rhs, .. } = again;
    let dense = kernel.dense_solve(matrix, rhs, c.size);
    assert(dense_answer(*kernel, stamped, c.size, dense));
    assert(solved(*kernel, stamped, c.size, c.pattern, usable(dense, c.size as nat)));
    match dense {
        Some(x) => {
            if x.len() == c.size {
                Some(x)
            } else {
                None
            }
        },
        None => None,
    }
}

} // verus!
