//! What an operating point does not depend on: capacitors are open and inductors are
//! shorts, whatever their values.

use vstd::prelude::*;

use crate::commit::{
    cap_volts_at, inductor_currents_at, junction_volts_at, source_currents_at,
};
use crate::companion::{gmin, static_equations, with_gmin, with_sources};
use crate::compiled::CompiledNetlist;
use crate::dc::{
    dc_committed, dc_concludes, dc_ends, dc_equations, dc_iterates, dc_next, dc_pass, dc_progress,
    dc_solution, dc_solved, dc_start, dc_trace, direct_pass, factor_answer, stepped_conductance,
    stepping, stepping_ends, supply_voltage, warm_start, DcIssue, DcMoment,
};
use crate::equations::Equations;
use crate::kernel::{
    devices_stamped, diode_answer, diode_answers, diodes_stamped, linear_solution, solved,
    transistor_answer, transistor_answers, transistors_stamped, Kernel,
};
use crate::netlist::Element;
use crate::number::Number;
use crate::relays::{relay_next, relays_next, relays_stamped};
use crate::state::TransientState;
use crate::transient::only_relays;
use crate::types::{DiodeStamp, TransistorStamp};

verus! {

/// Two elements are the same but for what an operating point does not read: the
/// parameters of capacitors and of inductors.
pub open spec fn rest_alike<T>(e: Element<T>, f: Element<T>) -> bool {
    e.alike(f) || (e is Capacitor && f is Capacitor) || (e is Inductor && f is Inductor)
}

/// Two layouts are the same but for the parameters of capacitors and inductors, and
/// the mutual inductances that come of them.
pub open spec fn layouts_rest_alike<T, P>(
    c: CompiledNetlist<T, P>,
    d: CompiledNetlist<T, P>,
) -> bool {
    &&& c.n == d.n
    &&& c.m == d.m
    &&& c.size == d.size
    &&& c.static_stamps@ == d.static_stamps@
    &&& c.gmin_indices@ == d.gmin_indices@
    &&& c.voltage_source_branch_rows@ == d.voltage_source_branch_rows@
    &&& c.voltage_source_values@ == d.voltage_source_values@
    &&& c.cap_count == d.cap_count
    &&& c.cap_stamp_indices@ == d.cap_stamp_indices@
    &&& c.inductor_count == d.inductor_count
    &&& c.inductor_branch_rows@ == d.inductor_branch_rows@
    &&& c.transistor_count == d.transistor_count
    &&& c.transistor_indices@ == d.transistor_indices@
    &&& c.transistor_node_indices@ == d.transistor_node_indices@
    &&& c.diode_count == d.diode_count
    &&& c.diode_indices@ == d.diode_indices@
    &&& c.diode_node_indices@ == d.diode_node_indices@
    &&& c.relay_count == d.relay_count
    &&& c.relay_indices@ == d.relay_indices@
    &&& c.relay_node_indices@ == d.relay_node_indices@
    &&& c.pattern == d.pattern
    &&& c.elements@.len() == d.elements@.len()
    &&& forall|i: int|
        0 <= i < c.elements@.len() ==> #[trigger] rest_alike(c.elements@[i], d.elements@[i])
}

/// The layouts of this module: consistent, and alike at rest.
pub open spec fn comparable<T, P>(c: CompiledNetlist<T, P>, d: CompiledNetlist<T, P>) -> bool {
    c.wf() && d.wf() && layouts_rest_alike(c, d)
}

proof fn lemma_same_transistor<T: Number, P>(
    c: CompiledNetlist<T, P>,
    d: CompiledNetlist<T, P>,
    i: int,
)
    requires
        comparable(c, d),
        0 <= i < c.transistor_count,
    ensures
        c.element(c.transistor_indices@, i)->Transistor_params == d.element(
            d.transistor_indices@,
            i,
        )->Transistor_params,
        forall|t: int| c.transistor_node(i, t) == #[trigger] d.transistor_node(i, t),
{
    assert(c.element(c.transistor_indices@, i) is Transistor);
    assert(rest_alike(
        c.elements@[c.transistor_indices@[i] as int],
        d.elements@[c.transistor_indices@[i] as int],
    ));
}

proof fn lemma_same_diode<T: Number, P>(c: CompiledNetlist<T, P>, d: CompiledNetlist<T, P>, i: int)
    requires
        comparable(c, d),
        0 <= i < c.diode_count,
    ensures
        c.element(c.diode_indices@, i)->Diode_params == d.element(
            d.diode_indices@,
            i,
        )->Diode_params,
        forall|t: int| c.diode_node(i, t) == #[trigger] d.diode_node(i, t),
{
    assert(c.element(c.diode_indices@, i) is Diode);
    assert(rest_alike(
        c.elements@[c.diode_indices@[i] as int],
        d.elements@[c.diode_indices@[i] as int],
    ));
}

proof fn lemma_same_relay<T: Number, P>(c: CompiledNetlist<T, P>, d: CompiledNetlist<T, P>, i: int)
    requires
        comparable(c, d),
        0 <= i < c.relay_count,
    ensures
        c.element(c.relay_indices@, i)->coil_resistance_ohms == d.element(
            d.relay_indices@,
            i,
        )->coil_resistance_ohms,
        c.element(c.relay_indices@, i)->ron_ohms == d.element(d.relay_indices@, i)->ron_ohms,
        c.element(c.relay_indices@, i)->roff_ohms == d.element(d.relay_indices@, i)->roff_ohms,
        c.element(c.relay_indices@, i)->on_current == d.element(d.relay_indices@, i)->on_current,
        c.element(c.relay_indices@, i)->off_current == d.element(d.relay_indices@, i)->off_current,
        forall|t: int| c.relay_node(i, t) == #[trigger] d.relay_node(i, t),
{
    assert(c.element(c.relay_indices@, i) is Relay);
    assert(rest_alike(
        c.elements@[c.relay_indices@[i] as int],
        d.elements@[c.relay_indices@[i] as int],
    ));
}

proof fn lemma_same_static<T: Number, P>(c: CompiledNetlist<T, P>, d: CompiledNetlist<T, P>, k: nat)
    requires
        comparable(c, d),
    ensures
        static_equations(c, k) == static_equations(d, k),
    decreases k,
{
    if k > 0 {
        lemma_same_static(c, d, (k - 1) as nat);
    }
}

proof fn lemma_same_sources<T: Number, P>(
    e: Equations<T>,
    c: CompiledNetlist<T, P>,
    d: CompiledNetlist<T, P>,
    k: nat,
)
    requires
        comparable(c, d),
    ensures
        with_sources(e, c, k) == with_sources(e, d, k),
    decreases k,
{
    if k > 0 {
        lemma_same_sources(e, c, d, (k - 1) as nat);
    }
}

proof fn lemma_same_dc_equations<T: Number, P>(c: CompiledNetlist<T, P>, d: CompiledNetlist<T, P>)
    requires
        comparable(c, d),
    ensures
        dc_equations(c) == dc_equations(d),
{
    lemma_same_static(c, d, c.static_stamps@.len());
    lemma_same_sources(
        static_equations(c, c.static_stamps@.len()),
        c,
        d,
        c.voltage_source_branch_rows@.len(),
    );
}

proof fn lemma_same_warm_start<T: Number, P>(
    c: CompiledNetlist<T, P>,
    d: CompiledNetlist<T, P>,
    vcc: T,
    k: nat,
)
    requires
        comparable(c, d),
        k <= c.transistor_count,
    ensures
        warm_start(c, vcc, k) == warm_start(d, vcc, k),
    decreases k,
{
    if k > 0 {
        lemma_same_warm_start(c, d, vcc, (k - 1) as nat);
        lemma_same_transistor(c, d, k - 1);
        assert(d.transistor_node(k - 1, 0) == c.transistor_node(k - 1, 0));
        assert(d.transistor_node(k - 1, 1) == c.transistor_node(k - 1, 1));
        assert(d.transistor_node(k - 1, 2) == c.transistor_node(k - 1, 2));
    }
}

proof fn lemma_same_dc_start<T: Number, P>(c: CompiledNetlist<T, P>, d: CompiledNetlist<T, P>)
    requires
        comparable(c, d),
    ensures
        dc_start(c) == dc_start(d),
{
    lemma_same_warm_start(
        c,
        d,
        supply_voltage(c.voltage_source_values@, c.voltage_source_values@.len()),
        c.transistor_count as nat,
    );
}

proof fn lemma_same_transistors_stamped<T: Number, P>(
    e: Equations<T>,
    c: CompiledNetlist<T, P>,
    d: CompiledNetlist<T, P>,
    stamps: Seq<TransistorStamp<T>>,
    k: nat,
)
    requires
        comparable(c, d),
        k <= c.transistor_count,
    ensures
        transistors_stamped(e, c, stamps, None, k) == transistors_stamped(e, d, stamps, None, k),
    decreases k,
{
    if k > 0 {
        lemma_same_transistors_stamped(e, c, d, stamps, (k - 1) as nat);
        lemma_same_transistor(c, d, k - 1);
        assert(d.transistor_node(k - 1, 0) == c.transistor_node(k - 1, 0));
        assert(d.transistor_node(k - 1, 1) == c.transistor_node(k - 1, 1));
        assert(d.transistor_node(k - 1, 2) == c.transistor_node(k - 1, 2));
    }
}

proof fn lemma_same_diodes_stamped<T: Number, P>(
    e: Equations<T>,
    c: CompiledNetlist<T, P>,
    d: CompiledNetlist<T, P>,
    stamps: Seq<DiodeStamp<T>>,
    k: nat,
)
    requires
        comparable(c, d),
        k <= c.diode_count,
    ensures
        diodes_stamped(e, c, stamps, k) == diodes_stamped(e, d, stamps, k),
    decreases k,
{
    if k > 0 {
        lemma_same_diodes_stamped(e, c, d, stamps, (k - 1) as nat);
        lemma_same_diode(c, d, k - 1);
        assert(d.diode_node(k - 1, 0) == c.diode_node(k - 1, 0));
        assert(d.diode_node(k - 1, 1) == c.diode_node(k - 1, 1));
    }
}

proof fn lemma_same_relays_stamped<T: Number, P>(
    e: Equations<T>,
    c: CompiledNetlist<T, P>,
    d: CompiledNetlist<T, P>,
    active: Seq<bool>,
    k: nat,
)
    requires
        comparable(c, d),
        k <= c.relay_count,
    ensures
        relays_stamped(e, c, active, k) == relays_stamped(e, d, active, k),
    decreases k,
{
    if k > 0 {
        lemma_same_relays_stamped(e, c, d, active, (k - 1) as nat);
        lemma_same_relay(c, d, k - 1);
        assert(d.relay_node(k - 1, 0) == c.relay_node(k - 1, 0));
        assert(d.relay_node(k - 1, 1) == c.relay_node(k - 1, 1));
        assert(d.relay_node(k - 1, 2) == c.relay_node(k - 1, 2));
        assert(d.relay_node(k - 1, 3) == c.relay_node(k - 1, 3));
        assert(d.relay_node(k - 1, 4) == c.relay_node(k - 1, 4));
    }
}

proof fn lemma_same_devices<T: Number, P>(
    e: Equations<T>,
    c: CompiledNetlist<T, P>,
    d: CompiledNetlist<T, P>,
    transistors: Seq<TransistorStamp<T>>,
    diodes: Seq<DiodeStamp<T>>,
    active: Seq<bool>,
)
    requires
        comparable(c, d),
    ensures
        devices_stamped(e, c, transistors, diodes, None, active) == devices_stamped(
            e,
            d,
            transistors,
            diodes,
            None,
            active,
        ),
{
    let amplified = transistors_stamped(e, c, transistors, None, c.transistor_count as nat);
    let rectified = diodes_stamped(amplified, c, diodes, c.diode_count as nat);
    lemma_same_transistors_stamped(e, c, d, transistors, c.transistor_count as nat);
    lemma_same_diodes_stamped(amplified, c, d, diodes, c.diode_count as nat);
    lemma_same_relays_stamped(rectified, c, d, active, c.relay_count as nat);
}

proof fn lemma_same_relays_next<T: Number, P>(
    c: CompiledNetlist<T, P>,
    d: CompiledNetlist<T, P>,
    active: Seq<bool>,
    est: Seq<T>,
)
    requires
        comparable(c, d),
    ensures
        relays_next(c, active, est) == relays_next(d, active, est),
{
    assert forall|i: int| 0 <= i < c.relay_count implies #[trigger] relay_next(c, active, est, i)
        == relay_next(d, active, est, i) by {
        lemma_same_relay(c, d, i);
        assert(d.relay_node(i, 0) == c.relay_node(i, 0));
        assert(d.relay_node(i, 1) == c.relay_node(i, 1));
    }
    assert forall|i: int| 0 <= i < active.len() implies relays_next(c, active, est)[i]
        == relays_next(d, active, est)[i] by {
        if i < c.relay_count {
            assert(relay_next(c, active, est, i) == relay_next(d, active, est, i));
        }
    }
    assert(relays_next(c, active, est) =~= relays_next(d, active, est));
}

proof fn lemma_solution_carries<T: Number, P, K: Kernel<T, P>>(
    k: K,
    c: CompiledNetlist<T, P>,
    d: CompiledNetlist<T, P>,
    base: Equations<T>,
    conductance: T,
    limiting: bool,
    at: DcMoment<T>,
    x: Option<Seq<T>>,
)
    requires
        comparable(c, d),
        dc_solution(k, c, base, conductance, limiting, at, x),
    ensures
        dc_solution(k, d, base, conductance, limiting, at, x),
{
    let prev = if limiting {
        Some(at.prev)
    } else {
        None
    };
    let volts = if limiting {
        at.est
    } else {
        at.est.take(c.n as int)
    };
    let e = with_gmin(base, c.gmin_indices@, conductance, c.gmin_indices@.len());
    let (ts, ds) = choose|ts: Seq<TransistorStamp<T>>, ds: Seq<DiodeStamp<T>>| #[trigger]
        transistor_answers(k, c, volts, prev, ts) && #[trigger] diode_answers(
            k,
            c,
            volts,
            prev,
            ds,
        ) && solved(k, devices_stamped(e, c, ts, ds, None, at.relays), c.size, c.pattern, x);
    assert forall|i: int| 0 <= i < ts.len() implies transistor_answer(
        k,
        d,
        i,
        volts,
        prev,
        #[trigger] ts[i],
    ) by {
        assert(transistor_answer(k, c, i, volts, prev, ts[i]));
        lemma_same_transistor(c, d, i);
        assert(d.transistor_node(i, 0) == c.transistor_node(i, 0));
        assert(d.transistor_node(i, 1) == c.transistor_node(i, 1));
        assert(d.transistor_node(i, 2) == c.transistor_node(i, 2));
    }
    assert forall|i: int| 0 <= i < ds.len() implies diode_answer(
        k,
        d,
        i,
        volts,
        prev,
        #[trigger] ds[i],
    ) by {
        assert(diode_answer(k, c, i, volts, prev, ds[i]));
        lemma_same_diode(c, d, i);
        assert(d.diode_node(i, 0) == c.diode_node(i, 0));
        assert(d.diode_node(i, 1) == c.diode_node(i, 1));
    }
    lemma_same_devices(e, c, d, ts, ds, at.relays);
    assert(transistor_answers(k, d, volts, prev, ts));
    assert(diode_answers(k, d, volts, prev, ds));
    assert(linear_solution(k, d, e, volts, prev, prev, None, at.relays, x));
}

proof fn lemma_next_carries<T: Number, P>(
    c: CompiledNetlist<T, P>,
    d: CompiledNetlist<T, P>,
    limiting: bool,
    i: nat,
    at: DcMoment<T>,
    x: Seq<T>,
)
    requires
        comparable(c, d),
    ensures
        dc_progress(c, limiting, i, at.est, x) == dc_progress(d, limiting, i, at.est, x),
        dc_next(c, limiting, i, at, x) == dc_next(d, limiting, i, at, x),
{
    lemma_same_relays_next(c, d, at.relays, x);
}

proof fn lemma_pass_carries<T: Number, P, K: Kernel<T, P>>(
    k: K,
    c: CompiledNetlist<T, P>,
    d: CompiledNetlist<T, P>,
    base: Equations<T>,
    conductance: T,
    limiting: bool,
    start: DcMoment<T>,
    r: Result<usize, DcIssue>,
    end: DcMoment<T>,
)
    requires
        comparable(c, d),
        dc_pass(k, c, base, conductance, limiting, start, r, end),
    ensures
        dc_pass(k, d, base, conductance, limiting, start, r, end),
{
    let trace = choose|trace: Seq<DcMoment<T>>| #[trigger]
        dc_trace(k, c, base, conductance, limiting, start, trace) && dc_ends(
            k,
            c,
            base,
            conductance,
            limiting,
            trace,
            r,
            end,
        );
    assert forall|at: DcMoment<T>, x: Option<Seq<T>>| #[trigger]
        dc_solution(k, c, base, conductance, limiting, at, x) implies dc_solution(
        k,
        d,
        base,
        conductance,
        limiting,
        at,
        x,
    ) by {
        lemma_solution_carries(k, c, d, base, conductance, limiting, at, x);
    }
    assert forall|i: int, j: int|
        #![trigger trace[i], trace[j]]
        0 <= i && j == i + 1 && j < trace.len() implies dc_iterates(
        k,
        d,
        base,
        conductance,
        limiting,
        i as nat,
        trace[i],
        trace[j],
    ) by {
        assert(dc_iterates(k, c, base, conductance, limiting, i as nat, trace[i], trace[j]));
        let x = choose|x: Seq<T>| #[trigger]
            dc_solution(k, c, base, conductance, limiting, trace[i], Some(x)) && x.len() == c.size
                && dc_progress(c, limiting, i as nat, trace[i].est, x) is Iterate && trace[j]
                == dc_next(c, limiting, i as nat, trace[i], x);
        lemma_next_carries(c, d, limiting, i as nat, trace[i], x);
        assert(dc_solution(k, d, base, conductance, limiting, trace[i], Some(x)));
    }
    let last = trace.last();
    let i = (trace.len() - 1) as nat;
    assert forall|x: Seq<T>| #[trigger]
        dc_solution(k, c, base, conductance, limiting, last, Some(x)) implies dc_progress(
        c,
        limiting,
        i,
        last.est,
        x,
    ) == dc_progress(d, limiting, i, last.est, x) && dc_next(c, limiting, i, last, x) == dc_next(
        d,
        limiting,
        i,
        last,
        x,
    ) by {
        lemma_next_carries(c, d, limiting, i, last, x);
    }
    assert(dc_trace(k, d, base, conductance, limiting, start, trace));
    if r == Err::<usize, DcIssue>(DcIssue::SingularMatrix) {
        assert(dc_solution(k, c, base, conductance, limiting, last, None));
    } else {
        let x = choose|x: Seq<T>| #[trigger]
            dc_solution(k, c, base, conductance, limiting, last, Some(x)) && x.len() == c.size
                && !(dc_progress(c, limiting, i, last.est, x) is Iterate) && (r is Ok
                <==> dc_progress(c, limiting, i, last.est, x) is Converged) && end == dc_next(
                c,
                limiting,
                i,
                last,
                x,
            );
        assert(dc_solution(k, d, base, conductance, limiting, last, Some(x)));
    }
    assert(dc_ends(k, d, base, conductance, limiting, trace, r, end));
}

proof fn lemma_commit_carries<T: Number, P>(
    c: CompiledNetlist<T, P>,
    d: CompiledNetlist<T, P>,
    before: TransientState<T>,
    est: Seq<T>,
    relays: Seq<bool>,
    after: TransientState<T>,
)
    requires
        comparable(c, d),
        dc_committed(c, before, est, relays, after),
    ensures
        dc_committed(d, before, est, relays, after),
{
    assert(cap_volts_at(c, est) =~= cap_volts_at(d, est));
    assert(inductor_currents_at(c, est) =~= inductor_currents_at(d, est));
    assert(source_currents_at(c, est) =~= source_currents_at(d, est));
    assert(junction_volts_at(c, est) =~= junction_volts_at(d, est));
}

proof fn lemma_stepping_carries<T: Number, P, K: Kernel<T, P>>(
    k: K,
    c: CompiledNetlist<T, P>,
    d: CompiledNetlist<T, P>,
    before: TransientState<T>,
    factor: T,
    start: DcMoment<T>,
    stages: Seq<DcMoment<T>>,
    counts: Seq<usize>,
    r: Result<usize, DcIssue>,
    after: TransientState<T>,
)
    requires
        comparable(c, d),
        stepping(k, c, factor, start, stages, counts),
        stepping_ends(k, c, before, factor, stages, counts, r, after),
    ensures
        stepping(k, d, factor, start, stages, counts),
        stepping_ends(k, d, before, factor, stages, counts, r, after),
{
    lemma_same_dc_equations(c, d);
    assert forall|j: int| #![trigger counts[j]] 0 <= j < counts.len() implies dc_pass(
        k,
        d,
        dc_equations(d),
        stepped_conductance(factor, j as nat),
        true,
        stages[j],
        Ok(counts[j]),
        stages[j + 1],
    ) by {
        lemma_pass_carries(
            k,
            c,
            d,
            dc_equations(c),
            stepped_conductance(factor, j as nat),
            true,
            stages[j],
            Ok(counts[j]),
            stages[j + 1],
        );
    }
    match r {
        Ok(_) => {
            lemma_commit_carries(c, d, before, stages.last().est, stages.last().relays, after);
        },
        Err(issue) => {
            let g = stepped_conductance(factor, counts.len());
            let end = choose|end: DcMoment<T>| #[trigger]
                dc_pass(k, c, dc_equations(c), g, true, stages.last(), Err(issue), end)
                    && only_relays(before, after, end.relays);
            lemma_pass_carries(
                k,
                c,
                d,
                dc_equations(c),
                g,
                true,
                stages.last(),
                Err(issue),
                end,
            );
        },
    }
}

/// Capacitors are open and inductors are shorts: two layouts that differ only in the
/// parameters of their capacitors and inductors have the same operating points, and
/// fail to have one in the same ways.
pub proof fn law_operating_point_ignores_storage<T: Number, P, K: Kernel<T, P>>(
    k: K,
    c: CompiledNetlist<T, P>,
    d: CompiledNetlist<T, P>,
    s: TransientState<T>,
    r: Result<usize, DcIssue>,
    after: TransientState<T>,
)
    requires
        c.wf(),
        d.wf(),
        layouts_rest_alike(c, d),
        dc_solved(k, c, s, r, after),
    ensures
        dc_solved(k, d, s, r, after),
{
    let (direct, reached) = choose|direct: Result<usize, DcIssue>, reached: DcMoment<T>|
     #[trigger]
        direct_pass(k, c, s, direct, reached) && dc_concludes(k, c, s, direct, reached, r, after);
    lemma_same_dc_equations(c, d);
    lemma_same_dc_start(c, d);
    lemma_pass_carries(
        k,
        c,
        d,
        dc_equations(c),
        gmin(),
        false,
        DcMoment { est: dc_start(c), prev: dc_start(c), relays: s.relay_active@ },
        direct,
        reached,
    );
    match direct {
        Ok(_) => {
            lemma_commit_carries(c, d, s, reached.est, reached.relays, after);
        },
        Err(_) => {
            let start = DcMoment { est: dc_start(c), prev: dc_start(c), relays: reached.relays };
            let (factor, stages, counts) = choose|
                factor: T,
                stages: Seq<DcMoment<T>>,
                counts: Seq<usize>,
            |
                factor_answer(k, factor) && #[trigger] stepping(
                    k,
                    c,
                    factor,
                    start,
                    stages,
                    counts,
                ) && stepping_ends(k, c, s, factor, stages, counts, r, after);
            lemma_stepping_carries(k, c, d, s, factor, start, stages, counts, r, after);
        },
    }
    assert(direct_pass(k, d, s, direct, reached));
    assert(dc_concludes(k, d, s, direct, reached, r, after));
}

} // verus!
