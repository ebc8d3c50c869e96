//! Operating-point solver: the state in which the circuit stays at rest.
//!
//! Capacitors are open and inductors are shorts.  Newton first runs on the
//! circuit as it is; where that fails it runs again under a large regularising
//! conductance, which is then lowered step by step to its normal value.

use vstd::prelude::*;

use crate::commit::{
    cap_volts_at, cap_volts_of, inductor_currents_at, inductor_currents_of, junction_volts_at,
    junction_volts_of, node_volts_of, source_currents_at, source_currents_of,
};
use crate::companion::{
    gmin, stamp_gmin, stamp_sources, static_equations, static_system, with_gmin, with_sources,
};
use crate::compiled::CompiledNetlist;
use crate::equations::{Equations, System};
use crate::kernel::{linear_solution, solve_linearised, usable, Kernel};
use crate::netlist::Element;
use crate::newton::{are_finite, peak_of};
use crate::number::{all_finite, copy_of, filled, one, peak, Number, zero};
use crate::relays::{relays_next, update_relay_states};
use crate::state::{zeros, TransientState};
use crate::transient::{move_relays, only_relays};
use crate::types::Polarity;

verus! {

/// Why an operating-point solve failed.
#[derive(Debug, Clone, Copy, PartialEq, Eq, Structural)]
pub enum DcIssue {
    /// The linear solve failed even after the dense fallback.
    SingularMatrix,
    /// Newton did not settle within its budget, or produced a value that is not
    /// an ordinary number.
    DidNotConverge,
}

/// Newton iterations that one pass may take.
pub open spec fn dc_budget<T, P>(c: CompiledNetlist<T, P>) -> nat {
    if c.transistor_count > 0 {
        100
    } else if c.diode_count > 0 {
        50
    } else if c.relay_count > 0 {
        20
    } else {
        1
    }
}

/// Whether the circuit has no device whose stamp depends on the solution.
pub open spec fn linear<T, P>(c: CompiledNetlist<T, P>) -> bool {
    c.transistor_count == 0 && c.diode_count == 0 && c.relay_count == 0
}

/// Where a pass stands.
#[verifier::ext_equal]
pub struct DcMoment<T> {
    /// Estimate of the unknowns.
    pub est: Seq<T>,
    /// The estimate before it, against which junction voltages are limited.
    pub prev: Seq<T>,
    /// Relays as the last estimate left them.
    pub relays: Seq<bool>,
}

/// The largest relative change from the estimate `est` to `x`.
pub open spec fn relative_change<T: Number>(est: Seq<T>, x: Seq<T>) -> T {
    peak(
        Seq::new(
            x.len(),
            |i: int|
                x[i].difference(est[i]).magnitude().quotient(
                    one::<T>().sum(x[i].magnitude().greatest(est[i].magnitude())),
                ),
        ),
        x.len(),
    )
}

/// Whether iteration `i` of a pass may stop at `x`: the solution of a linear
/// circuit is final, and otherwise it must have changed by less than the
/// tolerance since the iteration before.
pub open spec fn accepted<T: Number, P>(
    c: CompiledNetlist<T, P>,
    limiting: bool,
    i: nat,
    est: Seq<T>,
    x: Seq<T>,
) -> bool {
    if i == 0 {
        linear(c)
    } else {
        relative_change(est, x).below(
            if limiting {
                T::decimal_value(1, 6)
            } else {
                T::decimal_value(1, 3)
            },
        )
    }
}

/// What an iteration of a pass came to.
#[derive(Debug, Clone, Copy, PartialEq, Eq, Structural)]
pub enum DcProgress {
    /// Another iteration is due.
    Iterate,
    /// The solution is accepted.
    Converged,
    /// The budget is spent.
    Exhausted,
    /// The solution holds a value that is not an ordinary number.
    Diverged,
}

/// What iteration `i` of a pass comes to, given its solution `x`.
pub open spec fn dc_progress<T: Number, P>(
    c: CompiledNetlist<T, P>,
    limiting: bool,
    i: nat,
    est: Seq<T>,
    x: Seq<T>,
) -> DcProgress {
    if !all_finite(x) {
        DcProgress::Diverged
    } else if accepted(c, limiting, i, est, x) {
        DcProgress::Converged
    } else if i + 1 >= dc_budget(c) {
        DcProgress::Exhausted
    } else {
        DcProgress::Iterate
    }
}

/// The moment after iteration `i`: the solution is the new estimate, and the
/// relays follow it unless it is accepted or diverged.
pub open spec fn dc_next<T: Number, P>(
    c: CompiledNetlist<T, P>,
    limiting: bool,
    i: nat,
    at: DcMoment<T>,
    x: Seq<T>,
) -> DcMoment<T> {
    let ended = dc_progress(c, limiting, i, at.est, x) is Diverged || dc_progress(
        c,
        limiting,
        i,
        at.est,
        x,
    ) is Converged;
    DcMoment {
        est: x,
        prev: if limiting {
            at.est
        } else {
            at.prev
        },
        relays: if ended {
            at.relays
        } else {
            relays_next(c, at.relays, x)
        },
    }
}

/// `x` is what solving the linear system of an iteration at `at` comes to.  A pass
/// with limiting linearises the devices at the whole estimate and limits them
/// against the one before; a pass without it sees the node voltages alone.
pub open spec fn dc_solution<T: Number, P, K: Kernel<T, P>>(
    k: K,
    c: CompiledNetlist<T, P>,
    base: Equations<T>,
    conductance: T,
    limiting: bool,
    at: DcMoment<T>,
    x: Option<Seq<T>>,
) -> bool {
    let prev = if limiting {
        Some(at.prev)
    } else {
        None
    };
    linear_solution(
        k,
        c,
        with_gmin(base, c.gmin_indices@, conductance, c.gmin_indices@.len()),
        if limiting {
            at.est
        } else {
            at.est.take(c.n as int)
        },
        prev,
        prev,
        None,
        at.relays,
        x,
    )
}

/// Iteration `i` of a pass leads from `at` to `to`, and another one is due.
pub open spec fn dc_iterates<T: Number, P, K: Kernel<T, P>>(
    k: K,
    c: CompiledNetlist<T, P>,
    base: Equations<T>,
    conductance: T,
    limiting: bool,
    i: nat,
    at: DcMoment<T>,
    to: DcMoment<T>,
) -> bool {
    exists|x: Seq<T>| #[trigger]
        dc_solution(k, c, base, conductance, limiting, at, Some(x)) && x.len() == c.size
            && dc_progress(c, limiting, i, at.est, x) is Iterate && to == dc_next(
            c,
            limiting,
            i,
            at,
            x,
        )
}

/// The moments at which the iterations of a pass stand: each but the last leads
/// to the next.
pub open spec fn dc_trace<T: Number, P, K: Kernel<T, P>>(
    k: K,
    c: CompiledNetlist<T, P>,
    base: Equations<T>,
    conductance: T,
    limiting: bool,
    start: DcMoment<T>,
    trace: Seq<DcMoment<T>>,
) -> bool {
    &&& trace.len() >= 1
    &&& trace[0] == start
    &&& forall|i: int, j: int|
        #![trigger trace[i], trace[j]]
        0 <= i && j == i + 1 && j < trace.len() ==> dc_iterates(
            k,
            c,
            base,
            conductance,
            limiting,
            i as nat,
            trace[i],
            trace[j],
        )
}

/// How a pass ends at its last moment.
pub open spec fn dc_ends<T: Number, P, K: Kernel<T, P>>(
    k: K,
    c: CompiledNetlist<T, P>,
    base: Equations<T>,
    conductance: T,
    limiting: bool,
    trace: Seq<DcMoment<T>>,
    r: Result<usize, DcIssue>,
    end: DcMoment<T>,
) -> bool {
    let last = trace.last();
    let i = (trace.len() - 1) as nat;
    match r {
        Err(DcIssue::SingularMatrix) => dc_solution(
            k,
            c,
            base,
            conductance,
            limiting,
            last,
            None,
        ) && end == last,
        Err(DcIssue::DidNotConverge) => exists|x: Seq<T>| #[trigger]
            dc_solution(k, c, base, conductance, limiting, last, Some(x)) && x.len() == c.size && (
            dc_progress(c, limiting, i, last.est, x) is Diverged || dc_progress(
                c,
                limiting,
                i,
                last.est,
                x,
            ) is Exhausted) && end == dc_next(c, limiting, i, last, x),
        Ok(iters) => iters == trace.len() && exists|x: Seq<T>| #[trigger]
            dc_solution(k, c, base, conductance, limiting, last, Some(x)) && x.len() == c.size
                && dc_progress(c, limiting, i, last.est, x) is Converged && end == dc_next(
                c,
                limiting,
                i,
                last,
                x,
            ),
    }
}

/// A pass of Newton from `start` returns `r` and leaves off at `end`.
pub open spec fn dc_pass<T: Number, P, K: Kernel<T, P>>(
    k: K,
    c: CompiledNetlist<T, P>,
    base: Equations<T>,
    conductance: T,
    limiting: bool,
    start: DcMoment<T>,
    r: Result<usize, DcIssue>,
    end: DcMoment<T>,
) -> bool {
    exists|trace: Seq<DcMoment<T>>| #[trigger]
        dc_trace(k, c, base, conductance, limiting, start, trace) && dc_ends(
            k,
            c,
            base,
            conductance,
            limiting,
            trace,
            r,
            end,
        )
}

/// A pass of Newton in progress.
pub struct DcRun<T> {
    /// Estimate of the unknowns.
    pub est: Vec<T>,
    /// The estimate before it.
    pub prev: Vec<T>,
    /// Iterations done in this pass.
    pub iteration: usize,
    /// Whether junction voltages are limited against the estimate before.
    pub limiting: bool,
}

impl<T: Number> DcRun<T> {
    /// Where the pass stands, given the relays.
    pub open spec fn moment(self, relays: Seq<bool>) -> DcMoment<T> {
        DcMoment { est: self.est@, prev: self.prev@, relays }
    }
}

fn change_of<T: Number>(est: &Vec<T>, x: &Vec<T>) -> (r: T)
    requires
        est.len() == x.len(),
    ensures
        r == relative_change(est@, x@),
{
    let one = T::decimal(1, 0);
    let ghost all = Seq::new(
        x@.len(),
        |i: int|
            x@[i].difference(est@[i]).magnitude().quotient(
                one.sum(x@[i].magnitude().greatest(est@[i].magnitude())),
            ),
    );
    let mut changes: Vec<T> = Vec::new();
    let mut i: usize = 0;
    while i < x.len()
        invariant
            i <= x.len(),
            est.len() == x.len(),
            all == Seq::new(
                x@.len(),
                |i: int|
                    x@[i].difference(est@[i]).magnitude().quotient(
                        one.sum(x@[i].magnitude().greatest(est@[i].magnitude())),
                    ),
            ),
            changes@ == all.take(i as int),
        decreases x.len() - i,
    {
        let scale = one.plus(x[i].abs().larger(est[i].abs()));
        changes.push(x[i].minus(est[i]).abs().over(scale));
        i += 1;
    }
    assert(changes@ == all);
    peak_of(&changes)
}

/// The iteration budget of a pass.
pub fn dc_iterations<T, P>(c: &CompiledNetlist<T, P>) -> (r: usize)
    ensures
        r == dc_budget(*c),
{
    if c.transistor_count > 0 {
        100
    } else if c.diode_count > 0 {
        50
    } else if c.relay_count > 0 {
        20
    } else {
        1
    }
}

/// Takes one iteration of a pass over the solution `x` of its linear system.
pub fn dc_advance<T: Number, P>(
    c: &CompiledNetlist<T, P>,
    run: &mut DcRun<T>,
    relay_active: &mut Vec<bool>,
    x: Vec<T>,
) -> (r: DcProgress)
    requires
        c.wf(),
        old(run).est.len() == c.size,
        old(run).iteration < dc_budget(*c),
        old(relay_active).len() == c.relay_count,
        x.len() == c.size,
    ensures
        r == dc_progress(
            *c,
            old(run).limiting,
            old(run).iteration as nat,
            old(run).est@,
            x@,
        ),
        final(run).limiting == old(run).limiting,
        final(run).iteration == old(run).iteration + 1,
        final(run).moment(final(relay_active)@) == dc_next(
            *c,
            old(run).limiting,
            old(run).iteration as nat,
            old(run).moment(old(relay_active)@),
            x@,
        ),
{
    let change = change_of(&run.est, &x);
    let first = run.iteration == 0;
    let tolerance = if run.limiting {
        T::decimal(1, 6)
    } else {
        T::decimal(1, 3)
    };
    if run.limiting {
        run.prev = copy_of(&run.est);
    }
    run.est = x;
    run.iteration += 1;
    if !are_finite(&run.est) {
        return DcProgress::Diverged;
    }
    if !first && change.lt(tolerance) {
        return DcProgress::Converged;
    }
    if first && c.transistor_count == 0 && c.diode_count == 0 && c.relay_count == 0 {
        return DcProgress::Converged;
    }
    update_relay_states(c, relay_active, &run.est);
    if run.iteration >= dc_iterations(c) {
        DcProgress::Exhausted
    } else {
        DcProgress::Iterate
    }
}

/// Runs a pass of Newton from the run's estimate, under the given regularising
/// conductance.  Returns the iterations it took.
pub fn newton_pass<T: Number, P, K: Kernel<T, P>>(
    c: &CompiledNetlist<T, P>,
    base: &System<T>,
    conductance: T,
    run: &mut DcRun<T>,
    relay_active: &mut Vec<bool>,
    kernel: &K,
) -> (r: Result<usize, DcIssue>)
    requires
        c.wf(),
        base@.wf(),
        base.size == c.size,
        old(run).est.len() == c.size,
        old(relay_active).len() == c.relay_count,
    ensures
        final(run).limiting == old(run).limiting,
        final(run).est.len() == c.size,
        final(relay_active).len() == c.relay_count,
        r matches Ok(iters) ==> iters <= dc_budget(*c) && all_finite(final(run).est@),
        dc_pass(
            *kernel,
            *c,
            base@,
            conductance,
            old(run).limiting,
            old(run).moment(old(relay_active)@),
            r,
            final(run).moment(final(relay_active)@),
        ),
{
    let mut sys = System {
        size: base.size,
        matrix: copy_of(&base.matrix),
        rhs: copy_of(&base.rhs),
    };
    assert(sys@ == base@);
    stamp_gmin(&mut sys, &c.gmin_indices, conductance);
    run.iteration = 0;
    let ghost limiting = run.limiting;
    let ghost start = run.moment(relay_active@);
    let ghost mut trace: Seq<DcMoment<T>> = seq![start];
    loop
        invariant
            c.wf(),
            sys@ == with_gmin(base@, c.gmin_indices@, conductance, c.gmin_indices@.len()),
            sys@.wf(),
            sys.size == c.size,
            limiting == old(run).limiting,
            run.limiting == limiting,
            start == old(run).moment(old(relay_active)@),
            run.est.len() == c.size,
            relay_active.len() == c.relay_count,
            run.iteration < dc_budget(*c),
            trace.len() == run.iteration + 1,
            trace.last() == run.moment(relay_active@),
            dc_trace(*kernel, *c, base@, conductance, limiting, start, trace),
        decreases dc_budget(*c) - run.iteration,
    {
        let ghost at = trace.last();
        let ghost i = run.iteration as nat;
        let prev = if run.limiting {
            Some(&run.prev)
        } else {
            None
        };
        let node_volts = node_volts_of(c, &run.est);
        let volts = if run.limiting {
            &run.est
        } else {
            &node_volts
        };
        let answer = solve_linearised(
            kernel,
            c,
            &sys,
            volts,
            prev,
            prev,
            None,
            relay_active,
        );
        assert(dc_solution(
            *kernel,
            *c,
            base@,
            conductance,
            limiting,
            at,
            usable(answer, c.size as nat),
        ));
        let x = match answer {
            Some(x) => x,
            None => {
                assert(dc_ends(
                    *kernel,
                    *c,
                    base@,
                    conductance,
                    limiting,
                    trace,
                    Err(DcIssue::SingularMatrix),
                    run.moment(relay_active@),
                ));
                return Err(DcIssue::SingularMatrix);
            },
        };
        let ghost solution = x@;
        assert(dc_solution(*kernel, *c, base@, conductance, limiting, at, Some(solution)));
        match dc_advance(c, run, relay_active, x) {
            DcProgress::Diverged | DcProgress::Exhausted => {
                assert(dc_ends(
                    *kernel,
                    *c,
                    base@,
                    conductance,
                    limiting,
                    trace,
                    Err(DcIssue::DidNotConverge),
                    run.moment(relay_active@),
                ));
                return Err(DcIssue::DidNotConverge);
            },
            DcProgress::Converged => {
                assert(dc_ends(
                    *kernel,
                    *c,
                    base@,
                    conductance,
                    limiting,
                    trace,
                    Ok(run.iteration),
                    run.moment(relay_active@),
                ));
                return Ok(run.iteration);
            },
            DcProgress::Iterate => {
                proof {
                    let to = dc_next(*c, limiting, i, at, solution);
                    assert(dc_iterates(*kernel, *c, base@, conductance, limiting, i, at, to));
                    lemma_dc_trace_extends(
                        *kernel,
                        *c,
                        base@,
                        conductance,
                        limiting,
                        start,
                        trace,
                        to,
                    );
                    trace = trace.push(to);
                }
            },
        }
    }
}

proof fn lemma_dc_trace_extends<T: Number, P, K: Kernel<T, P>>(
    k: K,
    c: CompiledNetlist<T, P>,
    base: Equations<T>,
    conductance: T,
    limiting: bool,
    start: DcMoment<T>,
    trace: Seq<DcMoment<T>>,
    to: DcMoment<T>,
)
    requires
        dc_trace(k, c, base, conductance, limiting, start, trace),
        dc_iterates(
            k,
            c,
            base,
            conductance,
            limiting,
            (trace.len() - 1) as nat,
            trace.last(),
            to,
        ),
    ensures
        dc_trace(k, c, base, conductance, limiting, start, trace.push(to)),
{
    let longer = trace.push(to);
    assert forall|i: int, j: int|
        #![trigger longer[i], longer[j]]
        0 <= i && j == i + 1 && j < longer.len() implies dc_iterates(
        k,
        c,
        base,
        conductance,
        limiting,
        i as nat,
        longer[i],
        longer[j],
    ) by {
        if j < trace.len() {
            assert(longer[i] == trace[i]);
            assert(longer[j] == trace[j]);
        }
    }
}

/// The largest source voltage, at least 5 V, over the first `k` sources.
pub open spec fn supply_voltage<T: Number>(values: Seq<T>, k: nat) -> T
    decreases k,
{
    if k == 0 {
        T::decimal_value(5, 0)
    } else {
        supply_voltage(values, (k - 1) as nat).greatest(values[k - 1].magnitude())
    }
}

/// The estimate with the voltage of a node replaced, unless the node is ground.
pub open spec fn placed<T>(est: Seq<T>, node: i32, v: T) -> Seq<T> {
    if node >= 0 {
        est.update(node as int, v)
    } else {
        est
    }
}

/// The voltages at which Newton starts on a transistor under a supply `vcc`:
/// emitter, base and collector.
pub open spec fn bias_guess<T: Number>(polarity: Polarity, vcc: T) -> (T, T, T) {
    let half = vcc.product(T::decimal_value(5, 1));
    match polarity {
        Polarity::Npn => (zero(), T::decimal_value(6, 1), half),
        Polarity::Pnp => (vcc, vcc.product(T::decimal_value(9, 1)), half),
    }
}

/// The start of an operating-point solve after the first `k` transistors have
/// been placed in their active region; everything else is zero.
pub open spec fn warm_start<T: Number, P>(c: CompiledNetlist<T, P>, vcc: T, k: nat) -> Seq<T>
    decreases k,
{
    if k == 0 {
        zeros(c.size as nat)
    } else {
        let (ve, vb, vc) = bias_guess(
            c.element(c.transistor_indices@, k - 1)->Transistor_params.polarity,
            vcc,
        );
        placed(
            placed(
                placed(
                    warm_start(c, vcc, (k - 1) as nat),
                    c.transistor_node(k - 1, 2),
                    ve,
                ),
                c.transistor_node(k - 1, 0),
                vb,
            ),
            c.transistor_node(k - 1, 1),
            vc,
        )
    }
}

/// Where an operating-point solve starts.
pub open spec fn dc_start<T: Number, P>(c: CompiledNetlist<T, P>) -> Seq<T> {
    warm_start(
        c,
        supply_voltage(c.voltage_source_values@, c.voltage_source_values@.len()),
        c.transistor_count as nat,
    )
}

/// The system of an operating-point solve without its devices: static stamps and
/// sources.  Inductors keep only their incidence, which makes them shorts.
pub open spec fn dc_equations<T: Number, P>(c: CompiledNetlist<T, P>) -> Equations<T> {
    with_sources(
        static_equations(c, c.static_stamps@.len()),
        c,
        c.voltage_source_branch_rows@.len(),
    )
}

fn supply_of<T: Number>(values: &Vec<T>) -> (r: T)
    ensures
        r == supply_voltage(values@, values@.len()),
{
    let mut most = T::decimal(5, 0);
    let mut i: usize = 0;
    while i < values.len()
        invariant
            i <= values.len(),
            most == supply_voltage(values@, i as nat),
        decreases values.len() - i,
    {
        most = most.larger(values[i].abs());
        i += 1;
    }
    most
}

fn place<T: Copy>(est: &mut Vec<T>, node: i32, v: T)
    requires
        node < old(est).len(),
    ensures
        final(est)@ == placed(old(est)@, node, v),
{
    if node >= 0 {
        est[node as usize] = v;
    }
}

/// The estimate from which an operating-point solve starts.
pub fn start_estimate<T: Number, P>(c: &CompiledNetlist<T, P>) -> (r: Vec<T>)
    requires
        c.wf(),
    ensures
        r@ == dc_start(*c),
        r.len() == c.size,
{
    let vcc = supply_of(&c.voltage_source_values);
    let nothing = T::decimal(0, 0);
    let mut est = filled(nothing, c.size);
    assert(est@ == zeros::<T>(c.size as nat));
    let mut i: usize = 0;
    while i < c.transistor_count
        invariant
            i <= c.transistor_count,
            c.wf(),
            nothing == zero::<T>(),
            est.len() == c.size,
            est@ == warm_start(*c, vcc, i as nat),
        decreases c.transistor_count - i,
    {
        let bi = c.transistor_terminal(i, 0);
        let ci = c.transistor_terminal(i, 1);
        let ei = c.transistor_terminal(i, 2);
        assert(c.element(c.transistor_indices@, i as int) is Transistor);
        if let Element::Transistor { params, .. } = &c.elements[c.transistor_indices[i]] {
            let half = vcc.times(T::decimal(5, 1));
            let (ve, vb) = match params.polarity {
                Polarity::Npn => (nothing, T::decimal(6, 1)),
                Polarity::Pnp => (vcc, vcc.times(T::decimal(9, 1))),
            };
            place(&mut est, ei, ve);
            place(&mut est, bi, vb);
            place(&mut est, ci, half);
        }
        i += 1;
    }
    est
}

/// The conductance from which the stepping starts, 1e-2.
pub open spec fn first_conductance<T: Number>() -> T {
    T::decimal_value(1, 2)
}

/// The conductance of pass `j` of the stepping: multiplied by `factor` from pass
/// to pass, but never below its normal value.
pub open spec fn stepped_conductance<T: Number>(factor: T, j: nat) -> T
    decreases j,
{
    if j == 0 {
        first_conductance()
    } else {
        let lowered = stepped_conductance(factor, (j - 1) as nat).product(factor);
        if lowered.below(gmin()) {
            gmin()
        } else {
            lowered
        }
    }
}

/// Steps in which the conductance comes down; one pass more runs at the start.
pub const GMIN_STEPS: usize = 10;

/// `factor` is an answer of the kernel for the tenth root of the ratio between
/// the normal conductance and the first one.
pub open spec fn factor_answer<T: Number, P, K: Kernel<T, P>>(k: K, factor: T) -> bool {
    call_ensures(
        K::power,
        (
            &k,
            gmin::<T>().quotient(first_conductance()),
            one::<T>().quotient(T::decimal_value(10, 0)),
        ),
        factor,
    )
}

/// The sum of the first `k` counts.
pub open spec fn total(counts: Seq<usize>, k: nat) -> nat
    decreases k,
{
    if k == 0 {
        0
    } else {
        total(counts, (k - 1) as nat) + counts[k - 1] as nat
    }
}

/// The moments between the passes of the stepping: pass `j` leads from
/// `stages[j]` to `stages[j + 1]` in `counts[j]` iterations.
pub open spec fn stepping<T: Number, P, K: Kernel<T, P>>(
    k: K,
    c: CompiledNetlist<T, P>,
    factor: T,
    start: DcMoment<T>,
    stages: Seq<DcMoment<T>>,
    counts: Seq<usize>,
) -> bool {
    &&& stages.len() == counts.len() + 1
    &&& stages.len() <= GMIN_STEPS + 2
    &&& stages[0] == start
    &&& forall|j: int|
        #![trigger counts[j]]
        0 <= j < counts.len() ==> dc_pass(
            k,
            c,
            dc_equations(c),
            stepped_conductance(factor, j as nat),
            true,
            stages[j],
            Ok(counts[j]),
            stages[j + 1],
        )
}

/// The state after committing an operating point: the new values are those of the
/// estimate, and the next step starts without history.
pub open spec fn dc_committed<T: Number, P>(
    c: CompiledNetlist<T, P>,
    before: TransientState<T>,
    est: Seq<T>,
    relays: Seq<bool>,
    after: TransientState<T>,
) -> bool {
    &&& after.node_volts@ == est.take(c.n as int)
    &&& after.cap_volts@ == cap_volts_at(c, est)
    &&& after.inductor_currents@ == inductor_currents_at(c, est)
    &&& after.voltage_source_currents@ == source_currents_at(c, est)
    &&& after.tj_cap_volts@ == junction_volts_at(c, est)
    &&& after.relay_active@ == relays
    &&& !after.gear2_ready
    &&& after.prev_dt == zero::<T>()
    &&& after == TransientState {
        node_volts: after.node_volts,
        cap_volts: after.cap_volts,
        inductor_currents: after.inductor_currents,
        voltage_source_currents: after.voltage_source_currents,
        tj_cap_volts: after.tj_cap_volts,
        relay_active: after.relay_active,
        relay_toggled: false,
        gear2_ready: false,
        prev_dt: after.prev_dt,
        ..before
    }
}

/// How the stepping ends: all passes converge and the last estimate is committed,
/// or one of them fails and nothing changes but the relays.
pub open spec fn stepping_ends<T: Number, P, K: Kernel<T, P>>(
    k: K,
    c: CompiledNetlist<T, P>,
    before: TransientState<T>,
    factor: T,
    stages: Seq<DcMoment<T>>,
    counts: Seq<usize>,
    r: Result<usize, DcIssue>,
    after: TransientState<T>,
) -> bool {
    match r {
        Ok(iters) => counts.len() == GMIN_STEPS + 1 && iters == total(counts, counts.len())
            && dc_committed(c, before, stages.last().est, stages.last().relays, after),
        Err(issue) => counts.len() <= GMIN_STEPS && exists|end: DcMoment<T>| #[trigger]
            dc_pass(
                k,
                c,
                dc_equations(c),
                stepped_conductance(factor, counts.len()),
                true,
                stages.last(),
                Err(issue),
                end,
            ) && only_relays(before, after, end.relays),
    }
}

/// What an operating-point solve comes to after its first pass returned `direct`
/// and left off at `reached`.
pub open spec fn dc_concludes<T: Number, P, K: Kernel<T, P>>(
    k: K,
    c: CompiledNetlist<T, P>,
    before: TransientState<T>,
    direct: Result<usize, DcIssue>,
    reached: DcMoment<T>,
    r: Result<usize, DcIssue>,
    after: TransientState<T>,
) -> bool {
    match direct {
        Ok(iters) => r == direct && dc_committed(c, before, reached.est, reached.relays, after),
        Err(_) => exists|factor: T, stages: Seq<DcMoment<T>>, counts: Seq<usize>|
            factor_answer(k, factor) && #[trigger] stepping(
                k,
                c,
                factor,
                DcMoment { est: dc_start(c), prev: dc_start(c), relays: reached.relays },
                stages,
                counts,
            ) && stepping_ends(k, c, before, factor, stages, counts, r, after),
    }
}

/// The first pass of an operating-point solve from state `s`.
pub open spec fn direct_pass<T: Number, P, K: Kernel<T, P>>(
    k: K,
    c: CompiledNetlist<T, P>,
    s: TransientState<T>,
    direct: Result<usize, DcIssue>,
    reached: DcMoment<T>,
) -> bool {
    dc_pass(
        k,
        c,
        dc_equations(c),
        gmin(),
        false,
        DcMoment { est: dc_start(c), prev: dc_start(c), relays: s.relay_active@ },
        direct,
        reached,
    )
}

/// What an operating-point solve from state `s` may return, and the state it
/// leaves.
pub open spec fn dc_solved<T: Number, P, K: Kernel<T, P>>(
    k: K,
    c: CompiledNetlist<T, P>,
    s: TransientState<T>,
    r: Result<usize, DcIssue>,
    after: TransientState<T>,
) -> bool {
    exists|direct: Result<usize, DcIssue>, reached: DcMoment<T>| #[trigger]
        direct_pass(k, c, s, direct, reached) && dc_concludes(k, c, s, direct, reached, r, after)
}

/// Commits an estimate as the operating point.  An estimate with a node voltage
/// that is not an ordinary number is refused, and the state stays as it is but for
/// the relays.
pub fn commit_dc<T: Number, P>(
    c: &CompiledNetlist<T, P>,
    state: &mut TransientState<T>,
    est: &Vec<T>,
    relays: Vec<bool>,
    iters: usize,
) -> (r: Result<usize, DcIssue>)
    requires
        c.wf(),
        old(state).fits(*c),
        est.len() == c.size,
        relays.len() == c.relay_count,
    ensures
        final(state).fits(*c),
        all_finite(est@.take(c.n as int)) ==> r == Ok::<usize, DcIssue>(iters) && dc_committed(
            *c,
            *old(state),
            est@,
            relays@,
            *final(state),
        ),
        !all_finite(est@.take(c.n as int)) ==> r == Err::<usize, DcIssue>(DcIssue::DidNotConverge)
            && only_relays(*old(state), *final(state), relays@),
{
    let node_volts = node_volts_of(c, est);
    if !are_finite(&node_volts) {
        move_relays(state, relays);
        return Err(DcIssue::DidNotConverge);
    }
    state.node_volts = node_volts;
    state.cap_volts = cap_volts_of(c, est);
    state.inductor_currents = inductor_currents_of(c, est);
    state.voltage_source_currents = source_currents_of(c, est);
    state.tj_cap_volts = junction_volts_of(c, est);
    state.relay_active = relays;
    state.relay_toggled = false;
    state.gear2_ready = false;
    state.prev_dt = T::decimal(0, 0);
    Ok(iters)
}

/// Solves for the operating point and writes it into the state.
///
/// Returns the number of Newton iterations.  On failure nothing of the state
/// changes but the relays that flipped on the way.
pub fn solve_dc<T: Number, P, K: Kernel<T, P>>(
    c: &CompiledNetlist<T, P>,
    state: &mut TransientState<T>,
    kernel: &K,
) -> (r: Result<usize, DcIssue>)
    requires
        c.wf(),
        old(state).fits(*c),
    ensures
        final(state).fits(*c),
        dc_solved(*kernel, *c, *old(state), r, *final(state)),
{
    let ghost s = *state;
    let mut base = static_system(c);
    stamp_sources(&mut base, c);
    let start = start_estimate(c);
    let mut run = DcRun {
        est: copy_of(&start),
        prev: copy_of(&start),
        iteration: 0,
        limiting: false,
    };
    let normal = T::decimal(1, 9);
    let mut relays = copy_of(&state.relay_active);
    let direct = newton_pass(c, &base, normal, &mut run, &mut relays, kernel);
    let ghost reached = run.moment(relays@);
    assert(direct_pass(*kernel, *c, s, direct, reached));
    if let Ok(iters) = direct {
        let result = commit_dc(c, state, &run.est, relays, iters);
        assert(all_finite(run.est@.take(c.n as int)));
        assert(dc_concludes(*kernel, *c, s, direct, reached, result, *state));
        return result;
    }
    let first = T::decimal(1, 2);
    let factor = kernel.power(normal.over(first), T::decimal(1, 0).over(T::decimal(10, 0)));
    assert(factor_answer(*kernel, factor));
    run.est = copy_of(&start);
    run.prev = start;
    run.limiting = true;
    let ghost begin = run.moment(relays@);
    let ghost mut stages: Seq<DcMoment<T>> = seq![begin];
    let ghost mut counts: Seq<usize> = seq![];
    let mut conductance = first;
    let mut iters: usize = 0;
    let mut j: usize = 0;
    while j <= GMIN_STEPS
        invariant
            c.wf(),
            s == *old(state),
            s.fits(*c),
            base@ == dc_equations(*c),
            base@.wf(),
            base.size == c.size,
            direct is Err,
            direct_pass(*kernel, *c, s, direct, reached),
            begin == (DcMoment {
                est: dc_start(*c),
                prev: dc_start(*c),
                relays: reached.relays,
            }),
            normal == gmin::<T>(),
            factor_answer(*kernel, factor),
            *state == s,
            relays.len() == c.relay_count,
            run.limiting,
            run.est.len() == c.size,
            j > 0 ==> all_finite(run.est@),
            stages.last() == run.moment(relays@),
            conductance == stepped_conductance(factor, j as nat),
            j <= GMIN_STEPS + 1,
            counts.len() == j,
            iters == total(counts, j as nat),
            iters <= 100 * j,
            stepping(*kernel, *c, factor, begin, stages, counts),
        decreases GMIN_STEPS + 1 - j,
    {
        let pass = newton_pass(
            c,
            &base,
            conductance,
            &mut run,
            &mut relays,
            kernel,
        );
        let ghost to = run.moment(relays@);
        match pass {
            Err(issue) => {
                move_relays(state, relays);
                assert(stepping_ends(
                    *kernel,
                    *c,
                    s,
                    factor,
                    stages,
                    counts,
                    Err(issue),
                    *state,
                ));
                assert(dc_concludes(*kernel, *c, s, direct, reached, Err(issue), *state));
                return Err(issue);
            },
            Ok(count) => {
                proof {
                    let more = counts.push(count);
                    let further = stages.push(to);
                    assert forall|i: int| #![trigger more[i]] 0 <= i < more.len() implies dc_pass(
                        *kernel,
                        *c,
                        dc_equations(*c),
                        stepped_conductance(factor, i as nat),
                        true,
                        further[i],
                        Ok(more[i]),
                        further[i + 1],
                    ) by {
                        if i < counts.len() {
                            assert(more[i] == counts[i]);
                            assert(further[i] == stages[i]);
                            assert(further[i + 1] == stages[i + 1]);
                        }
                    }
                    lemma_total_prefix(counts, more, counts.len());
                    counts = more;
                    stages = further;
                }
                iters += count;
            },
        }
        conductance = conductance.times(factor);
        if conductance.lt(normal) {
            conductance = normal;
        }
        j += 1;
    }
    let result = commit_dc(c, state, &run.est, relays, iters);
    assert(all_finite(run.est@.take(c.n as int)));
    assert(stepping_ends(*kernel, *c, s, factor, stages, counts, result, *state));
    assert(dc_concludes(*kernel, *c, s, direct, reached, result, *state));
    result
}

proof fn lemma_total_prefix(a: Seq<usize>, b: Seq<usize>, k: nat)
    requires
        k <= a.len(),
        k <= b.len(),
        forall|i: int| 0 <= i < k ==> a[i] == b[i],
    ensures
        total(a, k) == total(b, k),
    decreases k,
{
    if k > 0 {
        lemma_total_prefix(a, b, (k - 1) as nat);
    }
}

} // verus!
