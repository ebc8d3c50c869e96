//! Newton iteration of a timestep: the predicted start, the damped update with
//! its guards, and the test for convergence.

use vstd::prelude::*;

use crate::compiled::CompiledNetlist;
use crate::number::{all_finite, peak, Number, zero};
use crate::relays::{relays_next, update_relay_states};
use crate::state::TransientState;

verus! {

/// Newton iterations that a step may take: one for a linear circuit, more where
/// there are relays, diodes or transistors.
pub open spec fn iteration_budget(
    transistor_count: usize,
    diode_count: usize,
    relay_count: usize,
) -> nat {
    if transistor_count > 0 {
        20
    } else if diode_count > 0 {
        10
    } else if relay_count > 0 {
        3
    } else {
        1
    }
}

/// The iteration budget of a circuit.
pub open spec fn step_budget<T, P>(c: CompiledNetlist<T, P>) -> nat {
    iteration_budget(c.transistor_count, c.diode_count, c.relay_count)
}

/// Maximum Newton iterations for a circuit with the given devices.
pub fn total_iterations(
    transistor_count: usize,
    diode_count: usize,
    relay_count: usize,
) -> (r: usize)
    ensures
        r == iteration_budget(transistor_count, diode_count, relay_count),
{
    let q_iter: usize = if transistor_count > 0 {
        20
    } else {
        1
    };
    let d_iter: usize = if diode_count > 0 {
        10
    } else {
        1
    };
    let r_iter: usize = if relay_count > 0 {
        3
    } else {
        1
    };
    let qd_iter = if q_iter < d_iter {
        d_iter
    } else {
        q_iter
    };
    if qd_iter < r_iter {
        r_iter
    } else {
        qd_iter
    }
}

/// Whether the history allows a prediction: a step has been committed, and its
/// length is known.
pub open spec fn predicts<T: Number>(s: TransientState<T>) -> bool {
    s.gear2_ready && zero::<T>().below(s.prev_dt)
}

/// Largest correction that the predictor applies to a node, 1.5 V.
pub open spec fn predictor_clip<T: Number>() -> T {
    T::decimal_value(15, 1)
}

/// The node voltage that the predictor expects: the last change, scaled to the
/// new timestep (at most fourfold) and clipped, once more.
pub open spec fn extrapolated<T: Number>(s: TransientState<T>, dt: T, i: int) -> T {
    let ratio = dt.quotient(s.prev_dt).least(T::decimal_value(4, 0));
    let change = s.node_volts@[i].difference(s.prev_node_volts@[i]).product(ratio);
    s.node_volts@[i].sum(
        change.greatest(predictor_clip::<T>().opposite()).least(predictor_clip()),
    )
}

/// Where Newton starts: the predicted node voltages if there is a prediction, the
/// last ones otherwise; branch currents start at zero.
pub open spec fn first_estimate<T: Number, P>(
    c: CompiledNetlist<T, P>,
    s: TransientState<T>,
    dt: T,
) -> Seq<T> {
    Seq::new(
        c.size as nat,
        |i: int|
            if i >= c.n {
                zero()
            } else if predicts(s) {
                extrapolated(s, dt, i)
            } else {
                s.node_volts@[i]
            },
    )
}

/// Whether the history allows a prediction.
pub fn can_predict<T: Number>(s: &TransientState<T>) -> (r: bool)
    ensures
        r == predicts(*s),
{
    s.gear2_ready && T::decimal(0, 0).lt(s.prev_dt)
}

/// The estimate that Newton starts from.
pub fn predict<T: Number, P>(c: &CompiledNetlist<T, P>, s: &TransientState<T>, dt: T) -> (r: Vec<T>)
    requires
        c.wf(),
        s.fits(*c),
    ensures
        r@ == first_estimate(*c, *s, dt),
{
    let nothing = T::decimal(0, 0);
    let clip = T::decimal(15, 1);
    let floor = clip.negated();
    let predicted = can_predict(s);
    let mut est: Vec<T> = Vec::new();
    let mut i: usize = 0;
    while i < c.size
        invariant
            i <= c.size,
            c.wf(),
            s.fits(*c),
            nothing == zero::<T>(),
            clip == predictor_clip::<T>(),
            floor == clip.opposite(),
            predicted == predicts(*s),
            est@ == first_estimate(*c, *s, dt).take(i as int),
        decreases c.size - i,
    {
        if i >= c.n {
            est.push(nothing);
        } else if predicted {
            let ratio = dt.over(s.prev_dt).smaller(T::decimal(4, 0));
            let curr = s.node_volts[i];
            let change = curr.minus(s.prev_node_volts[i]).times(ratio);
            est.push(curr.plus(change.larger(floor).smaller(clip)));
        } else {
            est.push(s.node_volts[i]);
        }
        i += 1;
    }
    est
}

/// Where a Newton iteration stands.
#[verifier::ext_equal]
pub struct Moment<T> {
    /// Estimate of the unknowns.
    pub est: Seq<T>,
    /// Largest node voltage change that the last solve asked for.
    pub last_delta: T,
    /// Relays as the last estimate left them.
    pub relays: Seq<bool>,
}

/// Largest move of a node voltage in one iteration, 1 V.
pub open spec fn step_limit<T: Number>() -> T {
    T::decimal_value(1, 0)
}

/// A move, limited to one volt either way.
pub open spec fn limited<T: Number>(move_: T) -> T {
    if step_limit::<T>().below(move_) {
        step_limit()
    } else if move_.below(step_limit::<T>().opposite()) {
        step_limit::<T>().opposite()
    } else {
        move_
    }
}

/// The largest node voltage change that a solution asks for.
pub open spec fn asked_delta<T: Number>(est: Seq<T>, x: Seq<T>, n: nat) -> T {
    peak(Seq::new(n, |i: int| x[i].difference(est[i]).magnitude()), n)
}

/// Damping of an iteration: a full step first; a tenth when the change asked for
/// more than doubled; a moderate fraction otherwise.
pub open spec fn damping<T: Number>(iteration: nat, asked: T, last_delta: T) -> T {
    if iteration == 0 {
        T::decimal_value(1, 0)
    } else if last_delta.product(T::decimal_value(2, 0)).below(asked) {
        T::decimal_value(1, 1)
    } else if iteration < 3 {
        T::decimal_value(6, 1)
    } else {
        T::decimal_value(3, 1)
    }
}

/// The estimate after a solution: node voltages move toward it, limited and
/// damped; branch currents take it over.
pub open spec fn moved<T: Number>(est: Seq<T>, x: Seq<T>, n: nat, damping: T) -> Seq<T> {
    Seq::new(
        x.len(),
        |i: int|
            if i < n {
                est[i].sum(damping.product(limited(x[i].difference(est[i]))))
            } else {
                x[i]
            },
    )
}

/// The estimate after iteration `iteration` from `at`, given the solution `x`.
pub open spec fn refined<T: Number, P>(
    c: CompiledNetlist<T, P>,
    iteration: nat,
    at: Moment<T>,
    x: Seq<T>,
) -> Seq<T> {
    let n = c.n as nat;
    moved(at.est, x, n, damping(iteration, asked_delta(at.est, x, n), at.last_delta))
}

/// The moment after iteration `iteration` from `at`, given the solution `x`.
pub open spec fn next_moment<T: Number, P>(
    c: CompiledNetlist<T, P>,
    iteration: nat,
    at: Moment<T>,
    x: Seq<T>,
) -> Moment<T> {
    let est = refined(c, iteration, at, x);
    Moment {
        est,
        last_delta: asked_delta(at.est, x, c.n as nat),
        relays: relays_next(c, at.relays, est),
    }
}

/// Whether an iteration moved the nodes by no more than the tolerance
/// `1e-4 max|V| + 1e-6`.
pub open spec fn within_tolerance<T: Number, P>(
    c: CompiledNetlist<T, P>,
    iteration: nat,
    at: Moment<T>,
    x: Seq<T>,
) -> bool {
    let n = c.n as nat;
    let est = refined(c, iteration, at, x);
    let max_delta = peak(
        Seq::new(n, |i: int| limited(x[i].difference(at.est[i])).magnitude()),
        n,
    );
    let max_v = peak(Seq::new(n, |i: int| est[i].magnitude()), n);
    max_delta.below(T::decimal_value(1, 4).product(max_v).sum(T::decimal_value(1, 6)))
}

/// What an iteration came to.
#[derive(Debug, Clone, Copy, PartialEq, Eq, Structural)]
pub enum Progress {
    /// Another iteration is due.
    Iterate,
    /// Newton converged, or its budget is spent; the estimate is to be committed.
    Settled,
    /// The estimate holds a value that is not an ordinary number.
    Diverged,
}

/// What iteration `iteration` from `at` comes to, given the solution `x`.
///
/// Convergence is accepted from the second iteration on if the start was
/// predicted, from the third on otherwise.
pub open spec fn progress<T: Number, P>(
    c: CompiledNetlist<T, P>,
    predicted: bool,
    iteration: nat,
    at: Moment<T>,
    x: Seq<T>,
) -> Progress {
    let first_accepted: nat = if predicted {
        1
    } else {
        2
    };
    if !all_finite(refined(c, iteration, at, x)) {
        Progress::Diverged
    } else if iteration + 1 >= step_budget(c) || (iteration >= first_accepted && within_tolerance(
        c,
        iteration,
        at,
        x,
    )) {
        Progress::Settled
    } else {
        Progress::Iterate
    }
}

/// A Newton iteration in progress.
pub struct NewtonRun<T> {
    /// Estimate of the unknowns.
    pub est: Vec<T>,
    /// Largest node voltage change that the last solve asked for.
    pub last_delta: T,
    /// Iterations done.
    pub iteration: usize,
    /// Whether the start was predicted.
    pub predicted: bool,
}

impl<T: Number> NewtonRun<T> {
    /// Where the run stands, given the relays.
    pub open spec fn moment(self, relays: Seq<bool>) -> Moment<T> {
        Moment { est: self.est@, last_delta: self.last_delta, relays }
    }
}

fn limit<T: Number>(move_: T) -> (r: T)
    ensures
        r == limited(move_),
{
    let most = T::decimal(1, 0);
    let least = most.negated();
    if most.lt(move_) {
        most
    } else if move_.lt(least) {
        least
    } else {
        move_
    }
}

fn damping_of<T: Number>(iteration: usize, asked: T, last_delta: T) -> (r: T)
    ensures
        r == damping(iteration as nat, asked, last_delta),
{
    if iteration == 0 {
        T::decimal(1, 0)
    } else if last_delta.times(T::decimal(2, 0)).lt(asked) {
        T::decimal(1, 1)
    } else if iteration < 3 {
        T::decimal(6, 1)
    } else {
        T::decimal(3, 1)
    }
}

/// The largest of the values, as [`peak`] has it.
pub fn peak_of<T: Number>(values: &Vec<T>) -> (r: T)
    ensures
        r == peak(values@, values@.len()),
{
    let mut most = T::decimal(0, 0);
    let mut i: usize = 0;
    while i < values.len()
        invariant
            i <= values.len(),
            most == peak(values@, i as nat),
        decreases values.len() - i,
    {
        if most.lt(values[i]) {
            most = values[i];
        }
        i += 1;
    }
    most
}

/// Whether every value is an ordinary number.
pub fn are_finite<T: Number>(values: &Vec<T>) -> (r: bool)
    ensures
        r == all_finite(values@),
{
    let mut i: usize = 0;
    while i < values.len()
        invariant
            i <= values.len(),
            forall|j: int| 0 <= j < i ==> (#[trigger] values@[j]).finite(),
        decreases values.len() - i,
    {
        if !values[i].is_finite() {
            return false;
        }
        i += 1;
    }
    true
}

/// Takes one Newton iteration over the solution `x` of its linear system.
///
/// Unless the estimate diverged, the relays follow it, so that the next
/// iteration stamps the contacts where they now are.
pub fn newton_advance<T: Number, P>(
    c: &CompiledNetlist<T, P>,
    run: &mut NewtonRun<T>,
    relay_active: &mut Vec<bool>,
    x: &Vec<T>,
) -> (r: Progress)
    requires
        c.wf(),
        old(run).est.len() == c.size,
        old(run).iteration < step_budget(*c),
        old(relay_active).len() == c.relay_count,
        x.len() == c.size,
    ensures
        r == progress(
            *c,
            old(run).predicted,
            old(run).iteration as nat,
            old(run).moment(old(relay_active)@),
            x@,
        ),
        final(run).predicted == old(run).predicted,
        final(run).iteration == old(run).iteration + 1,
        final(run).est@ == refined(
            *c,
            old(run).iteration as nat,
            old(run).moment(old(relay_active)@),
            x@,
        ),
        r is Diverged ==> final(relay_active)@ == old(relay_active)@,
        !(r is Diverged) ==> final(run).moment(final(relay_active)@) == next_moment(
            *c,
            old(run).iteration as nat,
            old(run).moment(old(relay_active)@),
            x@,
        ),
{
    let ghost at = run.moment(relay_active@);
    let ghost iteration = run.iteration as nat;
    let ghost n = c.n as nat;
    let ghost asked_moves = Seq::new(n, |i: int| x@[i].difference(at.est[i]).magnitude());
    let ghost made_moves = Seq::new(n, |i: int| limited(x@[i].difference(at.est[i])).magnitude());
    let mut asked: Vec<T> = Vec::new();
    let mut made: Vec<T> = Vec::new();
    let mut i: usize = 0;
    while i < c.n
        invariant
            i <= c.n,
            c.wf(),
            n == c.n,
            run.est@ == at.est,
            run.est.len() == c.size,
            x.len() == c.size,
            asked_moves == Seq::new(n, |i: int| x@[i].difference(at.est[i]).magnitude()),
            made_moves == Seq::new(n, |i: int| limited(x@[i].difference(at.est[i])).magnitude()),
            asked@ == asked_moves.take(i as int),
            made@ == made_moves.take(i as int),
        decreases c.n - i,
    {
        let move_ = x[i].minus(run.est[i]);
        asked.push(move_.abs());
        made.push(limit(move_).abs());
        i += 1;
    }
    assert(asked@ == asked_moves);
    assert(made@ == made_moves);
    let asked_max = peak_of(&asked);
    let max_delta = peak_of(&made);
    let damp = damping_of(run.iteration, asked_max, run.last_delta);

    let ghost target = moved(at.est, x@, n, damp);
    let mut est: Vec<T> = Vec::new();
    let mut volts: Vec<T> = Vec::new();
    let ghost magnitudes = Seq::new(n, |i: int| target[i].magnitude());
    let mut j: usize = 0;
    while j < c.size
        invariant
            j <= c.size,
            c.wf(),
            n == c.n,
            run.est@ == at.est,
            run.est.len() == c.size,
            x.len() == c.size,
            target == moved(at.est, x@, n, damp),
            magnitudes == Seq::new(n, |i: int| target[i].magnitude()),
            est@ == target.take(j as int),
            volts@ == magnitudes.take(
                if j < n {
                    j as int
                } else {
                    n as int
                },
            ),
        decreases c.size - j,
    {
        if j < c.n {
            let v = run.est[j].plus(damp.times(limit(x[j].minus(run.est[j]))));
            assert(v == target[j as int]);
            est.push(v);
            volts.push(v.abs());
        } else {
            est.push(x[j]);
        }
        j += 1;
    }
    assert(est@ == target);
    assert(volts@ == magnitudes);
    let finite = are_finite(&est);
    let done = run.iteration + 1;
    let first_accepted: usize = if run.predicted {
        1
    } else {
        2
    };
    let converged = run.iteration >= first_accepted && {
        let max_v = peak_of(&volts);
        max_delta.lt(T::decimal(1, 4).times(max_v).plus(T::decimal(1, 6)))
    };
    run.est = est;
    run.last_delta = asked_max;
    run.iteration = done;
    if !finite {
        return Progress::Diverged;
    }
    update_relay_states(c, relay_active, &run.est);
    if converged || done >= total_iterations(c.transistor_count, c.diode_count, c.relay_count) {
        Progress::Settled
    } else {
        Progress::Iterate
    }
}

} // verus!
