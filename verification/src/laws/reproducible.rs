//! What holds where the services of the kernel are functions: then so is the
//! simulation.

use vstd::prelude::*;

use crate::companion::{gmin, step_equations, with_gmin};
use crate::compiled::CompiledNetlist;
use crate::dc::{
    dc_concludes, dc_ends, dc_equations, dc_iterates, dc_next, dc_pass, dc_progress, dc_solution,
    dc_solved, dc_start, dc_trace, direct_pass, factor_answer, stepped_conductance, stepping,
    stepping_ends, DcIssue, DcMoment,
};
use crate::equations::Equations;
use crate::kernel::{
    dense_answer, devices_stamped, diode_answer, diode_answers, linear_solution, solved,
    sparse_answer, transistor_answer, transistor_answers, usable, Kernel, Storage,
};
use crate::newton::{next_moment, predicts, progress, Moment};
use crate::number::Number;
use crate::state::TransientState;
use crate::transient::{
    iterates, iteration_solution, newton_trace, only_relays, step_ends, stepped, truncation_error,
    usable_timestep, uses_gear2, StepConfig, StepIssue, StepResult,
};
use crate::types::{DiodeStamp, TransistorStamp};

verus! {

/// Each service gives one answer to one question.
pub open spec fn unambiguous<T: Number, P, K: Kernel<T, P>>(k: K) -> bool {
    &&& forall|
        c: CompiledNetlist<T, P>,
        i: int,
        est: Seq<T>,
        prev: Option<Seq<T>>,
        a: TransistorStamp<T>,
        b: TransistorStamp<T>,
    |
        #![trigger
            transistor_answer(k, c, i, est, prev, a),
            transistor_answer(k, c, i, est, prev, b)
        ]
        transistor_answer(k, c, i, est, prev, a) && transistor_answer(k, c, i, est, prev, b)
            ==> a == b
    &&& forall|
        c: CompiledNetlist<T, P>,
        i: int,
        est: Seq<T>,
        prev: Option<Seq<T>>,
        a: DiodeStamp<T>,
        b: DiodeStamp<T>,
    |
        #![trigger diode_answer(k, c, i, est, prev, a), diode_answer(k, c, i, est, prev, b)]
        diode_answer(k, c, i, est, prev, a) && diode_answer(k, c, i, est, prev, b) ==> a == b
    &&& forall|e: Equations<T>, size: usize, pattern: P, a: Option<Vec<T>>, b: Option<Vec<T>>|
        #![trigger sparse_answer(k, e, size, pattern, a), sparse_answer(k, e, size, pattern, b)]
        sparse_answer(k, e, size, pattern, a) && sparse_answer(k, e, size, pattern, b) ==> usable(
            a,
            size as nat,
        ) == usable(b, size as nat)
    &&& forall|e: Equations<T>, size: usize, a: Option<Vec<T>>, b: Option<Vec<T>>|
        #![trigger dense_answer(k, e, size, a), dense_answer(k, e, size, b)]
        dense_answer(k, e, size, a) && dense_answer(k, e, size, b) ==> usable(a, size as nat)
            == usable(b, size as nat)
    &&& forall|a: T, b: T|
        #![trigger factor_answer(k, a), factor_answer(k, b)]
        factor_answer(k, a) && factor_answer(k, b) ==> a == b
}

proof fn lemma_solved_once<T: Number, P, K: Kernel<T, P>>(
    k: K,
    e: Equations<T>,
    size: usize,
    pattern: P,
    x: Option<Seq<T>>,
    y: Option<Seq<T>>,
)
    requires
        unambiguous(k),
        solved(k, e, size, pattern, x),
        solved(k, e, size, pattern, y),
    ensures
        x == y,
{
}

proof fn lemma_one_solution<T: Number, P, K: Kernel<T, P>>(
    k: K,
    c: CompiledNetlist<T, P>,
    base: Equations<T>,
    volts: Seq<T>,
    prev_transistor: Option<Seq<T>>,
    prev_diode: Option<Seq<T>>,
    storage: Option<Storage<T>>,
    active: Seq<bool>,
    x: Option<Seq<T>>,
    y: Option<Seq<T>>,
)
    requires
        unambiguous(k),
        linear_solution(k, c, base, volts, prev_transistor, prev_diode, storage, active, x),
        linear_solution(k, c, base, volts, prev_transistor, prev_diode, storage, active, y),
    ensures
        x == y,
{
    let (t1, d1) = choose|t: Seq<TransistorStamp<T>>, d: Seq<DiodeStamp<T>>| #[trigger]
        transistor_answers(k, c, volts, prev_transistor, t) && #[trigger] diode_answers(
            k,
            c,
            volts,
            prev_diode,
            d,
        ) && solved(
            k,
            devices_stamped(base, c, t, d, storage, active),
            c.size,
            c.pattern,
            x,
        );
    let (t2, d2) = choose|t: Seq<TransistorStamp<T>>, d: Seq<DiodeStamp<T>>| #[trigger]
        transistor_answers(k, c, volts, prev_transistor, t) && #[trigger] diode_answers(
            k,
            c,
            volts,
            prev_diode,
            d,
        ) && solved(
            k,
            devices_stamped(base, c, t, d, storage, active),
            c.size,
            c.pattern,
            y,
        );
    assert forall|i: int| 0 <= i < t1.len() implies t1[i] == t2[i] by {
        assert(transistor_answer(k, c, i, volts, prev_transistor, t1[i]));
        assert(transistor_answer(k, c, i, volts, prev_transistor, t2[i]));
    }
    assert(t1 =~= t2);
    assert forall|i: int| 0 <= i < d1.len() implies d1[i] == d2[i] by {
        assert(diode_answer(k, c, i, volts, prev_diode, d1[i]));
        assert(diode_answer(k, c, i, volts, prev_diode, d2[i]));
    }
    assert(d1 =~= d2);
    lemma_solved_once(
        k,
        devices_stamped(base, c, t1, d1, storage, active),
        c.size,
        c.pattern,
        x,
        y,
    );
}

proof fn lemma_one_iteration<T: Number, P, K: Kernel<T, P>>(
    k: K,
    c: CompiledNetlist<T, P>,
    s: TransientState<T>,
    config: StepConfig<T>,
    at: Moment<T>,
    x: Option<Seq<T>>,
    y: Option<Seq<T>>,
)
    requires
        unambiguous(k),
        iteration_solution(k, c, s, config, at, x),
        iteration_solution(k, c, s, config, at, y),
    ensures
        x == y,
{
    lemma_one_solution(
        k,
        c,
        step_equations(
            c,
            s,
            config.dt,
            uses_gear2(config, s),
        ),
        at.est.take(c.n as int),
        Some(s.node_volts@),
        None,
        Some(Storage { dt: config.dt, tj_cap_volts: s.tj_cap_volts@ }),
        at.relays,
        x,
        y,
    );
}

proof fn lemma_same_moment<T: Number, P, K: Kernel<T, P>>(
    k: K,
    c: CompiledNetlist<T, P>,
    s: TransientState<T>,
    config: StepConfig<T>,
    one: Seq<Moment<T>>,
    other: Seq<Moment<T>>,
    i: int,
)
    requires
        unambiguous(k),
        newton_trace(k, c, s, config, one),
        newton_trace(k, c, s, config, other),
        0 <= i < one.len(),
        i < other.len(),
    ensures
        one[i] == other[i],
    decreases i,
{
    if i > 0 {
        lemma_same_moment(k, c, s, config, one, other, i - 1);
        let at = one[i - 1];
        assert(iterates(k, c, s, config, (i - 1) as nat, one[i - 1], one[i]));
        assert(iterates(k, c, s, config, (i - 1) as nat, other[i - 1], other[i]));
        let x = choose|x: Seq<T>| #[trigger]
            iteration_solution(k, c, s, config, at, Some(x)) && x.len() == c.size
                && progress(
                c,
                predicts(s),
                (i - 1) as nat,
                at,
                x,
            ) is Iterate && one[i] == next_moment(c, (i - 1) as nat, at, x);
        let y = choose|y: Seq<T>| #[trigger]
            iteration_solution(k, c, s, config, at, Some(y)) && y.len() == c.size
                && progress(
                c,
                predicts(s),
                (i - 1) as nat,
                at,
                y,
            ) is Iterate && other[i] == next_moment(c, (i - 1) as nat, at, y);
        lemma_one_iteration(k, c, s, config, at, Some(x), Some(y));
    }
}

proof fn lemma_no_longer<T: Number, P, K: Kernel<T, P>>(
    k: K,
    c: CompiledNetlist<T, P>,
    s: TransientState<T>,
    config: StepConfig<T>,
    one: Seq<Moment<T>>,
    r: Result<StepResult<T>, StepIssue>,
    after: TransientState<T>,
    other: Seq<Moment<T>>,
)
    requires
        unambiguous(k),
        newton_trace(k, c, s, config, one),
        step_ends(k, c, s, config, one, r, after),
        newton_trace(k, c, s, config, other),
    ensures
        other.len() <= one.len(),
{
    if one.len() < other.len() {
        let i = one.len() - 1;
        lemma_same_moment(k, c, s, config, one, other, i);
        let at = one[i];
        assert(at == one.last());
        assert(iterates(k, c, s, config, i as nat, other[i], other[i + 1]));
        let y = choose|y: Seq<T>| #[trigger]
            iteration_solution(k, c, s, config, at, Some(y)) && y.len() == c.size
                && progress(
                c,
                predicts(s),
                i as nat,
                at,
                y,
            ) is Iterate && other[i + 1] == next_moment(c, i as nat, at, y);
        if r == Err::<StepResult<T>, StepIssue>(StepIssue::SingularMatrix) {
            lemma_one_iteration(k, c, s, config, at, None, Some(y));
        } else {
            let x = choose|x: Seq<T>| #[trigger]
                iteration_solution(k, c, s, config, at, Some(x)) && x.len() == c.size && !(
                progress(
                    c,
                    predicts(s),
                    i as nat,
                    at,
                    x,
                ) is Iterate);
            lemma_one_iteration(k, c, s, config, at, Some(x), Some(y));
        }
    }
}

proof fn lemma_same_error<T: Number>(a: TransientState<T>, b: TransientState<T>, gear2: bool)
    requires
        a@ == b@,
    ensures
        truncation_error(a, gear2) == truncation_error(b, gear2),
{
    assert(a@.node_volts == b@.node_volts);
    assert(a@.prev_node_volts == b@.prev_node_volts);
    assert(a@.prev2_node_volts == b@.prev2_node_volts);
    assert(a@.cap_volts == b@.cap_volts && a@.inductor_currents == b@.inductor_currents);
    assert(a@.prev_cap_volts == b@.prev_cap_volts && a@.prev2_cap_volts == b@.prev2_cap_volts);
    assert(a@.prev_inductor_currents == b@.prev_inductor_currents);
    assert(a@.prev2_inductor_currents == b@.prev2_inductor_currents);
}

proof fn lemma_ends_alike<T: Number, P, K: Kernel<T, P>>(
    k: K,
    c: CompiledNetlist<T, P>,
    s: TransientState<T>,
    config: StepConfig<T>,
    trace: Seq<Moment<T>>,
    r: Result<StepResult<T>, StepIssue>,
    after: TransientState<T>,
    other_r: Result<StepResult<T>, StepIssue>,
    other_after: TransientState<T>,
)
    requires
        unambiguous(k),
        step_ends(k, c, s, config, trace, r, after),
        step_ends(k, c, s, config, trace, other_r, other_after),
    ensures
        r == other_r,
        after@ == other_after@,
{
    let at = trace.last();
    let singular = Err::<StepResult<T>, StepIssue>(StepIssue::SingularMatrix);
    if r == singular && other_r != singular {
        let y = choose|y: Seq<T>| #[trigger]
            iteration_solution(k, c, s, config, at, Some(y)) && y.len() == c.size;
        lemma_one_iteration(k, c, s, config, at, None, Some(y));
    } else if r != singular && other_r == singular {
        let x = choose|x: Seq<T>| #[trigger]
            iteration_solution(k, c, s, config, at, Some(x)) && x.len() == c.size;
        lemma_one_iteration(k, c, s, config, at, None, Some(x));
    } else if r != singular {
        assert forall|x: Seq<T>, y: Seq<T>| #[trigger]
            iteration_solution(k, c, s, config, at, Some(x)) && #[trigger] iteration_solution(
                k,
                c,
                s,
                config,
                at,
                Some(y),
            ) implies x == y by {
            lemma_one_iteration(k, c, s, config, at, Some(x), Some(y));
        }
        if r is Ok && other_r is Ok {
            assert(after@ =~= other_after@);
            lemma_same_error(after, other_after, uses_gear2(config, s));
        }
    }
    assert(after@ =~= other_after@);
}

/// With an unambiguous kernel a step is determined: from one state with one
/// configuration it has one outcome, and leaves one state.
pub proof fn law_steps_are_reproducible<T: Number, P, K: Kernel<T, P>>(
    k: K,
    c: CompiledNetlist<T, P>,
    s: TransientState<T>,
    config: StepConfig<T>,
    r: Result<StepResult<T>, StepIssue>,
    after: TransientState<T>,
    other_r: Result<StepResult<T>, StepIssue>,
    other_after: TransientState<T>,
)
    requires
        unambiguous(k),
        stepped(k, c, s, config, r, after),
        stepped(k, c, s, config, other_r, other_after),
    ensures
        r == other_r,
        after@ == other_after@,
{
    if usable_timestep(config.dt) {
        let one = choose|trace: Seq<Moment<T>>| #[trigger]
            newton_trace(k, c, s, config, trace) && step_ends(k, c, s, config, trace, r, after);
        let other = choose|trace: Seq<Moment<T>>| #[trigger]
            newton_trace(k, c, s, config, trace) && step_ends(
                k,
                c,
                s,
                config,
                trace,
                other_r,
                other_after,
            );
        lemma_no_longer(k, c, s, config, one, r, after, other);
        lemma_no_longer(k, c, s, config, other, other_r, other_after, one);
        assert forall|i: int| 0 <= i < one.len() implies one[i] == other[i] by {
            lemma_same_moment(k, c, s, config, one, other, i);
        }
        assert(one =~= other);
        lemma_ends_alike(k, c, s, config, one, r, after, other_r, other_after);
    }
}

proof fn lemma_one_dc_solution<T: Number, P, K: Kernel<T, P>>(
    k: K,
    c: CompiledNetlist<T, P>,
    base: Equations<T>,
    conductance: T,
    limiting: bool,
    at: DcMoment<T>,
    x: Option<Seq<T>>,
    y: Option<Seq<T>>,
)
    requires
        unambiguous(k),
        dc_solution(k, c, base, conductance, limiting, at, x),
        dc_solution(k, c, base, conductance, limiting, at, y),
    ensures
        x == y,
{
    let prev = if limiting {
        Some(at.prev)
    } else {
        None
    };
    let volts = if limiting {
        at.est
    } else {
        at.est.take(c.n as int)
    };
    lemma_one_solution(
        k,
        c,
        with_gmin(base, c.gmin_indices@, conductance, c.gmin_indices@.len()),
        volts,
        prev,
        prev,
        None,
        at.relays,
        x,
        y,
    );
}

proof fn lemma_same_dc_moment<T: Number, P, K: Kernel<T, P>>(
    k: K,
    c: CompiledNetlist<T, P>,
    base: Equations<T>,
    conductance: T,
    limiting: bool,
    start: DcMoment<T>,
    one: Seq<DcMoment<T>>,
    other: Seq<DcMoment<T>>,
    i: int,
)
    requires
        unambiguous(k),
        dc_trace(k, c, base, conductance, limiting, start, one),
        dc_trace(k, c, base, conductance, limiting, start, other),
        0 <= i < one.len(),
        i < other.len(),
    ensures
        one[i] == other[i],
    decreases i,
{
    if i > 0 {
        let before = i - 1;
        lemma_same_dc_moment(k, c, base, conductance, limiting, start, one, other, before);
        let at = one[before];
        assert(dc_iterates(k, c, base, conductance, limiting, before as nat, at, one[i]));
        assert(dc_iterates(
            k,
            c,
            base,
            conductance,
            limiting,
            before as nat,
            other[before],
            other[i],
        ));
        let x = choose|x: Seq<T>| #[trigger]
            dc_solution(k, c, base, conductance, limiting, at, Some(x)) && x.len() == c.size
                && dc_progress(c, limiting, before as nat, at.est, x) is Iterate && one[i]
                == dc_next(c, limiting, before as nat, at, x);
        let y = choose|y: Seq<T>| #[trigger]
            dc_solution(k, c, base, conductance, limiting, at, Some(y)) && y.len() == c.size
                && dc_progress(c, limiting, before as nat, at.est, y) is Iterate && other[i]
                == dc_next(c, limiting, before as nat, at, y);
        lemma_one_dc_solution(k, c, base, conductance, limiting, at, Some(x), Some(y));
    }
}

proof fn lemma_dc_no_longer<T: Number, P, K: Kernel<T, P>>(
    k: K,
    c: CompiledNetlist<T, P>,
    base: Equations<T>,
    conductance: T,
    limiting: bool,
    start: DcMoment<T>,
    one: Seq<DcMoment<T>>,
    r: Result<usize, DcIssue>,
    end: DcMoment<T>,
    other: Seq<DcMoment<T>>,
)
    requires
        unambiguous(k),
        dc_trace(k, c, base, conductance, limiting, start, one),
        dc_ends(k, c, base, conductance, limiting, one, r, end),
        dc_trace(k, c, base, conductance, limiting, start, other),
    ensures
        other.len() <= one.len(),
{
    if one.len() < other.len() {
        let i = one.len() - 1;
        lemma_same_dc_moment(k, c, base, conductance, limiting, start, one, other, i);
        let at = one[i];
        assert(at == one.last());
        assert(dc_iterates(
            k,
            c,
            base,
            conductance,
            limiting,
            i as nat,
            other[i],
            other[i + 1],
        ));
        let y = choose|y: Seq<T>| #[trigger]
            dc_solution(k, c, base, conductance, limiting, at, Some(y)) && y.len() == c.size
                && dc_progress(c, limiting, i as nat, at.est, y) is Iterate && other[i + 1]
                == dc_next(c, limiting, i as nat, at, y);
        if r == Err::<usize, DcIssue>(DcIssue::SingularMatrix) {
            lemma_one_dc_solution(k, c, base, conductance, limiting, at, None, Some(y));
        } else {
            let x = choose|x: Seq<T>| #[trigger]
                dc_solution(k, c, base, conductance, limiting, at, Some(x)) && x.len() == c.size
                    && !(dc_progress(c, limiting, i as nat, at.est, x) is Iterate);
            lemma_one_dc_solution(k, c, base, conductance, limiting, at, Some(x), Some(y));
        }
    }
}

/// With an unambiguous kernel a pass of the operating-point solver is determined.
pub proof fn law_passes_are_reproducible<T: Number, P, K: Kernel<T, P>>(
    k: K,
    c: CompiledNetlist<T, P>,
    base: Equations<T>,
    conductance: T,
    limiting: bool,
    start: DcMoment<T>,
    r: Result<usize, DcIssue>,
    end: DcMoment<T>,
    other_r: Result<usize, DcIssue>,
    other_end: DcMoment<T>,
)
    requires
        unambiguous(k),
        dc_pass(k, c, base, conductance, limiting, start, r, end),
        dc_pass(k, c, base, conductance, limiting, start, other_r, other_end),
    ensures
        r == other_r,
        end == other_end,
{
    let one = choose|trace: Seq<DcMoment<T>>| #[trigger]
        dc_trace(k, c, base, conductance, limiting, start, trace) && dc_ends(
            k,
            c,
            base,
            conductance,
            limiting,
            trace,
            r,
            end,
        );
    let other = choose|trace: Seq<DcMoment<T>>| #[trigger]
        dc_trace(k, c, base, conductance, limiting, start, trace) && dc_ends(
            k,
            c,
            base,
            conductance,
            limiting,
            trace,
            other_r,
            other_end,
        );
    lemma_dc_no_longer(k, c, base, conductance, limiting, start, one, r, end, other);
    lemma_dc_no_longer(k, c, base, conductance, limiting, start, other, other_r, other_end, one);
    assert forall|i: int| 0 <= i < one.len() implies one[i] == other[i] by {
        lemma_same_dc_moment(k, c, base, conductance, limiting, start, one, other, i);
    }
    assert(one =~= other);
    let at = one.last();
    let singular = Err::<usize, DcIssue>(DcIssue::SingularMatrix);
    if r == singular && other_r != singular {
        let y = choose|y: Seq<T>| #[trigger]
            dc_solution(k, c, base, conductance, limiting, at, Some(y)) && y.len() == c.size;
        lemma_one_dc_solution(k, c, base, conductance, limiting, at, None, Some(y));
    } else if r != singular && other_r == singular {
        let x = choose|x: Seq<T>| #[trigger]
            dc_solution(k, c, base, conductance, limiting, at, Some(x)) && x.len() == c.size;
        lemma_one_dc_solution(k, c, base, conductance, limiting, at, None, Some(x));
    } else if r != singular {
        assert forall|x: Seq<T>, y: Seq<T>| #[trigger]
            dc_solution(k, c, base, conductance, limiting, at, Some(x)) && #[trigger] dc_solution(
                k,
                c,
                base,
                conductance,
                limiting,
                at,
                Some(y),
            ) implies x == y by {
            lemma_one_dc_solution(k, c, base, conductance, limiting, at, Some(x), Some(y));
        }
    }
}

proof fn lemma_same_stage<T: Number, P, K: Kernel<T, P>>(
    k: K,
    c: CompiledNetlist<T, P>,
    factor: T,
    start: DcMoment<T>,
    one: Seq<DcMoment<T>>,
    one_counts: Seq<usize>,
    other: Seq<DcMoment<T>>,
    other_counts: Seq<usize>,
    j: int,
)
    requires
        unambiguous(k),
        stepping(k, c, factor, start, one, one_counts),
        stepping(k, c, factor, start, other, other_counts),
        0 <= j < one.len(),
        j < other.len(),
    ensures
        one[j] == other[j],
        j > 0 ==> one_counts[j - 1] == other_counts[j - 1],
    decreases j,
{
    if j > 0 {
        let i = j - 1;
        lemma_same_stage(k, c, factor, start, one, one_counts, other, other_counts, i);
        assert(one_counts[i] == one_counts[i] && other_counts[i] == other_counts[i]);
        law_passes_are_reproducible(
            k,
            c,
            dc_equations(c),
            stepped_conductance(factor, i as nat),
            true,
            one[i],
            Ok(one_counts[i]),
            one[i + 1],
            Ok(other_counts[i]),
            other[i + 1],
        );
    }
}

proof fn lemma_steps_no_further<T: Number, P, K: Kernel<T, P>>(
    k: K,
    c: CompiledNetlist<T, P>,
    s: TransientState<T>,
    factor: T,
    start: DcMoment<T>,
    one: Seq<DcMoment<T>>,
    one_counts: Seq<usize>,
    r: Result<usize, DcIssue>,
    after: TransientState<T>,
    other: Seq<DcMoment<T>>,
    other_counts: Seq<usize>,
)
    requires
        unambiguous(k),
        stepping(k, c, factor, start, one, one_counts),
        stepping_ends(k, c, s, factor, one, one_counts, r, after),
        stepping(k, c, factor, start, other, other_counts),
    ensures
        other_counts.len() <= one_counts.len(),
{
    if one_counts.len() < other_counts.len() {
        let i = one_counts.len() as int;
        lemma_same_stage(k, c, factor, start, one, one_counts, other, other_counts, i);
        assert(one[i] == one.last());
        let issue = r->Err_0;
        let end = choose|end: DcMoment<T>| #[trigger]
            dc_pass(
                k,
                c,
                dc_equations(c),
                stepped_conductance(factor, one_counts.len()),
                true,
                one.last(),
                Err(issue),
                end,
            );
        assert(other_counts[i] == other_counts[i]);
        law_passes_are_reproducible(
            k,
            c,
            dc_equations(c),
            stepped_conductance(factor, i as nat),
            true,
            one[i],
            Err(issue),
            end,
            Ok(other_counts[i]),
            other[i + 1],
        );
    }
}

proof fn lemma_stepping_determined<T: Number, P, K: Kernel<T, P>>(
    k: K,
    c: CompiledNetlist<T, P>,
    s: TransientState<T>,
    start: DcMoment<T>,
    factor: T,
    one: Seq<DcMoment<T>>,
    one_counts: Seq<usize>,
    r: Result<usize, DcIssue>,
    after: TransientState<T>,
    other: Seq<DcMoment<T>>,
    other_counts: Seq<usize>,
    other_r: Result<usize, DcIssue>,
    other_after: TransientState<T>,
)
    requires
        unambiguous(k),
        stepping(k, c, factor, start, one, one_counts),
        stepping_ends(k, c, s, factor, one, one_counts, r, after),
        stepping(k, c, factor, start, other, other_counts),
        stepping_ends(k, c, s, factor, other, other_counts, other_r, other_after),
    ensures
        r == other_r,
        after@ == other_after@,
{
    lemma_steps_no_further(
        k, c, s, factor, start, one, one_counts, r, after, other, other_counts,
    );
    lemma_steps_no_further(
        k, c, s, factor, start, other, other_counts, other_r, other_after, one, one_counts,
    );
    assert forall|j: int| 0 <= j < one.len() implies one[j] == other[j] by {
        lemma_same_stage(k, c, factor, start, one, one_counts, other, other_counts, j);
    }
    assert(one =~= other);
    assert forall|j: int| 0 <= j < one_counts.len() implies one_counts[j] == other_counts[j] by {
        lemma_same_stage(k, c, factor, start, one, one_counts, other, other_counts, j + 1);
    }
    assert(one_counts =~= other_counts);
    if r is Err {
        let g = stepped_conductance(factor, one_counts.len());
        let end = choose|end: DcMoment<T>| #[trigger]
            dc_pass(k, c, dc_equations(c), g, true, one.last(), Err(r->Err_0), end)
                && only_relays(s, after, end.relays);
        let other_end = choose|end: DcMoment<T>| #[trigger]
            dc_pass(k, c, dc_equations(c), g, true, one.last(), Err(other_r->Err_0), end)
                && only_relays(s, other_after, end.relays);
        law_passes_are_reproducible(
            k,
            c,
            dc_equations(c),
            g,
            true,
            one.last(),
            Err(r->Err_0),
            end,
            Err(other_r->Err_0),
            other_end,
        );
    }
    assert(after@ =~= other_after@);
}

/// With an unambiguous kernel the operating point is determined: from one state it
/// has one outcome, and leaves one state.
pub proof fn law_operating_point_is_reproducible<T: Number, P, K: Kernel<T, P>>(
    k: K,
    c: CompiledNetlist<T, P>,
    s: TransientState<T>,
    r: Result<usize, DcIssue>,
    after: TransientState<T>,
    other_r: Result<usize, DcIssue>,
    other_after: TransientState<T>,
)
    requires
        unambiguous(k),
        dc_solved(k, c, s, r, after),
        dc_solved(k, c, s, other_r, other_after),
    ensures
        r == other_r,
        after@ == other_after@,
{
    let (direct, reached) = choose|direct: Result<usize, DcIssue>, reached: DcMoment<T>|
     #[trigger]
        direct_pass(k, c, s, direct, reached) && dc_concludes(k, c, s, direct, reached, r, after);
    let (other_direct, other_reached) = choose|
        direct: Result<usize, DcIssue>,
        reached: DcMoment<T>,
    | #[trigger]
        direct_pass(k, c, s, direct, reached) && dc_concludes(
            k,
            c,
            s,
            direct,
            reached,
            other_r,
            other_after,
        );
    law_passes_are_reproducible(
        k,
        c,
        dc_equations(c),
        gmin(),
        false,
        DcMoment { est: dc_start(c), prev: dc_start(c), relays: s.relay_active@ },
        direct,
        reached,
        other_direct,
        other_reached,
    );
    if direct is Err {
        let start = DcMoment { est: dc_start(c), prev: dc_start(c), relays: reached.relays };
        let (factor, stages, counts) = choose|
            factor: T,
            stages: Seq<DcMoment<T>>,
            counts: Seq<usize>,
        |
            factor_answer(k, factor) && #[trigger] stepping(k, c, factor, start, stages, counts)
                && stepping_ends(k, c, s, factor, stages, counts, r, after);
        let (other_factor, other_stages, other_counts) = choose|
            factor: T,
            stages: Seq<DcMoment<T>>,
            counts: Seq<usize>,
        |
            factor_answer(k, factor) && #[trigger] stepping(k, c, factor, start, stages, counts)
                && stepping_ends(k, c, s, factor, stages, counts, other_r, other_after);
        lemma_stepping_determined(
            k,
            c,
            s,
            start,
            factor,
            stages,
            counts,
            r,
            after,
            other_stages,
            other_counts,
            other_r,
            other_after,
        );
    }
    assert(after@ =~= other_after@);
}

} // verus!
