//! What holds of every timestep.

use vstd::prelude::*;

use crate::commit::{
    cap_volts_at, inductor_currents_at, junction_volts_at, source_currents_at,
};
use crate::compiled::CompiledNetlist;
use crate::fixed::Fixed;
use crate::kernel::Kernel;
use crate::newton::{
    limited, next_moment, predicts, progress, refined, step_budget, step_limit, Moment,
};
use crate::number::{all_finite, peak, zero, Number};
use crate::state::TransientState;
use crate::transient::{
    committed, iterates, iteration_solution, newton_trace, only_relays, state_errors, step_ends,
    stepped, truncation_error, usable_timestep, StepConfig, StepIssue, StepResult,
};

verus! {

/// A step that is not taken leaves the state as it was, but for relays that
/// flipped on the way; a bad timestep leaves even those.
pub proof fn law_failed_step_keeps_state<T: Number, P, K: Kernel<T, P>>(
    k: K,
    c: CompiledNetlist<T, P>,
    s: TransientState<T>,
    config: StepConfig<T>,
    r: Result<StepResult<T>, StepIssue>,
    after: TransientState<T>,
)
    requires
        stepped(k, c, s, config, r, after),
        r is Err,
    ensures
        only_relays(s, after, after.relay_active@),
        r == Err::<StepResult<T>, StepIssue>(StepIssue::BadTimestep) ==> after == s,
{
    if usable_timestep(config.dt) {
        let trace = choose|trace: Seq<Moment<T>>| #[trigger]
            newton_trace(k, c, s, config, trace) && step_ends(k, c, s, config, trace, r, after);
        assert(step_ends(k, c, s, config, trace, r, after));
    }
}

/// Whatever the solvers answer, and whatever the state was before: every node
/// voltage, inductor current and source current that a step commits is an
/// ordinary number.
pub proof fn law_step_commits_finite_values<T: Number, P, K: Kernel<T, P>>(
    k: K,
    c: CompiledNetlist<T, P>,
    s: TransientState<T>,
    config: StepConfig<T>,
    r: Result<StepResult<T>, StepIssue>,
    after: TransientState<T>,
)
    requires
        c.wf(),
        stepped(k, c, s, config, r, after),
        r is Ok,
    ensures
        all_finite(after.node_volts@),
        all_finite(after.inductor_currents@),
        all_finite(after.voltage_source_currents@),
{
    let trace = choose|trace: Seq<Moment<T>>| #[trigger]
        newton_trace(k, c, s, config, trace) && step_ends(k, c, s, config, trace, r, after);
    let i = (trace.len() - 1) as nat;
    let last = trace.last();
    let x = choose|x: Seq<T>| #[trigger]
        iteration_solution(k, c, s, config, last, Some(x)) && x.len() == c.size && progress(
            c,
            predicts(s),
            i,
            last,
            x,
        ) is Settled && committed(
            c,
            s,
            config.dt,
            next_moment(c, i, last, x).est,
            next_moment(c, i, last, x).relays,
            after,
        );
    let est = refined(c, i, last, x);
    assert(all_finite(est));
    assert(est.len() == c.size);
}

/// Capacitor and junction voltages are the differences of the node voltages.
pub open spec fn voltages_agree<T: Number, P>(
    c: CompiledNetlist<T, P>,
    s: TransientState<T>,
) -> bool {
    &&& s.cap_volts@ == cap_volts_at(c, s.node_volts@)
    &&& s.tj_cap_volts@ == junction_volts_at(c, s.node_volts@)
}

pub proof fn lemma_voltages_agree<T: Number, P>(
    c: CompiledNetlist<T, P>,
    est: Seq<T>,
    after: TransientState<T>,
)
    requires
        c.wf(),
        est.len() == c.size,
        after.node_volts@ == est.take(c.n as int),
        after.cap_volts@ == cap_volts_at(c, est),
        after.tj_cap_volts@ == junction_volts_at(c, est),
    ensures
        voltages_agree(c, after),
{
    let volts = est.take(c.n as int);
    assert forall|i: int| 0 <= i < c.cap_count implies #[trigger] cap_volts_at(c, est)[i]
        == cap_volts_at(c, volts)[i] by {
        assert(c.cap_slot(i, 0) < c.n && c.cap_slot(i, 1) < c.n);
    }
    assert(cap_volts_at(c, est) =~= cap_volts_at(c, volts));
    assert forall|j: int| 0 <= j < c.transistor_count * 2 implies #[trigger] junction_volts_at(
        c,
        est,
    )[j] == junction_volts_at(c, volts)[j] by {
        let i = j / 2;
        assert(c.transistor_node_indices@[i * 3] < c.n);
        assert(c.transistor_node_indices@[i * 3 + 1] < c.n);
        assert(c.transistor_node_indices@[i * 3 + 2] < c.n);
    }
    assert(junction_volts_at(c, est) =~= junction_volts_at(c, volts));
}

/// After a committed step, capacitor and junction voltages agree with the node
/// voltages.
pub proof fn law_step_leaves_agreeing_voltages<T: Number, P, K: Kernel<T, P>>(
    k: K,
    c: CompiledNetlist<T, P>,
    s: TransientState<T>,
    config: StepConfig<T>,
    r: Result<StepResult<T>, StepIssue>,
    after: TransientState<T>,
)
    requires
        c.wf(),
        stepped(k, c, s, config, r, after),
        r is Ok,
    ensures
        voltages_agree(c, after),
{
    let trace = choose|trace: Seq<Moment<T>>| #[trigger]
        newton_trace(k, c, s, config, trace) && step_ends(k, c, s, config, trace, r, after);
    let i = (trace.len() - 1) as nat;
    let last = trace.last();
    let x = choose|x: Seq<T>| #[trigger]
        iteration_solution(k, c, s, config, last, Some(x)) && x.len() == c.size && progress(
            c,
            predicts(s),
            i,
            last,
            x,
        ) is Settled && committed(
            c,
            s,
            config.dt,
            next_moment(c, i, last, x).est,
            next_moment(c, i, last, x).relays,
            after,
        );
    lemma_voltages_agree(c, refined(c, i, last, x), after);
}

/// A committed step moves the history back by one and goes on record.
pub proof fn law_step_shifts_history<T: Number, P, K: Kernel<T, P>>(
    k: K,
    c: CompiledNetlist<T, P>,
    s: TransientState<T>,
    config: StepConfig<T>,
    r: Result<StepResult<T>, StepIssue>,
    after: TransientState<T>,
)
    requires
        stepped(k, c, s, config, r, after),
        r is Ok,
    ensures
        after.prev_node_volts@ == s.node_volts@,
        after.prev2_node_volts@ == s.prev_node_volts@,
        after.prev_cap_volts@ == s.cap_volts@,
        after.prev2_cap_volts@ == s.prev_cap_volts@,
        after.prev_inductor_currents@ == s.inductor_currents@,
        after.prev2_inductor_currents@ == s.prev_inductor_currents@,
        after.gear2_ready,
        after.prev_dt == config.dt,
{
    let trace = choose|trace: Seq<Moment<T>>| #[trigger]
        newton_trace(k, c, s, config, trace) && step_ends(k, c, s, config, trace, r, after);
    assert(step_ends(k, c, s, config, trace, r, after));
}

/// A truncation error is reported exactly where it was asked for and a step had
/// been committed before.
pub proof fn law_truncation_error_needs_history<T: Number, P, K: Kernel<T, P>>(
    k: K,
    c: CompiledNetlist<T, P>,
    s: TransientState<T>,
    config: StepConfig<T>,
    r: Result<StepResult<T>, StepIssue>,
    after: TransientState<T>,
)
    requires
        stepped(k, c, s, config, r, after),
        r is Ok,
    ensures
        r->Ok_0.lte is Some <==> config.estimate_lte && s.gear2_ready,
{
    let trace = choose|trace: Seq<Moment<T>>| #[trigger]
        newton_trace(k, c, s, config, trace) && step_ends(k, c, s, config, trace, r, after);
    assert(step_ends(k, c, s, config, trace, r, after));
}

/// Newton takes at least one iteration and stays within its budget.
pub proof fn law_newton_stays_within_budget<T: Number, P, K: Kernel<T, P>>(
    k: K,
    c: CompiledNetlist<T, P>,
    s: TransientState<T>,
    config: StepConfig<T>,
    trace: Seq<Moment<T>>,
)
    requires
        newton_trace(k, c, s, config, trace),
    ensures
        1 <= trace.len() <= step_budget(c),
{
    if trace.len() > 1 {
        let i = trace.len() - 2;
        assert(iterates(k, c, s, config, i as nat, trace[i], trace[i + 1]));
    }
}

/// A linear circuit is solved in a single iteration.
pub proof fn law_linear_circuit_takes_one_iteration<T: Number, P, K: Kernel<T, P>>(
    k: K,
    c: CompiledNetlist<T, P>,
    s: TransientState<T>,
    config: StepConfig<T>,
    r: Result<StepResult<T>, StepIssue>,
    after: TransientState<T>,
)
    requires
        c.transistor_count == 0,
        c.diode_count == 0,
        c.relay_count == 0,
        stepped(k, c, s, config, r, after),
        r is Ok,
    ensures
        r->Ok_0.iters == 1,
{
    let trace = choose|trace: Seq<Moment<T>>| #[trigger]
        newton_trace(k, c, s, config, trace) && step_ends(k, c, s, config, trace, r, after);
    law_newton_stays_within_budget(k, c, s, config, trace);
}

/// A committed step records whether a relay toggled in it.
pub proof fn law_step_records_toggle<T: Number, P, K: Kernel<T, P>>(
    k: K,
    c: CompiledNetlist<T, P>,
    s: TransientState<T>,
    config: StepConfig<T>,
    r: Result<StepResult<T>, StepIssue>,
    after: TransientState<T>,
)
    requires
        stepped(k, c, s, config, r, after),
        r is Ok,
    ensures
        after.relay_toggled <==> after.relay_active@ != s.relay_active@,
{
    let trace = choose|trace: Seq<Moment<T>>| #[trigger]
        newton_trace(k, c, s, config, trace) && step_ends(k, c, s, config, trace, r, after);
    assert(step_ends(k, c, s, config, trace, r, after));
}

/// The currents of sources and inductors are those of the solution: neither damped
/// nor limited.
pub proof fn law_branch_currents_are_taken_over<T: Number, P>(
    c: CompiledNetlist<T, P>,
    iteration: nat,
    at: Moment<T>,
    x: Seq<T>,
)
    requires
        c.wf(),
        x.len() == c.size,
    ensures
        inductor_currents_at(c, refined(c, iteration, at, x)) == inductor_currents_at(c, x),
        source_currents_at(c, refined(c, iteration, at, x)) == source_currents_at(c, x),
{
    let est = refined(c, iteration, at, x);
    assert forall|i: int| 0 <= i < c.inductor_count implies #[trigger] inductor_currents_at(
        c,
        est,
    )[i] == inductor_currents_at(c, x)[i] by {
        let row = c.inductor_branch_rows@[i];
        assert(c.n + c.m <= row < c.size);
        assert(est[row as int] == x[row as int]);
    }
    assert(inductor_currents_at(c, est) =~= inductor_currents_at(c, x));
    assert(source_currents_at(c, est) =~= source_currents_at(c, x));
}

/// The order of the number type is a strict one: no value lies below itself, and what
/// lies below something that lies below a third lies below that, too.
pub open spec fn strictly_ordered<T: Number>() -> bool {
    &&& forall|a: T| !#[trigger] a.below(a)
    &&& forall|a: T, b: T, c: T|
        #![trigger a.below(b), b.below(c)]
        a.below(b) && b.below(c) ==> a.below(c)
}

/// The fixed-point numbers are strictly ordered.
pub proof fn law_fixed_is_strictly_ordered()
    ensures
        strictly_ordered::<Fixed>(),
{
}

proof fn lemma_peak_not_negative<T: Number>(values: Seq<T>, k: nat)
    requires
        strictly_ordered::<T>(),
    ensures
        peak(values, k) == zero::<T>() || zero::<T>().below(peak(values, k)),
    decreases k,
{
    if k > 0 {
        lemma_peak_not_negative(values, (k - 1) as nat);
        let before = peak(values, (k - 1) as nat);
        let v = values[k - 1];
        if before.below(v) && before != zero::<T>() {
            assert(zero::<T>().below(before));
        }
    }
}

/// A truncation error is never below 0.
pub proof fn law_truncation_error_is_not_negative<T: Number>(s: TransientState<T>, gear2: bool)
    requires
        strictly_ordered::<T>(),
    ensures
        !truncation_error(s, gear2).below(zero()),
{
    lemma_peak_not_negative(state_errors(s, gear2), state_errors(s, gear2).len());
    let e = truncation_error(s, gear2);
    if e.below(zero()) {
        assert(!zero::<T>().below(zero()));
    }
}

/// In fixed point a truncation error is 0 or more.
pub proof fn law_fixed_truncation_error_is_not_negative(s: TransientState<Fixed>, gear2: bool)
    ensures
        truncation_error(s, gear2).raw >= 0,
{
    law_fixed_is_strictly_ordered();
    law_truncation_error_is_not_negative(s, gear2);
    assert(zero::<Fixed>().raw == 0);
}

/// No iteration moves a node voltage by more than the step limit, in a number type
/// whose order is sane at the limit.
pub proof fn law_moves_are_limited<T: Number>(asked: T)
    requires
        !step_limit::<T>().below(step_limit()),
        !step_limit::<T>().below(step_limit::<T>().opposite()),
        !step_limit::<T>().opposite().below(step_limit::<T>().opposite()),
    ensures
        !step_limit::<T>().below(limited(asked)),
        !limited(asked).below(step_limit::<T>().opposite()),
{
}

} // verus!
