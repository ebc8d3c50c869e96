//! What holds of every operating-point solve.

use vstd::prelude::*;

use crate::companion::gmin;
use crate::compiled::CompiledNetlist;
use crate::dc::{
    dc_budget, dc_concludes, dc_ends, dc_equations, dc_iterates, dc_pass, dc_solved, dc_start,
    dc_trace, direct_pass, factor_answer, first_conductance, stepped_conductance, stepping,
    stepping_ends, total, DcIssue, DcMoment, GMIN_STEPS,
};
use crate::equations::Equations;
use crate::kernel::Kernel;
use crate::laws::steps::{lemma_voltages_agree, voltages_agree};
use crate::newton::predicts;
use crate::number::{all_finite, Number};
use crate::state::TransientState;
use crate::transient::{only_relays, uses_gear2, StepConfig};

verus! {

/// A pass that converges ends at ordinary numbers.
pub proof fn law_converged_pass_is_finite<T: Number, P, K: Kernel<T, P>>(
    k: K,
    c: CompiledNetlist<T, P>,
    base: Equations<T>,
    conductance: T,
    limiting: bool,
    start: DcMoment<T>,
    r: Result<usize, DcIssue>,
    end: DcMoment<T>,
)
    requires
        dc_pass(k, c, base, conductance, limiting, start, r, end),
        r is Ok,
    ensures
        all_finite(end.est),
        end.est.len() == c.size,
{
    let trace = choose|trace: Seq<DcMoment<T>>| #[trigger]
        dc_trace(k, c, base, conductance, limiting, start, trace) && dc_ends(
            k,
            c,
            base,
            conductance,
            limiting,
            trace,
            r,
            end,
        );
    assert(dc_ends(k, c, base, conductance, limiting, trace, r, end));
}

/// Whatever the solvers answer, and whatever the state was before: an
/// operating-point solve that succeeds leaves ordinary numbers that agree with one
/// another, and no history, so the next step integrates by backward Euler and does
/// not predict.
pub proof fn law_dc_restarts_cleanly<T: Number, P, K: Kernel<T, P>>(
    k: K,
    c: CompiledNetlist<T, P>,
    s: TransientState<T>,
    r: Result<usize, DcIssue>,
    after: TransientState<T>,
)
    requires
        c.wf(),
        dc_solved(k, c, s, r, after),
        r is Ok,
    ensures
        all_finite(after.node_volts@),
        all_finite(after.inductor_currents@),
        all_finite(after.voltage_source_currents@),
        voltages_agree(c, after),
        !after.gear2_ready,
        !predicts(after),
        forall|config: StepConfig<T>| !#[trigger] uses_gear2(config, after),
{
    let (direct, reached) = choose|direct: Result<usize, DcIssue>, reached: DcMoment<T>|
     #[trigger]
        direct_pass(k, c, s, direct, reached) && dc_concludes(k, c, s, direct, reached, r, after);
    match direct {
        Ok(iters) => {
            law_converged_pass_is_finite(
                k,
                c,
                dc_equations(c),
                gmin(),
                false,
                DcMoment { est: dc_start(c), prev: dc_start(c), relays: s.relay_active@ },
                direct,
                reached,
            );
            lemma_voltages_agree(c, reached.est, after);
        },
        Err(_) => {
            let start = DcMoment { est: dc_start(c), prev: dc_start(c), relays: reached.relays };
            let (factor, stages, counts) = choose|
                factor: T,
                stages: Seq<DcMoment<T>>,
                counts: Seq<usize>,
            |
                factor_answer(k, factor) && #[trigger] stepping(
                    k,
                    c,
                    factor,
                    start,
                    stages,
                    counts,
                ) && stepping_ends(k, c, s, factor, stages, counts, r, after);
            let j = counts.len() - 1;
            assert(counts[j] == counts[j]);
            law_converged_pass_is_finite(
                k,
                c,
                dc_equations(c),
                stepped_conductance(factor, j as nat),
                true,
                stages[j],
                Ok(counts[j]),
                stages[j + 1],
            );
            assert(stages[j + 1] == stages.last());
            lemma_voltages_agree(c, stages.last().est, after);
        },
    }
}

/// An operating-point solve that fails leaves the state as it was, but for relays
/// that flipped on the way.
pub proof fn law_failed_dc_keeps_state<T: Number, P, K: Kernel<T, P>>(
    k: K,
    c: CompiledNetlist<T, P>,
    s: TransientState<T>,
    r: Result<usize, DcIssue>,
    after: TransientState<T>,
)
    requires
        dc_solved(k, c, s, r, after),
        r is Err,
    ensures
        only_relays(s, after, after.relay_active@),
{
    let (direct, reached) = choose|direct: Result<usize, DcIssue>, reached: DcMoment<T>|
     #[trigger]
        direct_pass(k, c, s, direct, reached) && dc_concludes(k, c, s, direct, reached, r, after);
    assert(direct is Err);
    let start = DcMoment { est: dc_start(c), prev: dc_start(c), relays: reached.relays };
    let (factor, stages, counts) = choose|
        factor: T,
        stages: Seq<DcMoment<T>>,
        counts: Seq<usize>,
    |
        factor_answer(k, factor) && #[trigger] stepping(k, c, factor, start, stages, counts)
            && stepping_ends(k, c, s, factor, stages, counts, r, after);
    assert(stepping_ends(k, c, s, factor, stages, counts, r, after));
}

/// `other` after an operating-point solve with the outcome of one that left `after`:
/// the operating point is written into it or, on failure, the relays are.
pub open spec fn operated_likewise<T: Number>(
    other: TransientState<T>,
    r: Result<usize, DcIssue>,
    after: TransientState<T>,
) -> TransientState<T> {
    match r {
        Ok(_) => TransientState {
            node_volts: after.node_volts,
            cap_volts: after.cap_volts,
            inductor_currents: after.inductor_currents,
            voltage_source_currents: after.voltage_source_currents,
            tj_cap_volts: after.tj_cap_volts,
            relay_active: after.relay_active,
            relay_toggled: after.relay_toggled,
            gear2_ready: after.gear2_ready,
            prev_dt: after.prev_dt,
            ..other
        },
        Err(_) => TransientState {
            relay_active: after.relay_active,
            relay_toggled: other.relay_toggled || after.relay_active@ != other.relay_active@,
            ..other
        },
    }
}

/// The operating point does not depend on the transient history: from two states
/// with the same relays, the same outcome can be reached, with the same voltages and
/// currents, or with the same error and the same relays.  A state full of undefined
/// numbers is recovered by it.
pub proof fn law_dc_ignores_history<T: Number, P, K: Kernel<T, P>>(
    k: K,
    c: CompiledNetlist<T, P>,
    s: TransientState<T>,
    other: TransientState<T>,
    r: Result<usize, DcIssue>,
    after: TransientState<T>,
)
    requires
        s.relay_active@ == other.relay_active@,
        dc_solved(k, c, s, r, after),
    ensures
        dc_solved(k, c, other, r, operated_likewise(other, r, after)),
{
    let there = operated_likewise(other, r, after);
    let (direct, reached) = choose|direct: Result<usize, DcIssue>, reached: DcMoment<T>|
     #[trigger]
        direct_pass(k, c, s, direct, reached) && dc_concludes(k, c, s, direct, reached, r, after);
    assert(direct_pass(k, c, other, direct, reached));
    if direct is Err {
        let start = DcMoment { est: dc_start(c), prev: dc_start(c), relays: reached.relays };
        let (factor, stages, counts) = choose|
            factor: T,
            stages: Seq<DcMoment<T>>,
            counts: Seq<usize>,
        |
            factor_answer(k, factor) && #[trigger] stepping(k, c, factor, start, stages, counts)
                && stepping_ends(k, c, s, factor, stages, counts, r, after);
        assert(stepping_ends(k, c, other, factor, stages, counts, r, there));
    }
    assert(dc_concludes(k, c, other, direct, reached, r, there));
}

/// A pass that converges takes at least one iteration and stays within its budget.
pub proof fn law_pass_stays_within_budget<T: Number, P, K: Kernel<T, P>>(
    k: K,
    c: CompiledNetlist<T, P>,
    base: Equations<T>,
    conductance: T,
    limiting: bool,
    start: DcMoment<T>,
    iters: usize,
    end: DcMoment<T>,
)
    requires
        dc_pass(k, c, base, conductance, limiting, start, Ok(iters), end),
    ensures
        1 <= iters <= dc_budget(c),
{
    let trace = choose|trace: Seq<DcMoment<T>>| #[trigger]
        dc_trace(k, c, base, conductance, limiting, start, trace) && dc_ends(
            k,
            c,
            base,
            conductance,
            limiting,
            trace,
            Ok(iters),
            end,
        );
    if trace.len() > 1 {
        let i = trace.len() - 2;
        assert(dc_iterates(k, c, base, conductance, limiting, i as nat, trace[i], trace[i + 1]));
    }
}

proof fn lemma_total_grows<T: Number, P, K: Kernel<T, P>>(
    k: K,
    c: CompiledNetlist<T, P>,
    factor: T,
    start: DcMoment<T>,
    stages: Seq<DcMoment<T>>,
    counts: Seq<usize>,
    j: nat,
)
    requires
        stepping(k, c, factor, start, stages, counts),
        j <= counts.len(),
    ensures
        j <= total(counts, j) <= j * dc_budget(c),
    decreases j,
{
    if j > 0 {
        let i = j - 1;
        lemma_total_grows(k, c, factor, start, stages, counts, i as nat);
        assert(counts[i] == counts[i]);
        law_pass_stays_within_budget(
            k,
            c,
            dc_equations(c),
            stepped_conductance(factor, i as nat),
            true,
            stages[i],
            counts[i],
            stages[i + 1],
        );
        assert(j * dc_budget(c) == i * dc_budget(c) + dc_budget(c)) by (nonlinear_arith)
            requires
                i == j - 1,
        ;
    }
}

/// An operating point takes at least one iteration, and at most as many as the
/// passes of the stepping may take together.
pub proof fn law_dc_stays_within_budget<T: Number, P, K: Kernel<T, P>>(
    k: K,
    c: CompiledNetlist<T, P>,
    s: TransientState<T>,
    iters: usize,
    after: TransientState<T>,
)
    requires
        dc_solved(k, c, s, Ok(iters), after),
    ensures
        1 <= iters <= (GMIN_STEPS + 1) * dc_budget(c),
{
    let (direct, reached) = choose|direct: Result<usize, DcIssue>, reached: DcMoment<T>|
     #[trigger]
        direct_pass(k, c, s, direct, reached) && dc_concludes(
            k,
            c,
            s,
            direct,
            reached,
            Ok(iters),
            after,
        );
    let first = DcMoment { est: dc_start(c), prev: dc_start(c), relays: s.relay_active@ };
    match direct {
        Ok(_) => {
            law_pass_stays_within_budget(
                k,
                c,
                dc_equations(c),
                gmin(),
                false,
                first,
                iters,
                reached,
            );
        },
        Err(_) => {
            let start = DcMoment { relays: reached.relays, ..first };
            let (factor, stages, counts) = choose|
                factor: T,
                stages: Seq<DcMoment<T>>,
                counts: Seq<usize>,
            |
                factor_answer(k, factor) && #[trigger] stepping(
                    k,
                    c,
                    factor,
                    start,
                    stages,
                    counts,
                ) && stepping_ends(k, c, s, factor, stages, counts, Ok(iters), after);
            lemma_total_grows(k, c, factor, start, stages, counts, counts.len());
            assert(counts.len() == GMIN_STEPS + 1);
        },
    }
}

/// The stepping never takes the regularising conductance below its normal value,
/// in a number type whose order is sane at the two conductances.
pub proof fn law_conductance_stays_above_normal<T: Number>(factor: T, j: nat)
    requires
        !gmin::<T>().below(gmin()),
        !first_conductance::<T>().below(gmin()),
    ensures
        !stepped_conductance(factor, j).below(gmin()),
{
}

} // verus!
