//! What the solver writes back of a solution.

use vstd::prelude::*;

use crate::commit::{
    cap_volts_at, inductor_currents_at, junction_volts_at, source_currents_at,
};
use crate::companion::gmin;
use crate::compiled::CompiledNetlist;
use crate::dc::{
    dc_concludes, dc_ends, dc_equations, dc_next, dc_pass, dc_progress, dc_solution, dc_solved,
    dc_start, dc_trace, direct_pass, factor_answer, stepped_conductance, stepping, stepping_ends,
    DcIssue, DcMoment,
};
use crate::equations::Equations;
use crate::kernel::Kernel;
use crate::laws::balance::sources_in_order;
use crate::laws::steps::{law_newton_stays_within_budget, lemma_voltages_agree};
use crate::newton::{next_moment, predicts, progress, refined, Moment};
use crate::number::{zero, Number};
use crate::relays::relays_next;
use crate::state::TransientState;
use crate::transient::{
    committed, iteration_solution, newton_trace, step_ends, stepped, StepConfig, StepIssue,
    StepResult,
};

verus! {

/// The voltage of a node; 0 for ground.
pub open spec fn node_voltage<T: Number>(volts: Seq<T>, node: i32) -> T {
    if node >= 0 {
        volts[node as int]
    } else {
        zero()
    }
}

/// The current of a source is the unknown of its own branch: the one in whose row the
/// voltage of the source stands.
pub proof fn law_source_current_is_that_of_its_branch<T: Number, P>(
    c: CompiledNetlist<T, P>,
    est: Seq<T>,
    i: int,
)
    requires
        sources_in_order(c),
        0 <= i < c.m,
    ensures
        source_currents_at(c, est).len() == c.m,
        source_currents_at(c, est)[i] == est[c.voltage_source_branch_rows@[i] as int],
{
}

/// The current of an inductor is the unknown of its own branch.
pub proof fn law_inductor_current_is_that_of_its_branch<T: Number, P>(
    c: CompiledNetlist<T, P>,
    est: Seq<T>,
    i: int,
)
    requires
        0 <= i < c.inductor_count,
    ensures
        inductor_currents_at(c, est).len() == c.inductor_count,
        inductor_currents_at(c, est)[i] == est[c.inductor_branch_rows@[i] as int],
{
}

/// The voltage of a capacitor is that of its first node less that of its second.
pub proof fn law_cap_voltage_is_across_its_nodes<T: Number, P>(
    c: CompiledNetlist<T, P>,
    est: Seq<T>,
    i: int,
)
    requires
        0 <= i < c.cap_count,
    ensures
        cap_volts_at(c, est).len() == c.cap_count,
        cap_volts_at(c, est)[i] == node_voltage(est, c.cap_stamp_indices@[4 * i]).difference(
            node_voltage(est, c.cap_stamp_indices@[4 * i + 1]),
        ),
{
    assert(i * 4 == 4 * i);
}

/// Transistor `i` has its base-emitter voltage first, then its base-collector voltage.
pub proof fn law_junction_voltages_are_across_junctions<T: Number, P>(
    c: CompiledNetlist<T, P>,
    est: Seq<T>,
    i: int,
)
    requires
        0 <= i < c.transistor_count,
    ensures
        junction_volts_at(c, est).len() == 2 * c.transistor_count,
        ({
            let base = node_voltage(est, c.transistor_node_indices@[3 * i]);
            let collector = node_voltage(est, c.transistor_node_indices@[3 * i + 1]);
            let emitter = node_voltage(est, c.transistor_node_indices@[3 * i + 2]);
            &&& junction_volts_at(c, est)[2 * i] == base.difference(emitter)
            &&& junction_volts_at(c, est)[2 * i + 1] == base.difference(collector)
        }),
{
    assert((2 * i) / 2 == i && (2 * i) % 2 == 0);
    assert((2 * i + 1) / 2 == i && (2 * i + 1) % 2 == 1);
    assert(i * 3 == 3 * i);
}

/// A state holds what an estimate of the unknowns says of its branches, and its
/// capacitor and junction voltages are those between its own nodes.
pub open spec fn reads_off<T: Number, P>(
    c: CompiledNetlist<T, P>,
    x: Seq<T>,
    after: TransientState<T>,
) -> bool {
    &&& forall|i: int|
        0 <= i < c.m ==> #[trigger] after.voltage_source_currents@[i]
            == x[c.voltage_source_branch_rows@[i] as int]
    &&& forall|i: int|
        0 <= i < c.inductor_count ==> #[trigger] after.inductor_currents@[i]
            == x[c.inductor_branch_rows@[i] as int]
    &&& forall|i: int|
        0 <= i < c.cap_count ==> #[trigger] after.cap_volts@[i] == node_voltage(
            after.node_volts@,
            c.cap_stamp_indices@[4 * i],
        ).difference(node_voltage(after.node_volts@, c.cap_stamp_indices@[4 * i + 1]))
    &&& forall|i: int, j: int|
        #![trigger after.tj_cap_volts@[j], c.transistor_node_indices@[i]]
        0 <= i < 3 * c.transistor_count && i % 3 == 0 && j == 2 * (i / 3)
            ==> after.tj_cap_volts@[j] == node_voltage(
            after.node_volts@,
            c.transistor_node_indices@[i],
        ).difference(node_voltage(after.node_volts@, c.transistor_node_indices@[i + 2]))
            && after.tj_cap_volts@[j + 1] == node_voltage(
            after.node_volts@,
            c.transistor_node_indices@[i],
        ).difference(node_voltage(after.node_volts@, c.transistor_node_indices@[i + 1]))
}

proof fn lemma_reads_off<T: Number, P>(
    c: CompiledNetlist<T, P>,
    x: Seq<T>,
    est: Seq<T>,
    after: TransientState<T>,
)
    requires
        c.wf(),
        sources_in_order(c),
        x.len() == c.size,
        est.len() == c.size,
        forall|i: int| c.n <= i < c.size ==> #[trigger] est[i] == x[i],
        after.node_volts@ == est.take(c.n as int),
        after.cap_volts@ == cap_volts_at(c, est),
        after.tj_cap_volts@ == junction_volts_at(c, est),
        after.voltage_source_currents@ == source_currents_at(c, est),
        after.inductor_currents@ == inductor_currents_at(c, est),
    ensures
        reads_off(c, x, after),
{
    lemma_voltages_agree(c, est, after);
    assert forall|i: int| 0 <= i < c.m implies #[trigger] after.voltage_source_currents@[i]
        == x[c.voltage_source_branch_rows@[i] as int] by {
        law_source_current_is_that_of_its_branch(c, est, i);
        assert(est[c.n + i] == x[c.n + i]);
    }
    assert forall|i: int| 0 <= i < c.inductor_count implies #[trigger] after.inductor_currents@[i]
        == x[c.inductor_branch_rows@[i] as int] by {
        let row = c.inductor_branch_rows@[i] as int;
        assert(c.n + c.m <= row < c.size);
        assert(est[row] == x[row]);
    }
    assert forall|i: int| 0 <= i < c.cap_count implies #[trigger] after.cap_volts@[i]
        == node_voltage(after.node_volts@, c.cap_stamp_indices@[4 * i]).difference(
        node_voltage(after.node_volts@, c.cap_stamp_indices@[4 * i + 1]),
    ) by {
        law_cap_voltage_is_across_its_nodes(c, after.node_volts@, i);
    }
    assert forall|i: int, j: int|
        #![trigger after.tj_cap_volts@[j], c.transistor_node_indices@[i]]
        0 <= i < 3 * c.transistor_count && i % 3 == 0 && j == 2 * (i
            / 3) implies after.tj_cap_volts@[j] == node_voltage(
        after.node_volts@,
        c.transistor_node_indices@[i],
    ).difference(
        node_voltage(after.node_volts@, c.transistor_node_indices@[i + 2]),
    ) && after.tj_cap_volts@[j + 1] == node_voltage(
        after.node_volts@,
        c.transistor_node_indices@[i],
    ).difference(node_voltage(after.node_volts@, c.transistor_node_indices@[i + 1])) by {
        law_junction_voltages_are_across_junctions(c, after.node_volts@, i / 3);
    }
}

/// A committed step holds the solution of its last linear system: the currents of sources
/// and inductors as they are, and the node voltages that the iteration made of it.
pub proof fn law_step_commits_its_solution<T: Number, P, K: Kernel<T, P>>(
    k: K,
    c: CompiledNetlist<T, P>,
    s: TransientState<T>,
    config: StepConfig<T>,
    r: Result<StepResult<T>, StepIssue>,
    after: TransientState<T>,
)
    requires
        c.wf(),
        sources_in_order(c),
        stepped(k, c, s, config, r, after),
        r is Ok,
    ensures
        exists|at: Moment<T>, x: Seq<T>| #[trigger]
            iteration_solution(k, c, s, config, at, Some(x)) && x.len() == c.size && reads_off(
                c,
                x,
                after,
            ) && after.node_volts@ == refined(
                c,
                (r->Ok_0.iters - 1) as nat,
                at,
                x,
            ).take(c.n as int) && after.relay_active@ == relays_next(
                c,
                at.relays,
                refined(c, (r->Ok_0.iters - 1) as nat, at, x),
            ),
{
    let trace = choose|trace: Seq<Moment<T>>| #[trigger]
        newton_trace(k, c, s, config, trace) && step_ends(k, c, s, config, trace, r, after);
    law_newton_stays_within_budget(k, c, s, config, trace);
    let i = (trace.len() - 1) as nat;
    let last = trace.last();
    let x = choose|x: Seq<T>| #[trigger]
        iteration_solution(k, c, s, config, last, Some(x)) && x.len() == c.size && progress(
            c,
            predicts(s),
            i,
            last,
            x,
        ) is Settled && committed(
            c,
            s,
            config.dt,
            next_moment(c, i, last, x).est,
            next_moment(c, i, last, x).relays,
            after,
        );
    let est = refined(c, i, last, x);
    assert forall|j: int| c.n <= j < c.size implies #[trigger] est[j] == x[j] by {}
    lemma_reads_off(c, x, est, after);
    assert(r->Ok_0.iters - 1 == i);
}

proof fn lemma_pass_ends_at_solution<T: Number, P, K: Kernel<T, P>>(
    k: K,
    c: CompiledNetlist<T, P>,
    base: Equations<T>,
    g: T,
    limiting: bool,
    start: DcMoment<T>,
    r: Result<usize, DcIssue>,
    end: DcMoment<T>,
)
    requires
        dc_pass(k, c, base, g, limiting, start, r, end),
        r is Ok,
    ensures
        end.est.len() == c.size,
        exists|at: DcMoment<T>| #[trigger]
            dc_solution(k, c, base, g, limiting, at, Some(end.est)) && at.relays == end.relays,
{
    let trace = choose|trace: Seq<DcMoment<T>>| #[trigger]
        dc_trace(k, c, base, g, limiting, start, trace) && dc_ends(
            k,
            c,
            base,
            g,
            limiting,
            trace,
            r,
            end,
        );
    let last = trace.last();
    let i = (trace.len() - 1) as nat;
    let x = choose|x: Seq<T>| #[trigger]
        dc_solution(k, c, base, g, limiting, last, Some(x)) && x.len() == c.size && dc_progress(
            c,
            limiting,
            i,
            last.est,
            x,
        ) is Converged && end == dc_next(c, limiting, i, last, x);
    assert(end.est == x);
    assert(end.relays == last.relays);
    assert(dc_solution(k, c, base, g, limiting, last, Some(end.est)));
}

/// An operating point that was found is the solution of a linear system of the circuit
/// at rest, with the relays where they are: node voltages and branch currents are those
/// of the solution.  The regularising conductance is the normal one, or what the stepping
/// came down to.
pub proof fn law_operating_point_is_a_solution<T: Number, P, K: Kernel<T, P>>(
    k: K,
    c: CompiledNetlist<T, P>,
    s: TransientState<T>,
    r: Result<usize, DcIssue>,
    after: TransientState<T>,
)
    requires
        c.wf(),
        sources_in_order(c),
        dc_solved(k, c, s, r, after),
        r is Ok,
    ensures
        exists|g: T, limiting: bool, at: DcMoment<T>, x: Seq<T>| #[trigger]
            dc_solution(k, c, dc_equations(c), g, limiting, at, Some(x)) && x.len() == c.size
                && after.node_volts@ == x.take(c.n as int) && reads_off(c, x, after)
                && after.relay_active@ == at.relays && (g == gmin::<T>() || exists|factor: T|
                #[trigger] factor_answer(k, factor) && g == stepped_conductance(factor, 10)),
{
    let (direct, reached) = choose|direct: Result<usize, DcIssue>, reached: DcMoment<T>|
     #[trigger]
        direct_pass(k, c, s, direct, reached) && dc_concludes(k, c, s, direct, reached, r, after);
    match direct {
        Ok(iters) => {
            lemma_pass_ends_at_solution(
                k,
                c,
                dc_equations(c),
                gmin(),
                false,
                DcMoment { est: dc_start(c), prev: dc_start(c), relays: s.relay_active@ },
                direct,
                reached,
            );
            lemma_reads_off(c, reached.est, reached.est, after);
            let at = choose|at: DcMoment<T>| #[trigger]
                dc_solution(k, c, dc_equations(c), gmin(), false, at, Some(reached.est))
                    && at.relays == reached.relays;
            assert(dc_solution(k, c, dc_equations(c), gmin::<T>(), false, at, Some(reached.est)));
        },
        Err(_) => {
            let start = DcMoment { est: dc_start(c), prev: dc_start(c), relays: reached.relays };
            let (factor, stages, counts) = choose|
                factor: T,
                stages: Seq<DcMoment<T>>,
                counts: Seq<usize>,
            |
                factor_answer(k, factor) && #[trigger] stepping(
                    k,
                    c,
                    factor,
                    start,
                    stages,
                    counts,
                ) && stepping_ends(k, c, s, factor, stages, counts, r, after);
            let j = counts.len() - 1;
            assert(counts[j] == counts[j]);
            let g = stepped_conductance(factor, j as nat);
            assert(stages[j + 1] == stages.last());
            let end = stages.last();
            lemma_pass_ends_at_solution(
                k,
                c,
                dc_equations(c),
                g,
                true,
                stages[j],
                Ok(counts[j]),
                end,
            );
            lemma_reads_off(c, end.est, end.est, after);
            let at = choose|at: DcMoment<T>| #[trigger]
                dc_solution(k, c, dc_equations(c), g, true, at, Some(end.est)) && at.relays
                    == end.relays;
            assert(dc_solution(k, c, dc_equations(c), g, true, at, Some(end.est)));
            assert(factor_answer(k, factor));
        },
    }
}

} // verus!
