//! What the kernel is asked, and what becomes of its answers.

use vstd::prelude::*;

use crate::companion::gmin;
use crate::compiled::CompiledNetlist;
use crate::dc::{factor_answer, first_conductance};
use crate::equations::Equations;
use crate::kernel::{
    dense_answer, diode_answer, solved, sparse_answer, transistor_answer, usable, Kernel,
};
use crate::laws::balance::lemma_gmin;
use crate::laws::exact::{exact, lemma_decimal, lemma_quotient_is, prod, ratio};
use crate::number::{one, Number};
use crate::types::{DiodeStamp, TransistorStamp};

verus! {

/// A transistor is linearised by its own parameters at its own base, collector and
/// emitter, under the voltages and the earlier voltages that are given.
pub proof fn law_transistor_model_sees_its_terminals<T: Number, P, K: Kernel<T, P>>(
    k: K,
    c: CompiledNetlist<T, P>,
    i: int,
    est: Seq<T>,
    prev: Option<Seq<T>>,
    r: TransistorStamp<T>,
)
    requires
        transistor_answer(k, c, i, est, prev, r),
    ensures
        exists|volts: Vec<T>, before: Option<&Vec<T>>|
            volts@ == est && (before is Some <==> prev is Some) && (before matches Some(v)
                ==> v@ == prev->0) && #[trigger] call_ensures(
                K::transistor_stamp,
                (
                    &k,
                    &c.elements@[c.transistor_indices@[i] as int]->Transistor_params,
                    &volts,
                    c.transistor_node_indices@[i * 3],
                    c.transistor_node_indices@[i * 3 + 1],
                    c.transistor_node_indices@[i * 3 + 2],
                    before,
                ),
                r,
            ),
{
}

/// A diode is linearised by its own parameters at its own anode and cathode.
pub proof fn law_diode_model_sees_its_terminals<T: Number, P, K: Kernel<T, P>>(
    k: K,
    c: CompiledNetlist<T, P>,
    i: int,
    est: Seq<T>,
    prev: Option<Seq<T>>,
    r: DiodeStamp<T>,
)
    requires
        diode_answer(k, c, i, est, prev, r),
    ensures
        exists|volts: Vec<T>, before: Option<&Vec<T>>|
            volts@ == est && (before is Some <==> prev is Some) && (before matches Some(v)
                ==> v@ == prev->0) && #[trigger] call_ensures(
                K::diode_stamp,
                (
                    &k,
                    &c.elements@[c.diode_indices@[i] as int]->Diode_params,
                    &volts,
                    c.diode_node_indices@[i * 2],
                    c.diode_node_indices@[i * 2 + 1],
                    before,
                ),
                r,
            ),
{
}

/// A solution has one value for each unknown, and is what the sparse solver answered or,
/// where that had none, the dense one.  Both are asked about the same system.
pub proof fn law_solutions_are_answers<T: Number, P, K: Kernel<T, P>>(
    k: K,
    e: Equations<T>,
    size: usize,
    pattern: P,
    x: Option<Seq<T>>,
)
    requires
        solved(k, e, size, pattern, x),
    ensures
        x matches Some(values) ==> values.len() == size && ((exists|answer: Vec<T>|
            answer@ == values && #[trigger] sparse_answer(k, e, size, pattern, Some(answer))) || (
        exists|answer: Vec<T>|
            answer@ == values && #[trigger] dense_answer(k, e, size, Some(answer)))),
        x is None ==> exists|sparse: Option<Vec<T>>, dense: Option<Vec<T>>|
            #[trigger] sparse_answer(k, e, size, pattern, sparse) && #[trigger] dense_answer(
                k,
                e,
                size,
                dense,
            ) && (sparse matches Some(v) ==> v@.len() != size) && (dense matches Some(v)
                ==> v@.len() != size),
{
    let sparse = choose|sparse: Option<Vec<T>>| #[trigger]
        sparse_answer(k, e, size, pattern, sparse) && (match usable(sparse, size as nat) {
            Some(solution) => x == Some(solution),
            None => exists|dense: Option<Vec<T>>| #[trigger]
                dense_answer(k, e, size, dense) && x == usable(dense, size as nat),
        });
    match usable(sparse, size as nat) {
        Some(solution) => {
            assert(sparse_answer(k, e, size, pattern, Some(sparse->0)));
        },
        None => {
            let dense = choose|dense: Option<Vec<T>>| #[trigger]
                dense_answer(k, e, size, dense) && x == usable(dense, size as nat);
            if x is Some {
                let answer = dense->0;
                assert(dense_answer(k, e, size, Some(answer)));
            }
        },
    }
}

/// A usable answer of the sparse solver is the solution: the dense solver is asked only
/// where there is none.
pub proof fn law_sparse_answers_go_first<T: Number, P, K: Kernel<T, P>>(
    k: K,
    e: Equations<T>,
    size: usize,
    pattern: P,
    x: Option<Seq<T>>,
)
    requires
        solved(k, e, size, pattern, x),
        forall|answer: Option<Vec<T>>| #[trigger]
            sparse_answer(k, e, size, pattern, answer) ==> answer is Some && answer->0@.len()
                == size,
    ensures
        x is Some,
        exists|answer: Vec<T>|
            answer@ == x->0 && #[trigger] sparse_answer(k, e, size, pattern, Some(answer)),
{
    let sparse = choose|sparse: Option<Vec<T>>| #[trigger]
        sparse_answer(k, e, size, pattern, sparse) && (match usable(sparse, size as nat) {
            Some(solution) => x == Some(solution),
            None => exists|dense: Option<Vec<T>>| #[trigger]
                dense_answer(k, e, size, dense) && x == usable(dense, size as nat),
        });
    assert(sparse_answer(k, e, size, pattern, Some(sparse->0)));
}

/// Both solvers are handed the system row by row, with its right-hand side, and the
/// sparse one the pattern, too.
pub proof fn law_solvers_see_the_system<T: Number, P, K: Kernel<T, P>>(
    k: K,
    e: Equations<T>,
    size: usize,
    pattern: P,
    r: Option<Vec<T>>,
)
    ensures
        sparse_answer(k, e, size, pattern, r) ==> exists|matrix: Vec<T>, rhs: Vec<T>|
            matrix@ == e.matrix && rhs@ == e.rhs && #[trigger] call_ensures(
                K::sparse_solve,
                (&k, matrix, &rhs, size, &pattern),
                r,
            ),
        dense_answer(k, e, size, r) ==> exists|matrix: Vec<T>, rhs: Vec<T>|
            matrix@ == e.matrix && rhs@ == e.rhs && #[trigger] call_ensures(
                K::dense_solve,
                (&k, matrix, rhs, size),
                r,
            ),
{
}

/// The factor of the stepping is the kernel's answer for a power: the ratio between the
/// normal conductance and the first one, 1e-7, to the power of one tenth.
pub proof fn law_factor_is_a_root<T: Number, P, K: Kernel<T, P>>(
    val: spec_fn(T) -> real,
    k: K,
    factor: T,
)
    requires
        exact(val),
        factor_answer(k, factor),
    ensures
        exists|base: T, exponent: T| #[trigger]
            call_ensures(K::power, (&k, base, exponent), factor) && val(base) == ratio(
                1 as real,
                10_000_000 as real,
            ) && val(exponent) == ratio(1 as real, 10 as real),
{
    let base = gmin::<T>().quotient(first_conductance());
    let exponent = one::<T>().quotient(T::decimal_value(10, 0));
    lemma_decimal(val, 1, 0);
    lemma_decimal(val, 10, 0);
    lemma_decimal(val, 1, 2);
    lemma_gmin(val);
    let low = val(gmin::<T>());
    let high = val(first_conductance::<T>());
    assert(high != 0 as real && low == ratio(1 as real, 1_000_000_000 as real) && prod(
        ratio(1 as real, 10_000_000 as real),
        high,
    ) == low) by {
        reveal(prod);
        reveal(ratio);
        assert(high * (100 as real) == 1 as real);
        assert(((1 as real) / (10_000_000 as real)) * high == (1 as real) / (
        1_000_000_000 as real));
    }
    lemma_quotient_is(low, high, ratio(1 as real, 10_000_000 as real));
    assert(call_ensures(K::power, (&k, base, exponent), factor));
}

} // verus!
