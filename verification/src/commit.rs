//! Writing a solved estimate into the solver state.

use vstd::prelude::*;

use crate::compiled::CompiledNetlist;
use crate::number::Number;
use crate::relays::{node_potential, potential};

verus! {

/// The voltage of each capacitor under an estimate.
pub open spec fn cap_volts_at<T: Number, P>(c: CompiledNetlist<T, P>, est: Seq<T>) -> Seq<T> {
    Seq::new(
        c.cap_count as nat,
        |i: int|
            potential(est, c.cap_slot(i, 0)).difference(potential(est, c.cap_slot(i, 1))),
    )
}

/// The current of each inductor under an estimate.
pub open spec fn inductor_currents_at<T: Number, P>(
    c: CompiledNetlist<T, P>,
    est: Seq<T>,
) -> Seq<T> {
    Seq::new(c.inductor_count as nat, |i: int| est[c.inductor_branch_rows@[i] as int])
}

/// The current of each voltage source under an estimate.
pub open spec fn source_currents_at<T: Number, P>(c: CompiledNetlist<T, P>, est: Seq<T>) -> Seq<T> {
    Seq::new(c.m as nat, |i: int| est[c.n + i])
}

/// The base-emitter and base-collector voltages of each transistor under an
/// estimate.
pub open spec fn junction_volts_at<T: Number, P>(c: CompiledNetlist<T, P>, est: Seq<T>) -> Seq<T> {
    Seq::new(
        (c.transistor_count * 2) as nat,
        |j: int|
            potential(est, c.transistor_node(j / 2, 0)).difference(
                potential(
                    est,
                    c.transistor_node(
                        j / 2,
                        if j % 2 == 0 {
                            2
                        } else {
                            1
                        },
                    ),
                ),
            ),
    )
}

/// The node voltages of an estimate.
pub fn node_volts_of<T: Number, P>(c: &CompiledNetlist<T, P>, est: &Vec<T>) -> (r: Vec<T>)
    requires
        c.wf(),
        est.len() == c.size,
    ensures
        r@ == est@.take(c.n as int),
{
    let mut volts: Vec<T> = Vec::new();
    let mut i: usize = 0;
    while i < c.n
        invariant
            i <= c.n,
            c.wf(),
            est.len() == c.size,
            volts@ == est@.take(i as int),
        decreases c.n - i,
    {
        volts.push(est[i]);
        i += 1;
    }
    volts
}

/// The capacitor voltages of an estimate.
pub fn cap_volts_of<T: Number, P>(c: &CompiledNetlist<T, P>, est: &Vec<T>) -> (r: Vec<T>)
    requires
        c.wf(),
        est.len() == c.size,
    ensures
        r@ == cap_volts_at(*c, est@),
{
    let mut volts: Vec<T> = Vec::new();
    let mut i: usize = 0;
    while i < c.cap_count
        invariant
            i <= c.cap_count,
            c.wf(),
            est.len() == c.size,
            volts@ == cap_volts_at(*c, est@).take(i as int),
        decreases c.cap_count - i,
    {
        let va = node_potential(est, c.cap_slot_at(i, 0));
        let vb = node_potential(est, c.cap_slot_at(i, 1));
        volts.push(va.minus(vb));
        i += 1;
    }
    volts
}

/// The inductor currents of an estimate.
pub fn inductor_currents_of<T: Number, P>(c: &CompiledNetlist<T, P>, est: &Vec<T>) -> (r: Vec<T>)
    requires
        c.wf(),
        est.len() == c.size,
    ensures
        r@ == inductor_currents_at(*c, est@),
{
    let mut currents: Vec<T> = Vec::new();
    let mut i: usize = 0;
    while i < c.inductor_count
        invariant
            i <= c.inductor_count,
            c.wf(),
            est.len() == c.size,
            currents@ == inductor_currents_at(*c, est@).take(i as int),
        decreases c.inductor_count - i,
    {
        currents.push(est[c.inductor_branch_rows[i]]);
        i += 1;
    }
    currents
}

/// The source currents of an estimate.
pub fn source_currents_of<T: Number, P>(c: &CompiledNetlist<T, P>, est: &Vec<T>) -> (r: Vec<T>)
    requires
        c.wf(),
        est.len() == c.size,
    ensures
        r@ == source_currents_at(*c, est@),
{
    let mut currents: Vec<T> = Vec::new();
    let mut i: usize = 0;
    while i < c.m
        invariant
            i <= c.m,
            c.wf(),
            est.len() == c.size,
            currents@ == source_currents_at(*c, est@).take(i as int),
        decreases c.m - i,
    {
        currents.push(est[c.n + i]);
        i += 1;
    }
    currents
}

/// The junction voltages of an estimate.
pub fn junction_volts_of<T: Number, P>(c: &CompiledNetlist<T, P>, est: &Vec<T>) -> (r: Vec<T>)
    requires
        c.wf(),
        est.len() == c.size,
    ensures
        r@ == junction_volts_at(*c, est@),
{
    let mut volts: Vec<T> = Vec::new();
    let mut i: usize = 0;
    while i < c.transistor_count
        invariant
            i <= c.transistor_count,
            c.wf(),
            est.len() == c.size,
            volts@ == junction_volts_at(*c, est@).take(2 * i),
        decreases c.transistor_count - i,
    {
        let vb = node_potential(est, c.transistor_terminal(i, 0));
        let vc = node_potential(est, c.transistor_terminal(i, 1));
        let ve = node_potential(est, c.transistor_terminal(i, 2));
        volts.push(vb.minus(ve));
        volts.push(vb.minus(vc));
        proof {
            let all = junction_volts_at(*c, est@);
            assert((2 * i) / 2 == i && (2 * i) % 2 == 0);
            assert((2 * i + 1) / 2 == i && (2 * i + 1) % 2 == 1);
            assert(volts@ =~= all.take(2 * (i + 1)));
        }
        i += 1;
    }
    volts
}

} // verus!
