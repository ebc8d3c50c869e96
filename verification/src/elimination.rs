//! Elimination order of the nodes: the graph that the ordering works on.

use vstd::prelude::*;

verus! {

/// Two node numbers make an edge of a graph on `n` nodes: both are nodes of it, and
/// they are different.
pub open spec fn is_edge(n: usize, i: i32, j: i32) -> bool {
    0 <= i < n && 0 <= j < n && i != j
}

/// The edges among the first `k` pairs of a flat list of node numbers
/// `[i0, j0, i1, j1, ...]`, in their order.  Self-loops and pairs with a number out of
/// range are left out.
pub open spec fn edges_among(n: usize, flat_edges: Seq<i32>, k: nat) -> Seq<(usize, usize)>
    decreases k,
{
    if k == 0 {
        Seq::empty()
    } else {
        let before = edges_among(n, flat_edges, (k - 1) as nat);
        let i = flat_edges[2 * (k - 1)];
        let j = flat_edges[2 * (k - 1) + 1];
        if is_edge(n, i, j) {
            before.push((i as usize, j as usize))
        } else {
            before
        }
    }
}

/// The edges that a flat list of node numbers describes; an odd number at the end
/// counts for nothing.
pub open spec fn edges_of(n: usize, flat_edges: Seq<i32>) -> Seq<(usize, usize)> {
    edges_among(n, flat_edges, flat_edges.len() / 2)
}

/// The edges that a flat list of node numbers describes.
pub fn edge_pairs(n: usize, flat_edges: &[i32]) -> (r: Vec<(usize, usize)>)
    ensures
        r@ == edges_of(n, flat_edges@),
{
    let mut edges: Vec<(usize, usize)> = Vec::new();
    let mut k: usize = 0;
    while k < flat_edges.len() / 2
        invariant
            k <= flat_edges@.len() / 2,
            edges@ == edges_among(n, flat_edges@, k as nat),
        decreases flat_edges@.len() / 2 - k,
    {
        let i = flat_edges[2 * k];
        let j = flat_edges[2 * k + 1];
        if i >= 0 && j >= 0 && i != j && (i as usize) < n && (j as usize) < n {
            edges.push((i as usize, j as usize));
        }
        k += 1;
    }
    edges
}

/// `r` is an answer of the ordering for the graph.
pub open spec fn eliminated<F: Fn(usize, Vec<(usize, usize)>) -> Vec<i32>>(
    order: F,
    n: usize,
    flat_edges: Seq<i32>,
    r: Vec<i32>,
) -> bool {
    exists|edges: Vec<(usize, usize)>|
        edges@ == edges_of(n, flat_edges) && #[trigger] call_ensures(order, (n, edges), r)
}

/// Elimination order of a graph on `n` nodes whose edges are given as a flat list
/// of node numbers: entry `k` of the result is the row to eliminate at step `k`.
/// Self-loops and numbers out of range are filtered.  The ordering itself is the
/// caller's: it is given the edges that are left.
pub fn minimum_degree_order<F: Fn(usize, Vec<(usize, usize)>) -> Vec<i32>>(
    n: usize,
    flat_edges: &[i32],
    order: F,
) -> (r: Vec<i32>)
    requires
        forall|edges: Vec<(usize, usize)>| call_requires(order, (n, edges)),
    ensures
        eliminated(order, n, flat_edges@, r),
{
    order(n, edge_pairs(n, flat_edges))
}

} // verus!
