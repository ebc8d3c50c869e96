//! What holds of the graph that elimination works on.

use vstd::prelude::*;

use crate::elimination::{edges_among, edges_of, eliminated, is_edge};

verus! {

proof fn lemma_only_prefix_counts(n: usize, one: Seq<i32>, other: Seq<i32>, k: nat)
    requires
        2 * k <= one.len(),
        2 * k <= other.len(),
        forall|i: int| 0 <= i < 2 * k ==> one[i] == other[i],
    ensures
        edges_among(n, one, k) == edges_among(n, other, k),
    decreases k,
{
    if k > 0 {
        lemma_only_prefix_counts(n, one, other, (k - 1) as nat);
    }
}

proof fn lemma_non_edges_add_nothing(n: usize, flat_edges: Seq<i32>, extra: Seq<i32>, k: nat)
    requires
        flat_edges.len() % 2 == 0,
        2 * k <= extra.len(),
        forall|i: int, j: int|
            #![trigger extra[i], extra[j]]
            0 <= i && j == i + 1 && j < extra.len() && i % 2 == 0 ==> !is_edge(
                n,
                extra[i],
                extra[j],
            ),
    ensures
        edges_among(n, flat_edges + extra, flat_edges.len() / 2 + k) == edges_of(n, flat_edges),
    decreases k,
{
    let longer = flat_edges + extra;
    let own = flat_edges.len() / 2;
    if k == 0 {
        lemma_only_prefix_counts(n, longer, flat_edges, own);
    } else {
        lemma_non_edges_add_nothing(n, flat_edges, extra, (k - 1) as nat);
        let i = 2 * (k - 1);
        assert(longer[2 * (own + k - 1)] == extra[i]);
        assert(longer[2 * (own + k - 1) + 1] == extra[i + 1]);
        assert(!is_edge(n, extra[i], extra[i + 1]));
    }
}

/// What is no edge changes nothing: appending self-loops, pairs with a number out of
/// range, or a single number at the end leaves the graph as it is, and so what the
/// ordering can answer.
pub proof fn law_non_edges_are_filtered<F: Fn(usize, Vec<(usize, usize)>) -> Vec<i32>>(
    n: usize,
    flat_edges: Seq<i32>,
    extra: Seq<i32>,
    order: F,
    r: Vec<i32>,
)
    requires
        flat_edges.len() % 2 == 0,
        forall|i: int, j: int|
            #![trigger extra[i], extra[j]]
            0 <= i && j == i + 1 && j < extra.len() && i % 2 == 0 ==> !is_edge(
                n,
                extra[i],
                extra[j],
            ),
    ensures
        edges_of(n, flat_edges + extra) == edges_of(n, flat_edges),
        eliminated(order, n, flat_edges + extra, r) <==> eliminated(order, n, flat_edges, r),
{
    lemma_non_edges_add_nothing(n, flat_edges, extra, extra.len() / 2);
    assert((flat_edges + extra).len() / 2 == flat_edges.len() / 2 + extra.len() / 2);
}

/// The graph has no self-loops and no nodes but its own.
pub proof fn law_edges_join_nodes(n: usize, flat_edges: Seq<i32>, k: nat, e: int)
    requires
        0 <= e < edges_among(n, flat_edges, k).len(),
    ensures
        edges_among(n, flat_edges, k)[e].0 < n,
        edges_among(n, flat_edges, k)[e].1 < n,
        edges_among(n, flat_edges, k)[e].0 != edges_among(n, flat_edges, k)[e].1,
    decreases k,
{
    if k > 0 && e < edges_among(n, flat_edges, (k - 1) as nat).len() {
        law_edges_join_nodes(n, flat_edges, (k - 1) as nat, e);
    }
}

/// Every pair of two different nodes of the graph is an edge of it, after those before.
pub proof fn law_edges_are_kept(n: usize, flat_edges: Seq<i32>, i: i32, j: i32)
    requires
        flat_edges.len() % 2 == 0,
        0 <= i < n,
        0 <= j < n,
        i != j,
    ensures
        edges_of(n, flat_edges.push(i).push(j)) == edges_of(n, flat_edges).push(
            (i as usize, j as usize),
        ),
{
    let longer = flat_edges.push(i).push(j);
    let k = flat_edges.len() / 2;
    lemma_only_prefix_counts(n, longer, flat_edges, k);
    assert(longer.len() / 2 == k + 1);
    assert(longer[2 * k as int] == i && longer[2 * k as int + 1] == j);
}

} // verus!
