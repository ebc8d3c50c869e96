//! What holds of the stamps that elements make in the matrix.

use vstd::prelude::*;

use crate::companion::{companion, with_couplings};
use crate::compiled::{CompiledNetlist, CouplingPair};
use crate::equations::{cell, lemma_cell_in_range, lemma_cells_distinct, Equations};
use crate::fixed::Fixed;
use crate::number::{one, zero, Number};
use crate::relays::{relay_stamped, relays_stamped};
use crate::state::TransientState;
use crate::types::{DiodeStamp, TransistorStamp};

verus! {

/// Adding to one entry changes that entry alone.
pub proof fn law_add_is_local<T: Number>(
    e: Equations<T>,
    row: int,
    col: int,
    v: T,
    r: int,
    c: int,
)
    requires
        e.wf(),
        e.has_row(row),
        e.has_row(col),
        0 <= r < e.size,
        0 <= c < e.size,
    ensures
        e.add(row, col, v).wf(),
        e.add(row, col, v).rhs == e.rhs,
        e.add(row, col, v).entry(r, c) == (if r == row && c == col {
            e.entry(r, c).sum(v)
        } else {
            e.entry(r, c)
        }),
{
    lemma_cell_in_range(r, c, e.size);
    if row >= 0 && col >= 0 {
        lemma_cell_in_range(row, col, e.size);
        if cell(r, c, e.size) == cell(row, col, e.size) {
            lemma_cells_distinct(r, c, row, col, e.size);
        }
    }
}

/// Subtracting from one entry changes that entry alone.
pub proof fn law_deduct_is_local<T: Number>(
    e: Equations<T>,
    row: int,
    col: int,
    v: T,
    r: int,
    c: int,
)
    requires
        e.wf(),
        e.has_row(row),
        e.has_row(col),
        0 <= r < e.size,
        0 <= c < e.size,
    ensures
        e.deduct(row, col, v).wf(),
        e.deduct(row, col, v).rhs == e.rhs,
        e.deduct(row, col, v).entry(r, c) == (if r == row && c == col {
            e.entry(r, c).difference(v)
        } else {
            e.entry(r, c)
        }),
{
    lemma_cell_in_range(r, c, e.size);
    if row >= 0 && col >= 0 {
        lemma_cell_in_range(row, col, e.size);
        if cell(r, c, e.size) == cell(row, col, e.size) {
            lemma_cells_distinct(r, c, row, col, e.size);
        }
    }
}

/// A conductance between two different nodes: it is added at the two diagonal
/// entries, subtracted at the two entries between the nodes, and nothing else
/// changes.
pub proof fn law_conductance_entries<T: Number>(
    e: Equations<T>,
    a: int,
    b: int,
    g: T,
    r: int,
    c: int,
)
    requires
        e.wf(),
        e.has_row(a),
        e.has_row(b),
        a != b,
        0 <= r < e.size,
        0 <= c < e.size,
    ensures
        e.conductance(a, b, g).wf(),
        e.conductance(a, b, g).rhs == e.rhs,
        e.conductance(a, b, g).entry(r, c) == (if r == c && (r == a || r == b) {
            e.entry(r, c).sum(g)
        } else if (r == a && c == b) || (r == b && c == a) {
            e.entry(r, c).difference(g)
        } else {
            e.entry(r, c)
        }),
{
    let e1 = e.add(a, a, g);
    let e2 = e1.add(b, b, g);
    let e3 = e2.deduct(a, b, g);
    law_add_is_local(e, a, a, g, r, c);
    law_add_is_local(e1, b, b, g, r, c);
    law_deduct_is_local(e2, a, b, g, r, c);
    law_deduct_is_local(e3, b, a, g, r, c);
}

/// Subtracting the same value at an entry and at its mirror image keeps the matrix
/// symmetric.  Listing a coupled pair in both orders rests on this.
pub proof fn law_mirrored_deduction_is_symmetric<T: Number>(
    e: Equations<T>,
    a: int,
    b: int,
    g: T,
)
    requires
        e.wf(),
        e.has_row(a),
        e.has_row(b),
        e.symmetric(),
    ensures
        e.deduct(a, b, g).deduct(b, a, g).wf(),
        e.deduct(a, b, g).deduct(b, a, g).symmetric(),
{
    let e1 = e.deduct(a, b, g);
    let e2 = e1.deduct(b, a, g);
    if a >= 0 && b >= 0 {
        law_deduct_is_local(e, a, b, g, a, b);
        law_deduct_is_local(e1, b, a, g, a, b);
    }
    assert forall|r: int, c: int| 0 <= r < e2.size && 0 <= c < e2.size implies #[trigger] e2.entry(
        r,
        c,
    ) == e2.entry(c, r) by {
        law_deduct_is_local(e, a, b, g, r, c);
        law_deduct_is_local(e, a, b, g, c, r);
        law_deduct_is_local(e1, b, a, g, r, c);
        law_deduct_is_local(e1, b, a, g, c, r);
        assert(e.entry(r, c) == e.entry(c, r));
    }
}

/// A conductance keeps a symmetric matrix symmetric.
pub proof fn law_conductance_is_symmetric<T: Number>(e: Equations<T>, a: int, b: int, g: T)
    requires
        e.wf(),
        e.has_row(a),
        e.has_row(b),
        e.symmetric(),
    ensures
        e.conductance(a, b, g).wf(),
        e.conductance(a, b, g).symmetric(),
{
    let e1 = e.add(a, a, g);
    let e2 = e1.add(b, b, g);
    if e.size > 0 {
        law_add_is_local(e, a, a, g, 0, 0);
        law_add_is_local(e1, b, b, g, 0, 0);
    }
    assert forall|r: int, c: int| 0 <= r < e2.size && 0 <= c < e2.size implies #[trigger] e2.entry(
        r,
        c,
    ) == e2.entry(c, r) by {
        law_add_is_local(e, a, a, g, r, c);
        law_add_is_local(e, a, a, g, c, r);
        law_add_is_local(e1, b, b, g, r, c);
        law_add_is_local(e1, b, b, g, c, r);
        assert(e.entry(r, c) == e.entry(c, r));
    }
    law_mirrored_deduction_is_symmetric(e2, a, b, g);
}

/// The companions of capacitors and diodes keep a symmetric matrix symmetric.
pub proof fn law_companions_are_symmetric<T: Number>(
    e: Equations<T>,
    a: int,
    b: int,
    g: T,
    ieq: T,
    s: DiodeStamp<T>,
)
    requires
        e.wf(),
        e.has_row(a),
        e.has_row(b),
        e.symmetric(),
    ensures
        e.capacitor(a, b, g, ieq).symmetric(),
        e.diode(a, b, s).symmetric(),
{
    law_conductance_is_symmetric(e, a, b, g);
    law_conductance_is_symmetric(e, a, b, s.gd);
    let charged = e.capacitor(a, b, g, ieq);
    let conducting = e.diode(a, b, s);
    assert forall|r: int, c: int|
        0 <= r < charged.size && 0 <= c < charged.size implies #[trigger] charged.entry(r, c)
        == charged.entry(c, r) by {
        assert(e.conductance(a, b, g).entry(r, c) == e.conductance(a, b, g).entry(c, r));
    }
    assert forall|r: int, c: int|
        0 <= r < conducting.size && 0 <= c < conducting.size implies #[trigger] conducting.entry(
        r,
        c,
    ) == conducting.entry(c, r) by {
        assert(e.conductance(a, b, s.gd).entry(r, c) == e.conductance(a, b, s.gd).entry(c, r));
    }
}

/// The coils and contacts of the relays keep a symmetric matrix symmetric, wherever
/// the contacts are.
pub proof fn law_relays_keep_symmetry<T: Number, P>(
    e: Equations<T>,
    c: CompiledNetlist<T, P>,
    active: Seq<bool>,
    k: nat,
)
    requires
        e.wf(),
        e.size == c.size,
        e.symmetric(),
        c.wf(),
        k <= c.relay_count,
    ensures
        relays_stamped(e, c, active, k).wf(),
        relays_stamped(e, c, active, k).size == c.size,
        relays_stamped(e, c, active, k).symmetric(),
    decreases k,
{
    if k > 0 {
        law_relays_keep_symmetry(e, c, active, (k - 1) as nat);
        let i = k - 1;
        assert(c.relay_node_indices@.len() == c.relay_count * 5);
        assert forall|t: int| 0 <= t < 5 implies #[trigger] c.relay_node(i, t) < c.n by {
            assert(c.relay_node_indices@[i * 5 + t] < c.n);
        }
        let relay = c.element(c.relay_indices@, i);
        let before = relays_stamped(e, c, active, i as nat);
        let coil = before.conductance(
            c.relay_node(i, 0) as int,
            c.relay_node(i, 1) as int,
            one::<T>().quotient(relay->coil_resistance_ohms),
        );
        law_conductance_is_symmetric(
            before,
            c.relay_node(i, 0) as int,
            c.relay_node(i, 1) as int,
            one::<T>().quotient(relay->coil_resistance_ohms),
        );
        let closed = if active[i] { c.relay_node(i, 4) } else { c.relay_node(i, 3) } as int;
        let opened = if active[i] { c.relay_node(i, 3) } else { c.relay_node(i, 4) } as int;
        let ron = one::<T>().quotient(relay->ron_ohms);
        let roff = one::<T>().quotient(relay->roff_ohms);
        law_conductance_is_symmetric(coil, c.relay_node(i, 2) as int, closed, ron);
        law_conductance_is_symmetric(
            coil.conductance(c.relay_node(i, 2) as int, closed, ron),
            c.relay_node(i, 2) as int,
            opened,
            roff,
        );
    }
}

/// An element between ground and ground leaves no trace.
pub proof fn law_grounded_conductance_is_absent<T: Number>(
    e: Equations<T>,
    a: int,
    b: int,
    g: T,
)
    requires
        a < 0,
        b < 0,
    ensures
        e.conductance(a, b, g) == e,
{
}

/// A transistor between three different nodes: what it adds to entry (`r`, `c`).
/// It touches the nine entries between its nodes and no others.
pub open spec fn transistor_share<T: Number>(
    old_entry: T,
    r: int,
    c: int,
    base: int,
    collector: int,
    emitter: int,
    s: TransistorStamp<T>,
) -> T {
    if r == base && c == base {
        old_entry.sum(s.gpi.sum(s.gmu_b))
    } else if r == base && c == emitter {
        old_entry.sum(s.gpi.opposite())
    } else if r == base && c == collector {
        old_entry.sum(s.gmu_b.opposite())
    } else if r == collector && c == base {
        old_entry.sum(s.gm.sum(s.gmu))
    } else if r == collector && c == emitter {
        old_entry.sum(s.gm.opposite())
    } else if r == collector && c == collector {
        old_entry.sum(s.gmu.opposite())
    } else if r == emitter && c == base {
        old_entry.sum(s.gpi.sum(s.gmu_b).sum(s.gm).sum(s.gmu).opposite())
    } else if r == emitter && c == emitter {
        old_entry.sum(s.gpi.sum(s.gm))
    } else if r == emitter && c == collector {
        old_entry.sum(s.gmu_b.sum(s.gmu))
    } else {
        old_entry
    }
}

/// What a transistor between three different nodes adds to the right-hand side of a
/// row.
pub open spec fn transistor_injection<T: Number>(
    old_value: T,
    r: int,
    base: int,
    collector: int,
    emitter: int,
    s: TransistorStamp<T>,
) -> T {
    if r == base {
        old_value.sum(s.i_eq_b.opposite())
    } else if r == collector {
        old_value.sum(s.i_eq_c.opposite())
    } else if r == emitter {
        old_value.sum(s.i_eq_e.opposite())
    } else {
        old_value
    }
}

/// Two nodes are different, or both are ground.
pub open spec fn apart(a: int, b: int) -> bool {
    a != b || a < 0
}

/// The stamp of a transistor, entry by entry.  Its nodes are different, but any of
/// them may be ground: a grounded terminal has no row, no column and no right-hand
/// side, and the rest is stamped the same.
pub proof fn law_transistor_entries<T: Number>(
    e: Equations<T>,
    base: int,
    collector: int,
    emitter: int,
    s: TransistorStamp<T>,
    r: int,
    c: int,
)
    requires
        e.wf(),
        e.has_row(base),
        e.has_row(collector),
        e.has_row(emitter),
        apart(base, collector),
        apart(base, emitter),
        apart(collector, emitter),
        0 <= r < e.size,
        0 <= c < e.size,
    ensures
        e.transistor(base, collector, emitter, s).wf(),
        e.transistor(base, collector, emitter, s).entry(r, c) == transistor_share(
            e.entry(r, c),
            r,
            c,
            base,
            collector,
            emitter,
            s,
        ),
        e.transistor(base, collector, emitter, s).rhs[r] == transistor_injection(
            e.rhs[r],
            r,
            base,
            collector,
            emitter,
            s,
        ),
{
    let e1 = e.add(base, base, s.gpi.sum(s.gmu_b));
    law_add_is_local(e, base, base, s.gpi.sum(s.gmu_b), r, c);
    let e2 = e1.add(base, emitter, s.gpi.opposite());
    law_add_is_local(e1, base, emitter, s.gpi.opposite(), r, c);
    let e3 = e2.add(base, collector, s.gmu_b.opposite());
    law_add_is_local(e2, base, collector, s.gmu_b.opposite(), r, c);
    let e4 = e3.add(collector, base, s.gm.sum(s.gmu));
    law_add_is_local(e3, collector, base, s.gm.sum(s.gmu), r, c);
    let e5 = e4.add(collector, emitter, s.gm.opposite());
    law_add_is_local(e4, collector, emitter, s.gm.opposite(), r, c);
    let e6 = e5.add(collector, collector, s.gmu.opposite());
    law_add_is_local(e5, collector, collector, s.gmu.opposite(), r, c);
    let total = s.gpi.sum(s.gmu_b).sum(s.gm).sum(s.gmu).opposite();
    let e7 = e6.add(emitter, base, total);
    law_add_is_local(e6, emitter, base, total, r, c);
    let e8 = e7.add(emitter, emitter, s.gpi.sum(s.gm));
    law_add_is_local(e7, emitter, emitter, s.gpi.sum(s.gm), r, c);
    law_add_is_local(e8, emitter, collector, s.gmu_b.sum(s.gmu), r, c);
}

/// A number that is far from saturation.
pub open spec fn moderate(x: Fixed) -> bool {
    -0x1000_0000_0000_0000 < x.raw < 0x1000_0000_0000_0000
}

/// In fixed point, where sums are exact, a transistor conserves current: whatever
/// the node voltages do, what it draws from its three nodes cancels.  The shares of
/// each column of the matrix sum to 0.
pub proof fn law_transistor_conserves_current(
    base: int,
    collector: int,
    emitter: int,
    s: TransistorStamp<Fixed>,
    c: int,
)
    requires
        base != collector,
        base != emitter,
        collector != emitter,
        moderate(s.gm),
        moderate(s.gmu),
        moderate(s.gpi),
        moderate(s.gmu_b),
    ensures
        transistor_share(zero::<Fixed>(), base, c, base, collector, emitter, s).raw
            + transistor_share(zero::<Fixed>(), collector, c, base, collector, emitter, s).raw
            + transistor_share(zero::<Fixed>(), emitter, c, base, collector, emitter, s).raw == 0,
{
    assert(zero::<Fixed>().raw == 0);
}

/// In fixed point, only voltage differences matter to a transistor: raising all
/// three of its nodes by one voltage draws no current.  The shares of each row of the
/// matrix sum to 0.
pub proof fn law_transistor_sees_differences(
    base: int,
    collector: int,
    emitter: int,
    s: TransistorStamp<Fixed>,
    r: int,
)
    requires
        base != collector,
        base != emitter,
        collector != emitter,
        moderate(s.gm),
        moderate(s.gmu),
        moderate(s.gpi),
        moderate(s.gmu_b),
    ensures
        transistor_share(zero::<Fixed>(), r, base, base, collector, emitter, s).raw
            + transistor_share(zero::<Fixed>(), r, collector, base, collector, emitter, s).raw
            + transistor_share(zero::<Fixed>(), r, emitter, base, collector, emitter, s).raw == 0,
{
    assert(zero::<Fixed>().raw == 0);
}

/// The inductors have branch rows of their own.
pub open spec fn branches_distinct<T, P>(c: CompiledNetlist<T, P>) -> bool {
    forall|i: int, j: int|
        #![trigger c.inductor_branch_rows@[i], c.inductor_branch_rows@[j]]
        0 <= i < j < c.inductor_branch_rows@.len() ==> c.inductor_branch_rows@[i]
            != c.inductor_branch_rows@[j]
}

/// Pair `l` is pair `k` in the other order, with the same mutual inductance.
pub open spec fn mirrors<T>(pairs: Seq<CouplingPair<T>>, k: int, l: int) -> bool {
    pairs[l].i == pairs[k].j && pairs[l].j == pairs[k].i && pairs[l].mutual == pairs[k].mutual
}

/// Pair `k` is listed in the other order, too.
pub open spec fn has_mirror<T>(pairs: Seq<CouplingPair<T>>, k: int) -> bool {
    exists|l: int| 0 <= l < pairs.len() && #[trigger] mirrors(pairs, k, l)
}

/// Every coupled pair is listed in both orders.
pub open spec fn couplings_mirrored<T>(pairs: Seq<CouplingPair<T>>) -> bool {
    forall|k: int| 0 <= k < pairs.len() ==> #[trigger] has_mirror(pairs, k)
}

/// No ordered pair is listed twice.
pub open spec fn couplings_distinct<T>(pairs: Seq<CouplingPair<T>>) -> bool {
    forall|k: int, l: int|
        #![trigger pairs[k], pairs[l]]
        0 <= k < l < pairs.len() ==> pairs[k].i != pairs[l].i || pairs[k].j != pairs[l].j
}

/// Pair `k` stands at entry (`row`, `col`).
pub open spec fn couples<T, P>(c: CompiledNetlist<T, P>, k: int, row: int, col: int) -> bool {
    let pair = c.inductor_coupling_pairs@[k];
    c.inductor_branch_rows@[pair.i as int] == row && c.inductor_branch_rows@[pair.j as int] == col
}

/// What pair `k` takes from its entry.
pub open spec fn coupling_coefficient<T: Number, P>(
    c: CompiledNetlist<T, P>,
    dt: T,
    gear2: bool,
    k: int,
) -> T {
    companion(gear2, dt, c.inductor_coupling_pairs@[k].mutual, zero(), zero()).0
}

proof fn lemma_coupled_entry<T: Number, P>(
    e: Equations<T>,
    c: CompiledNetlist<T, P>,
    s: TransientState<T>,
    dt: T,
    gear2: bool,
    k: nat,
    row: int,
    col: int,
)
    requires
        e.wf(),
        e.size == c.size,
        c.wf(),
        branches_distinct(c),
        couplings_distinct(c.inductor_coupling_pairs@),
        k <= c.inductor_coupling_pairs@.len(),
        0 <= row < e.size,
        0 <= col < e.size,
    ensures
        with_couplings(e, c, s, dt, gear2, k).wf(),
        with_couplings(e, c, s, dt, gear2, k).size == e.size,
        forall|l: int|
            0 <= l < k && #[trigger] couples(c, l, row, col) ==> with_couplings(
                e,
                c,
                s,
                dt,
                gear2,
                k,
            ).entry(row, col) == e.entry(row, col).difference(
                coupling_coefficient(c, dt, gear2, l),
            ),
        (forall|l: int| 0 <= l < k ==> !#[trigger] couples(c, l, row, col)) ==> with_couplings(
            e,
            c,
            s,
            dt,
            gear2,
            k,
        ).entry(row, col) == e.entry(row, col),
    decreases k,
{
    if k > 0 {
        let last = (k - 1) as nat;
        lemma_coupled_entry(e, c, s, dt, gear2, last, row, col);
        let before = with_couplings(e, c, s, dt, gear2, last);
        let pairs = c.inductor_coupling_pairs@;
        let pair = pairs[last as int];
        let row_i = c.inductor_branch_rows@[pair.i as int] as int;
        let row_j = c.inductor_branch_rows@[pair.j as int] as int;
        let coefficient = coupling_coefficient(c, dt, gear2, last as int);
        law_deduct_is_local(before, row_i, row_j, coefficient, row, col);
        assert forall|l: int| 0 <= l < k && #[trigger] couples(c, l, row, col) implies (l == last
            <==> couples(c, last as int, row, col)) by {
            if l < last && couples(c, last as int, row, col) {
                assert(pairs[l].i == pair.i && pairs[l].j == pair.j);
            }
        }
        assert(couples(c, last as int, row, col) <==> row == row_i && col == row_j);
    }
}

proof fn lemma_couplings_keep_size<T: Number, P>(
    e: Equations<T>,
    c: CompiledNetlist<T, P>,
    s: TransientState<T>,
    dt: T,
    gear2: bool,
    k: nat,
)
    ensures
        with_couplings(e, c, s, dt, gear2, k).size == e.size,
    decreases k,
{
    if k > 0 {
        lemma_couplings_keep_size(e, c, s, dt, gear2, (k - 1) as nat);
    }
}

proof fn lemma_mirror<T: Number, P>(
    c: CompiledNetlist<T, P>,
    l: int,
    row: int,
    col: int,
) -> (m: int)
    requires
        couplings_mirrored(c.inductor_coupling_pairs@),
        0 <= l < c.inductor_coupling_pairs@.len(),
        couples(c, l, row, col),
    ensures
        0 <= m < c.inductor_coupling_pairs@.len(),
        couples(c, m, col, row),
        c.inductor_coupling_pairs@[m].mutual == c.inductor_coupling_pairs@[l].mutual,
{
    let pairs = c.inductor_coupling_pairs@;
    assert(has_mirror(pairs, l));
    choose|m: int| 0 <= m < pairs.len() && #[trigger] mirrors(pairs, l, m)
}

proof fn lemma_coupled_entries_mirror<T: Number, P>(
    e: Equations<T>,
    c: CompiledNetlist<T, P>,
    s: TransientState<T>,
    dt: T,
    gear2: bool,
    row: int,
    col: int,
)
    requires
        e.wf(),
        e.size == c.size,
        e.symmetric(),
        c.wf(),
        branches_distinct(c),
        couplings_distinct(c.inductor_coupling_pairs@),
        couplings_mirrored(c.inductor_coupling_pairs@),
        0 <= row < e.size,
        0 <= col < e.size,
    ensures
        with_couplings(e, c, s, dt, gear2, c.inductor_coupling_pairs@.len()).entry(row, col)
            == with_couplings(e, c, s, dt, gear2, c.inductor_coupling_pairs@.len()).entry(
            col,
            row,
        ),
{
    let pairs = c.inductor_coupling_pairs@;
    assert(e.entry(row, col) == e.entry(col, row));
    lemma_coupled_entry(e, c, s, dt, gear2, pairs.len(), row, col);
    lemma_coupled_entry(e, c, s, dt, gear2, pairs.len(), col, row);
    if exists|l: int| 0 <= l < pairs.len() && #[trigger] couples(c, l, row, col) {
        let l = choose|l: int| 0 <= l < pairs.len() && #[trigger] couples(c, l, row, col);
        let m = lemma_mirror(c, l, row, col);
        assert(couples(c, m, col, row));
    } else if exists|l: int| 0 <= l < pairs.len() && #[trigger] couples(c, l, col, row) {
        let l = choose|l: int| 0 <= l < pairs.len() && #[trigger] couples(c, l, col, row);
        let m = lemma_mirror(c, l, col, row);
        assert(couples(c, m, row, col));
    }
}

/// Mutual inductance keeps a symmetric matrix symmetric: the pairs are listed in
/// both orders, so no explicit transposition is needed.
pub proof fn law_couplings_keep_symmetry<T: Number, P>(
    e: Equations<T>,
    c: CompiledNetlist<T, P>,
    s: TransientState<T>,
    dt: T,
    gear2: bool,
)
    requires
        e.wf(),
        e.size == c.size,
        e.symmetric(),
        c.wf(),
        branches_distinct(c),
        couplings_distinct(c.inductor_coupling_pairs@),
        couplings_mirrored(c.inductor_coupling_pairs@),
    ensures
        with_couplings(e, c, s, dt, gear2, c.inductor_coupling_pairs@.len()).symmetric(),
{
    let after = with_couplings(e, c, s, dt, gear2, c.inductor_coupling_pairs@.len());
    lemma_couplings_keep_size(e, c, s, dt, gear2, c.inductor_coupling_pairs@.len());
    assert forall|row: int, col: int|
        0 <= row < after.size && 0 <= col < after.size implies #[trigger] after.entry(row, col)
        == after.entry(col, row) by {
        lemma_coupled_entries_mirror(e, c, s, dt, gear2, row, col);
    }
}

/// No relay but relay `i` touches both nodes.
pub open spec fn only_relay_between<T, P>(
    c: CompiledNetlist<T, P>,
    i: int,
    a: int,
    b: int,
) -> bool {
    forall|j: int, t: int, u: int|
        #![trigger c.relay_node(j, t), c.relay_node(j, u)]
        0 <= j < c.relay_count && j != i && 0 <= t < 5 && 0 <= u < 5 && c.relay_node(j, t) == a
            ==> c.relay_node(j, u) != b
}

proof fn lemma_relay_entry<T: Number, P>(
    e: Equations<T>,
    c: CompiledNetlist<T, P>,
    i: int,
    active: bool,
    a: int,
    b: int,
)
    requires
        e.wf(),
        e.size == c.size,
        c.wf(),
        0 <= i < c.relay_count,
        0 <= a < c.size,
        0 <= b < c.size,
        a != b,
        forall|t: int, u: int|
            #![trigger c.relay_node(i, t), c.relay_node(i, u)]
            0 <= t < 5 && 0 <= u < 5 && c.relay_node(i, t) == a ==> c.relay_node(i, u) != b,
    ensures
        relay_stamped(e, c, i, active).wf(),
        relay_stamped(e, c, i, active).size == e.size,
        relay_stamped(e, c, i, active).entry(a, b) == e.entry(a, b),
{
    let relay = c.element(c.relay_indices@, i);
    lemma_relay_nodes(c, i);
    let plus = c.relay_node(i, 0) as int;
    let minus = c.relay_node(i, 1) as int;
    let common = c.relay_node(i, 2) as int;
    let nc = c.relay_node(i, 3) as int;
    let no = c.relay_node(i, 4) as int;
    let (closed, opened) = if active {
        (no, nc)
    } else {
        (nc, no)
    };
    let coil = one::<T>().quotient(relay->coil_resistance_ohms);
    let ron = one::<T>().quotient(relay->ron_ohms);
    let roff = one::<T>().quotient(relay->roff_ohms);
    let e1 = e.conductance(plus, minus, coil);
    let e2 = e1.conductance(common, closed, ron);
    lemma_conductance_elsewhere(e, plus, minus, coil, a, b);
    lemma_conductance_elsewhere(e1, common, closed, ron, a, b);
    lemma_conductance_elsewhere(e2, common, opened, roff, a, b);
}

proof fn lemma_relay_nodes<T: Number, P>(c: CompiledNetlist<T, P>, i: int)
    requires
        c.wf(),
        0 <= i < c.relay_count,
    ensures
        forall|t: int| 0 <= t < 5 ==> #[trigger] c.relay_node(i, t) < c.n,
{
    assert(c.relay_node_indices@.len() == c.relay_count * 5);
    assert forall|t: int| 0 <= t < 5 implies #[trigger] c.relay_node(i, t) < c.n by {
        assert(c.relay_node_indices@[i * 5 + t] < c.n);
    }
}

proof fn lemma_conductance_elsewhere<T: Number>(
    e: Equations<T>,
    a: int,
    b: int,
    g: T,
    row: int,
    col: int,
)
    requires
        e.wf(),
        e.has_row(a),
        e.has_row(b),
        0 <= row < e.size,
        0 <= col < e.size,
        row != col,
        !(row == a && col == b),
        !(row == b && col == a),
    ensures
        e.conductance(a, b, g).wf(),
        e.conductance(a, b, g).size == e.size,
        e.conductance(a, b, g).entry(row, col) == e.entry(row, col),
{
    let e1 = e.add(a, a, g);
    let e2 = e1.add(b, b, g);
    let e3 = e2.deduct(a, b, g);
    law_add_is_local(e, a, a, g, row, col);
    law_add_is_local(e1, b, b, g, row, col);
    law_deduct_is_local(e2, a, b, g, row, col);
    law_deduct_is_local(e3, b, a, g, row, col);
}

proof fn lemma_relays_elsewhere<T: Number, P>(
    e: Equations<T>,
    c: CompiledNetlist<T, P>,
    active: Seq<bool>,
    i: int,
    k: nat,
    a: int,
    b: int,
)
    requires
        e.wf(),
        e.size == c.size,
        c.wf(),
        k <= c.relay_count,
        0 <= a < c.size,
        0 <= b < c.size,
        a != b,
        only_relay_between(c, i, a, b),
        k <= i,
    ensures
        relays_stamped(e, c, active, k).wf(),
        relays_stamped(e, c, active, k).size == e.size,
        relays_stamped(e, c, active, k).entry(a, b) == e.entry(a, b),
    decreases k,
{
    if k > 0 {
        lemma_relays_elsewhere(e, c, active, i, (k - 1) as nat, a, b);
        lemma_relay_entry(
            relays_stamped(e, c, active, (k - 1) as nat),
            c,
            k - 1,
            active[k - 1],
            a,
            b,
        );
    }
}

/// The contacts of relay `i`, whichever way its flag stands: the entry between its common
/// node and the throw that the flag selects, normally closed at rest and normally open
/// when energised, is lowered by `1/ron`, the entry between its common node and the other
/// throw by `1/roff`, and the entry between the ends of its coil by the conductance of the
/// coil.  Its terminals are different nodes, and no other relay touches two of them.
pub proof fn law_contacts_follow_the_flag<T: Number, P>(
    e: Equations<T>,
    c: CompiledNetlist<T, P>,
    active: Seq<bool>,
    i: int,
    k: nat,
)
    requires
        e.wf(),
        e.size == c.size,
        c.wf(),
        0 <= i < k <= c.relay_count,
        forall|t: int| 0 <= t < 5 ==> 0 <= #[trigger] c.relay_node(i, t),
        forall|t: int, u: int|
            #![trigger c.relay_node(i, t), c.relay_node(i, u)]
            0 <= t < u < 5 ==> c.relay_node(i, t) != c.relay_node(i, u) && only_relay_between(
                c,
                i,
                c.relay_node(i, t) as int,
                c.relay_node(i, u) as int,
            ),
    ensures
        relays_stamped(e, c, active, k).wf(),
        relays_stamped(e, c, active, k).size == e.size,
        ({
            let relay = c.element(c.relay_indices@, i);
            let after = relays_stamped(e, c, active, k);
            let plus = c.relay_node_indices@[5 * i] as int;
            let minus = c.relay_node_indices@[5 * i + 1] as int;
            let common = c.relay_node_indices@[5 * i + 2] as int;
            let nc = c.relay_node_indices@[5 * i + 3] as int;
            let no = c.relay_node_indices@[5 * i + 4] as int;
            let selected = if active[i] {
                no
            } else {
                nc
            };
            let other = if active[i] {
                nc
            } else {
                no
            };
            &&& after.entry(common, selected) == e.entry(common, selected).difference(
                one::<T>().quotient(relay->ron_ohms),
            )
            &&& after.entry(common, other) == e.entry(common, other).difference(
                one::<T>().quotient(relay->roff_ohms),
            )
            &&& after.entry(plus, minus) == e.entry(plus, minus).difference(
                one::<T>().quotient(relay->coil_resistance_ohms),
            )
        }),
    decreases k,
{
    let relay = c.element(c.relay_indices@, i);
    assert(5 * i == i * 5);
    lemma_relay_nodes(c, i);
    let plus = c.relay_node(i, 0) as int;
    let minus = c.relay_node(i, 1) as int;
    let common = c.relay_node(i, 2) as int;
    let nc = c.relay_node(i, 3) as int;
    let no = c.relay_node(i, 4) as int;
    let last = (k - 1) as nat;
    if last > i {
        law_contacts_follow_the_flag(e, c, active, i, last);
        let before = relays_stamped(e, c, active, last);
        lemma_relay_entry(before, c, last as int, active[last as int], common, nc);
        lemma_relay_entry(before, c, last as int, active[last as int], common, no);
        lemma_relay_entry(before, c, last as int, active[last as int], plus, minus);
    } else {
        lemma_relays_elsewhere(e, c, active, i, last, common, nc);
        lemma_relays_elsewhere(e, c, active, i, last, common, no);
        lemma_relays_elsewhere(e, c, active, i, last, plus, minus);
        let before = relays_stamped(e, c, active, last);
        let (closed, opened) = if active[i] {
            (no, nc)
        } else {
            (nc, no)
        };
        let coil = one::<T>().quotient(relay->coil_resistance_ohms);
        let ron = one::<T>().quotient(relay->ron_ohms);
        let roff = one::<T>().quotient(relay->roff_ohms);
        let e1 = before.conductance(plus, minus, coil);
        let e2 = e1.conductance(common, closed, ron);
        law_conductance_entries(before, plus, minus, coil, common, closed);
        law_conductance_entries(e1, common, closed, ron, common, closed);
        law_conductance_entries(e2, common, opened, roff, common, closed);
        law_conductance_entries(before, plus, minus, coil, common, opened);
        law_conductance_entries(e1, common, closed, ron, common, opened);
        law_conductance_entries(e2, common, opened, roff, common, opened);
        law_conductance_entries(before, plus, minus, coil, plus, minus);
        law_conductance_entries(e1, common, closed, ron, plus, minus);
        law_conductance_entries(e2, common, opened, roff, plus, minus);
    }
}

/// The matrix is held row by row.
pub proof fn law_matrix_is_row_by_row<T: Number>(e: Equations<T>, row: int, col: int)
    ensures
        e.entry(row, col) == e.matrix[row * e.size + col],
{
}

} // verus!
