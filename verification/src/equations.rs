//! The linear system of one Newton iteration, and the stamps that elements make
//! in it.
//!
//! A system holds a square matrix, row by row, and a right-hand side.  Nodes are
//! compact row numbers; a negative number stands for ground, which has no row,
//! so stamps at a grounded node are left out.

use vstd::prelude::*;

use crate::number::{filled, Number, zero};
use crate::types::{DiodeStamp, TransistorStamp};

verus! {

/// A system of `size` equations `matrix * x = rhs`.
pub struct System<T> {
    pub size: usize,
    pub matrix: Vec<T>,
    pub rhs: Vec<T>,
}

/// What a [`System`] states: `matrix[r * size + c]` is the coefficient of unknown
/// `c` in equation `r`.
#[verifier::ext_equal]
pub struct Equations<T> {
    pub size: nat,
    pub matrix: Seq<T>,
    pub rhs: Seq<T>,
}

impl<T> View for System<T> {
    type V = Equations<T>;

    open spec fn view(&self) -> Equations<T> {
        Equations { size: self.size as nat, matrix: self.matrix@, rhs: self.rhs@ }
    }
}

/// The place of entry (`row`, `col`) in a matrix of `size` columns.
pub open spec fn cell(row: int, col: int, size: nat) -> int {
    row * size + col
}

impl<T: Number> Equations<T> {
    /// The matrix is square and the right-hand side matches it.
    pub open spec fn wf(self) -> bool {
        &&& self.matrix.len() == self.size * self.size
        &&& self.rhs.len() == self.size
    }

    /// The system `0 * x = 0`.
    pub open spec fn blank(size: nat) -> Self {
        Equations {
            size,
            matrix: Seq::new(size * size, |i: int| zero()),
            rhs: Seq::new(size, |i: int| zero()),
        }
    }

    /// Whether the node has a row; ground has none.
    pub open spec fn has_row(self, node: int) -> bool {
        node < self.size
    }

    /// `v` added to the entry at a place of the matrix.
    pub open spec fn raise(self, place: int, v: T) -> Self {
        Equations { matrix: self.matrix.update(place, self.matrix[place].sum(v)), ..self }
    }

    /// `v` subtracted from the entry at a place of the matrix.
    pub open spec fn lower(self, place: int, v: T) -> Self {
        Equations { matrix: self.matrix.update(place, self.matrix[place].difference(v)), ..self }
    }

    /// `v` subtracted from the entry at a place of the matrix, unless the place is
    /// negative.
    pub open spec fn lower_at(self, place: int, v: T) -> Self {
        if place >= 0 {
            self.lower(place, v)
        } else {
            self
        }
    }

    /// `v` added to entry (`row`, `col`), unless either is ground.
    pub open spec fn add(self, row: int, col: int, v: T) -> Self {
        if row >= 0 && col >= 0 {
            self.raise(cell(row, col, self.size), v)
        } else {
            self
        }
    }

    /// `v` subtracted from entry (`row`, `col`), unless either is ground.
    pub open spec fn deduct(self, row: int, col: int, v: T) -> Self {
        if row >= 0 && col >= 0 {
            self.lower(cell(row, col, self.size), v)
        } else {
            self
        }
    }

    /// The right-hand side of a row replaced by `v`.
    pub open spec fn assign(self, row: int, v: T) -> Self {
        Equations { rhs: self.rhs.update(row, v), ..self }
    }

    /// `v` added to the right-hand side of a row, unless it is ground.
    pub open spec fn feed(self, row: int, v: T) -> Self {
        if row >= 0 {
            self.assign(row, self.rhs[row].sum(v))
        } else {
            self
        }
    }

    /// `v` subtracted from the right-hand side of a row, unless it is ground.
    pub open spec fn drain(self, row: int, v: T) -> Self {
        if row >= 0 {
            self.assign(row, self.rhs[row].difference(v))
        } else {
            self
        }
    }

    /// A conductance `g` between two nodes.
    pub open spec fn conductance(self, a: int, b: int, g: T) -> Self {
        self.add(a, a, g).add(b, b, g).deduct(a, b, g).deduct(b, a, g)
    }

    /// A conductance `g` between two nodes, with a companion current `ieq` into
    /// `a` and out of `b`.
    pub open spec fn capacitor(self, a: int, b: int, g: T, ieq: T) -> Self {
        self.conductance(a, b, g).feed(a, ieq).drain(b, ieq)
    }

    /// A linearised diode.
    pub open spec fn diode(self, anode: int, cathode: int, s: DiodeStamp<T>) -> Self {
        self.conductance(anode, cathode, s.gd).drain(anode, s.ieq).feed(cathode, s.ieq)
    }

    /// A linearised transistor: the derivatives of the three terminal currents by
    /// the base, emitter and collector voltages, and the companion currents.
    pub open spec fn transistor(self, b: int, c: int, e: int, s: TransistorStamp<T>) -> Self {
        let base = self.add(b, b, s.gpi.sum(s.gmu_b)).add(b, e, s.gpi.opposite()).add(
            b,
            c,
            s.gmu_b.opposite(),
        );
        let collector = base.add(c, b, s.gm.sum(s.gmu)).add(c, e, s.gm.opposite()).add(
            c,
            c,
            s.gmu.opposite(),
        );
        let emitter = collector.add(
            e,
            b,
            s.gpi.sum(s.gmu_b).sum(s.gm).sum(s.gmu).opposite(),
        ).add(e, e, s.gpi.sum(s.gm)).add(e, c, s.gmu_b.sum(s.gmu));
        emitter.feed(b, s.i_eq_b.opposite()).feed(c, s.i_eq_c.opposite()).feed(
            e,
            s.i_eq_e.opposite(),
        )
    }

    /// The entry (`row`, `col`) of the matrix.
    pub open spec fn entry(self, row: int, col: int) -> T {
        self.matrix[cell(row, col, self.size)]
    }

    /// Whether the matrix equals its transpose.
    pub open spec fn symmetric(self) -> bool {
        forall|r: int, c: int|
            0 <= r < self.size && 0 <= c < self.size ==> #[trigger] self.entry(r, c) == self.entry(
                c,
                r,
            )
    }
}

/// Entries of a matrix lie within it.
pub proof fn lemma_cell_in_range(row: int, col: int, size: nat)
    requires
        0 <= row < size,
        0 <= col < size,
    ensures
        0 <= cell(row, col, size) < size * size,
{
    assert(0 <= row * size + col < size * size) by (nonlinear_arith)
        requires
            0 <= row < size,
            0 <= col < size,
    ;
}

/// Different entries of a matrix lie at different places.
pub proof fn lemma_cells_distinct(r1: int, c1: int, r2: int, c2: int, size: nat)
    requires
        0 <= r1 < size,
        0 <= c1 < size,
        0 <= r2 < size,
        0 <= c2 < size,
        cell(r1, c1, size) == cell(r2, c2, size),
    ensures
        r1 == r2,
        c1 == c2,
{
    assert(r1 == r2) by (nonlinear_arith)
        requires
            0 <= c1 < size,
            0 <= c2 < size,
            r1 * size + c1 == r2 * size + c2,
    ;
}

impl<T: Number> System<T> {
    /// A system of `size` equations with nothing stamped yet.
    pub fn blank(size: usize) -> (r: Self)
        requires
            size * size <= usize::MAX,
        ensures
            r@ == Equations::<T>::blank(size as nat),
            r.size == size,
    {
        let nothing = T::decimal(0, 0);
        System { size, matrix: filled(nothing, size * size), rhs: filled(nothing, size) }
    }

    /// Adds `v` to the entry at a place of the matrix.
    pub fn raise(&mut self, place: usize, v: T)
        requires
            place < old(self).matrix.len(),
        ensures
            final(self)@ == old(self)@.raise(place as int, v),
            old(self)@.wf() ==> final(self)@.wf(),
            final(self).size == old(self).size,
    {
        let sum = self.matrix[place].plus(v);
        self.matrix[place] = sum;
    }

    /// Subtracts `v` from the entry at a place of the matrix.
    pub fn lower(&mut self, place: usize, v: T)
        requires
            place < old(self).matrix.len(),
        ensures
            final(self)@ == old(self)@.lower(place as int, v),
            old(self)@.wf() ==> final(self)@.wf(),
            final(self).size == old(self).size,
    {
        let difference = self.matrix[place].minus(v);
        self.matrix[place] = difference;
    }

    fn place(&self, row: usize, col: usize) -> (r: usize)
        requires
            self@.wf(),
            row < self.size,
            col < self.size,
        ensures
            r == cell(row as int, col as int, self.size as nat),
            r < self.matrix.len(),
    {
        proof {
            lemma_cell_in_range(row as int, col as int, self.size as nat);
            assert(0 <= row * self.size) by (nonlinear_arith)
                requires
                    0 <= row,
            ;
            assert(self.matrix.len() == self.matrix@.len());
        }
        row * self.size + col
    }

    /// Adds `v` to entry (`row`, `col`).
    pub fn add_entry(&mut self, row: usize, col: usize, v: T)
        requires
            old(self)@.wf(),
            row < old(self).size,
            col < old(self).size,
        ensures
            final(self)@ == old(self)@.add(row as int, col as int, v),
            final(self)@.wf(),
            final(self).size == old(self).size,
    {
        let place = self.place(row, col);
        self.raise(place, v);
    }

    /// Subtracts `v` from entry (`row`, `col`).
    pub fn deduct_entry(&mut self, row: usize, col: usize, v: T)
        requires
            old(self)@.wf(),
            row < old(self).size,
            col < old(self).size,
        ensures
            final(self)@ == old(self)@.deduct(row as int, col as int, v),
            final(self)@.wf(),
            final(self).size == old(self).size,
    {
        let place = self.place(row, col);
        self.lower(place, v);
    }

    /// Adds `v` to entry (`row`, `col`), unless either is ground.
    pub fn add(&mut self, row: i32, col: i32, v: T)
        requires
            old(self)@.wf(),
            old(self)@.has_row(row as int),
            old(self)@.has_row(col as int),
        ensures
            final(self)@ == old(self)@.add(row as int, col as int, v),
            final(self)@.wf(),
            final(self).size == old(self).size,
    {
        if row >= 0 && col >= 0 {
            self.add_entry(row as usize, col as usize, v);
        }
    }

    /// Subtracts `v` from entry (`row`, `col`), unless either is ground.
    pub fn deduct(&mut self, row: i32, col: i32, v: T)
        requires
            old(self)@.wf(),
            old(self)@.has_row(row as int),
            old(self)@.has_row(col as int),
        ensures
            final(self)@ == old(self)@.deduct(row as int, col as int, v),
            final(self)@.wf(),
            final(self).size == old(self).size,
    {
        if row >= 0 && col >= 0 {
            self.deduct_entry(row as usize, col as usize, v);
        }
    }

    /// Subtracts `v` from the entry at a place of the matrix, unless the place is
    /// negative.
    pub fn lower_at(&mut self, place: i32, v: T)
        requires
            old(self)@.wf(),
            place < old(self).size * old(self).size,
        ensures
            final(self)@ == old(self)@.lower_at(place as int, v),
            final(self)@.wf(),
            final(self).size == old(self).size,
    {
        if place >= 0 {
            self.lower(place as usize, v);
        }
    }

    /// Replaces the right-hand side of a row.
    pub fn assign(&mut self, row: usize, v: T)
        requires
            old(self)@.wf(),
            row < old(self).size,
        ensures
            final(self)@ == old(self)@.assign(row as int, v),
            final(self)@.wf(),
            final(self).size == old(self).size,
    {
        self.rhs[row] = v;
    }

    /// Adds `v` to the right-hand side of a row, unless it is ground.
    pub fn feed(&mut self, row: i32, v: T)
        requires
            old(self)@.wf(),
            old(self)@.has_row(row as int),
        ensures
            final(self)@ == old(self)@.feed(row as int, v),
            final(self)@.wf(),
            final(self).size == old(self).size,
    {
        if row >= 0 {
            let sum = self.rhs[row as usize].plus(v);
            self.rhs[row as usize] = sum;
        }
    }

    /// Subtracts `v` from the right-hand side of a row, unless it is ground.
    pub fn drain(&mut self, row: i32, v: T)
        requires
            old(self)@.wf(),
            old(self)@.has_row(row as int),
        ensures
            final(self)@ == old(self)@.drain(row as int, v),
            final(self)@.wf(),
            final(self).size == old(self).size,
    {
        if row >= 0 {
            let difference = self.rhs[row as usize].minus(v);
            self.rhs[row as usize] = difference;
        }
    }
}

/// Stamps a conductance between two nodes.
pub fn stamp_two_node_conductance<T: Number>(sys: &mut System<T>, ia: i32, ib: i32, g: T)
    requires
        old(sys)@.wf(),
        old(sys)@.has_row(ia as int),
        old(sys)@.has_row(ib as int),
    ensures
        final(sys)@ == old(sys)@.conductance(ia as int, ib as int, g),
        final(sys)@.wf(),
        final(sys).size == old(sys).size,
{
    sys.add(ia, ia, g);
    sys.add(ib, ib, g);
    sys.deduct(ia, ib, g);
    sys.deduct(ib, ia, g);
}

/// Stamps the companion model of a capacitor between two nodes: the conductance
/// `g` and the current `ieq` that the stored charge drives into `ia`.
pub fn stamp_two_node_cap<T: Number>(sys: &mut System<T>, ia: i32, ib: i32, g: T, ieq: T)
    requires
        old(sys)@.wf(),
        old(sys)@.has_row(ia as int),
        old(sys)@.has_row(ib as int),
    ensures
        final(sys)@ == old(sys)@.capacitor(ia as int, ib as int, g, ieq),
        final(sys)@.wf(),
        final(sys).size == old(sys).size,
{
    stamp_two_node_conductance(sys, ia, ib, g);
    sys.feed(ia, ieq);
    sys.drain(ib, ieq);
}

/// Stamps a linearised diode.
pub fn stamp_diode<T: Number>(sys: &mut System<T>, ai: i32, ki: i32, s: &DiodeStamp<T>)
    requires
        old(sys)@.wf(),
        old(sys)@.has_row(ai as int),
        old(sys)@.has_row(ki as int),
    ensures
        final(sys)@ == old(sys)@.diode(ai as int, ki as int, *s),
        final(sys)@.wf(),
        final(sys).size == old(sys).size,
{
    stamp_two_node_conductance(sys, ai, ki, s.gd);
    sys.drain(ai, s.ieq);
    sys.feed(ki, s.ieq);
}

/// Stamps a linearised transistor.
///
/// With `Vbe = Vb - Ve` and `Vbc = Vb - Vc`, the rows of the matrix are the
/// derivatives of the base, collector and emitter currents by the node voltages;
/// the emitter current is minus the sum of the other two.
pub fn stamp_bjt<T: Number>(
    sys: &mut System<T>,
    bi: i32,
    ci: i32,
    ei: i32,
    s: &TransistorStamp<T>,
)
    requires
        old(sys)@.wf(),
        old(sys)@.has_row(bi as int),
        old(sys)@.has_row(ci as int),
        old(sys)@.has_row(ei as int),
    ensures
        final(sys)@ == old(sys)@.transistor(bi as int, ci as int, ei as int, *s),
        final(sys)@.wf(),
        final(sys).size == old(sys).size,
{
    sys.add(bi, bi, s.gpi.plus(s.gmu_b));
    sys.add(bi, ei, s.gpi.negated());
    sys.add(bi, ci, s.gmu_b.negated());
    sys.add(ci, bi, s.gm.plus(s.gmu));
    sys.add(ci, ei, s.gm.negated());
    sys.add(ci, ci, s.gmu.negated());
    sys.add(ei, bi, s.gpi.plus(s.gmu_b).plus(s.gm).plus(s.gmu).negated());
    sys.add(ei, ei, s.gpi.plus(s.gm));
    sys.add(ei, ci, s.gmu_b.plus(s.gmu));
    sys.feed(bi, s.i_eq_b.negated());
    sys.feed(ci, s.i_eq_c.negated());
    sys.feed(ei, s.i_eq_e.negated());
}

} // verus!
