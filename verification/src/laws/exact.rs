//! Reading a system of equations in exact arithmetic.
//!
//! The solver only says which operations it applies; what its equations mean is said
//! here.  Where the operations of a number type are exact, each number reads as a real
//! one, and each equation has an excess: its left side less its right side at given
//! values of the unknowns.  In the row of a node the excess is the current that flows
//! out of the node through the elements that have been stamped; Kirchhoff's law asks
//! that it be 0.

use vstd::prelude::*;

use crate::equations::{cell, lemma_cell_in_range, lemma_cells_distinct, Equations};
use crate::fixed::power_of_ten;
use crate::number::{zero, Number};

verus! {

/// The operations of the number type are exact: `val` reads its numbers as real ones,
/// and every operation is that of the real numbers.  Arithmetic on fractions is so; with
/// rounding numbers the laws below hold up to the rounding.
pub open spec fn exact<T: Number>(val: spec_fn(T) -> real) -> bool {
    &&& forall|a: T, b: T| #[trigger] val(a.sum(b)) == val(a) + val(b)
    &&& forall|a: T, b: T| #[trigger] val(a.difference(b)) == val(a) - val(b)
    &&& forall|a: T, b: T| #[trigger] val(a.product(b)) == prod(val(a), val(b))
    &&& forall|a: T, b: T|
        val(b) != 0 as real ==> #[trigger] val(a.quotient(b)) == ratio(val(a), val(b))
    &&& forall|a: T| #[trigger] val(a.opposite()) == -val(a)
    &&& forall|a: T| #[trigger] val(a.magnitude()) == size_of(val(a))
    &&& forall|a: T, b: T|
        #[trigger] val(a.greatest(b)) == if val(a) < val(b) {
            val(b)
        } else {
            val(a)
        }
    &&& forall|a: T, b: T|
        #[trigger] val(a.least(b)) == if val(b) < val(a) {
            val(b)
        } else {
            val(a)
        }
    &&& forall|a: T, b: T| #[trigger] a.below(b) <==> val(a) < val(b)
    &&& forall|a: T, b: T| #[trigger] a.at_most(b) <==> val(a) <= val(b)
    &&& forall|mantissa: i64, places: u32|
        prod(
            #[trigger] val(T::decimal_value(mantissa, places)),
            power_of_ten(places as nat) as real,
        ) == mantissa as real
}

/// The absolute value of a real number.
pub open spec fn size_of(x: real) -> real {
    if x < 0 as real {
        -x
    } else {
        x
    }
}

/// The value of an unknown; 0 for ground, whose number is negative.
pub open spec fn level<T>(val: spec_fn(T) -> real, x: Seq<T>, node: int) -> real {
    if node >= 0 {
        val(x[node])
    } else {
        0 as real
    }
}

/// The first `k` terms of the left side of equation `r` at the unknowns `x`.
pub open spec fn left_side<T: Number>(
    val: spec_fn(T) -> real,
    e: Equations<T>,
    x: Seq<T>,
    r: int,
    k: nat,
) -> real
    decreases k,
{
    if k == 0 {
        0 as real
    } else {
        left_side(val, e, x, r, (k - 1) as nat) + prod(
            val(e.entry(r, k - 1)),
            val(x[k - 1]),
        )
    }
}

/// The excess of equation `r` at the unknowns `x`: its left side less its right side.
pub open spec fn excess<T: Number>(
    val: spec_fn(T) -> real,
    e: Equations<T>,
    x: Seq<T>,
    r: int,
) -> real {
    left_side(val, e, x, r, e.size) - val(e.rhs[r])
}

/// A current from node `a` to node `b`, as row `r` sees it: it leaves `a` and enters
/// `b`.
pub open spec fn outflow(r: int, a: int, b: int, current: real) -> real {
    (if r == a {
        current
    } else {
        0 as real
    }) - (if r == b {
        current
    } else {
        0 as real
    })
}

/// `v` in row `row`, nothing in the others.
pub open spec fn only_in(r: int, row: int, v: real) -> real {
    if r == row {
        v
    } else {
        0 as real
    }
}

/// The product of two real numbers.
#[verifier::opaque]
pub open spec fn prod(a: real, b: real) -> real {
    a * b
}

/// The quotient of two real numbers.
#[verifier::opaque]
pub open spec fn ratio(a: real, b: real) -> real {
    a / b
}

pub proof fn lemma_prod_add(a: real, b: real, c: real)
    ensures
        prod(a + b, c) == prod(a, c) + prod(b, c),
        prod(a - b, c) == prod(a, c) - prod(b, c),
        prod(c, a + b) == prod(c, a) + prod(c, b),
        prod(c, a - b) == prod(c, a) - prod(c, b),
{
    reveal(prod);
    assert((a + b) * c == a * c + b * c) by (nonlinear_arith);
    assert((a - b) * c == a * c - b * c) by (nonlinear_arith);
    assert(c * (a + b) == c * a + c * b) by (nonlinear_arith);
    assert(c * (a - b) == c * a - c * b) by (nonlinear_arith);
}

pub proof fn lemma_prod_neg(a: real, b: real)
    ensures
        prod(-a, b) == -prod(a, b),
        prod(a, -b) == -prod(a, b),
{
    reveal(prod);
    assert((-a) * b == -(a * b)) by (nonlinear_arith);
    assert(a * (-b) == -(a * b)) by (nonlinear_arith);
}

pub proof fn lemma_prod_swap(a: real, b: real)
    ensures
        prod(a, b) == prod(b, a),
{
    reveal(prod);
    assert(a * b == b * a) by (nonlinear_arith);
}

pub proof fn lemma_prod_unit(a: real)
    ensures
        prod(0 as real, a) == 0 as real,
        prod(a, 0 as real) == 0 as real,
        prod(1 as real, a) == a,
        prod(a, 1 as real) == a,
{
    reveal(prod);
    assert((0 as real) * a == 0 as real) by (nonlinear_arith);
    assert(a * (0 as real) == 0 as real) by (nonlinear_arith);
    assert((1 as real) * a == a) by (nonlinear_arith);
    assert(a * (1 as real) == a) by (nonlinear_arith);
}

pub proof fn lemma_prod_assoc(a: real, b: real, c: real)
    ensures
        prod(prod(a, b), c) == prod(a, prod(b, c)),
{
    reveal(prod);
    assert((a * b) * c == a * (b * c)) by (nonlinear_arith);
}

/// Dividing and multiplying back.
pub proof fn lemma_divided(a: real, d: real)
    requires
        d != 0 as real,
    ensures
        prod(ratio(a, d), d) == a,
{
    reveal(prod);
    reveal(ratio);
    assert((a / d) * d == a) by (nonlinear_arith)
        requires
            d != 0 as real,
    ;
}

/// A quotient is the number that gives the dividend back.
pub proof fn lemma_quotient_is(a: real, d: real, q: real)
    requires
        d != 0 as real,
        prod(q, d) == a,
    ensures
        ratio(a, d) == q,
{
    lemma_divided(a, d);
    let k = ratio(a, d);
    assert(k * d == q * d) by {
        reveal(prod);
    }
    assert(k == q) by (nonlinear_arith)
        requires
            d != 0 as real,
            k * d == q * d,
    ;
}

pub proof fn lemma_ratio_add(a: real, b: real, d: real)
    requires
        d != 0 as real,
    ensures
        ratio(a + b, d) == ratio(a, d) + ratio(b, d),
        ratio(a - b, d) == ratio(a, d) - ratio(b, d),
{
    lemma_divided(a, d);
    lemma_divided(b, d);
    lemma_prod_add(ratio(a, d), ratio(b, d), d);
    lemma_quotient_is(a + b, d, ratio(a, d) + ratio(b, d));
    lemma_quotient_is(a - b, d, ratio(a, d) - ratio(b, d));
}

pub proof fn lemma_ratio_prod(a: real, b: real, d: real)
    requires
        d != 0 as real,
    ensures
        prod(ratio(a, d), b) == ratio(prod(a, b), d),
        prod(b, ratio(a, d)) == ratio(prod(a, b), d),
        ratio(prod(b, d), d) == b,
        ratio(0 as real, d) == 0 as real,
{
    let q = ratio(a, d);
    lemma_divided(a, d);
    lemma_prod_swap(q, b);
    lemma_prod_assoc(b, q, d);
    lemma_prod_swap(a, b);
    lemma_quotient_is(prod(a, b), d, prod(q, b));
    lemma_quotient_is(prod(b, d), d, b);
    lemma_prod_unit(d);
    lemma_quotient_is(0 as real, d, 0 as real);
}

pub proof fn lemma_decimal<T: Number>(val: spec_fn(T) -> real, mantissa: i64, places: u32)
    requires
        exact(val),
    ensures
        places == 0 ==> val(T::decimal_value(mantissa, places)) == mantissa as real,
        places == 1 ==> prod(val(T::decimal_value(mantissa, places)), 10 as real)
            == mantissa as real,
        places == 2 ==> prod(val(T::decimal_value(mantissa, places)), 100 as real)
            == mantissa as real,
{
    let v = val(T::decimal_value(mantissa, places));
    reveal_with_fuel(power_of_ten, 3);
    assert(prod(v, power_of_ten(places as nat) as real) == mantissa as real);
    lemma_prod_unit(v);
}

proof fn lemma_raised_side<T: Number>(
    val: spec_fn(T) -> real,
    e: Equations<T>,
    f: Equations<T>,
    x: Seq<T>,
    row: int,
    col: int,
    v: real,
    r: int,
    k: nat,
)
    requires
        e.wf(),
        f.size == e.size,
        0 <= row < e.size,
        0 <= col < e.size,
        0 <= r < e.size,
        k <= e.size,
        forall|c: int|
            0 <= c < e.size ==> val(#[trigger] f.entry(r, c)) == val(e.entry(r, c)) + (if r == row
                && c == col {
                v
            } else {
                0 as real
            }),
    ensures
        left_side(val, f, x, r, k) == left_side(val, e, x, r, k) + (if r == row && col < k {
            prod(v, val(x[col]))
        } else {
            0 as real
        }),
    decreases k,
{
    if k > 0 {
        lemma_raised_side(val, e, f, x, row, col, v, r, (k - 1) as nat);
        let c = k - 1;
        let was = val(e.entry(r, c));
        let at = val(x[c]);
        assert(val(f.entry(r, c)) == was + (if r == row && c == col {
            v
        } else {
            0 as real
        }));
        lemma_prod_add(was, v, at);
    }
}

proof fn lemma_same_side<T: Number>(
    val: spec_fn(T) -> real,
    e: Equations<T>,
    f: Equations<T>,
    x: Seq<T>,
    r: int,
    k: nat,
)
    requires
        f.size == e.size,
        f.matrix == e.matrix,
    ensures
        left_side(val, f, x, r, k) == left_side(val, e, x, r, k),
    decreases k,
{
    if k > 0 {
        lemma_same_side(val, e, f, x, r, (k - 1) as nat);
    }
}

/// Adding `v` to an entry adds `v` times its unknown to the excess of its row.
pub proof fn law_add_in_exact<T: Number>(
    val: spec_fn(T) -> real,
    e: Equations<T>,
    x: Seq<T>,
    row: int,
    col: int,
    v: T,
    r: int,
)
    requires
        exact(val),
        e.wf(),
        e.has_row(row),
        e.has_row(col),
        0 <= r < e.size,
    ensures
        e.add(row, col, v).wf(),
        e.add(row, col, v).size == e.size,
        e.add(row, col, v).rhs == e.rhs,
        excess(val, e.add(row, col, v), x, r) == excess(val, e, x, r) + only_in(
            r,
            row,
            prod(val(v), level(val, x, col)),
        ),
{
    if row >= 0 && col >= 0 {
        lemma_raise(val, e, x, row, col, v, r);
    } else {
        lemma_prod_unit(val(v));
    }
}

pub proof fn lemma_raise<T: Number>(
    val: spec_fn(T) -> real,
    e: Equations<T>,
    x: Seq<T>,
    row: int,
    col: int,
    v: T,
    r: int,
)
    requires
        exact(val),
        e.wf(),
        0 <= row < e.size,
        0 <= col < e.size,
        0 <= r < e.size,
    ensures
        e.raise(cell(row, col, e.size), v).wf(),
        excess(val, e.raise(cell(row, col, e.size), v), x, r) == excess(val, e, x, r) + only_in(
            r,
            row,
            prod(val(v), val(x[col])),
        ),
        e.lower(cell(row, col, e.size), v).wf(),
        excess(val, e.lower(cell(row, col, e.size), v), x, r) == excess(val, e, x, r) - only_in(
            r,
            row,
            prod(val(v), val(x[col])),
        ),
{
    let f = e.raise(cell(row, col, e.size), v);
    let g = e.lower(cell(row, col, e.size), v);
    lemma_cell_in_range(row, col, e.size);
    assert forall|c: int| 0 <= c < e.size implies val(#[trigger] f.entry(r, c)) == val(
        e.entry(r, c),
    ) + (if r == row && c == col {
        val(v)
    } else {
        0 as real
    }) by {
        lemma_cell_in_range(r, c, e.size);
        if cell(r, c, e.size) == cell(row, col, e.size) {
            lemma_cells_distinct(r, c, row, col, e.size);
        }
    }
    assert forall|c: int| 0 <= c < e.size implies val(#[trigger] g.entry(r, c)) == val(
        e.entry(r, c),
    ) + (if r == row && c == col {
        -val(v)
    } else {
        0 as real
    }) by {
        lemma_cell_in_range(r, c, e.size);
        if cell(r, c, e.size) == cell(row, col, e.size) {
            lemma_cells_distinct(r, c, row, col, e.size);
        }
    }
    lemma_raised_side(val, e, f, x, row, col, val(v), r, e.size);
    lemma_raised_side(val, e, g, x, row, col, -val(v), r, e.size);
    let w = val(v);
    let at = val(x[col]);
    lemma_prod_neg(w, at);
}

/// Subtracting `v` from an entry takes `v` times its unknown from the excess of its
/// row.
pub proof fn law_deduct_in_exact<T: Number>(
    val: spec_fn(T) -> real,
    e: Equations<T>,
    x: Seq<T>,
    row: int,
    col: int,
    v: T,
    r: int,
)
    requires
        exact(val),
        e.wf(),
        e.has_row(row),
        e.has_row(col),
        0 <= r < e.size,
    ensures
        e.deduct(row, col, v).wf(),
        e.deduct(row, col, v).size == e.size,
        e.deduct(row, col, v).rhs == e.rhs,
        excess(val, e.deduct(row, col, v), x, r) == excess(val, e, x, r) - only_in(
            r,
            row,
            prod(val(v), level(val, x, col)),
        ),
{
    if row >= 0 && col >= 0 {
        lemma_raise(val, e, x, row, col, v, r);
    } else {
        lemma_prod_unit(val(v));
    }
}

/// A current fed into a row, or drained from it, takes from its excess, or adds to it.
pub proof fn law_feed_in_exact<T: Number>(
    val: spec_fn(T) -> real,
    e: Equations<T>,
    x: Seq<T>,
    row: int,
    v: T,
    r: int,
)
    requires
        exact(val),
        e.wf(),
        e.has_row(row),
        0 <= r < e.size,
    ensures
        e.feed(row, v).wf(),
        e.feed(row, v).size == e.size,
        e.drain(row, v).wf(),
        e.drain(row, v).size == e.size,
        excess(val, e.feed(row, v), x, r) == excess(val, e, x, r) - only_in(r, row, val(v)),
        excess(val, e.drain(row, v), x, r) == excess(val, e, x, r) + only_in(r, row, val(v)),
{
    lemma_same_side(val, e, e.feed(row, v), x, r, e.size);
    lemma_same_side(val, e, e.drain(row, v), x, r, e.size);
}

/// Replacing a right-hand side.
pub proof fn law_assign_in_exact<T: Number>(
    val: spec_fn(T) -> real,
    e: Equations<T>,
    x: Seq<T>,
    row: int,
    v: T,
    r: int,
)
    requires
        e.wf(),
        0 <= row < e.size,
        0 <= r < e.size,
    ensures
        e.assign(row, v).wf(),
        e.assign(row, v).size == e.size,
        excess(val, e.assign(row, v), x, r) == excess(val, e, x, r) + only_in(
            r,
            row,
            val(e.rhs[row]) - val(v),
        ),
{
    lemma_same_side(val, e, e.assign(row, v), x, r, e.size);
}

/// Nothing has been stamped into a blank system: no equation has an excess.
pub proof fn law_blank_in_exact<T: Number>(val: spec_fn(T) -> real, size: nat, x: Seq<T>, r: int)
    requires
        exact(val),
        0 <= r < size,
    ensures
        Equations::<T>::blank(size).wf(),
        excess(val, Equations::<T>::blank(size), x, r) == 0 as real,
        val(Equations::<T>::blank(size).rhs[r]) == 0 as real,
{
    lemma_blank_side(val, size, x, r, size);
    lemma_decimal(val, 0, 0);
}

proof fn lemma_blank_side<T: Number>(
    val: spec_fn(T) -> real,
    size: nat,
    x: Seq<T>,
    r: int,
    k: nat,
)
    requires
        exact(val),
        0 <= r < size,
        k <= size,
    ensures
        left_side(val, Equations::<T>::blank(size), x, r, k) == 0 as real,
    decreases k,
{
    lemma_decimal(val, 0, 0);
    if k > 0 {
        lemma_blank_side(val, size, x, r, (k - 1) as nat);
        lemma_cell_in_range(r, k - 1, size);
        let at = val(x[k - 1]);
        assert(Equations::<T>::blank(size).entry(r, k - 1) == zero::<T>());
        lemma_prod_unit(at);
    }
}

} // verus!
