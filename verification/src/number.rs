//! The number type of the simulator.
//!
//! Everything in this crate is written against [`Number`], so that the same
//! solver runs on hardware doubles, on the fixed-point [`Fixed`] of this crate
//! or on any other number type.  Nothing is assumed of the arithmetic itself:
//! each operation is only tied to a mathematical function of its operands, so
//! rounding, overflow and not-a-number behave as the number type has them, and
//! every contract says exactly which operations are applied in which order.
//!
//! Of doubles this holds up to the bits of not-a-number results: their sign and
//! payload are not a function of the operands on every machine.  A contract that
//! equates two numbers means, where both are not-a-number, no more than that both
//! are.
//!
//! [`Fixed`]: crate::fixed::Fixed

use vstd::prelude::*;

verus! {

/// A number type that the solver can compute with.
pub trait Number: Copy {
    /// What `plus` returns.
    spec fn sum(self, other: Self) -> Self;

    /// `self + other`.
    fn plus(self, other: Self) -> (r: Self)
        ensures
            r == self.sum(other),
    ;

    /// What `minus` returns.
    spec fn difference(self, other: Self) -> Self;

    /// `self - other`.
    fn minus(self, other: Self) -> (r: Self)
        ensures
            r == self.difference(other),
    ;

    /// What `times` returns.
    spec fn product(self, other: Self) -> Self;

    /// `self * other`.
    fn times(self, other: Self) -> (r: Self)
        ensures
            r == self.product(other),
    ;

    /// What `over` returns.
    spec fn quotient(self, other: Self) -> Self;

    /// `self / other`.
    fn over(self, other: Self) -> (r: Self)
        ensures
            r == self.quotient(other),
    ;

    /// What `negated` returns.
    spec fn opposite(self) -> Self;

    /// `-self`.
    fn negated(self) -> (r: Self)
        ensures
            r == self.opposite(),
    ;

    /// What `abs` returns.
    spec fn magnitude(self) -> Self;

    /// The absolute value.
    fn abs(self) -> (r: Self)
        ensures
            r == self.magnitude(),
    ;

    /// What `larger` returns.
    spec fn greatest(self, other: Self) -> Self;

    /// The larger of two numbers.
    fn larger(self, other: Self) -> (r: Self)
        ensures
            r == self.greatest(other),
    ;

    /// What `smaller` returns.
    spec fn least(self, other: Self) -> Self;

    /// The smaller of two numbers.
    fn smaller(self, other: Self) -> (r: Self)
        ensures
            r == self.least(other),
    ;

    /// Whether two values are the same value, bit for bit.
    fn same(self, other: Self) -> (r: bool)
        ensures
            r == (self == other),
    ;

    /// What `lt` returns.
    spec fn below(self, other: Self) -> bool;

    /// `self < other`.
    fn lt(self, other: Self) -> (r: bool)
        ensures
            r == self.below(other),
    ;

    /// What `le` returns.  A number type with values that compare to nothing
    /// may leave both `a.at_most(b)` and `b.below(a)` false.
    spec fn at_most(self, other: Self) -> bool;

    /// `self <= other`.
    fn le(self, other: Self) -> (r: bool)
        ensures
            r == self.at_most(other),
    ;

    /// Whether the value is an ordinary number: neither the result of an
    /// overflow nor undefined.
    spec fn finite(self) -> bool;

    /// Whether the value is an ordinary number.
    fn is_finite(self) -> (r: bool)
        ensures
            r == self.finite(),
    ;

    /// What `decimal` returns.
    spec fn decimal_value(mantissa: i64, places: u32) -> Self;

    /// The number `mantissa / 10^places`: `decimal(15, 1)` is 1.5.
    fn decimal(mantissa: i64, places: u32) -> (r: Self)
        ensures
            r == Self::decimal_value(mantissa, places),
    ;

    /// What `infinity` returns.
    spec fn unbounded() -> Self;

    /// A value that no ordinary number exceeds.
    fn infinity() -> (r: Self)
        ensures
            r == Self::unbounded(),
    ;
}

/// The number 0.
pub open spec fn zero<T: Number>() -> T {
    T::decimal_value(0, 0)
}

/// The number 1.
pub open spec fn one<T: Number>() -> T {
    T::decimal_value(1, 0)
}

/// The running maximum of the first `k` values, starting from 0: a value takes
/// the lead only where the leader so far compares below it.
pub open spec fn peak<T: Number>(values: Seq<T>, k: nat) -> T
    decreases k,
{
    if k == 0 {
        zero()
    } else {
        let before = peak(values, (k - 1) as nat);
        let v = values[k - 1];
        if before.below(v) {
            v
        } else {
            before
        }
    }
}

/// Whether every value is an ordinary number.
pub open spec fn all_finite<T: Number>(values: Seq<T>) -> bool {
    forall|i: int| 0 <= i < values.len() ==> (#[trigger] values[i]).finite()
}

/// A vector of `n` copies of `v`.
pub fn filled<T: Copy>(v: T, n: usize) -> (r: Vec<T>)
    ensures
        r@ == Seq::new(n as nat, |i: int| v),
{
    let mut r: Vec<T> = Vec::new();
    let mut i: usize = 0;
    while i < n
        invariant
            i <= n,
            r@ == Seq::new(i as nat, |j: int| v),
        decreases n - i,
    {
        r.push(v);
        i += 1;
    }
    r
}

/// A vector with the same contents.
pub fn copy_of<T: Copy>(v: &Vec<T>) -> (r: Vec<T>)
    ensures
        r@ == v@,
{
    let mut r: Vec<T> = Vec::new();
    let mut i: usize = 0;
    while i < v.len()
        invariant
            i <= v.len(),
            r@ == v@.take(i as int),
        decreases v.len() - i,
    {
        r.push(v[i]);
        i += 1;
    }
    r
}

/// Overwrites `dst` with the contents of `src`.
pub fn copy_into<T: Copy>(dst: &mut Vec<T>, src: &Vec<T>)
    requires
        old(dst).len() == src.len(),
    ensures
        final(dst)@ == src@,
{
    let mut i: usize = 0;
    while i < src.len()
        invariant
            i <= src.len(),
            dst.len() == src.len(),
            forall|j: int| 0 <= j < i ==> dst@[j] == src@[j],
        decreases src.len() - i,
    {
        dst[i] = src[i];
        i += 1;
    }
}

} // verus!
