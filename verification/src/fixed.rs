//! Saturating fixed-point numbers: a [`Number`] for targets without floating
//! point.

use vstd::prelude::*;

use crate::number::Number;

verus! {

/// Units per whole: 2^32.
pub const SCALE: i64 = 4_294_967_296;

/// A signed fixed-point number, `raw / 2^32`.
///
/// Results that do not fit saturate.  The two saturated values are not ordinary
/// numbers: `is_finite` is false of them.
#[derive(Clone, Copy, Debug, PartialEq, Eq, Structural)]
pub struct Fixed {
    pub raw: i64,
}

/// The fixed-point number nearest to `units` that `raw` can hold.
pub open spec fn saturated(units: int) -> Fixed {
    Fixed {
        raw: if units > i64::MAX {
            i64::MAX
        } else if units < i64::MIN {
            i64::MIN
        } else {
            units as i64
        },
    }
}

/// `a / b` rounded toward zero.
pub open spec fn truncated(a: int, b: int) -> int {
    let q = abs(a) / abs(b);
    if (a < 0) == (b < 0) {
        q
    } else {
        -q
    }
}

/// The absolute value of an integer.
pub open spec fn abs(a: int) -> int {
    if a < 0 {
        -a
    } else {
        a
    }
}

/// 10 to the power `n`.
pub open spec fn power_of_ten(n: nat) -> int
    decreases n,
{
    if n == 0 {
        1
    } else {
        10 * power_of_ten((n - 1) as nat)
    }
}

fn saturate(units: i128) -> (r: Fixed)
    ensures
        r == saturated(units as int),
{
    if units > i64::MAX as i128 {
        Fixed { raw: i64::MAX }
    } else if units < i64::MIN as i128 {
        Fixed { raw: i64::MIN }
    } else {
        Fixed { raw: units as i64 }
    }
}

fn size_of_units(units: i128) -> (r: u128)
    requires
        units > i128::MIN,
    ensures
        r == abs(units as int),
{
    if units < 0 {
        (-units) as u128
    } else {
        units as u128
    }
}

fn whole_units(whole: i64) -> (r: i128)
    ensures
        r == whole * SCALE,
        -0x8000_0000_0000_0000_0000_0000 <= r <= 0x8000_0000_0000_0000_0000_0000,
{
    assert(whole * SCALE == whole * 4_294_967_296);
    whole as i128 * 4_294_967_296
}

fn divide(a: i128, b: i128) -> (r: i128)
    requires
        a > i128::MIN,
        b > i128::MIN,
        b != 0,
    ensures
        r == truncated(a as int, b as int),
{
    let x = size_of_units(a);
    let y = size_of_units(b);
    assert(x / y <= x) by (nonlinear_arith)
        requires
            y >= 1,
    ;
    let q: i128 = (x / y) as i128;
    if (a < 0) == (b < 0) {
        q
    } else {
        -q
    }
}

impl Number for Fixed {
    open spec fn sum(self, other: Self) -> Self {
        saturated(self.raw + other.raw)
    }

    fn plus(self, other: Self) -> (r: Self) {
        saturate(self.raw as i128 + other.raw as i128)
    }

    open spec fn difference(self, other: Self) -> Self {
        saturated(self.raw - other.raw)
    }

    fn minus(self, other: Self) -> (r: Self) {
        saturate(self.raw as i128 - other.raw as i128)
    }

    open spec fn product(self, other: Self) -> Self {
        saturated(truncated(self.raw * other.raw, SCALE as int))
    }

    fn times(self, other: Self) -> (r: Self) {
        let a: i128 = self.raw as i128;
        let b: i128 = other.raw as i128;
        assert(-0x4000_0000_0000_0000_0000_0000_0000_0000 <= a * b
            <= 0x4000_0000_0000_0000_0000_0000_0000_0000) by (nonlinear_arith)
            requires
                -0x8000_0000_0000_0000 <= a <= 0x7fff_ffff_ffff_ffff,
                -0x8000_0000_0000_0000 <= b <= 0x7fff_ffff_ffff_ffff,
        ;
        saturate(divide(a * b, SCALE as i128))
    }

    /// Division by zero saturates by the sign of the dividend.
    open spec fn quotient(self, other: Self) -> Self {
        if other.raw == 0 {
            saturated(
                if self.raw < 0 {
                    i64::MIN as int
                } else {
                    i64::MAX as int
                },
            )
        } else {
            saturated(truncated(self.raw * SCALE, other.raw as int))
        }
    }

    fn over(self, other: Self) -> (r: Self) {
        if other.raw == 0 {
            Fixed {
                raw: if self.raw < 0 {
                    i64::MIN
                } else {
                    i64::MAX
                },
            }
        } else {
            saturate(divide(whole_units(self.raw), other.raw as i128))
        }
    }

    open spec fn opposite(self) -> Self {
        saturated(-self.raw)
    }

    fn negated(self) -> (r: Self) {
        saturate(-(self.raw as i128))
    }

    open spec fn magnitude(self) -> Self {
        saturated(abs(self.raw as int))
    }

    fn abs(self) -> (r: Self) {
        if self.raw < 0 {
            saturate(-(self.raw as i128))
        } else {
            self
        }
    }

    open spec fn greatest(self, other: Self) -> Self {
        if self.raw < other.raw {
            other
        } else {
            self
        }
    }

    fn larger(self, other: Self) -> (r: Self) {
        if self.raw < other.raw {
            other
        } else {
            self
        }
    }

    open spec fn least(self, other: Self) -> Self {
        if other.raw < self.raw {
            other
        } else {
            self
        }
    }

    fn smaller(self, other: Self) -> (r: Self) {
        if other.raw < self.raw {
            other
        } else {
            self
        }
    }

    fn same(self, other: Self) -> (r: bool) {
        self.raw == other.raw
    }

    open spec fn below(self, other: Self) -> bool {
        self.raw < other.raw
    }

    fn lt(self, other: Self) -> (r: bool) {
        self.raw < other.raw
    }

    open spec fn at_most(self, other: Self) -> bool {
        self.raw <= other.raw
    }

    fn le(self, other: Self) -> (r: bool) {
        self.raw <= other.raw
    }

    open spec fn finite(self) -> bool {
        i64::MIN < self.raw < i64::MAX
    }

    fn is_finite(self) -> (r: bool) {
        i64::MIN < self.raw && self.raw < i64::MAX
    }

    open spec fn decimal_value(mantissa: i64, places: u32) -> Self {
        saturated(truncated(mantissa * SCALE, power_of_ten(places as nat)))
    }

    fn decimal(mantissa: i64, places: u32) -> (r: Self) {
        let units: i128 = whole_units(mantissa);
        let mut size: u128 = size_of_units(units);
        let mut done: u32 = 0;
        proof {
            lemma_power_of_ten_positive(0);
        }
        while done < places
            invariant
                done <= places,
                -0x8000_0000_0000_0000_0000_0000 <= units <= 0x8000_0000_0000_0000_0000_0000,
                size == abs(units as int) / power_of_ten(done as nat),
                size <= 0x8000_0000_0000_0000_0000_0000,
            decreases places - done,
        {
            proof {
                lemma_power_of_ten_positive(done as nat);
                lemma_divide_again(abs(units as int), power_of_ten(done as nat));
            }
            size = size / 10;
            done += 1;
        }
        proof {
            lemma_power_of_ten_positive(places as nat);
        }
        if units < 0 {
            saturate(-(size as i128))
        } else {
            saturate(size as i128)
        }
    }

    open spec fn unbounded() -> Self {
        Fixed { raw: i64::MAX }
    }

    fn infinity() -> (r: Self) {
        Fixed { raw: i64::MAX }
    }
}

proof fn lemma_power_of_ten_positive(n: nat)
    ensures
        power_of_ten(n) >= 1,
    decreases n,
{
    if n > 0 {
        lemma_power_of_ten_positive((n - 1) as nat);
    }
}

proof fn lemma_divide_again(a: int, d: int)
    requires
        a >= 0,
        d >= 1,
    ensures
        (a / d) / 10 == a / (10 * d),
{
    vstd::arithmetic::div_mod::lemma_div_denominator(a, d, 10);
    assert(d * 10 == 10 * d);
}

} // verus!
