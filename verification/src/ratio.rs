//! Exact rational numbers.
//!
//! Every coordinate and every edge fraction of a mesh is an exact quotient of
//! two integers, so that nothing is lost to rounding before the consumer of a
//! mesh chooses its own number format.

use vstd::prelude::*;

verus! {

/// The mathematical quotient `num / den`, the model of a [`Rational`].
pub struct Ratio {
    pub num: int,
    pub den: int,
}

impl Ratio {
    /// The real number that the quotient stands for (meaningful when `den != 0`).
    pub open spec fn value(self) -> real {
        self.num as real / self.den as real
    }

    /// The quotient has a positive denominator.
    pub open spec fn is_proper(self) -> bool {
        self.den > 0
    }

    /// The quotient is proper and its value lies in the closed interval `[0, 1]`.
    pub open spec fn in_unit_interval(self) -> bool {
        self.den > 0 && 0 <= self.num <= self.den
    }

    /// The quotient `0 / 1`.
    pub open spec fn zero() -> Ratio {
        Ratio { num: 0, den: 1 }
    }

    /// The quotient `1 / 2`.
    pub open spec fn half() -> Ratio {
        Ratio { num: 1, den: 2 }
    }
}

/// An exact rational number `num / den`, stored unreduced.
#[derive(Clone, Copy, Debug, PartialEq, Eq)]
pub struct Rational {
    pub num: i128,
    pub den: i128,
}

impl View for Rational {
    type V = Ratio;

    open spec fn view(&self) -> Ratio {
        Ratio { num: self.num as int, den: self.den as int }
    }
}

impl Rational {
    /// The rational `0 / 1`.
    pub fn zero() -> (r: Rational)
        ensures
            r@ == Ratio::zero(),
    {
        Rational { num: 0, den: 1 }
    }

    /// The rational `1 / 2`.
    pub fn half() -> (r: Rational)
        ensures
            r@ == Ratio::half(),
    {
        Rational { num: 1, den: 2 }
    }
}

/// The quotient `0 / 1` is the number zero.
pub proof fn lemma_zero_value()
    ensures
        Ratio::zero().value() == 0 as real,
{
    assert(0 as real / 1 as real == 0 as real) by (nonlinear_arith);
}

/// The quotient `1 / 2` is the number one half.
pub proof fn lemma_half_value()
    ensures
        Ratio::half().value() * 2 as real == 1 as real,
        Ratio::half().value() > 0 as real,
        Ratio::half().value() < 1 as real,
{
    assert((1 as real / 2 as real) * 2 as real == 1 as real) by (nonlinear_arith);
}

/// Where `value` falls between `a` and `b`, as a fraction of the way from `a`
/// to `b`: `(value - a) / (b - a)`, written with a positive denominator, and
/// `0 / 1` when `a == b`.
pub open spec fn lerp_ratio(a: int, b: int, value: int) -> Ratio {
    if a == b {
        Ratio::zero()
    } else if a < b {
        Ratio { num: value - a, den: b - a }
    } else {
        Ratio { num: a - value, den: a - b }
    }
}

/// Inverse linear interpolation: the fraction of the way from `a` to `b` at
/// which `value` lies. Two equal end points give the fraction zero.
pub fn inverse_lerp(a: i32, b: i32, value: i32) -> (r: Rational)
    ensures
        r@ == lerp_ratio(a as int, b as int, value as int),
        a == b ==> r@ == Ratio::zero(),
{
    if a == b {
        Rational { num: 0, den: 1 }
    } else if a < b {
        Rational { num: value as i128 - a as i128, den: b as i128 - a as i128 }
    } else {
        Rational { num: a as i128 - value as i128, den: a as i128 - b as i128 }
    }
}

/// The fraction that [`lerp_ratio`] gives always has a positive denominator,
/// and it is zero when the two end points are equal.
pub proof fn lemma_lerp_ratio_proper(a: int, b: int, value: int)
    ensures
        lerp_ratio(a, b, value).is_proper(),
        a == b ==> lerp_ratio(a, b, value) == Ratio::zero(),
{
}

/// Between two distinct end points the fraction is the real quotient
/// `(value - a) / (b - a)`.
pub proof fn lemma_lerp_ratio_value(a: int, b: int, value: int)
    requires
        a != b,
    ensures
        lerp_ratio(a, b, value).value() == (value - a) as real / (b - a) as real,
{
    if a > b {
        assert((a - value) as real / (a - b) as real == (value - a) as real / (b - a) as real)
            by (nonlinear_arith)
            requires
                a > b,
        ;
    }
}

/// Equal end points give the fraction zero, whatever `value` is.
pub proof fn lemma_lerp_ratio_degenerate(a: int, value: int)
    ensures
        lerp_ratio(a, a, value) == Ratio::zero(),
        lerp_ratio(a, a, value).value() == 0 as real,
{
    lemma_zero_value();
}

/// When `value` separates the end points (one of them is at least `value`,
/// the other is below it), the fraction lies in `[0, 1]`: it is positive when
/// `a` is the end point below `value`, and less than one when `b` is.
pub proof fn lemma_lerp_ratio_crossing(a: int, b: int, value: int)
    requires
        (a >= value) != (b >= value),
    ensures
        lerp_ratio(a, b, value).in_unit_interval(),
        a < value ==> 0 < lerp_ratio(a, b, value).num,
        b < value ==> lerp_ratio(a, b, value).num < lerp_ratio(a, b, value).den,
{
}

} // verus!
