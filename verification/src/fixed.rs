//! Fixed-point arithmetic in millionths.
//!
//! Lengths are kept in millionths of a world unit, angles in millionths of a
//! radian and time in millionths of a second, so that a speed in units per
//! second times an elapsed time is an exact integer product. (The
//! trigonometry takes a whole number of angle units for a turn, which makes
//! the unit a millionth of a radian to within two parts in ten million.)
use vstd::prelude::*;

verus! {

/// One whole unit (of length, angle, time or ratio) in millionths.
pub const ONE: i64 = 1_000_000;

/// The quotient `n / d` rounded toward zero.
pub open spec fn toward_zero(n: int, d: int) -> int
    recommends
        d > 0,
{
    if n >= 0 {
        n / d
    } else {
        -((-n) / d)
    }
}

/// `d` times the ratio `f / ONE`, rounded toward zero.
pub open spec fn scaled_spec(d: int, f: int) -> int {
    toward_zero(d * f, ONE as int)
}

/// Rounding toward zero commutes with negation.
pub proof fn lemma_toward_zero_neg(n: int, d: int)
    requires
        d > 0,
    ensures
        toward_zero(-n, d) == -toward_zero(n, d),
{
    if n == 0 {
        assert(0int / d == 0) by (nonlinear_arith)
            requires
                d > 0,
        ;
    }
}

/// A quotient rounded toward zero is no larger in magnitude than `b` when the
/// dividend is no larger in magnitude than `b * d`.
pub proof fn lemma_toward_zero_bound(n: int, d: int, b: int)
    requires
        d > 0,
        b >= 0,
        -(b * d) <= n <= b * d,
    ensures
        -b <= toward_zero(n, d) <= b,
        n >= 0 ==> toward_zero(n, d) >= 0,
        n <= 0 ==> toward_zero(n, d) <= 0,
{
    let a = if n >= 0 { n } else { -n };
    assert(0 <= a / d <= b) by (nonlinear_arith)
        requires
            d > 0,
            0 <= a <= b * d,
    ;
}

/// A quotient rounded toward zero is at least `b` when the dividend is at
/// least `b * d`.
pub proof fn lemma_toward_zero_at_least(n: int, d: int, b: int)
    requires
        d > 0,
        b >= 0,
        n >= b * d,
    ensures
        toward_zero(n, d) >= b,
{
    assert(n / d >= b) by (nonlinear_arith)
        requires
            d > 0,
            n >= b * d,
    ;
}

/// The product `d * f` lies between `-|d| * m` and `|d| * m` when `|f| <= m`.
pub proof fn lemma_product_bound(d: int, f: int, m: int)
    by (nonlinear_arith)
    requires
        -m <= f <= m,
    ensures
        d >= 0 ==> -(d * m) <= d * f <= d * m,
        d <= 0 ==> d * m <= d * f <= -(d * m),
{
}

/// `scaled_spec(d, f)` is no larger in magnitude than `d` when `|f| <= ONE`,
/// and has the sign of `d * f`.
pub proof fn lemma_scaled_bound(d: int, f: int)
    requires
        -ONE <= f <= ONE,
    ensures
        d >= 0 ==> -d <= scaled_spec(d, f) <= d,
        d <= 0 ==> d <= scaled_spec(d, f) <= -d,
        d * f >= 0 ==> scaled_spec(d, f) >= 0,
        d * f <= 0 ==> scaled_spec(d, f) <= 0,
{
    lemma_product_bound(d, f, ONE as int);
    if d >= 0 {
        lemma_toward_zero_bound(d * f, ONE as int, d);
    } else {
        assert((-d) * (ONE as int) == -(d * (ONE as int))) by (nonlinear_arith);
        lemma_toward_zero_bound(d * f, ONE as int, -d);
    }
}

/// Scaling by a ratio and scaling the negated amount by the same ratio cancel.
pub proof fn lemma_scaled_neg(d: int, f: int)
    ensures
        scaled_spec(-d, f) == -scaled_spec(d, f),
{
    assert((-d) * f == -(d * f)) by (nonlinear_arith);
    lemma_toward_zero_neg(d * f, ONE as int);
}

/// Multiplies `d` by the ratio `f / ONE`, rounding toward zero. The result is
/// wide, since `i64::MIN` times the ratio `-1` has no place in an `i64`.
pub fn scaled(d: i64, f: i64) -> (r: i128)
    requires
        -ONE <= f <= ONE,
    ensures
        r == scaled_spec(d as int, f as int),
        -0x8000_0000_0000_0000 <= r <= 0x8000_0000_0000_0000,
{
    proof {
        lemma_product_bound(d as int, f as int, ONE as int);
        lemma_scaled_bound(d as int, f as int);
    }
    let wide: i128 = (d as i128) * (f as i128);
    let q: i128 = wide / (ONE as i128);
    assert(wide == d * f);
    assert(q == toward_zero(wide as int, ONE as int));
    q
}

} // verus!
