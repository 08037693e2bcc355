//! Fixed-point trigonometry.
//!
//! An angle is counted in units of which `FULL_TURN` make a whole turn; one
//! unit is a millionth of a radian to within two parts in ten million.
//!
//! In the first eighth turn the sine is the series
//! `x - x^3/3! + x^5/5! - x^7/7! + x^9/9!`, summed in millionths of a
//! millionth, and the cosine is the integer square root of one minus the
//! sine squared; the other octants follow by symmetry. So the heading
//! `(-sin, cos)` is a unit vector to within the rounding, whatever the angle:
//! `lemma_unit_length` states it. The arctangent halves the angle twice and
//! sums the series `t - t^3/3 + t^5/5 - t^7/7 + t^9/9`.
//!
//! The contracts give these formulas, the range of the results, the exact
//! values at the quarter turns and the unit length. The formulas are within
//! two millionths of the real functions; no contract states that closeness.
use vstd::prelude::*;
use crate::fixed::ONE;

verus! {

/// Half a turn.
pub const HALF_TURN: i64 = 3_141_592;

/// A quarter of a turn.
pub const QUARTER_TURN: i64 = 1_570_796;

/// An eighth of a turn.
pub const EIGHTH_TURN: i64 = 785_398;

/// A whole turn.
pub const FULL_TURN: i64 = 6_283_184;

/// One, in millionths of a millionth: the scale of the series.
pub const WIDE: i64 = 1_000_000_000_000;

/// The radians in a thousand units of angle, in millionths of a millionth:
/// the circle constant pi over `HALF_TURN`.
pub const UNIT_ANGLE: i64 = 1_000_000_208;

/// What `sin_micro` and `cos_micro` cannot both fall under in magnitude.
pub const HEADING_FLOOR: i64 = 700_000;

/// Whether `r` is the integer square root of `n`.
pub open spec fn is_root(r: int, n: int) -> bool {
    0 <= r && r * r <= n < (r + 1) * (r + 1)
}

/// The integer square root of `n`: the largest `r` whose square is at most
/// `n`.
pub open spec fn root(n: int) -> int {
    choose|r: int| is_root(r, n)
}

/// The product of `a` and `p`, both in the scale `WIDE`, over `k`.
pub open spec fn part(a: int, p: int, k: int) -> int {
    (a * p) / (k * WIDE)
}

/// The sine of `x` units within the first eighth turn, in millionths.
pub open spec fn octant_sine(x: int) -> int
    recommends
        0 <= x <= EIGHTH_TURN,
{
    let big = (x * UNIT_ANGLE) / 1000;
    let sq = part(big, big, 1);
    let k9 = WIDE - part(sq, WIDE as int, 72);
    let k7 = WIDE - part(sq, k9, 42);
    let k5 = WIDE - part(sq, k7, 20);
    let k3 = WIDE - part(sq, k5, 6);
    (part(big, k3, 1) + ONE / 2) / (ONE as int)
}

/// The cosine of `x` units within the first eighth turn, in millionths: what
/// the sine leaves of the unit length.
pub open spec fn octant_cosine(x: int) -> int
    recommends
        0 <= x <= EIGHTH_TURN,
{
    root(ONE * ONE - octant_sine(x) * octant_sine(x))
}

/// The sine of `f` units within the first quarter turn.
pub open spec fn quadrant_sine(f: int) -> int
    recommends
        0 <= f <= QUARTER_TURN,
{
    if f <= EIGHTH_TURN {
        octant_sine(f)
    } else {
        octant_cosine(QUARTER_TURN - f)
    }
}

/// The cosine of `f` units within the first quarter turn.
pub open spec fn quadrant_cosine(f: int) -> int
    recommends
        0 <= f <= QUARTER_TURN,
{
    if f <= EIGHTH_TURN {
        octant_cosine(f)
    } else {
        octant_sine(QUARTER_TURN - f)
    }
}

/// The sine of angle `a`, in millionths.
pub open spec fn sin_micro(a: int) -> int {
    let r = a % (FULL_TURN as int);
    if r < QUARTER_TURN {
        quadrant_sine(r)
    } else if r < HALF_TURN {
        quadrant_cosine(r - QUARTER_TURN)
    } else if r < HALF_TURN + QUARTER_TURN {
        -quadrant_sine(r - HALF_TURN)
    } else {
        -quadrant_cosine(r - HALF_TURN - QUARTER_TURN)
    }
}

/// The cosine of angle `a`, in millionths.
pub open spec fn cos_micro(a: int) -> int {
    let r = a % (FULL_TURN as int);
    if r < QUARTER_TURN {
        quadrant_cosine(r)
    } else if r < HALF_TURN {
        -quadrant_sine(r - QUARTER_TURN)
    } else if r < HALF_TURN + QUARTER_TURN {
        -quadrant_cosine(r - HALF_TURN)
    } else {
        quadrant_sine(r - HALF_TURN - QUARTER_TURN)
    }
}

/// The tangent of half the angle whose tangent is `z`, both in the scale
/// `WIDE`: `z / (1 + sqrt(1 + z^2))`.
pub open spec fn half_tangent(z: int) -> int
    recommends
        0 <= z <= WIDE,
{
    (z * WIDE) / (WIDE + root(WIDE * WIDE + z * z))
}

/// The angle, within the first eighth turn, whose tangent is `n / d`.
pub open spec fn octant_arc(n: int, d: int) -> int
    recommends
        0 <= n <= d,
{
    if d == 0 {
        0
    } else {
        let z = (n * WIDE) / d;
        let t = half_tangent(half_tangent(z));
        let sq = part(t, t, 1);
        let a3 = WIDE / 7 - part(sq, WIDE / 9, 1);
        let a2 = WIDE / 5 - part(sq, a3, 1);
        let a1 = WIDE / 3 - part(sq, a2, 1);
        let a0 = WIDE - part(sq, a1, 1);
        (4 * part(t, a0, 1) * 1000 + UNIT_ANGLE / 2) / (UNIT_ANGLE as int)
    }
}

/// The absolute value.
pub open spec fn magnitude(v: int) -> int {
    if v >= 0 {
        v
    } else {
        -v
    }
}

/// The angle of the point `(x, y)` seen from the origin, counted from the
/// positive x axis, in `[-HALF_TURN, HALF_TURN]`; zero for the origin itself.
pub open spec fn atan2_micro(y: int, x: int) -> int {
    let ay = magnitude(y);
    let ax = magnitude(x);
    let a = if ay <= ax {
        octant_arc(ay, ax)
    } else {
        QUARTER_TURN - octant_arc(ax, ay)
    };
    let r = if x >= 0 {
        a
    } else {
        HALF_TURN - a
    };
    if y >= 0 {
        r
    } else {
        -r
    }
}

/// A number has at most one integer square root.
pub proof fn lemma_root_unique(r1: int, r2: int, n: int)
    requires
        is_root(r1, n),
        is_root(r2, n),
    ensures
        r1 == r2,
{
    if r1 < r2 {
        assert((r1 + 1) * (r1 + 1) <= r2 * r2) by (nonlinear_arith)
            requires
                0 <= r1 + 1 <= r2,
        ;
    }
    if r2 < r1 {
        assert((r2 + 1) * (r2 + 1) <= r1 * r1) by (nonlinear_arith)
            requires
                0 <= r2 + 1 <= r1,
        ;
    }
}

/// Every number from zero on has an integer square root, and `root` is it.
pub proof fn lemma_root_exists(n: int)
    requires
        n >= 0,
    ensures
        is_root(root(n), n),
    decreases n,
{
    if n == 0 {
        assert(is_root(0, 0));
    } else {
        lemma_root_exists(n - 1);
        let r = root(n - 1);
        if (r + 1) * (r + 1) <= n {
            assert((r + 2) * (r + 2) > (r + 1) * (r + 1)) by (nonlinear_arith)
                requires
                    r >= 0,
            ;
            assert(is_root(r + 1, n));
        } else {
            assert(is_root(r, n));
        }
    }
}

/// The root of a square is its base; the root of a number up to `m * m` is at
/// most `m`.
pub proof fn lemma_root_bound(n: int, m: int)
    requires
        0 <= n <= m * m,
        0 <= m,
    ensures
        0 <= root(n) <= m,
        n == m * m ==> root(n) == m,
{
    lemma_root_exists(n);
    let r = root(n);
    if r > m {
        assert(r * r > m * m) by (nonlinear_arith)
            requires
                r > m,
                m >= 0,
        ;
    }
    if n == m * m {
        assert((m + 1) * (m + 1) > m * m) by (nonlinear_arith)
            requires
                m >= 0,
        ;
        lemma_root_unique(r, m, n);
    }
}

/// A part of `a` by a factor of at most one is at most `a`.
pub proof fn lemma_part_bound(a: int, p: int, k: int)
    requires
        0 <= a,
        0 <= p <= WIDE,
        1 <= k,
    ensures
        0 <= part(a, p, k) <= a,
{
    assert(0 <= (a * p) / (k * WIDE) <= a) by (nonlinear_arith)
        requires
            0 <= a,
            0 <= p <= WIDE,
            1 <= k,
            WIDE > 0,
    {
        assert(a * p <= a * WIDE);
        assert(a * WIDE <= a * (k * WIDE));
        assert(0 <= a * p);
    }
}

/// The sine of the first eighth turn stays between zero and one.
pub proof fn lemma_octant_sine_range(x: int)
    requires
        0 <= x <= EIGHTH_TURN,
    ensures
        0 <= octant_sine(x) <= ONE,
{
    let big = (x * UNIT_ANGLE) / 1000;
    assert(0 <= big <= 785_398_164_000) by (nonlinear_arith)
        requires
            big == (x * UNIT_ANGLE) / 1000,
            0 <= x <= EIGHTH_TURN,
    ;
    lemma_part_bound(big, big, 1);
    let sq = part(big, big, 1);
    lemma_part_bound(sq, WIDE as int, 72);
    let k9 = WIDE - part(sq, WIDE as int, 72);
    lemma_part_bound(sq, k9, 42);
    let k7 = WIDE - part(sq, k9, 42);
    lemma_part_bound(sq, k7, 20);
    let k5 = WIDE - part(sq, k7, 20);
    lemma_part_bound(sq, k5, 6);
    let k3 = WIDE - part(sq, k5, 6);
    lemma_part_bound(big, k3, 1);
}

/// Sine and cosine of the first eighth turn make a unit vector to within the
/// rounding of the root.
pub proof fn lemma_octant_unit(x: int)
    requires
        0 <= x <= EIGHTH_TURN,
    ensures
        0 <= octant_sine(x) <= ONE,
        0 <= octant_cosine(x) <= ONE,
        ONE * ONE - 2 * ONE <= octant_sine(x) * octant_sine(x) + octant_cosine(x) * octant_cosine(
            x,
        ) <= ONE * ONE,
{
    lemma_octant_sine_range(x);
    let s = octant_sine(x);
    let n = ONE * ONE - s * s;
    assert(0 <= n <= ONE * ONE) by (nonlinear_arith)
        requires
            n == ONE * ONE - s * s,
            0 <= s <= ONE,
    ;
    lemma_root_exists(n);
    lemma_root_bound(n, ONE as int);
    let c = root(n);
    assert((c + 1) * (c + 1) == c * c + 2 * c + 1) by (nonlinear_arith);
}

/// The heading is a unit vector to within the rounding: the squares of sine
/// and cosine add up to one, less at most two millionths of it.
pub proof fn lemma_unit_length(a: int)
    ensures
        -ONE <= sin_micro(a) <= ONE,
        -ONE <= cos_micro(a) <= ONE,
        ONE * ONE - 2 * ONE <= sin_micro(a) * sin_micro(a) + cos_micro(a) * cos_micro(a) <= ONE
            * ONE,
{
    let r = a % (FULL_TURN as int);
    let f = if r < QUARTER_TURN {
        r
    } else if r < HALF_TURN {
        r - QUARTER_TURN
    } else if r < HALF_TURN + QUARTER_TURN {
        r - HALF_TURN
    } else {
        r - HALF_TURN - QUARTER_TURN
    };
    let x = if f <= EIGHTH_TURN {
        f
    } else {
        QUARTER_TURN - f
    };
    lemma_octant_unit(x);
    let s = octant_sine(x);
    let c = octant_cosine(x);
    assert((-s) * (-s) == s * s) by (nonlinear_arith);
    assert((-c) * (-c) == c * c) by (nonlinear_arith);
}

/// Sine and cosine stay between minus one and one.
pub proof fn lemma_sin_cos_range(a: int)
    ensures
        -ONE <= sin_micro(a) <= ONE,
        -ONE <= cos_micro(a) <= ONE,
{
    lemma_unit_length(a);
}

/// Sine and cosine of one angle are never both small: the larger magnitude is
/// at least `HEADING_FLOOR`.
pub proof fn lemma_heading_floor(a: int)
    ensures
        magnitude(sin_micro(a)) >= HEADING_FLOOR || magnitude(cos_micro(a)) >= HEADING_FLOOR,
{
    lemma_unit_length(a);
    let s = magnitude(sin_micro(a));
    let c = magnitude(cos_micro(a));
    assert(s * s == sin_micro(a) * sin_micro(a)) by (nonlinear_arith)
        requires
            s == sin_micro(a) || s == -sin_micro(a),
    ;
    assert(c * c == cos_micro(a) * cos_micro(a)) by (nonlinear_arith)
        requires
            c == cos_micro(a) || c == -cos_micro(a),
    ;
    if s < HEADING_FLOOR && c < HEADING_FLOOR {
        assert(s * s + c * c < 2 * HEADING_FLOOR * HEADING_FLOOR) by (nonlinear_arith)
            requires
                0 <= s < HEADING_FLOOR,
                0 <= c < HEADING_FLOOR,
        ;
    }
}

/// Sine and cosine are exact at the multiples of a quarter turn.
pub proof fn lemma_exact_at_quarter_turns()
    ensures
        sin_micro(0) == 0 && cos_micro(0) == ONE,
        sin_micro(QUARTER_TURN as int) == ONE && cos_micro(QUARTER_TURN as int) == 0,
        sin_micro(HALF_TURN as int) == 0 && cos_micro(HALF_TURN as int) == -ONE,
        sin_micro(3 * QUARTER_TURN) == -ONE && cos_micro(3 * QUARTER_TURN) == 0,
{
    assert(octant_sine(0) == 0) by {
        let big = (0 * UNIT_ANGLE) / 1000;
        assert(big == 0);
        assert(part(0, 0, 1) == 0);
        let k9 = WIDE - part(0, WIDE as int, 72);
        lemma_part_bound(0, WIDE as int, 72);
        lemma_part_bound(0, k9, 42);
        let k7 = WIDE - part(0, k9, 42);
        lemma_part_bound(0, k7, 20);
        let k5 = WIDE - part(0, k7, 20);
        lemma_part_bound(0, k5, 6);
        let k3 = WIDE - part(0, k5, 6);
        lemma_part_bound(0, k3, 1);
    }
    lemma_root_bound(ONE * ONE, ONE as int);
    assert(octant_cosine(0) == ONE);
}

/// Halving the angle at least halves the tangent.
pub proof fn lemma_half_tangent_bound(z: int)
    requires
        0 <= z <= WIDE,
    ensures
        0 <= 2 * half_tangent(z) <= z,
{
    let n = WIDE * WIDE + z * z;
    assert(WIDE * WIDE <= n <= (2 * WIDE) * (2 * WIDE)) by (nonlinear_arith)
        requires
            n == WIDE * WIDE + z * z,
            0 <= z <= WIDE,
    ;
    lemma_root_exists(n);
    let r = root(n);
    if r < WIDE {
        assert((r + 1) * (r + 1) <= WIDE * WIDE) by (nonlinear_arith)
            requires
                0 <= r + 1 <= WIDE,
        ;
    }
    let den = WIDE + r;
    assert(0 <= 2 * ((z * WIDE) / den) <= z) by (nonlinear_arith)
        requires
            den >= 2 * WIDE,
            0 <= z,
            WIDE > 0,
    {
        assert(2 * (z * WIDE) <= z * den);
        assert(((z * WIDE) / den) * den <= z * WIDE);
    }
}

/// The arc of the first octant stays between zero and a million units, which
/// is less than a quarter turn.
pub proof fn lemma_octant_arc_range(n: int, d: int)
    requires
        0 <= n <= d,
    ensures
        0 <= octant_arc(n, d) <= ONE,
        d > 0 ==> 0 <= (n * WIDE) / d <= WIDE,
{
    if d > 0 {
        let z = (n * WIDE) / d;
        assert(0 <= z <= WIDE) by (nonlinear_arith)
            requires
                z == (n * WIDE) / d,
                0 <= n <= d,
                d > 0,
                WIDE > 0,
        ;
        lemma_half_tangent_bound(z);
        let h = half_tangent(z);
        lemma_half_tangent_bound(h);
        let t = half_tangent(h);
        assert(0 <= 4 * t <= z);
        assert(0 <= t * t <= 62_500_000_000 * WIDE) by (nonlinear_arith)
            requires
                0 <= t <= 250_000_000_000,
                WIDE == 1_000_000_000_000,
        ;
        let sq = part(t, t, 1);
        assert(0 <= sq <= 62_500_000_000) by (nonlinear_arith)
            requires
                sq == (t * t) / (1 * WIDE),
                0 <= t * t <= 62_500_000_000 * WIDE,
                WIDE > 0,
        ;
        lemma_part_bound(sq, WIDE / 9, 1);
        let a3 = WIDE / 7 - part(sq, WIDE / 9, 1);
        lemma_part_bound(sq, a3, 1);
        let a2 = WIDE / 5 - part(sq, a3, 1);
        lemma_part_bound(sq, a2, 1);
        let a1 = WIDE / 3 - part(sq, a2, 1);
        lemma_part_bound(sq, a1, 1);
        let a0 = WIDE - part(sq, a1, 1);
        lemma_part_bound(t, a0, 1);
        let arc = 4 * part(t, a0, 1);
        assert(0 <= arc <= WIDE);
        assert(0 <= (arc * 1000 + UNIT_ANGLE / 2) / (UNIT_ANGLE as int) <= ONE);
    }
}

/// The arctangent stays within half a turn either way.
pub proof fn lemma_atan2_range(y: int, x: int)
    ensures
        -HALF_TURN <= atan2_micro(y, x) <= HALF_TURN,
{
    let ay = magnitude(y);
    let ax = magnitude(x);
    if ay <= ax {
        lemma_octant_arc_range(ay, ax);
    } else {
        lemma_octant_arc_range(ax, ay);
    }
}

/// The integer square root of `n`.
pub fn isqrt(n: i128) -> (r: i128)
    requires
        0 <= n <= 2 * (WIDE * WIDE),
    ensures
        r == root(n as int),
        is_root(r as int, n as int),
        0 <= r <= 2 * WIDE,
{
    let mut lo: i128 = 0;
    let mut hi: i128 = 2 * (WIDE as i128);
    assert(hi * hi == 4 * (WIDE * WIDE)) by (nonlinear_arith)
        requires
            hi == 2 * WIDE,
    ;
    while hi - lo > 1
        invariant
            0 <= lo < hi <= 2 * WIDE,
            lo * lo <= n < hi * hi,
        decreases hi - lo,
    {
        let mid: i128 = lo + (hi - lo) / 2;
        assert(0 <= mid * mid <= 4_000_000_000_000_000_000_000_000) by (nonlinear_arith)
            requires
                0 <= mid <= 2_000_000_000_000,
        ;
        if mid * mid <= n {
            lo = mid;
        } else {
            hi = mid;
        }
    }
    proof {
        assert(hi == lo + 1);
        lemma_root_exists(n as int);
        lemma_root_unique(lo as int, root(n as int), n as int);
    }
    lo
}

/// The product of `a` and `p`, both in the scale `WIDE`, over `k`.
fn part_of(a: i128, p: i128, k: i128) -> (r: i128)
    requires
        0 <= a <= WIDE,
        0 <= p <= WIDE,
        1 <= k <= 100,
    ensures
        r == part(a as int, p as int, k as int),
        0 <= r <= a,
{
    proof {
        lemma_part_bound(a as int, p as int, k as int);
        assert(0 <= a * p <= WIDE * WIDE) by (nonlinear_arith)
            requires
                0 <= a <= WIDE,
                0 <= p <= WIDE,
        ;
    }
    (a * p) / (k * (WIDE as i128))
}

/// Sine and cosine of `x` units within the first eighth turn.
fn octant(x: i64) -> (sc: (i64, i64))
    requires
        0 <= x <= EIGHTH_TURN,
    ensures
        sc.0 == octant_sine(x as int),
        sc.1 == octant_cosine(x as int),
        0 <= sc.0 <= ONE,
        0 <= sc.1 <= ONE,
{
    proof {
        lemma_octant_unit(x as int);
        assert(0 <= (x * UNIT_ANGLE) / 1000 <= 785_398_164_000) by (nonlinear_arith)
            requires
                0 <= x <= EIGHTH_TURN,
        ;
        assert(0 <= x * UNIT_ANGLE <= EIGHTH_TURN * UNIT_ANGLE) by (nonlinear_arith)
            requires
                0 <= x <= EIGHTH_TURN,
        ;
    }
    let wide: i128 = WIDE as i128;
    let big: i128 = ((x as i128) * (UNIT_ANGLE as i128)) / 1000;
    let sq: i128 = part_of(big, big, 1);
    let k9: i128 = wide - part_of(sq, wide, 72);
    let k7: i128 = wide - part_of(sq, k9, 42);
    let k5: i128 = wide - part_of(sq, k7, 20);
    let k3: i128 = wide - part_of(sq, k5, 6);
    let s: i128 = (part_of(big, k3, 1) + (ONE as i128) / 2) / (ONE as i128);
    assert(s == octant_sine(x as int));
    assert(0 <= s * s <= ONE * ONE) by (nonlinear_arith)
        requires
            0 <= s <= ONE,
    ;
    let c: i128 = isqrt((ONE as i128) * (ONE as i128) - s * s);
    (s as i64, c as i64)
}

/// Reduces an angle into `[0, FULL_TURN)`.
pub fn turn_remainder(a: i64) -> (r: i64)
    ensures
        r == a as int % (FULL_TURN as int),
        0 <= r < FULL_TURN,
{
    let m: i64 = a % FULL_TURN;
    if m < 0 {
        m + FULL_TURN
    } else {
        m
    }
}

/// Sine and cosine of `f` units within the first quarter turn.
fn quadrant(f: i64) -> (sc: (i64, i64))
    requires
        0 <= f <= QUARTER_TURN,
    ensures
        sc.0 == quadrant_sine(f as int),
        sc.1 == quadrant_cosine(f as int),
        0 <= sc.0 <= ONE,
        0 <= sc.1 <= ONE,
{
    if f <= EIGHTH_TURN {
        octant(f)
    } else {
        let (s, c): (i64, i64) = octant(QUARTER_TURN - f);
        (c, s)
    }
}

/// Sine and cosine of angle `a`, in millionths.
pub fn sin_cos(a: i64) -> (sc: (i64, i64))
    ensures
        sc.0 == sin_micro(a as int),
        sc.1 == cos_micro(a as int),
        -ONE <= sc.0 <= ONE,
        -ONE <= sc.1 <= ONE,
{
    let r: i64 = turn_remainder(a);
    if r < QUARTER_TURN {
        quadrant(r)
    } else if r < HALF_TURN {
        let (s, c): (i64, i64) = quadrant(r - QUARTER_TURN);
        (c, -s)
    } else if r < HALF_TURN + QUARTER_TURN {
        let (s, c): (i64, i64) = quadrant(r - HALF_TURN);
        (-s, -c)
    } else {
        let (s, c): (i64, i64) = quadrant(r - HALF_TURN - QUARTER_TURN);
        (-c, s)
    }
}

/// The sine of angle `a`, in millionths.
pub fn sin(a: i64) -> (s: i64)
    ensures
        s == sin_micro(a as int),
        -ONE <= s <= ONE,
{
    sin_cos(a).0
}

/// The cosine of angle `a`, in millionths.
pub fn cos(a: i64) -> (c: i64)
    ensures
        c == cos_micro(a as int),
        -ONE <= c <= ONE,
{
    sin_cos(a).1
}

/// The tangent of half the angle whose tangent is `z`.
fn halve(z: i128) -> (h: i128)
    requires
        0 <= z <= WIDE,
    ensures
        h == half_tangent(z as int),
        0 <= 2 * h <= z,
{
    proof {
        lemma_half_tangent_bound(z as int);
        assert(0 <= z * z <= WIDE * WIDE) by (nonlinear_arith)
            requires
                0 <= z <= WIDE,
        ;
        assert(0 <= z * WIDE <= 1_000_000_000_000_000_000_000_000) by (nonlinear_arith)
            requires
                0 <= z <= 1_000_000_000_000,
                WIDE == 1_000_000_000_000,
        ;
    }
    let wide: i128 = WIDE as i128;
    let r: i128 = isqrt(wide * wide + z * z);
    (z * wide) / (wide + r)
}

/// The octant arc of the ratio `n / d`.
fn arc(n: i128, d: i128) -> (a: i64)
    requires
        0 <= n <= d <= 0x1_0000_0000_0000_0000,
    ensures
        a == octant_arc(n as int, d as int),
        0 <= a <= ONE,
{
    if d == 0 {
        return 0;
    }
    proof {
        lemma_octant_arc_range(n as int, d as int);
        assert(0 <= n * WIDE <= 0x1_0000_0000_0000_0000 * WIDE) by (nonlinear_arith)
            requires
                0 <= n <= 0x1_0000_0000_0000_0000,
        ;
    }
    let wide: i128 = WIDE as i128;
    let z: i128 = (n * wide) / d;
    let t: i128 = halve(halve(z));
    let sq: i128 = part_of(t, t, 1);
    proof {
        assert(0 <= t * t <= 62_500_000_000 * WIDE) by (nonlinear_arith)
            requires
                0 <= t <= 250_000_000_000,
                WIDE == 1_000_000_000_000,
        ;
        assert(0 <= sq <= 62_500_000_000) by (nonlinear_arith)
            requires
                sq == (t * t) / (1 * WIDE),
                0 <= t * t <= 62_500_000_000 * WIDE,
                WIDE > 0,
        ;
    }
    let a3: i128 = wide / 7 - part_of(sq, wide / 9, 1);
    let a2: i128 = wide / 5 - part_of(sq, a3, 1);
    let a1: i128 = wide / 3 - part_of(sq, a2, 1);
    let a0: i128 = wide - part_of(sq, a1, 1);
    let whole: i128 = 4 * part_of(t, a0, 1);
    ((whole * 1000 + (UNIT_ANGLE as i128) / 2) / (UNIT_ANGLE as i128)) as i64
}

/// The angle of the point `(x, y)` seen from the origin, counted from the
/// positive x axis. The arguments are wide so that a difference of two
/// coordinates always fits.
pub fn atan2(y: i128, x: i128) -> (a: i64)
    requires
        -0x1_0000_0000_0000_0000 <= y <= 0x1_0000_0000_0000_0000,
        -0x1_0000_0000_0000_0000 <= x <= 0x1_0000_0000_0000_0000,
    ensures
        a == atan2_micro(y as int, x as int),
        -HALF_TURN <= a <= HALF_TURN,
{
    let ay: i128 = if y >= 0 {
        y
    } else {
        -y
    };
    let ax: i128 = if x >= 0 {
        x
    } else {
        -x
    };
    let a: i64 = if ay <= ax {
        arc(ay, ax)
    } else {
        QUARTER_TURN - arc(ax, ay)
    };
    let r: i64 = if x >= 0 {
        a
    } else {
        HALF_TURN - a
    };
    if y >= 0 {
        r
    } else {
        -r
    }
}

} // verus!
