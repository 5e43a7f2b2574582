//! Fixed-point numbers.
//!
//! Lengths (in pixels) and angles (in radians) are held as `i64` counts of
//! 1/65536; sines and cosines as counts of 1/16384. Everything here is exact
//! integer arithmetic, so each result has a closed mathematical statement.

use vstd::prelude::*;

verus! {

/// The number 1 as a length or an angle.
pub const ONE: i64 = 65536;

/// The number 1/2 as a length or an angle.
pub const HALF: i64 = 32768;

/// The number 1 as a sine or a cosine.
pub const UNIT: i64 = 16384;

/// A quarter turn, π/2, as an angle (rounded up to the next count).
pub const QUARTER_TURN: i64 = 102944;

/// A half turn as an angle: every angle below it is below π.
pub const HALF_TURN: i64 = 205888;

/// A full turn as an angle: the period of `sin_fx` and `cos_fx`.
pub const FULL_TURN: i64 = 411776;

/// The largest whole number not above `v / ONE`.
pub open spec fn floor_whole(v: int) -> int {
    v / (ONE as int)
}

/// The smallest whole number not below `v / ONE`.
pub open spec fn ceil_whole(v: int) -> int {
    -((-v) / (ONE as int))
}

/// `a / b` rounded toward zero, for a positive `b`.
pub open spec fn trunc_div(a: int, b: int) -> int {
    if a >= 0 {
        a / b
    } else {
        -((-a) / b)
    }
}

/// `v` held to the closed range from `lo` to `hi`.
pub open spec fn clamp(v: int, lo: int, hi: int) -> int {
    if v < lo {
        lo
    } else if v > hi {
        hi
    } else {
        v
    }
}

/// Whether `r` is the integer square root of `n`.
pub open spec fn is_sqrt(n: int, r: int) -> bool {
    0 <= r && r * r <= n < (r + 1) * (r + 1)
}

/// The integer square root of `n`: the largest `r` with `r * r <= n`.
pub open spec fn sqrt_floor(n: int) -> int {
    choose|r: int| is_sqrt(n, r)
}

/// Every number from 0 on has an integer square root.
pub proof fn lemma_sqrt_exists(n: int)
    requires
        0 <= n,
    ensures
        is_sqrt(n, sqrt_floor(n)),
    decreases n,
{
    if n == 0 {
        assert(is_sqrt(0, 0)) by (nonlinear_arith);
    } else {
        lemma_sqrt_exists(n - 1);
        let r = sqrt_floor(n - 1);
        if (r + 1) * (r + 1) <= n {
            assert((r + 2) * (r + 2) > (r + 1) * (r + 1)) by (nonlinear_arith)
                requires
                    0 <= r,
            ;
            assert(is_sqrt(n, r + 1));
        } else {
            assert(is_sqrt(n, r));
        }
    }
}

/// A number has at most one integer square root.
pub proof fn lemma_sqrt_unique(n: int, r1: int, r2: int)
    requires
        is_sqrt(n, r1),
        is_sqrt(n, r2),
    ensures
        r1 == r2,
{
    if r1 < r2 {
        assert((r1 + 1) * (r1 + 1) <= r2 * r2) by (nonlinear_arith)
            requires
                0 <= r1,
                r1 + 1 <= r2,
        ;
    }
    if r2 < r1 {
        assert((r2 + 1) * (r2 + 1) <= r1 * r1) by (nonlinear_arith)
            requires
                0 <= r2,
                r2 + 1 <= r1,
        ;
    }
}

/// The sine of `x`, for `x` in the first half of a quarter turn, by the
/// series `x - x^3/3! + x^5/5! - x^7/7!` in nested form.
pub open spec fn sin_octant(x: int) -> int {
    let z = x * x / 65536;
    let f3 = 65536 - z / 42;
    let f2 = 65536 - z * f3 / (20 * 65536int);
    let f1 = 65536 - z * f2 / (6 * 65536int);
    x * f1 / 65536 / 4
}

/// The cosine of `x`, for `x` in the first half of a quarter turn, by the
/// series `1 - x^2/2! + x^4/4! - x^6/6!` in nested form.
pub open spec fn cos_octant(x: int) -> int {
    let z = x * x / 65536;
    let g3 = 65536 - z / 30;
    let g2 = 65536 - z * g3 / (12 * 65536int);
    let g1 = 65536 - z * g2 / (2 * 65536int);
    g1 / 4
}

/// The sine of `x`, for `x` within the first quarter turn: past the middle
/// of the quarter it is the cosine of what is left to the quarter's end.
pub open spec fn sin_quadrant(x: int) -> int {
    if 2 * x <= QUARTER_TURN {
        sin_octant(x)
    } else {
        cos_octant(QUARTER_TURN - x)
    }
}

/// The cosine of `x`, for `x` within the first quarter turn.
pub open spec fn cos_quadrant(x: int) -> int {
    if 2 * x <= QUARTER_TURN {
        cos_octant(x)
    } else {
        sin_octant(QUARTER_TURN - x)
    }
}

/// The sine of `angle`, in counts of `1 / UNIT`.
pub open spec fn sin_fx(angle: int) -> int {
    let a = angle % (FULL_TURN as int);
    let q = a / (QUARTER_TURN as int);
    let x = a % (QUARTER_TURN as int);
    if q == 0 {
        sin_quadrant(x)
    } else if q == 1 {
        cos_quadrant(x)
    } else if q == 2 {
        -sin_quadrant(x)
    } else {
        -cos_quadrant(x)
    }
}

/// The cosine of `angle`, in counts of `1 / UNIT`.
pub open spec fn cos_fx(angle: int) -> int {
    let a = angle % (FULL_TURN as int);
    let q = a / (QUARTER_TURN as int);
    let x = a % (QUARTER_TURN as int);
    if q == 0 {
        cos_quadrant(x)
    } else if q == 1 {
        -sin_quadrant(x)
    } else if q == 2 {
        -cos_quadrant(x)
    } else {
        sin_quadrant(x)
    }
}

/// Within half a quarter turn the sine lies between 0 and the angle itself.
pub proof fn lemma_sin_octant_bounds(x: int)
    requires
        0 <= x <= 51472,
    ensures
        0 <= sin_octant(x) <= x / 4,
        sin_octant(x) <= UNIT,
{
    let z = x * x / 65536;
    assert(0 <= x * x <= 51472 * 51472) by (nonlinear_arith)
        requires
            0 <= x <= 51472,
    ;
    assert(0 <= z <= 65536);
    let f3 = 65536 - z / 42;
    assert(0 <= f3 <= 65536);
    assert(0 <= z * f3 <= 65536 * 65536) by (nonlinear_arith)
        requires
            0 <= z <= 65536,
            0 <= f3 <= 65536,
    ;
    let f2 = 65536 - z * f3 / (20 * 65536int);
    assert(0 <= f2 <= 65536);
    assert(0 <= z * f2 <= 65536 * 65536) by (nonlinear_arith)
        requires
            0 <= z <= 65536,
            0 <= f2 <= 65536,
    ;
    let f1 = 65536 - z * f2 / (6 * 65536int);
    assert(0 <= f1 <= 65536);
    assert(0 <= x * f1 <= x * 65536) by (nonlinear_arith)
        requires
            0 <= x,
            0 <= f1 <= 65536,
    ;
}

/// Within half a quarter turn the cosine lies between 0 and 1.
pub proof fn lemma_cos_octant_bounds(x: int)
    requires
        0 <= x <= 51472,
    ensures
        0 <= cos_octant(x) <= UNIT,
{
    let z = x * x / 65536;
    assert(0 <= x * x <= 51472 * 51472) by (nonlinear_arith)
        requires
            0 <= x <= 51472,
    ;
    assert(0 <= z <= 40427);
    let g3 = 65536 - z / 30;
    assert(0 <= g3 <= 65536);
    assert(0 <= z * g3 <= 40427 * 65536) by (nonlinear_arith)
        requires
            0 <= z <= 40427,
            0 <= g3 <= 65536,
    ;
    let g2 = 65536 - z * g3 / (12 * 65536int);
    assert(0 <= g2 <= 65536);
    assert(0 <= z * g2 <= 40427 * 65536) by (nonlinear_arith)
        requires
            0 <= z <= 40427,
            0 <= g2 <= 65536,
    ;
}

/// `floor_whole` in executable form.
pub fn floor_to_whole(v: i64) -> (r: i64)
    ensures
        r == floor_whole(v as int),
{
    let q: i64 = v / ONE;
    let m: i64 = v % ONE;
    if m < 0 {
        q - 1
    } else {
        q
    }
}

/// `ceil_whole` in executable form.
pub fn ceil_to_whole(v: i64) -> (r: i64)
    ensures
        r == ceil_whole(v as int),
{
    let q: i64 = v / ONE;
    let m: i64 = v % ONE;
    if m > 0 {
        q + 1
    } else {
        q
    }
}

/// `trunc_div` in executable form.
pub fn div_toward_zero(a: i128, b: i128) -> (r: i128)
    requires
        b > 0,
    ensures
        r == trunc_div(a as int, b as int),
{
    if a >= 0 {
        a / b
    } else if a == i128::MIN {
        let q: i128 = (a + b) / b;
        proof {
            let n = -(a as int);
            assert(n / (b as int) == (n - b) / (b as int) + 1) by {
                vstd::arithmetic::div_mod::lemma_div_plus_one(n - b, b as int);
            }
            assert(n / (b as int) >= 1) by {
                vstd::arithmetic::div_mod::lemma_div_pos_is_pos(n - b, b as int);
            }
        }
        q - 1
    } else {
        -((-a) / b)
    }
}

/// The integer square root of `n`, found by bisection.
pub fn isqrt(n: u128) -> (r: u128)
    requires
        n < 0x1_0000_0000_0000_0000_0000_0000,
    ensures
        r == sqrt_floor(n as int),
        is_sqrt(n as int, r as int),
        r < 0x1_0000_0000_0000,
{
    let mut lo: u128 = 0;
    let mut hi: u128 = 0x1_0000_0000_0000;
    assert(0x1_0000_0000_0000int * 0x1_0000_0000_0000int == 0x1_0000_0000_0000_0000_0000_0000int)
        by (nonlinear_arith);
    assert(0int * 0int == 0) by (nonlinear_arith);
    while hi - lo > 1
        invariant
            lo < hi <= 0x1_0000_0000_0000,
            lo * lo <= n,
            n < hi * hi,
        decreases hi - lo,
    {
        let mid: u128 = lo + (hi - lo) / 2;
        assert(mid * mid < 0x1_0000_0000_0000int * 0x1_0000_0000_0000int) by (nonlinear_arith)
            requires
                0 <= mid < 0x1_0000_0000_0000,
        ;
        if mid * mid <= n {
            lo = mid;
        } else {
            hi = mid;
        }
    }
    proof {
        assert(hi == lo + 1);
        assert(is_sqrt(n as int, lo as int));
        lemma_sqrt_unique(n as int, lo as int, sqrt_floor(n as int));
    }
    lo
}

/// `sin_octant` in executable form.
fn sin_of_octant(x: i64) -> (r: i64)
    requires
        0 <= x <= 51472,
    ensures
        r == sin_octant(x as int),
        0 <= r <= UNIT,
{
    proof {
        lemma_sin_octant_bounds(x as int);
    }
    assert(0 <= x * x <= 51472 * 51472) by (nonlinear_arith)
        requires
            0 <= x <= 51472,
    ;
    let z: i64 = x * x / 65536;
    let f3: i64 = 65536 - z / 42;
    assert(0 <= z * f3 <= 65536 * 65536) by (nonlinear_arith)
        requires
            0 <= z <= 65536,
            0 <= f3 <= 65536,
    ;
    let f2: i64 = 65536 - z * f3 / (20 * 65536);
    assert(0 <= z * f2 <= 65536 * 65536) by (nonlinear_arith)
        requires
            0 <= z <= 65536,
            0 <= f2 <= 65536,
    ;
    let f1: i64 = 65536 - z * f2 / (6 * 65536);
    assert(0 <= x * f1 <= 51472 * 65536) by (nonlinear_arith)
        requires
            0 <= x <= 51472,
            0 <= f1 <= 65536,
    ;
    x * f1 / 65536 / 4
}

/// `cos_octant` in executable form.
fn cos_of_octant(x: i64) -> (r: i64)
    requires
        0 <= x <= 51472,
    ensures
        r == cos_octant(x as int),
        0 <= r <= UNIT,
{
    proof {
        lemma_cos_octant_bounds(x as int);
    }
    assert(0 <= x * x <= 51472 * 51472) by (nonlinear_arith)
        requires
            0 <= x <= 51472,
    ;
    let z: i64 = x * x / 65536;
    let g3: i64 = 65536 - z / 30;
    assert(0 <= z * g3 <= 40427 * 65536) by (nonlinear_arith)
        requires
            0 <= z <= 40427,
            0 <= g3 <= 65536,
    ;
    let g2: i64 = 65536 - z * g3 / (12 * 65536);
    assert(0 <= z * g2 <= 40427 * 65536) by (nonlinear_arith)
        requires
            0 <= z <= 40427,
            0 <= g2 <= 65536,
    ;
    let g1: i64 = 65536 - z * g2 / (2 * 65536);
    g1 / 4
}

/// The cosine and the sine of `angle`, in this order.
pub fn rotation(angle: i64) -> (r: (i64, i64))
    ensures
        r.0 == cos_fx(angle as int),
        r.1 == sin_fx(angle as int),
        -UNIT <= r.0 <= UNIT,
        -UNIT <= r.1 <= UNIT,
{
    let m: i64 = angle % FULL_TURN;
    let a: i64 = if m < 0 {
        m + FULL_TURN
    } else {
        m
    };
    assert(a == (angle as int) % (FULL_TURN as int));
    let q: i64 = a / QUARTER_TURN;
    let x: i64 = a % QUARTER_TURN;
    let (s, c) = if 2 * x <= QUARTER_TURN {
        (sin_of_octant(x), cos_of_octant(x))
    } else {
        (cos_of_octant(QUARTER_TURN - x), sin_of_octant(QUARTER_TURN - x))
    };
    assert(s == sin_quadrant(x as int));
    assert(c == cos_quadrant(x as int));
    if q == 0 {
        (c, s)
    } else if q == 1 {
        (-s, c)
    } else if q == 2 {
        (-c, -s)
    } else {
        (s, -c)
    }
}

} // verus!
