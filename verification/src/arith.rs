//! Small arithmetic helpers shared by the geometry and layout code:
//! bounds that let products of narrow integers live in wider machine
//! types, and division that truncates toward zero the way Rust's `/`
//! does on signed integers (spec-level `/` is Euclidean).

use vstd::prelude::*;
use vstd::math::abs;
use vstd::arithmetic::div_mod::{lemma_div_nonincreasing, lemma_div_is_ordered_by_denominator};

verus! {

/// A product of two values in i32 range stays well within i64 range.
pub proof fn lemma_i32_mul_fits_i64(a: int, b: int)
    requires
        i32::MIN <= a <= i32::MAX,
        i32::MIN <= b <= i32::MAX,
    ensures
        -0x4000_0000_0000_0000 <= a * b <= 0x4000_0000_0000_0000,
{
    assert(-0x4000_0000_0000_0000 <= a * b <= 0x4000_0000_0000_0000) by (nonlinear_arith)
        requires
            -0x8000_0000 <= a <= 0x7fff_ffff,
            -0x8000_0000 <= b <= 0x7fff_ffff,
    ;
}

/// A product of two differences of i32 values stays well within i128 range.
pub proof fn lemma_i32_diff_mul_fits_i128(a: int, b: int)
    requires
        -0x1_0000_0000 <= a <= 0x1_0000_0000,
        -0x1_0000_0000 <= b <= 0x1_0000_0000,
    ensures
        -0x1_0000_0000_0000_0000 <= a * b <= 0x1_0000_0000_0000_0000,
{
    assert(-0x1_0000_0000_0000_0000 <= a * b <= 0x1_0000_0000_0000_0000) by (nonlinear_arith)
        requires
            -0x1_0000_0000 <= a <= 0x1_0000_0000,
            -0x1_0000_0000 <= b <= 0x1_0000_0000,
    ;
}

/// Quotient of `a` by `b`, truncated toward zero: the value Rust's `/`
/// computes on signed integers.
pub open spec fn div_trunc(a: int, b: int) -> int {
    let q = abs(a) as int / abs(b) as int;
    if (a < 0) != (b < 0) {
        -q
    } else {
        q
    }
}

/// Truncating division never grows the magnitude of the dividend, so the
/// quotient of a value of a signed type fits in that type unless the
/// dividend is the type's minimum and the divisor is -1.
pub proof fn lemma_div_trunc_range(a: int, b: int, bound: int)
    requires
        bound >= 1,
        -bound <= a < bound,
        b != 0,
        !(a == -bound && b == -1),
    ensures
        -bound <= div_trunc(a, b) < bound,
{
    let q = abs(a) as int / abs(b) as int;
    lemma_div_nonincreasing(abs(a) as int, abs(b) as int);
    vstd::arithmetic::div_mod::lemma_div_pos_is_pos(abs(a) as int, abs(b) as int);
    assert(0 <= q <= abs(a));
    if b == 1 || b == -1 {
        assert(abs(b) == 1);
        vstd::arithmetic::div_mod::lemma_div_basics(abs(a) as int);
        assert(q == abs(a));
    } else {
        assert(abs(b) >= 2);
        lemma_div_is_ordered_by_denominator(abs(a) as int, 2, abs(b) as int);
        vstd::arithmetic::div_mod::lemma_div_is_ordered(abs(a) as int, bound, 2);
        vstd::arithmetic::div_mod::lemma_div_is_strictly_smaller(bound, 2);
        assert(q <= abs(a) as int / 2 <= bound / 2 < bound);
    }
}

/// Truncating division on i64, proved against `div_trunc`.
pub fn div_trunc_i64(a: i64, b: i64) -> (r: i64)
    requires
        b != 0,
        !(a == i64::MIN && b == -1),
    ensures
        r == div_trunc(a as int, b as int),
{
    proof {
        lemma_div_trunc_range(a as int, b as int, 0x8000_0000_0000_0000);
        lemma_checked_div_is_div_trunc(a as int, b as int);
    }
    let r = a.checked_div(b);
    r.unwrap()
}

/// Truncating division on i128, proved against `div_trunc`.
pub fn div_trunc_i128(a: i128, b: i128) -> (r: i128)
    requires
        b != 0,
        !(a == i128::MIN && b == -1),
    ensures
        r == div_trunc(a as int, b as int),
{
    proof {
        lemma_div_trunc_range(a as int, b as int, 0x8000_0000_0000_0000_0000_0000_0000_0000);
        lemma_checked_div_is_div_trunc(a as int, b as int);
    }
    let r = a.checked_div(b);
    r.unwrap()
}

/// The case analysis inside std's `checked_div` specification computes
/// exactly `div_trunc`.
proof fn lemma_checked_div_is_div_trunc(x: int, d: int)
    requires
        d != 0,
    ensures
        div_trunc(x, d) == if x == 0 {
            0int
        } else if x > 0 && d > 0 {
            x / d
        } else if x < 0 && d < 0 {
            (x * -1) / (d * -1)
        } else if x < 0 {
            ((x * -1) / d) * -1
        } else {
            (x / (d * -1)) * -1
        },
{
    if x == 0 {
        assert(abs(0) as int / abs(d) as int == 0) by {
            vstd::arithmetic::div_mod::lemma_div_of0(abs(d) as int);
        }
    } else if x > 0 && d > 0 {
        assert(abs(x) == x && abs(d) == d);
    } else if x < 0 && d < 0 {
        assert(abs(x) == x * -1 && abs(d) == d * -1);
    } else if x < 0 {
        assert(abs(x) == x * -1 && abs(d) == d);
    } else {
        assert(abs(x) == x && abs(d) == d * -1);
    }
}

} // verus!
