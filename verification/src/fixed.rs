//! Units and saturating fixed-point arithmetic.
//!
//! * A *time* is a signed count of ticks, [`TICKS_PER_SEC`] to the second.
//! * A *level* (amplitude, gain, fraction, semitone count, frequency in hertz)
//!   is a signed 16.16 fixed-point number: [`ONE`] stands for 1.0.
//! * A *rate* is a whole number of samples per second.
//!
//! Results that leave the range of their type stop at its bounds.

use vstd::prelude::*;

verus! {

/// Ticks in a second. Every common audio rate divides it.
pub const TICKS_PER_SEC: u64 = 705_600_000;

/// The level that stands for 1.0.
pub const ONE: i32 = 65_536;

/// `x`, stopped at the bounds of `i64`.
pub open spec fn sat64(x: int) -> int {
    if x < i64::MIN {
        i64::MIN as int
    } else if x > i64::MAX {
        i64::MAX as int
    } else {
        x
    }
}

/// `x`, stopped at the bounds of `i32`.
pub open spec fn sat32(x: int) -> int {
    if x < i32::MIN {
        i32::MIN as int
    } else if x > i32::MAX {
        i32::MAX as int
    } else {
        x
    }
}

/// The quotient of `x` by `d`, rounded towards zero.
pub open spec fn trunc_div(x: int, d: int) -> int
    recommends
        d > 0,
{
    if x >= 0 {
        x / d
    } else {
        -((-x) / d)
    }
}

/// The product of two levels, as an unsaturated level.
pub open spec fn scale(x: int, g: int) -> int {
    trunc_div(x * g, ONE as int)
}

/// The number of whole samples that fit before time `t` at `rate`.
pub open spec fn samples_in(t: int, rate: int) -> int {
    if t <= 0 || rate <= 0 {
        0
    } else {
        (t * rate) / (TICKS_PER_SEC as int)
    }
}

/// The number of samples that begin before time `t` at `rate`.
pub open spec fn samples_before(t: int, rate: int) -> int {
    if t <= 0 || rate <= 0 {
        0
    } else {
        (t * rate + TICKS_PER_SEC - 1) / (TICKS_PER_SEC as int)
    }
}

/// The time that `n` samples take at `rate`: the least time before which `n`
/// whole samples fit, stopped at the bounds of `i64`. Zero at rate zero.
pub open spec fn secs_of(n: int, rate: int) -> int {
    if n <= 0 || rate <= 0 {
        0
    } else {
        sat64((n * TICKS_PER_SEC + rate - 1) / rate)
    }
}

/// The smaller of two integers.
pub open spec fn min_int(a: int, b: int) -> int {
    if a <= b {
        a
    } else {
        b
    }
}

/// The larger of two integers.
pub open spec fn max_int(a: int, b: int) -> int {
    if a >= b {
        a
    } else {
        b
    }
}

/// `x`, held between `lo` and `hi`.
pub open spec fn clamp_int(x: int, lo: int, hi: int) -> int {
    max_int(lo, min_int(x, hi))
}

/// The absolute value of an integer.
pub open spec fn abs_int(x: int) -> int {
    if x < 0 {
        -x
    } else {
        x
    }
}

/// `x`, stopped at the bounds of `i64`.
pub fn clamp_i64(x: i128) -> (r: i64)
    ensures
        r == sat64(x as int),
{
    if x < i64::MIN as i128 {
        i64::MIN
    } else if x > i64::MAX as i128 {
        i64::MAX
    } else {
        x as i64
    }
}

/// `x`, stopped at the bounds of `i32`.
pub fn clamp_i32(x: i128) -> (r: i32)
    ensures
        r == sat32(x as int),
{
    if x < i32::MIN as i128 {
        i32::MIN
    } else if x > i32::MAX as i128 {
        i32::MAX
    } else {
        x as i32
    }
}

/// The product of two bounded naturals is bounded by the product of the bounds.
pub proof fn lemma_product_bound(a: int, b: int, x: int, y: int)
    requires
        0 <= a <= x,
        0 <= b <= y,
    ensures
        0 <= a * b <= x * y,
{
    assert(0 <= a * b <= x * y) by (nonlinear_arith)
        requires
            0 <= a <= x,
            0 <= b <= y,
    ;
}

/// The product of two integers is bounded by the product of bounds on their
/// absolute values.
pub proof fn lemma_signed_product_bound(a: int, b: int, x: int, y: int)
    requires
        -x <= a <= x,
        -y <= b <= y,
    ensures
        -(x * y) <= a * b <= x * y,
{
    lemma_product_bound(abs_int(a), abs_int(b), x, y);
    assert(a * b == abs_int(a) * abs_int(b) || a * b == -(abs_int(a) * abs_int(b)))
        by (nonlinear_arith);
}

/// The product of two levels, rounded towards zero.
pub fn scale_level(x: i32, g: i32) -> (r: i32)
    ensures
        r == sat32(scale(x as int, g as int)),
{
    proof {
        lemma_signed_product_bound(x as int, g as int, 0x8000_0000, 0x8000_0000);
    }
    let p: i128 = (x as i128) * (g as i128);
    clamp_i32(p / (ONE as i128))
}

/// The index of the sample at time `t`, no larger than `cap`.
pub fn sample_index(t: i64, rate: u32, cap: usize) -> (r: usize)
    ensures
        r == min_int(samples_in(t as int, rate as int), cap as int),
{
    if t <= 0 || rate == 0 {
        return 0;
    }
    proof {
        lemma_product_bound(t as int, rate as int, i64::MAX as int, u32::MAX as int);
    }
    let p: u128 = (t as u128) * (rate as u128);
    let q: u128 = p / (TICKS_PER_SEC as u128);
    if q >= cap as u128 {
        cap
    } else {
        q as usize
    }
}

/// The number of samples that begin before time `t`, no larger than `cap`.
pub fn sample_count(t: i64, rate: u32, cap: usize) -> (r: usize)
    ensures
        r == min_int(samples_before(t as int, rate as int), cap as int),
{
    if t <= 0 || rate == 0 {
        return 0;
    }
    proof {
        lemma_product_bound(t as int, rate as int, i64::MAX as int, u32::MAX as int);
    }
    let p: u128 = (t as u128) * (rate as u128) + (TICKS_PER_SEC as u128 - 1);
    let q: u128 = p / (TICKS_PER_SEC as u128);
    if q >= cap as u128 {
        cap
    } else {
        q as usize
    }
}

/// The time that `n` samples take at `rate`.
pub fn duration_of(n: usize, rate: u32) -> (r: i64)
    ensures
        r == secs_of(n as int, rate as int),
        r >= 0,
{
    if n == 0 || rate == 0 {
        return 0;
    }
    proof {
        lemma_product_bound(n as int, TICKS_PER_SEC as int, u64::MAX as int, TICKS_PER_SEC as int);
    }
    let p: u128 = (n as u128) * (TICKS_PER_SEC as u128) + (rate as u128 - 1);
    let q: u128 = p / (rate as u128);
    if q > i64::MAX as u128 {
        i64::MAX
    } else {
        q as i64
    }
}

} // verus!
