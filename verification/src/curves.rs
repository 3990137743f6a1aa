//! The curves that voices are shaped with: a cosine, a square root and the
//! ratio of two pitches, all on levels.
//!
//! The cosine is the rational approximation of Bhaskara I on the first
//! quarter turn, mirrored onto the rest of the circle. The ratio of two
//! pitches goes by a table of the twelve equal-tempered semitones, with
//! straight lines between them.

use vstd::prelude::*;
use crate::fixed::{clamp_int, lemma_product_bound, min_int, ONE};

verus! {

/// A quarter of a turn, as a level.
pub const QUARTER_TURN: i32 = 16_384;

/// Half a turn, as a level.
pub const HALF_TURN: i32 = 32_768;

/// One octave, as a level of semitones.
pub const OCTAVE: i32 = 786_432;

/// The largest shift of pitch that is told apart, either way: sixteen
/// octaves.
pub const PITCH_SPAN: i32 = 12_582_912;

/// The cosine of `u` of a turn on the first quarter turn.
pub open spec fn quarter_cos(u: int) -> int {
    (ONE * (ONE * ONE - 16 * (u * u))) / (ONE * ONE + 4 * (u * u))
}

/// The cosine of `phase` turns: a level between minus one and one.
pub open spec fn cos_turns(phase: int) -> int {
    let p = phase % (ONE as int);
    let u = if p > HALF_TURN {
        ONE - p
    } else {
        p
    };
    if u <= QUARTER_TURN {
        quarter_cos(u)
    } else {
        -quarter_cos(HALF_TURN - u)
    }
}

/// The cosine on the first quarter turn lies between zero and one.
pub proof fn lemma_quarter_cos_bound(u: int)
    requires
        0 <= u <= QUARTER_TURN,
    ensures
        0 <= quarter_cos(u) <= ONE,
        0 <= u * u <= 0x1000_0000,
{
    lemma_product_bound(u, u, QUARTER_TURN as int, QUARTER_TURN as int);
    let sq = u * u;
    let num = 0x1_0000_0000 - 16 * sq;
    let den = 0x1_0000_0000 + 4 * sq;
    assert(ONE * ONE == 0x1_0000_0000);
    assert(ONE * num == 65536 * num);
    assert(0 <= (65536 * num) / den <= 65536) by (nonlinear_arith)
        requires
            0 <= num <= den,
            den > 0,
    ;
}

/// The cosine lies between minus one and one.
pub proof fn lemma_cos_bound(phase: int)
    ensures
        -ONE <= cos_turns(phase) <= ONE,
{
    let p = phase % (ONE as int);
    let u = if p > HALF_TURN {
        ONE - p
    } else {
        p
    };
    if u <= QUARTER_TURN {
        lemma_quarter_cos_bound(u);
    } else {
        lemma_quarter_cos_bound(HALF_TURN - u);
    }
}

/// Half a turn on, the cosine is the opposite.
pub proof fn lemma_cos_half_turn(phase: int)
    ensures
        cos_turns(phase + HALF_TURN) == -cos_turns(phase),
{
    let p = phase % (ONE as int);
    let q = (phase + HALF_TURN) % (ONE as int);
    assert(q == if p < HALF_TURN {
        p + HALF_TURN
    } else {
        p - HALF_TURN
    }) by {
        assert(ONE == 65536 && HALF_TURN == 32768);
        assert((phase + 32768) % 65536 == if phase % 65536 < 32768 {
            phase % 65536 + 32768
        } else {
            phase % 65536 - 32768
        }) by (nonlinear_arith);
    }
    assert(quarter_cos(QUARTER_TURN as int) == 0) by {
        assert(QUARTER_TURN * QUARTER_TURN == 0x1000_0000);
        assert(ONE * ONE == 0x1_0000_0000);
    }
}

/// The cosine of `phase` turns.
pub fn cos_of_turns(phase: u64) -> (r: i32)
    ensures
        r == cos_turns(phase as int),
        -ONE <= r <= ONE,
{
    proof {
        lemma_cos_bound(phase as int);
    }
    let p: u64 = phase % 65_536;
    let u: u64 = if p > 32_768 {
        65_536 - p
    } else {
        p
    };
    if u <= 16_384 {
        quarter_cos_of(u)
    } else {
        -quarter_cos_of(32_768 - u)
    }
}

fn quarter_cos_of(u: u64) -> (r: i32)
    requires
        u <= QUARTER_TURN,
    ensures
        r == quarter_cos(u as int),
        0 <= r <= ONE,
{
    proof {
        lemma_quarter_cos_bound(u as int);
        assert(ONE * ONE == 0x1_0000_0000);
    }
    let sq: u64 = u * u;
    let num: u64 = 0x1_0000_0000 - 16 * sq;
    let den: u64 = 0x1_0000_0000 + 4 * sq;
    ((65_536 * num) / den) as i32
}

/// `r` is the whole part of the square root of `x`.
pub open spec fn is_sqrt(x: int, r: int) -> bool {
    0 <= r && r * r <= x < (r + 1) * (r + 1)
}

/// The whole part of the square root of `x`.
pub open spec fn sqrt_floor(x: int) -> int {
    choose|r: int| is_sqrt(x, r)
}

/// A number has one whole square root at most.
pub proof fn lemma_sqrt_unique(x: int, r1: int, r2: int)
    requires
        is_sqrt(x, r1),
        is_sqrt(x, r2),
    ensures
        r1 == r2,
{
    if r1 < r2 {
        assert((r1 + 1) * (r1 + 1) <= r2 * r2) by (nonlinear_arith)
            requires
                0 <= r1 < r2,
        ;
    } else if r2 < r1 {
        assert((r2 + 1) * (r2 + 1) <= r1 * r1) by (nonlinear_arith)
            requires
                0 <= r2 < r1,
        ;
    }
}

/// The whole part of the square root of `x`.
pub fn isqrt(x: u64) -> (r: u32)
    ensures
        is_sqrt(x as int, r as int),
        r == sqrt_floor(x as int),
{
    let mut lo: u64 = 0;
    let mut hi: u64 = 0x1_0000_0000;
    while hi - lo > 1
        invariant
            lo < hi <= 0x1_0000_0000,
            lo * lo <= x < hi * hi,
        decreases hi - lo,
    {
        let mid: u64 = lo + (hi - lo) / 2;
        proof {
            lemma_product_bound(mid as int, mid as int, 0xffff_ffff, 0xffff_ffff);
        }
        if mid * mid <= x {
            lo = mid;
        } else {
            hi = mid;
        }
    }
    proof {
        assert(is_sqrt(x as int, lo as int));
        lemma_sqrt_unique(x as int, lo as int, sqrt_floor(x as int));
    }
    lo as u32
}

/// The ratio of the pitch `k` semitones up to the pitch it starts from, as a
/// level, for the semitones of one octave.
pub open spec fn semitone_ratio(k: int) -> int {
    if k <= 0 {
        65_536
    } else if k == 1 {
        69_433
    } else if k == 2 {
        73_562
    } else if k == 3 {
        77_936
    } else if k == 4 {
        82_570
    } else if k == 5 {
        87_480
    } else if k == 6 {
        92_682
    } else if k == 7 {
        98_193
    } else if k == 8 {
        104_032
    } else if k == 9 {
        110_218
    } else if k == 10 {
        116_772
    } else if k == 11 {
        123_715
    } else {
        131_072
    }
}

/// Two to the power `n`.
pub open spec fn two_to(n: int) -> int
    decreases n,
{
    if n <= 0 {
        1
    } else {
        2 * two_to(n - 1)
    }
}

/// The ratio within one octave: `within` is a level of semitones from zero up
/// to twelve.
pub open spec fn octave_ratio(within: int) -> int {
    let k = within / (ONE as int);
    let frac = within % (ONE as int);
    (semitone_ratio(k) * (ONE - frac) + semitone_ratio(k + 1) * frac) / (ONE as int)
}

/// The ratio of two pitches `d` semitones apart, as a level: two to the power
/// of `d` twelfths. Shifts beyond sixteen octaves count as sixteen octaves.
pub open spec fn pitch_ratio(d: int) -> int {
    let c = clamp_int(d, -PITCH_SPAN, PITCH_SPAN - 1) + PITCH_SPAN;
    (octave_ratio(c % (OCTAVE as int)) * two_to(c / (OCTAVE as int))) / (ONE as int)
}

/// `rate`, scaled by the ratio of two pitches `d` semitones apart.
pub open spec fn pitched_rate(rate: int, d: int) -> int {
    min_int((rate * pitch_ratio(d)) / (ONE as int), u32::MAX as int)
}

fn semitone_ratio_of(k: u64) -> (r: u64)
    ensures
        r == semitone_ratio(k as int),
        65_536 <= r <= 131_072,
{
    match k {
        0 => 65_536,
        1 => 69_433,
        2 => 73_562,
        3 => 77_936,
        4 => 82_570,
        5 => 87_480,
        6 => 92_682,
        7 => 98_193,
        8 => 104_032,
        9 => 110_218,
        10 => 116_772,
        11 => 123_715,
        _ => 131_072,
    }
}

fn two_to_of(n: u64) -> (r: u64)
    requires
        n <= 31,
    ensures
        r == two_to(n as int),
        1 <= r <= 0x8000_0000,
{
    let mut r: u64 = 1;
    let mut i: u64 = 0;
    proof {
        lemma_two_to_values();
    }
    while i < n
        invariant
            i <= n <= 31,
            r == two_to(i as int),
            1 <= r <= two_to(31),
            two_to(31) == 0x8000_0000,
        decreases n - i,
    {
        proof {
            lemma_two_to_monotone(i as int + 1, 31);
        }
        r = r * 2;
        i = i + 1;
    }
    r
}

/// Two of the powers of two.
pub proof fn lemma_two_to_values()
    ensures
        two_to(31) == 0x8000_0000,
        two_to(16) == 0x1_0000,
{
    reveal_with_fuel(two_to, 33);
}

/// Powers of two grow with the exponent.
pub proof fn lemma_two_to_monotone(a: int, b: int)
    requires
        a <= b,
    ensures
        1 <= two_to(a) <= two_to(b),
    decreases b,
{
    if b <= 0 {
    } else if a == b {
        lemma_two_to_monotone(a - 1, b - 1);
    } else {
        lemma_two_to_monotone(a, b - 1);
    }
}

/// The ratio within one octave lies between one and two.
pub proof fn lemma_octave_ratio_bound(within: int)
    requires
        0 <= within < OCTAVE,
    ensures
        ONE <= octave_ratio(within) <= 2 * ONE,
{
    let k = within / (ONE as int);
    let frac = within % (ONE as int);
    let s0 = semitone_ratio(k);
    let s1 = semitone_ratio(k + 1);
    assert(65536 * 65536 <= s0 * (65536 - frac) + s1 * frac <= 131072 * 65536)
        by (nonlinear_arith)
        requires
            65536 <= s0 <= 131072,
            65536 <= s1 <= 131072,
            0 <= frac < 65536,
    ;
}

/// The ratio of two pitches `d` semitones apart.
pub fn pitch_ratio_of(d: i64) -> (r: u64)
    ensures
        r == pitch_ratio(d as int),
        r <= 0x1_0000_0000,
{
    let lo: i64 = -(PITCH_SPAN as i64);
    let hi: i64 = PITCH_SPAN as i64 - 1;
    let clamped: i64 = if d < lo {
        lo
    } else if d > hi {
        hi
    } else {
        d
    };
    let c: u64 = (clamped + PITCH_SPAN as i64) as u64;
    let octave: u64 = c / 786_432;
    let within: u64 = c % 786_432;
    let k: u64 = within / 65_536;
    let frac: u64 = within % 65_536;
    let s0: u64 = semitone_ratio_of(k);
    let s1: u64 = semitone_ratio_of(k + 1);
    proof {
        lemma_octave_ratio_bound(within as int);
        lemma_product_bound(s0 as int, 65_536 - frac, 131_072, 65_536);
        lemma_product_bound(s1 as int, frac as int, 131_072, 65_536);
    }
    let base: u64 = (s0 * (65_536 - frac) + s1 * frac) / 65_536;
    let p: u64 = two_to_of(octave);
    proof {
        lemma_product_bound(base as int, p as int, 131_072, 0x8000_0000);
    }
    (base * p) / 65_536
}

/// `rate`, scaled by the ratio of two pitches `d` semitones apart.
pub fn pitched_rate_of(rate: u32, d: i64) -> (r: u32)
    ensures
        r == pitched_rate(rate as int, d as int),
{
    let ratio: u64 = pitch_ratio_of(d);
    proof {
        lemma_product_bound(rate as int, ratio as int, u32::MAX as int, 0x1_0000_0000);
    }
    let scaled: u128 = ((rate as u128) * (ratio as u128)) / 65_536;
    if scaled > u32::MAX as u128 {
        u32::MAX
    } else {
        scaled as u32
    }
}

/// Between two equal pitches the ratio is one, and a rate stays as it is.
pub proof fn lemma_unison(rate: int)
    requires
        0 <= rate <= u32::MAX,
    ensures
        pitch_ratio(0) == ONE,
        pitched_rate(rate, 0) == rate,
{
    lemma_two_to_values();
    assert(PITCH_SPAN % OCTAVE == 0 && PITCH_SPAN / OCTAVE == 16);
    assert(octave_ratio(0) == ONE);
    assert((rate * 65536) / 65536 == rate) by (nonlinear_arith);
}

} // verus!
