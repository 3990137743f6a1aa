//! Resampling: a stretch of source samples is interpolated over a stretch of
//! a destination and added to what the destination holds.

use vstd::prelude::*;
use crate::fixed::{
    clamp_i32,
    lemma_product_bound,
    lemma_signed_product_bound,
    sat32,
    scale,
    trunc_div,
    ONE,
};

verus! {

/// How a value between two source samples is chosen.
#[derive(Clone, Copy, Debug)]
pub enum Resampler {
    Nearest,
    Linear,
}

/// The samples `a..b` of `src`, from the last to the first where `reversed`.
pub open spec fn window(src: Seq<i32>, a: int, b: int, reversed: bool) -> Seq<i32> {
    Seq::new(
        (b - a) as nat,
        |k: int|
            if reversed {
                src[b - 1 - k]
            } else {
                src[a + k]
            },
    )
}

/// The weighted mean of `f0` and `f1`, `rem` parts of `n` towards `f1`,
/// rounded towards zero.
pub open spec fn blend(f0: int, f1: int, rem: int, n: int) -> int {
    trunc_div(f0 * (n - rem) + f1 * rem, n)
}

/// A weighted mean lies between bounds that both values keep.
pub proof fn lemma_blend_bound(f0: int, f1: int, rem: int, n: int, lo: int, hi: int)
    requires
        0 <= rem < n,
        lo <= 0 <= hi,
        lo <= f0 <= hi,
        lo <= f1 <= hi,
    ensures
        lo <= blend(f0, f1, rem, n) <= hi,
        lo * n <= f0 * (n - rem) + f1 * rem <= hi * n,
{
    let x = f0 * (n - rem) + f1 * rem;
    assert(lo * n <= x <= hi * n) by (nonlinear_arith)
        requires
            x == f0 * (n - rem) + f1 * rem,
            0 <= rem < n,
            lo <= f0 <= hi,
            lo <= f1 <= hi,
    ;
    if x >= 0 {
        assert(0 <= x / n <= hi) by (nonlinear_arith)
            requires
                0 <= x <= hi * n,
                n > 0,
        ;
    } else {
        assert((-lo) * n == -(lo * n)) by (nonlinear_arith);
        assert(0 <= (-x) / n <= -lo) by (nonlinear_arith)
            requires
                0 <= -x <= (-lo) * n,
                n > 0,
        ;
    }
}

/// Scaling by the unit level changes nothing.
pub proof fn lemma_scale_by_one(x: int)
    ensures
        scale(x, ONE as int) == x,
        scale(ONE as int, x) == x,
{
    assert(trunc_div(x * 65536, 65536) == x && trunc_div(65536 * x, 65536) == x)
        by (nonlinear_arith);
}

/// Scaling a value within the unit level by a gain gives no more than the
/// gain.
pub proof fn lemma_scale_bound(v: int, gain: int)
    requires
        -ONE <= v <= ONE,
    ensures
        crate::fixed::abs_int(scale(v, gain)) <= crate::fixed::abs_int(gain),
{
    let g = crate::fixed::abs_int(gain);
    lemma_signed_product_bound(v, gain, ONE as int, g);
    let x = v * gain;
    assert(ONE * g == 65536 * g);
    if x >= 0 {
        assert(x / 65536 <= g) by (nonlinear_arith)
            requires
                0 <= x <= 65536 * g,
        ;
    } else {
        assert((-x) / 65536 <= g) by (nonlinear_arith)
            requires
                0 <= -x <= 65536 * g,
        ;
    }
}

impl Resampler {
    /// The value for destination sample `j` of `n`, read from `from` at the
    /// position `j * from.len() / n`: the nearer of the two samples round it,
    /// or their weighted mean. The sample after the last one is the last one.
    pub open spec fn interpolate_spec(self, from: Seq<i32>, j: int, n: int) -> int {
        let m = from.len() as int;
        let q = (j * m) / n;
        let rem = (j * m) % n;
        let f0 = from[q] as int;
        let f1 = from[if q + 1 < m { q + 1 } else { m - 1 }] as int;
        match self {
            Resampler::Nearest => if 2 * rem >= n {
                f1
            } else {
                f0
            },
            Resampler::Linear => blend(f0, f1, rem, n),
        }
    }

    /// `dst` with the samples `lo..hi` raised by `from`, interpolated over
    /// them and scaled by `gain`. An empty `from` changes nothing.
    pub open spec fn mixed(self, from: Seq<i32>, dst: Seq<i32>, lo: int, hi: int, gain: int) -> Seq<
        i32,
    > {
        if from.len() == 0 {
            dst
        } else {
            Seq::new(
                dst.len(),
                |k: int|
                    if lo <= k < hi {
                        sat32(dst[k] + scale(self.interpolate_spec(from, k - lo, hi - lo), gain)) as i32
                    } else {
                        dst[k]
                    },
            )
        }
    }

    /// Over a destination as long as the source, every source sample is
    /// reproduced as it is.
    pub proof fn lemma_same_length_reproduces(self, from: Seq<i32>, j: int)
        requires
            0 <= j < from.len(),
        ensures
            self.interpolate_spec(from, j, from.len() as int) == from[j],
    {
        let m = from.len() as int;
        assert((j * m) / m == j && (j * m) % m == 0) by (nonlinear_arith)
            requires
                0 <= j < m,
        ;
        assert(blend(from[j] as int, from[if j + 1 < m { j + 1 } else { m - 1 }] as int, 0, m)
            == from[j]) by {
            let f0 = from[j] as int;
            assert(trunc_div(f0 * m, m) == f0) by (nonlinear_arith)
                requires
                    m > 0,
            ;
        }
    }

    /// Mixed at unit gain into a destination as long as the source, every
    /// source sample is added as it is.
    pub proof fn lemma_same_length_mix(self, from: Seq<i32>, dst: Seq<i32>, j: int)
        requires
            from.len() == dst.len(),
            0 <= j < from.len(),
        ensures
            self.mixed(from, dst, 0, dst.len() as int, ONE as int)[j] == sat32(dst[j] + from[j]),
    {
        self.lemma_same_length_reproduces(from, j);
        lemma_scale_by_one(from[j] as int);
    }

    /// A source that stays within the unit level is interpolated within it.
    pub proof fn lemma_interpolate_bound(self, from: Seq<i32>, j: int, n: int)
        requires
            0 <= j < n,
            from.len() > 0,
            forall|i: int| 0 <= i < from.len() ==> -ONE <= #[trigger] from[i] <= ONE,
        ensures
            -ONE <= self.interpolate_spec(from, j, n) <= ONE,
    {
        let m = from.len() as int;
        assert(0 <= (j * m) / n < m && 0 <= (j * m) % n < n) by (nonlinear_arith)
            requires
                0 <= j < n,
                0 < m,
        ;
        let q = (j * m) / n;
        let q1 = if q + 1 < m {
            q + 1
        } else {
            m - 1
        };
        lemma_blend_bound(from[q] as int, from[q1] as int, (j * m) % n, n, -ONE as int, ONE as int);
    }

    /// A mix of a source within the unit level moves no destination sample by
    /// more than the gain, and leaves the samples outside `lo..hi` alone.
    pub proof fn lemma_mixed_bound(
        self,
        from: Seq<i32>,
        dst: Seq<i32>,
        lo: int,
        hi: int,
        gain: int,
        k: int,
    )
        requires
            0 <= lo <= hi <= dst.len(),
            0 <= k < dst.len(),
            forall|i: int| 0 <= i < from.len() ==> -ONE <= #[trigger] from[i] <= ONE,
        ensures
            self.mixed(from, dst, lo, hi, gain).len() == dst.len(),
            !(lo <= k < hi) ==> self.mixed(from, dst, lo, hi, gain)[k] == dst[k],
            crate::fixed::abs_int(self.mixed(from, dst, lo, hi, gain)[k] - dst[k])
                <= crate::fixed::abs_int(gain),
    {
        if from.len() > 0 && lo <= k < hi {
            self.lemma_interpolate_bound(from, k - lo, hi - lo);
            lemma_scale_bound(self.interpolate_spec(from, k - lo, hi - lo), gain);
        }
    }

    /// The value for destination sample `j` of `n` from the samples `a..b`
    /// of `src`.
    pub fn interpolate(
        &self,
        src: &Vec<i32>,
        a: usize,
        b: usize,
        reversed: bool,
        j: usize,
        n: usize,
    ) -> (r: i32)
        requires
            a < b <= src.len(),
            j < n,
        ensures
            r == self.interpolate_spec(window(src@, a as int, b as int, reversed), j as int, n as int),
    {
        let m: usize = b - a;
        proof {
            lemma_product_bound(j as int, m as int, u64::MAX as int, u64::MAX as int);
            assert((j * m) / (n as int) < m && 0 <= (j * m) % (n as int) < n) by (nonlinear_arith)
                requires
                    0 <= j < n,
                    0 < m,
            ;
        }
        let p: u128 = (j as u128) * (m as u128);
        let q: usize = (p / (n as u128)) as usize;
        let rem: u128 = p % (n as u128);
        let q1: usize = if q + 1 < m {
            q + 1
        } else {
            m - 1
        };
        let f0: i32 = if reversed {
            src[b - 1 - q]
        } else {
            src[a + q]
        };
        let f1: i32 = if reversed {
            src[b - 1 - q1]
        } else {
            src[a + q1]
        };
        match self {
            Resampler::Nearest => if 2 * rem >= n as u128 {
                f1
            } else {
                f0
            },
            Resampler::Linear => {
                proof {
                    lemma_blend_bound(
                        f0 as int,
                        f1 as int,
                        rem as int,
                        n as int,
                        i32::MIN as int,
                        i32::MAX as int,
                    );
                    lemma_signed_product_bound(
                        f0 as int,
                        n - rem,
                        0x8000_0000,
                        0x1_0000_0000_0000_0000,
                    );
                    lemma_signed_product_bound(
                        f1 as int,
                        rem as int,
                        0x8000_0000,
                        0x1_0000_0000_0000_0000,
                    );
                }
                let sum: i128 = (f0 as i128) * ((n as u128 - rem) as i128) + (f1 as i128) * (
                rem as i128);
                clamp_i32(sum / (n as i128))
            },
        }
    }

    /// Adds the samples `a..b` of `src`, stretched over the samples `lo..hi`
    /// of `dst` and scaled by `gain`, to what `dst` holds there.
    pub fn resample_window(
        &self,
        src: &Vec<i32>,
        a: usize,
        b: usize,
        reversed: bool,
        dst: &mut Vec<i32>,
        lo: usize,
        hi: usize,
        gain: i32,
    )
        requires
            a <= b <= src.len(),
            lo <= hi <= old(dst).len(),
        ensures
            final(dst)@ == self.mixed(
                window(src@, a as int, b as int, reversed),
                old(dst)@,
                lo as int,
                hi as int,
                gain as int,
            ),
    {
        if a == b {
            return ;
        }
        let ghost from = window(src@, a as int, b as int, reversed);
        let ghost goal = self.mixed(from, old(dst)@, lo as int, hi as int, gain as int);
        let mut k: usize = lo;
        while k < hi
            invariant
                a < b <= src.len(),
                lo <= k <= hi <= dst.len(),
                dst@.len() == old(dst)@.len(),
                from == window(src@, a as int, b as int, reversed),
                goal == self.mixed(from, old(dst)@, lo as int, hi as int, gain as int),
                forall|i: int| 0 <= i < k ==> dst@[i] == goal[i],
                forall|i: int| k <= i < dst@.len() ==> dst@[i] == old(dst)@[i],
            decreases hi - k,
        {
            let v: i32 = self.interpolate(src, a, b, reversed, k - lo, hi - lo);
            proof {
                lemma_signed_product_bound(v as int, gain as int, 0x8000_0000, 0x8000_0000);
            }
            let add: i128 = ((v as i128) * (gain as i128)) / (ONE as i128);
            let cur: i32 = dst[k];
            dst.set(k, clamp_i32(cur as i128 + add));
            k = k + 1;
        }
        assert(dst@ =~= goal);
    }

    /// Adds `from`, stretched over the whole of `to` and scaled by `gain`, to
    /// what `to` holds.
    pub fn resample(&self, from: &Vec<i32>, to: &mut Vec<i32>, gain: i32)
        ensures
            final(to)@ == self.mixed(from@, old(to)@, 0, old(to)@.len() as int, gain as int),
    {
        let n: usize = to.len();
        assert(window(from@, 0, from@.len() as int, false) =~= from@);
        self.resample_window(from, 0, from.len(), false, to, 0, n, gain);
    }
}

} // verus!
