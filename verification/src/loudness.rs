//! Loudness of an analysis window: root-mean-square amplitude.
//!
//! The RMS is computed on the raw (unwindowed) samples, independently of
//! the spectral path. In fixed point, a window whose samples are scaled
//! by `SCALE` has a mean square scaled by `SCALE * SCALE`, so the integer
//! square root of the mean square is again scaled by `SCALE`.

use crate::SCALE;
use vstd::prelude::*;

verus! {

/// Sum of the squares of the samples: the quantity under the RMS root.
pub open spec fn sum_squares(s: Seq<i64>) -> int
    decreases s.len(),
{
    if s.len() == 0 {
        0
    } else {
        sum_squares(s.drop_last()) + s.last() * s.last()
    }
}

/// The sum of squares is never negative.
pub proof fn lemma_sum_squares_nonneg(s: Seq<i64>)
    ensures
        sum_squares(s) >= 0,
    decreases s.len(),
{
    if s.len() > 0 {
        lemma_sum_squares_nonneg(s.drop_last());
        assert(s.last() * s.last() >= 0) by (nonlinear_arith);
    }
}

/// An all-zero window has a zero sum of squares, hence a zero RMS: the
/// loudness half of the silence law.
pub proof fn lemma_silence_rms(s: Seq<i64>)
    requires
        forall|i: int| 0 <= i < s.len() ==> #[trigger] s[i] == 0,
    ensures
        sum_squares(s) == 0,
    decreases s.len(),
{
    if s.len() > 0 {
        lemma_silence_rms(s.drop_last());
    }
}

/// Integer square root: the greatest `r` with `r * r <= x`.
pub fn isqrt(x: u64) -> (r: u64)
    ensures
        r * r <= x < (r + 1) * (r + 1),
{
    let mut lo: u64 = 0;
    let mut hi: u64 = 0x1_0000_0000;
    while lo + 1 < hi
        invariant
            lo < hi <= 0x1_0000_0000,
            lo * lo <= x,
            x < hi * hi,
        decreases hi - lo,
    {
        let mid = lo + (hi - lo) / 2;
        assert(mid * mid <= 0xFFFF_FFFFu64 * 0xFFFF_FFFFu64) by (nonlinear_arith)
            requires
                0 <= mid <= 0xFFFF_FFFFu64,
        ;
        if mid * mid <= x {
            lo = mid;
        } else {
            hi = mid;
        }
    }
    lo
}

/// Root-mean-square amplitude of a window of fixed-point samples.
///
/// The result is the integer square root of the mean of the squared
/// samples, in `SCALE` units: exactly the RMS of the window, rounded
/// down to the fixed-point grid. A silent (all-zero) window yields 0.
pub fn rms_amplitude(window: &Vec<i64>) -> (r: u64)
    requires
        window@.len() > 0,
        forall|i: int| 0 <= i < window@.len() ==> -SCALE <= #[trigger] window@[i] <= SCALE,
    ensures
        r * r <= sum_squares(window@) / (window@.len() as int) < (r + 1) * (r + 1),
        r <= SCALE as u64,
        sum_squares(window@) == 0 ==> r == 0,
{
    let n = window.len();
    let mut acc: u128 = 0;
    let mut i: usize = 0;
    while i < n
        invariant
            0 < n == window@.len(),
            0 <= i <= n,
            forall|k: int| 0 <= k < n ==> -SCALE <= #[trigger] window@[k] <= SCALE,
            acc == sum_squares(window@.take(i as int)),
            acc <= (i as int) * (SCALE as int) * (SCALE as int),
        decreases n - i,
    {
        let s = window[i];
        assert(0 <= s * s <= SCALE as int * SCALE) by (nonlinear_arith)
            requires
                -SCALE <= s <= SCALE,
        ;
        let sq: i64 = s * s;
        proof {
            assert(window@.take(i + 1).drop_last() =~= window@.take(i as int));
            assert(window@.take(i + 1).last() == window@[i as int]);
            assert(sum_squares(window@.take(i + 1))
                == sum_squares(window@.take(i as int)) + s * s);
            assert((i as int) * (SCALE as int) * (SCALE as int) + (SCALE as int) * (SCALE as int)
                == (i + 1) * (SCALE as int) * (SCALE as int)) by (nonlinear_arith);
            assert((i + 1) * (SCALE as int) * (SCALE as int) <= u128::MAX) by (nonlinear_arith)
                requires
                    0 <= i as int + 1 <= 0x1_0000_0000_0000_0000int,
            ;
        }
        acc = acc + (sq as u128);
        i = i + 1;
    }
    proof {
        assert(window@.take(n as int) =~= window@);
        lemma_sum_squares_nonneg(window@);
        assert(acc / (n as u128) <= (SCALE as int) * (SCALE as int)) by (nonlinear_arith)
            requires
                n > 0,
                0 <= acc <= (n as int) * (SCALE as int) * (SCALE as int),
        ;
    }
    let mean: u64 = (acc / (n as u128)) as u64;
    let r = isqrt(mean);
    proof {
        assert((SCALE as u64) * (SCALE as u64) < ((SCALE as u64) + 1) * ((SCALE as u64) + 1))
            by (nonlinear_arith);
        assert(r <= SCALE as u64) by (nonlinear_arith)
            requires
                r * r <= (SCALE as int) * (SCALE as int),
        ;
        if sum_squares(window@) == 0 {
            assert(r == 0) by (nonlinear_arith)
                requires
                    r * r <= 0int,
            ;
        }
    }
    r
}

} // verus!
