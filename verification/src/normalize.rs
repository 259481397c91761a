//! Conversion of raw capture samples into normalized mono fixed point.
//!
//! A raw sample becomes a fixed-point amplitude in `[-SCALE, SCALE]`:
//! signed 16-bit samples are scaled by `1/32768`, unsigned 16-bit
//! samples are centred on their midpoint first, both truncated toward
//! zero on the fixed-point grid. Interleaved multi-channel frames are
//! downmixed to mono by the arithmetic mean of their channel values.

use crate::tdiv;
use crate::SCALE;
use vstd::arithmetic::div_mod::lemma_fundamental_div_mod;
use vstd::arithmetic::mul::lemma_mul_inequality;
use vstd::prelude::*;

verus! {

/// Fixed-point value of a raw sample field centred on zero and scaled
/// by `1/32768`, truncated toward zero.
pub open spec fn norm_spec(c: int) -> int {
    tdiv(c * SCALE, 32768)
}

/// Sum of a sample sequence.
pub open spec fn sum_seq(s: Seq<i64>) -> int
    decreases s.len(),
{
    if s.len() == 0 {
        0
    } else {
        sum_seq(s.drop_last()) + s.last()
    }
}

/// The mono value of frame `j` in a `c`-channel interleaved sequence:
/// the arithmetic mean of its `c` channel values, truncated toward
/// zero.
pub open spec fn frame_mean(s: Seq<i64>, j: int, c: int) -> int {
    tdiv(sum_seq(s.subrange(j * c, j * c + c)), c)
}

/// Scale a zero-centred raw value in `[-32768, 32767]` to fixed point.
fn scale_raw(c: i64) -> (r: i64)
    requires
        -32768 <= c <= 32767,
    ensures
        r == norm_spec(c as int),
        -SCALE <= r <= SCALE,
{
    if c >= 0 {
        (c * SCALE) / 32768
    } else {
        -(((-c) * SCALE) / 32768)
    }
}

/// A signed 16-bit sample as a normalized fixed-point amplitude.
pub fn normalize_i16(s: i16) -> (r: i64)
    ensures
        r == norm_spec(s as int),
        -SCALE <= r <= SCALE,
{
    scale_raw(s as i64)
}

/// An unsigned 16-bit sample as a normalized fixed-point amplitude:
/// the midpoint 32768 maps to zero.
pub fn normalize_u16(s: u16) -> (r: i64)
    ensures
        r == norm_spec(s as int - 32768),
        -SCALE <= r <= SCALE,
{
    scale_raw((s as i64) - 32768)
}

/// Downmix an interleaved `channels`-channel sequence to mono: one
/// output sample per complete frame, each the arithmetic mean of the
/// frame's channel values.
pub fn downmix(samples: &Vec<i64>, channels: usize) -> (mono: Vec<i64>)
    requires
        1 <= channels,
        forall|i: int| 0 <= i < samples@.len() ==> -SCALE <= #[trigger] samples@[i] <= SCALE,
    ensures
        mono@.len() == samples@.len() as int / channels as int,
        forall|j: int|
            0 <= j < mono@.len() ==> #[trigger] mono@[j] == frame_mean(
                samples@,
                j,
                channels as int,
            ),
        forall|j: int| 0 <= j < mono@.len() ==> -SCALE <= #[trigger] mono@[j] <= SCALE,
{
    let len = samples.len();
    let frames = len / channels;
    proof {
        lemma_fundamental_div_mod(len as int, channels as int);
        vstd::arithmetic::div_mod::lemma_mod_bound(len as int, channels as int);
    }
    let mut mono: Vec<i64> = Vec::new();
    let mut j: usize = 0;
    while j < frames
        invariant
            1 <= channels,
            len == samples@.len(),
            frames == len as int / channels as int,
            (frames as int) * (channels as int) <= len as int,
            0 <= j <= frames,
            forall|i: int|
                0 <= i < samples@.len() ==> -SCALE <= #[trigger] samples@[i] <= SCALE,
            mono@.len() == j,
            forall|k: int|
                0 <= k < j ==> #[trigger] mono@[k] == frame_mean(samples@, k, channels as int),
            forall|k: int| 0 <= k < j ==> -SCALE <= #[trigger] mono@[k] <= SCALE,
        decreases frames - j,
    {
        proof {
            lemma_mul_inequality(j as int + 1, frames as int, channels as int);
            assert((j as int) * (channels as int) + (channels as int)
                == (j as int + 1) * (channels as int)) by (nonlinear_arith);
            assert((j as int) * (channels as int) >= 0) by (nonlinear_arith)
                requires
                    j as int >= 0,
                    channels as int >= 1,
            ;
        }
        let base = j * channels;
        let mut acc: i128 = 0;
        let mut k: usize = 0;
        proof {
            assert(samples@.subrange(base as int, base as int) =~= Seq::<i64>::empty());
        }
        while k < channels
            invariant
                1 <= channels,
                len == samples@.len(),
                0 <= k <= channels,
                base == (j as int) * (channels as int),
                base + channels <= len,
                forall|i: int|
                    0 <= i < samples@.len() ==> -SCALE <= #[trigger] samples@[i] <= SCALE,
                acc == sum_seq(samples@.subrange(base as int, base + k)),
                -(k as int) * (SCALE as int) <= acc <= (k as int) * (SCALE as int),
            decreases channels - k,
        {
            let s = samples[base + k];
            proof {
                assert(samples@.subrange(base as int, base + k + 1).drop_last()
                    =~= samples@.subrange(base as int, base + k));
                assert(samples@.subrange(base as int, base + k + 1).last()
                    == samples@[base + k]);
            }
            acc = acc + (s as i128);
            k = k + 1;
        }
        proof {
            let c = channels as int;
            let a = acc as int;
            vstd::arithmetic::div_mod::lemma_div_by_multiple(SCALE as int, c);
            if a >= 0 {
                vstd::arithmetic::div_mod::lemma_div_is_ordered(a, (SCALE as int) * c, c);
            } else {
                vstd::arithmetic::div_mod::lemma_div_is_ordered(-a, (SCALE as int) * c, c);
            }
        }
        let mean: i64 = if acc >= 0 {
            ((acc as u128) / (channels as u128)) as i64
        } else {
            -((((-acc) as u128) / (channels as u128)) as i64)
        };
        mono.push(mean);
        j = j + 1;
    }
    mono
}

} // verus!
