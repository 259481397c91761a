//! Dominant-pitch estimation over a magnitude spectrum.
//!
//! The estimator restricts the search to the human-voice fundamental
//! band, scans it for the strictly greatest magnitude (ties keep the
//! lowest bin), refines an interior peak by parabolic interpolation of
//! its two neighbours, and gates near-silent windows to a zero pitch.
//!
//! Magnitudes are fixed-point integers in `SCALE` units; frequencies are
//! exact integer millihertz. The interpolated frequency is a rational
//! number; it is reported truncated toward zero on the millihertz grid,
//! saturated at the `i64` range.

use crate::abs_int;
use crate::tdiv;
use vstd::prelude::*;

verus! {

/// Lower edge of the pitch search band, in hertz.
pub const BAND_LOW_HZ: u64 = 50;

/// Upper edge of the pitch search band, in hertz.
pub const BAND_HIGH_HZ: u64 = 450;

/// Silence gate in `SCALE` units: a peak at or below this magnitude
/// (0.001 of full scale) reports no pitch.
pub const SILENCE_EPSILON: u64 = 1_000;

/// Largest spectrum magnitude the estimator accepts; a machine limit
/// that keeps the interpolation arithmetic exact in 128 bits.
pub const MAG_LIMIT: u64 = 0x1_0000_0000;

/// Largest window length accepted (machine limit).
pub const N_LIMIT: usize = 0x10_0000;

/// Largest sample rate accepted, in hertz (machine limit).
pub const SR_LIMIT: u32 = 0x10_0000;

/// First bin of the search band: `floor(50 * n / sr)`.
pub open spec fn band_low_spec(n: int, sr: int) -> int {
    50 * n / sr
}

/// Last bin of the search band: `floor(450 * n / sr)`, capped at the
/// last spectrum bin.
pub open spec fn band_high_spec(n: int, sr: int, len: int) -> int {
    let hi = 450 * n / sr;
    if hi <= len - 1 {
        hi
    } else {
        len - 1
    }
}

/// The peak scan, bin by bin from `i` to `hi`: keeps the running best
/// `(bin, mag)` and replaces it only on a strictly greater magnitude,
/// so the first of equal peaks wins. Started with the sentinel `(0, 0)`,
/// an all-zero band leaves the sentinel in place.
pub open spec fn scan_peak(s: Seq<u64>, i: int, hi: int, bin: int, mag: u64) -> (int, u64)
    decreases hi + 1 - i,
{
    if i > hi {
        (bin, mag)
    } else if s[i] > mag {
        scan_peak(s, i + 1, hi, i, s[i])
    } else {
        scan_peak(s, i + 1, hi, bin, mag)
    }
}

/// A refined frequency clipped to the reportable range: a vertex that
/// falls below zero is no reliable pitch and reports 0, and the top is
/// saturated at the `i64` range.
pub open spec fn clamp_freq(x: int) -> int {
    if x < 0 {
        0
    } else if x > i64::MAX {
        i64::MAX as int
    } else {
        x
    }
}

/// Centre frequency of bin `b` in millihertz: `b * sr / n` hertz.
pub open spec fn bin_center_mhz(b: int, sr: int, n: int) -> int {
    b * sr * 1000 / n
}

/// Parabolic refinement of an interior peak bin `b` with neighbour
/// magnitudes `y1, y2, y3`: the parabola through the three points has
/// its vertex at offset `(y1 - y3) / (2*(y1 - 2*y2 + y3))` bins from
/// `b`, and the refined frequency is `(b + offset) * sr / n`. A flat
/// shape (`y1 - 2*y2 + y3 == 0`) keeps the exact bin centre. The
/// offset is unbounded when a neighbour outside the search band
/// dominates the peak; a vertex below zero frequency is never a pitch,
/// so the result is clamped to stay nonnegative.
pub open spec fn refined_mhz(y1: u64, y2: u64, y3: u64, b: int, sr: int, n: int) -> int {
    let den = 2 * (y1 + y3 - 2 * y2);
    if den == 0 {
        bin_center_mhz(b, sr, n)
    } else {
        clamp_freq(tdiv((b * den + (y1 - y3)) * sr * 1000, den * n))
    }
}

/// The dominant pitch of a magnitude spectrum, in millihertz: the
/// refined frequency of the band-limited peak, or 0 when the peak is at
/// or below the silence gate.
pub open spec fn pitch_mhz_spec(s: Seq<u64>, sr: int, n: int) -> int {
    let lo = band_low_spec(n, sr);
    let hi = band_high_spec(n, sr, s.len() as int);
    let p = scan_peak(s, lo, hi, 0, 0);
    if p.1 <= SILENCE_EPSILON {
        0
    } else if 0 < p.0 < s.len() - 1 {
        refined_mhz(s[p.0 - 1], s[p.0], s[p.0 + 1], p.0, sr, n)
    } else {
        bin_center_mhz(p.0, sr, n)
    }
}

/// First bin of the search band.
pub fn band_low(n: usize, sr: u32) -> (lo: usize)
    requires
        1 <= sr,
        n <= N_LIMIT,
    ensures
        lo == band_low_spec(n as int, sr as int),
{
    ((50u64 * (n as u64)) / (sr as u64)) as usize
}

/// Last bin of the search band, capped at the last spectrum bin.
pub fn band_high(n: usize, sr: u32, len: usize) -> (hi: usize)
    requires
        1 <= sr,
        n <= N_LIMIT,
        1 <= len,
    ensures
        hi == band_high_spec(n as int, sr as int, len as int),
{
    let raw = ((450u64 * (n as u64)) / (sr as u64)) as usize;
    if raw <= len - 1 {
        raw
    } else {
        len - 1
    }
}

/// Scan bins `lo ..= hi` for the strictly greatest magnitude, first of
/// equals winning; `(0, 0)` when the band is empty or all-zero.
pub fn dominant_peak(spectrum: &Vec<u64>, lo: usize, hi: usize) -> (r: (usize, u64))
    requires
        lo > hi || hi < spectrum@.len(),
    ensures
        ({
            let p = scan_peak(spectrum@, lo as int, hi as int, 0, 0);
            r.0 == p.0 && r.1 == p.1
        }),
{
    let len = spectrum.len();
    let mut bin: usize = 0;
    let mut mag: u64 = 0;
    if lo <= hi {
        let mut i = lo;
        while i <= hi
            invariant
                lo <= i <= hi + 1,
                hi < len == spectrum@.len(),
                bin <= hi,
                scan_peak(spectrum@, i as int, hi as int, bin as int, mag)
                    == scan_peak(spectrum@, lo as int, hi as int, 0, 0),
            decreases hi + 1 - i,
        {
            if spectrum[i] > mag {
                bin = i;
                mag = spectrum[i];
            }
            i = i + 1;
        }
    }
    (bin, mag)
}

/// Every outcome of the scan: the sentinel `(0, 0)` untouched, or a bin
/// inside the scanned range holding its own magnitude; nothing scanned
/// exceeds the result, and everything scanned before the winning bin is
/// strictly below it (first of equals wins).
pub proof fn lemma_scan_peak_props(s: Seq<u64>, i: int, hi: int, bin: int, mag: u64)
    requires
        0 <= i,
        hi < s.len(),
        (bin == 0 && mag == 0) || bin < i,
    ensures
        ({
            let p = scan_peak(s, i, hi, bin, mag);
            &&& p.1 >= mag
            &&& (p == (bin, mag) || (i <= p.0 <= hi && s[p.0] == p.1 && p.1 > mag))
            &&& (forall|k: int| i <= k <= hi ==> #[trigger] s[k] <= p.1)
            &&& (forall|k: int| i <= k <= hi && k < p.0 ==> #[trigger] s[k] < p.1)
        }),
    decreases hi + 1 - i,
{
    if i > hi {
    } else if s[i] > mag {
        lemma_scan_peak_props(s, i + 1, hi, i, s[i]);
    } else {
        lemma_scan_peak_props(s, i + 1, hi, bin, mag);
    }
}

/// Band restriction law: a peak scan started on the sentinel either
/// reports a bin inside the band, holding the band's greatest
/// magnitude, or reports the sentinel `(0, 0)` because nothing in the
/// band rose above zero. A bin outside `lo ..= hi` is never reported.
pub proof fn lemma_peak_in_band(s: Seq<u64>, lo: int, hi: int)
    requires
        0 <= lo,
        hi < s.len(),
    ensures
        ({
            let p = scan_peak(s, lo, hi, 0, 0);
            &&& ((p.0 == 0 && p.1 == 0) || (lo <= p.0 <= hi && s[p.0] == p.1 && p.1 > 0))
            &&& (forall|k: int| lo <= k <= hi ==> #[trigger] s[k] <= p.1)
        }),
{
    lemma_scan_peak_props(s, lo, hi, 0, 0);
}

/// Silence law for the pitch path: a spectrum that nowhere in the
/// search band rises above `SILENCE_EPSILON` — an all-zero one, or one whose
/// clear but weak peak stays at or below 0.001 of full scale — reports
/// no pitch at all.
pub proof fn lemma_silence_pitch(s: Seq<u64>, sr: int, n: int)
    requires
        1 <= sr,
        1 <= n,
        forall|i: int| 0 <= i < s.len() ==> #[trigger] s[i] <= SILENCE_EPSILON,
    ensures
        pitch_mhz_spec(s, sr, n) == 0,
{
    let lo = band_low_spec(n, sr);
    let hi = band_high_spec(n, sr, s.len() as int);
    if lo <= hi {
        vstd::arithmetic::div_mod::lemma_div_pos_is_pos(50 * n, sr);
        lemma_scan_peak_props(s, lo, hi, 0, 0);
    } else {
        assert(scan_peak(s, lo, hi, 0, 0) == (0int, 0u64));
    }
}

/// Interpolation degeneracy law: a flat local spectrum shape
/// (`y1 - 2*y2 + y3 == 0`) refines to the exact bin-centre frequency,
/// with zero offset.
pub proof fn lemma_flat_interpolation(y1: u64, y2: u64, y3: u64, b: int, sr: int, n: int)
    requires
        y1 + y3 == 2 * y2,
    ensures
        refined_mhz(y1, y2, y3, b, sr, n) == bin_center_mhz(b, sr, n),
{
}

/// Centre frequency of bin `b` in millihertz.
pub fn bin_center(b: usize, sr: u32, n: usize) -> (f: i64)
    requires
        1 <= n <= N_LIMIT,
        1 <= sr <= SR_LIMIT,
        b < n,
    ensures
        f == bin_center_mhz(b as int, sr as int, n as int),
        f >= 0,
{
    proof {
        assert((b as int) * (sr as int) <= (N_LIMIT as int) * (SR_LIMIT as int)) by (nonlinear_arith)
            requires
                0 <= b as int <= N_LIMIT as int,
                0 <= sr as int <= SR_LIMIT as int,
        ;
    }
    let num: u64 = (b as u64) * (sr as u64) * 1000;
    proof {
        assert(num / (n as u64) <= num) by (nonlinear_arith)
            requires
                n as u64 >= 1,
                num >= 0,
        ;
    }
    (num / (n as u64)) as i64
}

/// Parabolic refinement of peak bin `b` from its own magnitude `y2` and
/// its neighbours `y1` (below) and `y3` (above).
pub fn refine_bin(y1: u64, y2: u64, y3: u64, b: usize, sr: u32, n: usize) -> (f: i64)
    requires
        1 <= n <= N_LIMIT,
        1 <= sr <= SR_LIMIT,
        b < n,
        y1 <= MAG_LIMIT,
        y2 <= MAG_LIMIT,
        y3 <= MAG_LIMIT,
    ensures
        f == refined_mhz(y1, y2, y3, b as int, sr as int, n as int),
        f >= 0,
{
    let den: i128 = 2 * ((y1 as i128) + (y3 as i128) - 2 * (y2 as i128));
    if den == 0 {
        bin_center(b, sr, n)
    } else {
        proof {
            assert((b as int) * den <= (N_LIMIT as int) * abs_int(den as int)
                && (b as int) * den >= -((N_LIMIT as int) * abs_int(den as int))
                && abs_int(den as int) <= 4 * (MAG_LIMIT as int)) by (nonlinear_arith)
                requires
                    0 <= b as int <= N_LIMIT as int,
                    abs_int(den as int) <= 4 * (MAG_LIMIT as int),
                    den == 2 * ((y1 as int) + (y3 as int) - 2 * (y2 as int)),
                    0 <= y1 <= MAG_LIMIT,
                    0 <= y2 <= MAG_LIMIT,
                    0 <= y3 <= MAG_LIMIT,
            ;
        }
        let core: i128 = (b as i128) * den + ((y1 as i128) - (y3 as i128));
        proof {
            assert(core * (sr as int) <= 0x100_0000_0000_0000_0000_0000i128
                && core * (sr as int) >= -0x100_0000_0000_0000_0000_0000i128) by (nonlinear_arith)
                requires
                    -0x80_0000_0000_0000i128 <= core <= 0x80_0000_0000_0000i128,
                    0 <= sr as int <= SR_LIMIT as int,
            ;
        }
        let num: i128 = core * (sr as i128) * 1000;
        proof {
            assert(den * (n as int) <= 0x4_0000_0000_0000_0000i128
                && den * (n as int) >= -0x4_0000_0000_0000_0000i128
                && den * (n as int) != 0) by (nonlinear_arith)
                requires
                    den != 0,
                    -0x4_0000_0001i128 * 4 <= den <= 0x4_0000_0001i128 * 4,
                    1 <= n as int <= N_LIMIT as int,
            ;
        }
        let dfull: i128 = den * (n as i128);
        let na: u128 = if num >= 0 {
            num as u128
        } else {
            (-num) as u128
        };
        let da: u128 = if dfull >= 0 {
            dfull as u128
        } else {
            (-dfull) as u128
        };
        let q: u128 = na / da;
        let same_sign = (num >= 0) == (dfull >= 0);
        if same_sign {
            if q > (i64::MAX as u128) {
                i64::MAX
            } else {
                q as i64
            }
        } else {
            // The vertex sits below zero frequency: no reliable pitch.
            0
        }
    }
}

/// The dominant pitch of a magnitude spectrum, in millihertz.
///
/// Restricts the search to the 50–450 Hz band (capped at the spectrum's
/// end), takes the first strictly greatest magnitude there, refines an
/// interior peak bin by parabolic interpolation, and reports 0 when the
/// peak magnitude does not rise above the silence gate.
pub fn estimate_pitch(spectrum: &Vec<u64>, sr: u32, n: usize) -> (f: i64)
    requires
        1 <= spectrum@.len() <= n,
        1 <= n <= N_LIMIT,
        1 <= sr <= SR_LIMIT,
        forall|i: int| 0 <= i < spectrum@.len() ==> #[trigger] spectrum@[i] <= MAG_LIMIT,
    ensures
        f == pitch_mhz_spec(spectrum@, sr as int, n as int),
        f >= 0,
        (forall|i: int|
            band_low_spec(n as int, sr as int) <= i
                <= band_high_spec(n as int, sr as int, spectrum@.len() as int)
                ==> #[trigger] spectrum@[i] <= SILENCE_EPSILON) ==> f == 0,
{
    let len = spectrum.len();
    let lo = band_low(n, sr);
    let hi = band_high(n, sr, len);
    let (bin, mag) = dominant_peak(spectrum, lo, hi);
    proof {
        if lo as int <= hi as int {
            lemma_peak_in_band(spectrum@, lo as int, hi as int);
        }
    }
    let freq: i64 = if bin > 0 && bin < len - 1 {
        refine_bin(
            spectrum[bin - 1],
            spectrum[bin],
            spectrum[bin + 1],
            bin,
            sr,
            n,
        )
    } else {
        bin_center(bin, sr, n)
    };
    if mag > SILENCE_EPSILON {
        freq
    } else {
        0
    }
}

} // verus!
