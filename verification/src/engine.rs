//! Packaging of one completed window into a published result.
//!
//! The caller computes the windowed Fourier magnitude spectrum of the
//! snapshot (floating-point work outside this crate) and hands both the
//! raw window and the fixed-point spectrum here; everything from the
//! spectrum and the raw samples to the published numbers is exact.

use crate::loudness::{lemma_silence_rms, rms_amplitude, sum_squares};
use crate::pitch::{
    band_high_spec, band_low_spec, estimate_pitch, lemma_silence_pitch, pitch_mhz_spec,
    MAG_LIMIT, N_LIMIT, SILENCE_EPSILON, SR_LIMIT,
};
use crate::result::FrequencyData;
use crate::SCALE;
use vstd::prelude::*;

verus! {

/// Analyze one completed window: the dominant pitch of its magnitude
/// spectrum and the RMS loudness of its raw samples, packaged as the
/// result a consumer polls.
pub fn analyze(window: &Vec<i64>, spectrum: &Vec<u64>, sr: u32) -> (r: FrequencyData)
    requires
        1 <= spectrum@.len() <= window@.len() <= N_LIMIT,
        1 <= sr <= SR_LIMIT,
        forall|i: int| 0 <= i < window@.len() ==> -SCALE <= #[trigger] window@[i] <= SCALE,
        forall|i: int| 0 <= i < spectrum@.len() ==> #[trigger] spectrum@[i] <= MAG_LIMIT,
    ensures
        r.dominant_frequency == pitch_mhz_spec(
            spectrum@,
            sr as int,
            window@.len() as int,
        ),
        r.dominant_frequency >= 0,
        r.amplitude * r.amplitude <= sum_squares(window@) / (window@.len() as int) < (
        r.amplitude + 1) * (r.amplitude + 1),
        r.amplitude <= SCALE as u64,
        sum_squares(window@) == 0 ==> r.amplitude == 0,
        (forall|i: int|
            band_low_spec(window@.len() as int, sr as int) <= i <= band_high_spec(
                window@.len() as int,
                sr as int,
                spectrum@.len() as int,
            ) ==> #[trigger] spectrum@[i] <= SILENCE_EPSILON) ==> r.dominant_frequency == 0,
{
    let n = window.len();
    let dominant_frequency = estimate_pitch(spectrum, sr, n);
    let amplitude = rms_amplitude(window);
    FrequencyData { dominant_frequency, amplitude }
}

/// Silence law: an all-zero window has a zero sum of squares — so its
/// RMS amplitude is 0 — and an all-zero spectrum reports no pitch, so
/// a silent window analyzes to `amplitude == 0` and
/// `dominant_frequency == 0` at every window size.
pub proof fn lemma_silence(window: Seq<i64>, spectrum: Seq<u64>, sr: int, n: int)
    requires
        1 <= sr,
        1 <= n,
        forall|i: int| 0 <= i < window.len() ==> #[trigger] window[i] == 0,
        forall|i: int| 0 <= i < spectrum.len() ==> #[trigger] spectrum[i] == 0,
    ensures
        sum_squares(window) == 0,
        pitch_mhz_spec(spectrum, sr, n) == 0,
{
    lemma_silence_rms(window);
    lemma_silence_pitch(spectrum, sr, n);
}

} // verus!
