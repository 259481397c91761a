//! The per-window analysis result.

use vstd::prelude::*;

verus! {

/// One completed analysis: the dominant pitch of the window and its
/// loudness.
///
/// `dominant_frequency` is in millihertz and never negative; `0` means
/// "no reliable pitch" (the search band held no peak, the window was
/// below the silence threshold, or the interpolated vertex fell below
/// zero). `amplitude` is the window's root-mean-square amplitude
/// in fixed-point units: an RMS of 1.0 is `SCALE` units.
#[derive(Clone, Copy, Debug, PartialEq, Eq, Structural)]
pub struct FrequencyData {
    pub dominant_frequency: i64,
    pub amplitude: u64,
}

} // verus!
