//! Streaming voice-pitch analysis core.
//!
//! The engine aggregates normalized audio samples into fixed-size analysis
//! windows, searches a band-limited magnitude spectrum for the dominant
//! peak with sub-bin parabolic interpolation, estimates loudness as the
//! window's root-mean-square amplitude, and hands results to a consumer
//! through a single-slot, latest-wins mailbox.
//!
//! All quantities are fixed-point integers: a sample amplitude of 1.0 is
//! `SCALE` units, spectrum magnitudes use the same unit, and frequencies
//! are reported in millihertz. The windowed Fourier transform itself is
//! floating-point work done by the caller; this crate states and proves
//! everything that happens before and after it.

use vstd::prelude::*;

pub mod display;
pub mod engine;
pub mod loudness;
pub mod mailbox;
pub mod normalize;
pub mod pitch;
pub mod result;
pub mod ring;

verus! {

/// Fixed-point unit: the integer value standing for an amplitude of 1.0.
pub const SCALE: i64 = 1_000_000;

/// Magnitude of an integer.
pub open spec fn abs_int(a: int) -> int {
    if a >= 0 {
        a
    } else {
        -a
    }
}

/// Quotient truncated toward zero, for a nonzero divisor: the rounding
/// the fixed-point divisions of this crate use.
pub open spec fn tdiv(a: int, b: int) -> int {
    let q = abs_int(a) / abs_int(b);
    if (a >= 0) == (b >= 0) {
        q
    } else {
        -q
    }
}

} // verus!
