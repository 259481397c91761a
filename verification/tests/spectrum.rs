use rustfft::num_complex::Complex;
use rustfft::FftPlanner;
use voice_pitch::engine::analyze;
use voice_pitch::pitch::{band_high, band_low, dominant_peak, estimate_pitch, refine_bin};
use voice_pitch::ring::RingAggregator;

const SR: u32 = 44100;
const N: usize = 1024;

/// Hann-window the samples, transform them, and return the magnitude
/// spectrum of the non-redundant half in fixed-point micro-units.
fn magnitude_spectrum(window: &[i64]) -> Vec<u64> {
    let n = window.len();
    let mut buf: Vec<Complex<f64>> = window
        .iter()
        .enumerate()
        .map(|(i, &s)| {
            let hann = 0.5
                * (1.0 - (2.0 * std::f64::consts::PI * i as f64 / (n - 1) as f64).cos());
            Complex::new(s as f64 / 1e6 * hann, 0.0)
        })
        .collect();
    FftPlanner::new().plan_fft_forward(n).process(&mut buf);
    buf[..n / 2].iter().map(|c| (c.norm() * 1e6) as u64).collect()
}

#[test]
fn band_covers_bins_one_to_ten() {
    assert_eq!(band_low(N, SR), 1);
    assert_eq!(band_high(N, SR, N / 2), 10);
}

#[test]
fn out_of_band_peak_is_never_reported() {
    // A strong synthetic peak at bin 12, outside the 1..=10 band.
    let mut spectrum = vec![0u64; 512];
    spectrum[12] = 5_000_000;
    assert_eq!(estimate_pitch(&spectrum, SR, N), 0);
    // And at bin 0, below the band.
    let mut spectrum = vec![0u64; 512];
    spectrum[0] = 5_000_000;
    assert_eq!(estimate_pitch(&spectrum, SR, N), 0);
}

#[test]
fn in_band_peak_at_bin_center() {
    // An isolated peak at bin 5 with zero neighbours is symmetric, so
    // the refined frequency is the exact bin centre:
    // 5 * 44100 * 1000 / 1024 millihertz, truncated.
    let mut spectrum = vec![0u64; 512];
    spectrum[5] = 1_000_000;
    assert_eq!(estimate_pitch(&spectrum, SR, N), 215_332);
}

#[test]
fn peak_search_first_of_equals_wins() {
    let mut spectrum = vec![0u64; 512];
    spectrum[3] = 700_000;
    spectrum[7] = 700_000;
    let (bin, mag) = dominant_peak(&spectrum, 1, 10);
    assert_eq!(bin, 3);
    assert_eq!(mag, 700_000);
}

#[test]
fn silence_gate_suppresses_weak_peaks() {
    // A clear but weak peak inside the band, below 0.001 of full scale.
    let mut spectrum = vec![0u64; 512];
    spectrum[6] = 900;
    assert_eq!(estimate_pitch(&spectrum, SR, N), 0);
    // Exactly at the threshold: still suppressed (the comparison is strict).
    spectrum[6] = 1_000;
    assert_eq!(estimate_pitch(&spectrum, SR, N), 0);
    // Just above the threshold: reported.
    spectrum[6] = 1_001;
    assert_ne!(estimate_pitch(&spectrum, SR, N), 0);
}

#[test]
fn flat_parabola_keeps_bin_center() {
    // y1 - 2*y2 + y3 == 0: zero offset, exact bin-centre frequency.
    assert_eq!(refine_bin(3_000_000, 2_000_000, 1_000_000, 1, SR, N), 43_066);
    // The same shape through the full estimator: the peak sits at
    // bin 1 (its larger neighbour, bin 0, is outside the band).
    let mut spectrum = vec![0u64; 512];
    spectrum[0] = 3_000_000;
    spectrum[1] = 2_000_000;
    spectrum[2] = 1_000_000;
    assert_eq!(estimate_pitch(&spectrum, SR, N), 43_066);
}

#[test]
fn below_band_vertex_reports_no_pitch() {
    // A below-band neighbour (bin 0) dominating the band peak (bin 1)
    // pulls the parabolic vertex below zero frequency: offset
    // (y1 - y3) / (2*(y1 - 2*y2 + y3)) = -1.5 bins from bin 1. The
    // estimator never reports a negative frequency; it reports 0,
    // "no reliable pitch".
    let mut spectrum = vec![0u64; 512];
    spectrum[0] = 6_000;
    spectrum[1] = 4_000;
    assert_eq!(estimate_pitch(&spectrum, SR, N), 0);
}

#[test]
fn interpolation_shifts_toward_larger_neighbour() {
    // Peak at bin 5, heavier on the upper side: the refined frequency
    // lies strictly between the centres of bins 5 and 6.
    let mut spectrum = vec![0u64; 512];
    spectrum[4] = 100_000;
    spectrum[5] = 1_000_000;
    spectrum[6] = 500_000;
    let f = estimate_pitch(&spectrum, SR, N);
    let center5 = 5 * 44_100_000i64 / 1024;
    let center6 = 6 * 44_100_000i64 / 1024;
    assert!(f > center5 && f < center6, "{f}");
}

#[test]
fn pure_sinusoid_end_to_end() {
    // A 110 Hz unit sinusoid at 44100 Hz: RMS near 0.707 of full
    // scale, dominant frequency within one bin (about 43.07 Hz) of
    // 110 Hz, inside the 50-450 Hz band so not gated away.
    let samples: Vec<i64> = (0..N)
        .map(|i| {
            let t = i as f64 / SR as f64;
            ((2.0 * std::f64::consts::PI * 110.0 * t).sin() * 1e6) as i64
        })
        .collect();
    let mut agg = RingAggregator::new(N);
    let window = agg.push(&samples).expect("a full window must complete");
    assert_eq!(window, samples);
    let spectrum = magnitude_spectrum(&window);
    let result = analyze(&window, &spectrum, SR);
    let amp = result.amplitude as f64 / 1e6;
    assert!((amp - 0.7071).abs() < 0.01, "amplitude {amp}");
    let freq_hz = result.dominant_frequency as f64 / 1000.0;
    assert!((freq_hz - 110.0).abs() <= 43.07, "frequency {freq_hz}");
    assert!(freq_hz >= 50.0 && freq_hz <= 450.0);
}
