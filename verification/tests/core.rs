use voice_pitch::display::{filter_display, nearest_note, push_history};
use voice_pitch::engine::analyze;
use voice_pitch::loudness::{isqrt, rms_amplitude};
use voice_pitch::mailbox::ResultMailbox;
use voice_pitch::normalize::{downmix, normalize_i16, normalize_u16};
use voice_pitch::result::FrequencyData;
use voice_pitch::ring::RingAggregator;

#[test]
fn silence_zero_window() {
    for n in [1usize, 16, 1024] {
        let window = vec![0i64; n];
        assert_eq!(rms_amplitude(&window), 0);
    }
    let window = vec![0i64; 1024];
    let spectrum = vec![0u64; 512];
    let r = analyze(&window, &spectrum, 44100);
    assert_eq!(r.amplitude, 0);
    assert_eq!(r.dominant_frequency, 0);
}

#[test]
fn isqrt_exact_values() {
    assert_eq!(isqrt(0), 0);
    assert_eq!(isqrt(1), 1);
    assert_eq!(isqrt(15), 3);
    assert_eq!(isqrt(16), 4);
    assert_eq!(isqrt(1_000_000_000_000), 1_000_000);
    assert_eq!(isqrt(u64::MAX), 4_294_967_295);
}

#[test]
fn rms_full_scale_window() {
    // Every sample at full scale: RMS is exactly 1.0.
    let window = vec![1_000_000i64; 64];
    assert_eq!(rms_amplitude(&window), 1_000_000);
}

#[test]
fn rms_exact_mixed_window() {
    // Squares: 0.36 + 0.64 of full scale; mean 0.5; sqrt(0.5) = 0.707106...
    let window = vec![600_000i64, -800_000];
    assert_eq!(rms_amplitude(&window), 707_106);
    // RMS matches sqrt(mean(sample^2)) computed in floating point.
    let expected = ((0.6f64 * 0.6 + 0.8 * 0.8) / 2.0).sqrt();
    let got = rms_amplitude(&window) as f64 / 1e6;
    assert!((got - expected).abs() < 1e-5);
}

#[test]
fn downmix_stereo_mean() {
    let samples = vec![100i64, 200, 300, -100];
    let mono = downmix(&samples, 2);
    assert_eq!(mono, vec![150, 100]);
}

#[test]
fn downmix_mono_passthrough() {
    let samples = vec![5i64, -7, 9];
    let mono = downmix(&samples, 1);
    assert_eq!(mono, samples);
}

#[test]
fn downmix_truncates_toward_zero() {
    let samples = vec![1i64, 1, 0, -2, -2, -1];
    let mono = downmix(&samples, 3);
    assert_eq!(mono, vec![0, -1]);
}

#[test]
fn downmix_many_channels() {
    // A 4-channel frame: mean of the channel values, for C >= 1.
    let samples = vec![1_000_000i64, 0, -1_000_000, 500_000];
    let mono = downmix(&samples, 4);
    assert_eq!(mono, vec![125_000]);
}

#[test]
fn normalize_sixteen_bit_samples() {
    assert_eq!(normalize_i16(0), 0);
    assert_eq!(normalize_i16(16384), 500_000);
    assert_eq!(normalize_i16(-16384), -500_000);
    assert_eq!(normalize_i16(i16::MAX), 999_969);
    assert_eq!(normalize_i16(i16::MIN), -1_000_000);
    assert_eq!(normalize_u16(32768), 0);
    assert_eq!(normalize_u16(0), -1_000_000);
    assert_eq!(normalize_u16(u16::MAX), 999_969);
    assert_eq!(normalize_u16(49152), 500_000);
}

#[test]
fn cadence_one_call_of_n() {
    let mut agg = RingAggregator::new(8);
    let chunk: Vec<i64> = (1..=8).collect();
    let snap = agg.push(&chunk);
    assert_eq!(snap, Some(chunk));
}

#[test]
fn cadence_n_calls_of_one() {
    let mut agg = RingAggregator::new(8);
    let mut reports = 0;
    let mut last = None;
    for v in 1i64..=8 {
        if let Some(s) = agg.push(&vec![v]) {
            reports += 1;
            last = Some(s);
        }
    }
    assert_eq!(reports, 1);
    assert_eq!(last, Some((1..=8).collect::<Vec<i64>>()));
}

#[test]
fn cadence_multiple_windows_single_call() {
    // Three full windows in one call: one report, of the last window.
    let mut agg = RingAggregator::new(8);
    let chunk: Vec<i64> = (1..=24).collect();
    let snap = agg.push(&chunk);
    assert_eq!(snap, Some((17..=24).collect::<Vec<i64>>()));
}

#[test]
fn cadence_split_calls() {
    let mut agg = RingAggregator::new(8);
    let first: Vec<i64> = (1..=5).collect();
    let second: Vec<i64> = (6..=10).collect();
    assert_eq!(agg.push(&first), None);
    // The window completes on the eighth sample of the stream.
    assert_eq!(agg.push(&second), Some((1..=8).collect::<Vec<i64>>()));
}

#[test]
fn ring_keeps_most_recent_window() {
    let mut agg = RingAggregator::new(4);
    assert_eq!(agg.push(&vec![1, 2, 3, 4]), Some(vec![1, 2, 3, 4]));
    assert_eq!(agg.push(&vec![5, 6]), None);
    // Next completion: the four most recent samples, oldest first.
    assert_eq!(agg.push(&vec![7, 8]), Some(vec![5, 6, 7, 8]));
}

#[test]
fn mailbox_latest_wins() {
    let a = FrequencyData { dominant_frequency: 110_000, amplitude: 500_000 };
    let b = FrequencyData { dominant_frequency: 220_000, amplitude: 250_000 };
    let mut m = ResultMailbox::new();
    assert_eq!(m.poll(), None);
    m.publish(a);
    m.publish(b);
    assert_eq!(m.poll(), Some(b));
    // Polling does not clear the slot.
    assert_eq!(m.poll(), Some(b));
}

#[test]
fn nearest_note_picks_closest() {
    // 110 Hz is A2, the sixth entry of the table.
    assert_eq!(nearest_note(110_000), Some(5));
    // 84 Hz: nearer to E2 (82.4) than to F2 (87.3).
    assert_eq!(nearest_note(84_000), Some(0));
    // Out of the displayable range on both sides.
    assert_eq!(nearest_note(49_999), None);
    assert_eq!(nearest_note(450_001), None);
    // Equidistant between F2 (87.3) and F#2 (92.5): the first wins.
    assert_eq!(nearest_note(89_900), Some(1));
}

#[test]
fn filter_display_threshold_and_range() {
    let quiet = FrequencyData { dominant_frequency: 110_000, amplitude: 100 };
    assert_eq!(filter_display(quiet, 20_000), None);
    let voiced = FrequencyData { dominant_frequency: 110_000, amplitude: 100_000 };
    assert_eq!(filter_display(voiced, 20_000), Some(110_000));
    let out_of_band = FrequencyData { dominant_frequency: 700_000, amplitude: 100_000 };
    assert_eq!(filter_display(out_of_band, 20_000), Some(0));
}

#[test]
fn history_is_bounded() {
    let mut hist: Vec<i64> = Vec::new();
    for v in 0i64..100 {
        push_history(&mut hist, v, 3);
    }
    assert_eq!(hist, vec![97, 98, 99]);
    push_history(&mut hist, 100, 3);
    assert_eq!(hist, vec![98, 99, 100]);
}
