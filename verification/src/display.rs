//! Decisions behind the feedback display: filtering a polled result,
//! bounding the plotted history, and naming the nearest reference note.
//!
//! Rendering itself is a consumer's concern; everything here is the
//! plain logic those renderings rest on.

use crate::abs_int;
use crate::result::FrequencyData;
use vstd::prelude::*;

verus! {

/// Number of reference notes, E2 through A4.
pub const NOTE_COUNT: usize = 30;

/// Lowest frequency the display treats as a voice pitch, millihertz.
pub const DISPLAY_LOW_MHZ: i64 = 50_000;

/// Highest frequency the display treats as a voice pitch, millihertz.
pub const DISPLAY_HIGH_MHZ: i64 = 450_000;

/// Reference note frequencies in millihertz, one semitone apart from
/// E2 (82.4 Hz) up to A4 (440 Hz).
pub open spec fn note_table() -> Seq<i64> {
    seq![
        82_400i64,
        87_300,
        92_500,
        98_000,
        103_800,
        110_000,
        116_500,
        123_500,
        130_800,
        138_600,
        146_800,
        155_600,
        164_800,
        174_600,
        185_000,
        196_000,
        207_700,
        220_000,
        233_100,
        246_900,
        261_600,
        277_200,
        293_700,
        311_100,
        329_600,
        349_200,
        370_000,
        392_000,
        415_300,
        440_000,
    ]
}

/// The reference notes as a vector, index-aligned with `note_table`.
pub fn note_freqs() -> (v: Vec<i64>)
    ensures
        v@ == note_table(),
        v@.len() == NOTE_COUNT,
        forall|i: int| 0 <= i < v@.len() ==> 0 < #[trigger] v@[i] <= 440_000,
{
    let mut v: Vec<i64> = Vec::new();
    v.push(82_400);
    v.push(87_300);
    v.push(92_500);
    v.push(98_000);
    v.push(103_800);
    v.push(110_000);
    v.push(116_500);
    v.push(123_500);
    v.push(130_800);
    v.push(138_600);
    v.push(146_800);
    v.push(155_600);
    v.push(164_800);
    v.push(174_600);
    v.push(185_000);
    v.push(196_000);
    v.push(207_700);
    v.push(220_000);
    v.push(233_100);
    v.push(246_900);
    v.push(261_600);
    v.push(277_200);
    v.push(293_700);
    v.push(311_100);
    v.push(329_600);
    v.push(349_200);
    v.push(370_000);
    v.push(392_000);
    v.push(415_300);
    v.push(440_000);
    proof {
        assert(v@ =~= note_table());
    }
    v
}

/// The nearest-note scan from index `i` with running best `best`: a
/// later note replaces the best only at a strictly smaller distance to
/// `f`, so the first (lowest) of equally near notes wins.
pub open spec fn scan_nearest(t: Seq<i64>, f: int, i: int, best: int) -> int
    decreases t.len() - i,
{
    if i >= t.len() {
        best
    } else if abs_int(f - t[i]) < abs_int(f - t[best]) {
        scan_nearest(t, f, i + 1, i)
    } else {
        scan_nearest(t, f, i + 1, best)
    }
}

/// Every outcome of the nearest-note scan: the running best kept, or a
/// later index strictly nearer to `f`; nothing scanned is nearer than
/// the result, and everything scanned before the winning index is
/// strictly farther (the first of equally near notes wins).
pub proof fn lemma_scan_nearest_props(t: Seq<i64>, f: int, i: int, best: int)
    requires
        0 <= best < t.len(),
        best < i,
    ensures
        ({
            let r = scan_nearest(t, f, i, best);
            &&& 0 <= r < t.len()
            &&& (r == best || (i <= r && abs_int(f - t[r]) < abs_int(f - t[best])))
            &&& (forall|k: int|
                i <= k < t.len() ==> abs_int(f - t[r]) <= abs_int(f - #[trigger] t[k]))
            &&& (forall|k: int|
                i <= k < t.len() && k < r ==> abs_int(f - #[trigger] t[k]) > abs_int(f - t[r]))
        }),
    decreases t.len() - i,
{
    if i >= t.len() {
    } else if abs_int(f - t[i]) < abs_int(f - t[best]) {
        lemma_scan_nearest_props(t, f, i + 1, i);
    } else {
        lemma_scan_nearest_props(t, f, i + 1, best);
    }
}

/// Index of the reference note nearest to `freq_mhz`, or nothing for a
/// frequency outside the displayable 50–450 Hz range: no table entry
/// is nearer than the returned one, and of equally near entries the
/// lowest index is returned.
pub fn nearest_note(freq_mhz: i64) -> (r: Option<usize>)
    ensures
        r is None <==> (freq_mhz < DISPLAY_LOW_MHZ || freq_mhz > DISPLAY_HIGH_MHZ),
        r is Some ==> r->0 < NOTE_COUNT,
        r is Some ==> r->0 as int == scan_nearest(note_table(), freq_mhz as int, 1, 0),
        r is Some ==> forall|k: int|
            0 <= k < NOTE_COUNT ==> abs_int(freq_mhz - note_table()[r->0 as int]) <= abs_int(
                freq_mhz - #[trigger] note_table()[k],
            ),
        r is Some ==> forall|k: int|
            0 <= k < r->0 as int ==> abs_int(freq_mhz - #[trigger] note_table()[k]) > abs_int(
                freq_mhz - note_table()[r->0 as int],
            ),
{
    if freq_mhz < DISPLAY_LOW_MHZ || freq_mhz > DISPLAY_HIGH_MHZ {
        return None;
    }
    let notes = note_freqs();
    let mut best: usize = 0;
    let mut i: usize = 1;
    while i < NOTE_COUNT
        invariant
            notes@ == note_table(),
            notes@.len() == NOTE_COUNT,
            forall|k: int| 0 <= k < notes@.len() ==> 0 < #[trigger] notes@[k] <= 440_000,
            DISPLAY_LOW_MHZ <= freq_mhz <= DISPLAY_HIGH_MHZ,
            1 <= i <= NOTE_COUNT,
            best < i,
            scan_nearest(note_table(), freq_mhz as int, i as int, best as int)
                == scan_nearest(note_table(), freq_mhz as int, 1, 0),
        decreases NOTE_COUNT - i,
    {
        let ni = notes[i];
        let nb = notes[best];
        let di = if freq_mhz >= ni {
            freq_mhz - ni
        } else {
            ni - freq_mhz
        };
        let db = if freq_mhz >= nb {
            freq_mhz - nb
        } else {
            nb - freq_mhz
        };
        if di < db {
            best = i;
        }
        i = i + 1;
    }
    proof {
        lemma_scan_nearest_props(note_table(), freq_mhz as int, 1, 0);
    }
    Some(best)
}

/// Filter one polled result for display: a result quieter than the
/// caller's amplitude threshold is discarded whole; otherwise its
/// frequency is kept when it lies in the displayable 50–450 Hz range
/// and flattened to 0 ("no pitch") when it does not.
pub fn filter_display(data: FrequencyData, threshold: u64) -> (r: Option<i64>)
    ensures
        r is None <==> data.amplitude < threshold,
        r is Some ==> r->0 == (if DISPLAY_LOW_MHZ <= data.dominant_frequency
            <= DISPLAY_HIGH_MHZ {
            data.dominant_frequency
        } else {
            0i64
        }),
{
    if data.amplitude < threshold {
        None
    } else if DISPLAY_LOW_MHZ <= data.dominant_frequency
        && data.dominant_frequency <= DISPLAY_HIGH_MHZ {
        Some(data.dominant_frequency)
    } else {
        Some(0)
    }
}

/// Append one value to a bounded history: the newest value always
/// enters at the back, and when the history would exceed `cap` the
/// oldest value leaves at the front.
pub fn push_history(hist: &mut Vec<i64>, v: i64, cap: usize)
    requires
        1 <= cap,
        old(hist)@.len() <= cap,
    ensures
        final(hist)@ == (if old(hist)@.len() < cap {
            old(hist)@.push(v)
        } else {
            old(hist)@.push(v).subrange(1, cap as int + 1)
        }),
        final(hist)@.len() <= cap,
{
    hist.push(v);
    if hist.len() > cap {
        hist.remove(0);
        proof {
            assert(old(hist)@.push(v).remove(0)
                =~= old(hist)@.push(v).subrange(1, cap as int + 1));
        }
    }
}

} // verus!
