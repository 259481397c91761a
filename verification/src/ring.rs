//! Fixed-size sample aggregation into analysis windows.
//!
//! Samples are written one by one into a ring buffer of length `N`; the
//! cursor always indexes the next write slot. A window completes exactly
//! when a write wraps the cursor back to slot 0, and at that moment the
//! buffer holds the `N` most recently written samples in chronological
//! order. When one call delivers enough samples to complete the window
//! several times, only the last completion is reported: earlier ones
//! within the same call are deliberately superseded (latest wins).

use crate::SCALE;
use vstd::arithmetic::div_mod::{
    lemma_add_mod_noop, lemma_mod_bound, lemma_mod_self_0, lemma_small_mod,
};
use vstd::prelude::*;

verus! {

/// The ring content after writing `samples` one by one starting at
/// `pos`, wrapping modulo the buffer length.
pub open spec fn ring_write(buf: Seq<i64>, pos: int, samples: Seq<i64>) -> Seq<i64>
    decreases samples.len(),
{
    if samples.len() == 0 {
        buf
    } else {
        ring_write(
            buf.update(pos, samples[0]),
            (pos + 1) % (buf.len() as int),
            samples.subrange(1, samples.len() as int),
        )
    }
}

/// Writing into the ring never changes its length.
pub proof fn lemma_ring_write_len(buf: Seq<i64>, pos: int, samples: Seq<i64>)
    requires
        0 <= pos < buf.len(),
    ensures
        ring_write(buf, pos, samples).len() == buf.len(),
    decreases samples.len(),
{
    if samples.len() > 0 {
        lemma_mod_bound(pos + 1, buf.len() as int);
        lemma_ring_write_len(
            buf.update(pos, samples[0]),
            (pos + 1) % (buf.len() as int),
            samples.subrange(1, samples.len() as int),
        );
    }
}

/// Appending one sample to a write burst is one more ring write, at the
/// slot the cursor has reached by then.
pub proof fn lemma_ring_write_snoc(buf: Seq<i64>, pos: int, samples: Seq<i64>, x: i64)
    requires
        0 <= pos < buf.len(),
    ensures
        ring_write(buf, pos, samples.push(x))
            == ring_write(buf, pos, samples).update((pos + samples.len()) % (buf.len() as int), x),
    decreases samples.len(),
{
    let n = buf.len() as int;
    if samples.len() == 0 {
        assert(samples.push(x)[0] == x);
        assert(samples.push(x).subrange(1, 1) =~= Seq::<i64>::empty());
        assert(ring_write(buf.update(pos, x), (pos + 1) % n, samples.push(x).subrange(1, 1))
            == buf.update(pos, x));
        assert(ring_write(buf, pos, samples.push(x)) == buf.update(pos, x));
        assert(ring_write(buf, pos, samples) == buf);
        lemma_small_mod(pos as nat, n as nat);
        assert((pos + samples.len()) % n == pos);
    } else {
        let buf1 = buf.update(pos, samples[0]);
        let pos1 = (pos + 1) % n;
        let rest = samples.subrange(1, samples.len() as int);
        assert(samples.push(x)[0] == samples[0]);
        assert(samples.push(x).subrange(1, samples.len() as int + 1) =~= rest.push(x));
        assert(ring_write(buf, pos, samples.push(x)) == ring_write(buf1, pos1, rest.push(x)));
        lemma_mod_bound(pos + 1, n);
        lemma_ring_write_snoc(buf1, pos1, rest, x);
        assert(buf1.len() == buf.len());
        assert(ring_write(buf1, pos1, rest.push(x))
            == ring_write(buf1, pos1, rest).update((pos1 + rest.len()) % n, x));
        assert(ring_write(buf, pos, samples) == ring_write(buf1, pos1, rest));
        lemma_add_mod_noop(pos + 1, rest.len() as int, n);
        lemma_add_mod_noop(pos1, rest.len() as int, n);
        lemma_small_mod(pos1 as nat, n as nat);
        assert((pos1 + rest.len()) % n == (pos + samples.len()) % n);
    }
}

/// The streaming sample aggregator: a fixed-size analysis window filled
/// as a ring, reporting a snapshot on each completed wrap.
pub struct RingAggregator {
    buffer: Vec<i64>,
    pos: usize,
}

impl RingAggregator {
    /// The window content, oldest slots first in ring order.
    pub closed spec fn buf(self) -> Seq<i64> {
        self.buffer@
    }

    /// The next write slot.
    pub closed spec fn cursor(self) -> int {
        self.pos as int
    }

    /// The fixed window size `N`.
    pub open spec fn size(self) -> int {
        self.buf().len() as int
    }

    /// Well-formedness: a nonempty window, a cursor inside it, and all
    /// content within the normalized fixed-point sample range.
    pub open spec fn wf(self) -> bool {
        &&& self.size() > 0
        &&& 0 <= self.cursor() < self.size()
        &&& forall|i: int| 0 <= i < self.size() ==> -SCALE <= #[trigger] self.buf()[i] <= SCALE
    }

    /// A fresh aggregator: an all-zero window of size `n`, cursor at 0.
    pub fn new(n: usize) -> (a: RingAggregator)
        requires
            1 <= n,
        ensures
            a.wf(),
            a.size() == n,
            a.cursor() == 0,
            forall|i: int| 0 <= i < n ==> #[trigger] a.buf()[i] == 0,
    {
        let mut v: Vec<i64> = Vec::new();
        while v.len() < n
            invariant
                v@.len() <= n,
                forall|i: int| 0 <= i < v@.len() ==> #[trigger] v@[i] == 0,
            decreases n - v@.len(),
        {
            v.push(0);
        }
        RingAggregator { buffer: v, pos: 0 }
    }

    /// Feed a chunk of normalized samples.
    ///
    /// Each sample is written at the cursor, which then advances modulo
    /// `N`. The call reports a snapshot exactly when some write wrapped
    /// the cursor to 0 — that is, exactly when the chunk reaches or
    /// passes the end of the window — and the snapshot is the window
    /// content at the moment of the last such wrap: the `N` samples
    /// written most recently up to that wrap, in chronological order.
    /// Completions earlier in the same call are superseded.
    pub fn push(&mut self, samples: &Vec<i64>) -> (snap: Option<Vec<i64>>)
        requires
            old(self).wf(),
            forall|i: int|
                0 <= i < samples@.len() ==> -SCALE <= #[trigger] samples@[i] <= SCALE,
        ensures
            final(self).wf(),
            final(self).size() == old(self).size(),
            final(self).buf() == ring_write(old(self).buf(), old(self).cursor(), samples@),
            final(self).cursor() == (old(self).cursor() + samples@.len()) % old(self).size(),
            snap is Some <==> old(self).cursor() + samples@.len() >= old(self).size(),
            snap is Some <==> completions(
                old(self).cursor(),
                samples@.len() as int,
                old(self).size(),
            ) >= 1,
            snap is Some ==> snap->0@ == ring_write(
                old(self).buf(),
                old(self).cursor(),
                samples@.take(
                    samples@.len()
                        - ((old(self).cursor() + samples@.len()) % old(self).size()),
                ),
            ),
            snap is Some ==> snap->0@.len() == old(self).size(),
    {
        let n = self.buffer.len();
        let ghost buf0 = self.buffer@;
        let ghost pos0 = self.pos as int;
        let mut result: Option<Vec<i64>> = None;
        let mut i: usize = 0;
        proof {
            lemma_small_mod(pos0 as nat, n as nat);
            assert(samples@.take(0) =~= Seq::<i64>::empty());
        }
        while i < samples.len()
            invariant
                0 < n,
                0 <= i <= samples@.len(),
                self.buffer@.len() == n == buf0.len(),
                0 <= pos0 < n,
                self.pos < n,
                forall|k: int|
                    0 <= k < samples@.len() ==> -SCALE <= #[trigger] samples@[k] <= SCALE,
                forall|k: int|
                    0 <= k < n ==> -SCALE <= #[trigger] self.buffer@[k] <= SCALE,
                self.buffer@ == ring_write(buf0, pos0, samples@.take(i as int)),
                self.pos as int == (pos0 + i) % (n as int),
                result is Some <==> pos0 + i >= n,
                result is Some ==> result->0@ == ring_write(
                    buf0,
                    pos0,
                    samples@.take(i - ((pos0 + i) % (n as int))),
                ),
                result is Some ==> result->0@.len() == n,
            decreases samples@.len() - i,
        {
            let s = samples[i];
            proof {
                assert(samples@.take(i + 1) =~= samples@.take(i as int).push(samples@[i as int]));
                lemma_ring_write_snoc(buf0, pos0, samples@.take(i as int), samples@[i as int]);
            }
            self.buffer.set(self.pos, s);
            let ghost cur = self.pos as int;
            self.pos = self.pos + 1;
            proof {
                lemma_add_mod_noop(pos0 + i, 1, n as int);
                lemma_add_mod_noop(cur, 1, n as int);
                lemma_small_mod(cur as nat, n as nat);
                vstd::arithmetic::div_mod::lemma_mod_decreases((pos0 + i) as nat, n as nat);
            }
            if self.pos == n {
                self.pos = 0;
                proof {
                    lemma_mod_self_0(n as int);
                }
                result = Some(clone_window(&self.buffer));
            } else {
                proof {
                    if pos0 + i < n {
                        lemma_small_mod((pos0 + i) as nat, n as nat);
                    }
                    lemma_small_mod((cur + 1) as nat, n as nat);
                }
            }
            i = i + 1;
        }
        proof {
            assert(samples@.take(samples@.len() as int) =~= samples@);
            let total = pos0 + samples@.len() as int;
            if total >= n as int {
                vstd::arithmetic::div_mod::lemma_div_is_ordered(n as int, total, n as int);
                vstd::arithmetic::div_mod::lemma_div_by_self(n as int);
            } else {
                vstd::arithmetic::div_mod::lemma_basic_div(total, n as int);
            }
        }
        result
    }
}

/// Number of window completions a chunk of `k` samples causes from
/// cursor `pos` in a window of size `n`: one for each wrap of the
/// cursor past the window end.
pub open spec fn completions(pos: int, k: int, n: int) -> int {
    (pos + k) / n
}

/// Total completions over a run of chunks, the cursor carried from
/// chunk to chunk exactly as `push` carries it.
pub open spec fn run_completions(pos: int, lens: Seq<int>, n: int) -> int
    decreases lens.len(),
{
    if lens.len() == 0 {
        0
    } else {
        completions(pos, lens[0], n) + run_completions(
            (pos + lens[0]) % n,
            lens.subrange(1, lens.len() as int),
            n,
        )
    }
}

/// Sum of chunk lengths.
pub open spec fn sum_lens(lens: Seq<int>) -> int
    decreases lens.len(),
{
    if lens.len() == 0 {
        0
    } else {
        lens[0] + sum_lens(lens.subrange(1, lens.len() as int))
    }
}

/// Completion cadence law: however a sample stream is chunked into
/// calls, the number of window completions depends only on the total
/// sample count. Feeding exactly `n` samples from a fresh window —
/// one call of `n`, or `n` calls of one — completes the window exactly
/// once, and `k * n` samples complete it exactly `k` times, of which a
/// single call reports only the last.
pub proof fn lemma_completion_cadence(pos: int, lens: Seq<int>, n: int)
    requires
        0 < n,
        0 <= pos < n,
        forall|i: int| 0 <= i < lens.len() ==> #[trigger] lens[i] >= 0,
    ensures
        run_completions(pos, lens, n) == (pos + sum_lens(lens)) / n,
    decreases lens.len(),
{
    if lens.len() == 0 {
        vstd::arithmetic::div_mod::lemma_basic_div(pos, n);
    } else {
        let rest = lens.subrange(1, lens.len() as int);
        let a = pos + lens[0];
        lemma_mod_bound(a, n);
        lemma_completion_cadence(a % n, rest, n);
        vstd::arithmetic::div_mod::lemma_fundamental_div_mod(a, n);
        vstd::arithmetic::div_mod::lemma_hoist_over_denominator(
            a % n + sum_lens(rest),
            a / n,
            n as nat,
        );
        assert(run_completions(pos, lens, n) == a / n + run_completions(a % n, rest, n));
        assert(run_completions(a % n, rest, n) == (a % n + sum_lens(rest)) / n);
        vstd::arithmetic::mul::lemma_mul_is_commutative(a / n, n);
        assert(a % n + (a / n) * n == a);
        assert((a % n + sum_lens(rest)) / n + a / n == (a % n + sum_lens(rest) + (a / n) * n) / n);
        assert(sum_lens(lens) == lens[0] + sum_lens(rest));
    }
}

/// The window content read in chronological order: the slot the cursor
/// points at holds the oldest value, the slot just before it the
/// newest.
pub open spec fn chron(buf: Seq<i64>, pos: int) -> Seq<i64> {
    buf.subrange(pos, buf.len() as int) + buf.subrange(0, pos)
}

/// Aggregation invariant: after any burst of writes, the window read
/// in chronological order is exactly the newest `n` values of the
/// stream "previous chronological content, then the new samples".
pub proof fn lemma_ring_chronology(buf: Seq<i64>, pos: int, samples: Seq<i64>)
    requires
        0 <= pos < buf.len(),
    ensures
        chron(ring_write(buf, pos, samples), (pos + samples.len()) % (buf.len() as int))
            == (chron(buf, pos) + samples).skip(samples.len() as int),
    decreases samples.len(),
{
    let n = buf.len() as int;
    if samples.len() == 0 {
        lemma_small_mod(pos as nat, n as nat);
        assert((chron(buf, pos) + samples).skip(0) =~= chron(buf, pos));
    } else {
        let buf1 = buf.update(pos, samples[0]);
        let pos1 = (pos + 1) % n;
        let rest = samples.subrange(1, samples.len() as int);
        lemma_mod_bound(pos + 1, n);
        lemma_ring_chronology(buf1, pos1, rest);
        if pos == n - 1 {
            lemma_mod_self_0(n);
            assert(chron(buf1, pos1) =~= chron(buf, pos).skip(1).push(samples[0]));
        } else {
            lemma_small_mod((pos + 1) as nat, n as nat);
            assert(chron(buf1, pos1) =~= chron(buf, pos).skip(1).push(samples[0]));
        }
        assert(chron(buf1, pos1) + rest =~= (chron(buf, pos) + samples).skip(1));
        assert((chron(buf, pos) + samples).skip(1).skip(rest.len() as int)
            =~= (chron(buf, pos) + samples).skip(samples.len() as int));
        lemma_add_mod_noop(pos + 1, rest.len() as int, n);
        lemma_add_mod_noop(pos1, rest.len() as int, n);
        lemma_small_mod(pos1 as nat, n as nat);
        assert((pos1 + rest.len()) % n == (pos + samples.len()) % n);
    }
}

/// The snapshot a completed window reports is exactly the newest `n`
/// samples of the stream — the previous content in chronological
/// order followed by the consumed samples, keeping only the last `n`.
pub proof fn lemma_snapshot_is_recent(buf: Seq<i64>, pos: int, consumed: Seq<i64>)
    requires
        0 <= pos < buf.len(),
        (pos + consumed.len()) % (buf.len() as int) == 0,
    ensures
        ring_write(buf, pos, consumed)
            == (chron(buf, pos) + consumed).skip(consumed.len() as int),
{
    lemma_ring_chronology(buf, pos, consumed);
    lemma_ring_write_len(buf, pos, consumed);
    assert(chron(ring_write(buf, pos, consumed), 0) =~= ring_write(buf, pos, consumed));
}

/// First-report corollary: from a fresh window (cursor at 0), the
/// first completion's snapshot is exactly the first `n` samples ever
/// seen.
pub proof fn lemma_first_snapshot(buf: Seq<i64>, consumed: Seq<i64>)
    requires
        buf.len() > 0,
        consumed.len() == buf.len(),
    ensures
        ring_write(buf, 0, consumed) == consumed,
{
    lemma_mod_self_0(buf.len() as int);
    lemma_snapshot_is_recent(buf, 0, consumed);
    assert((chron(buf, 0) + consumed).skip(consumed.len() as int) =~= consumed);
}

/// An exact copy of a window, made for the completion snapshot.
fn clone_window(v: &Vec<i64>) -> (r: Vec<i64>)
    ensures
        r@ == v@,
{
    let mut r: Vec<i64> = Vec::new();
    let mut i: usize = 0;
    while i < v.len()
        invariant
            0 <= i <= v@.len(),
            r@ == v@.take(i as int),
        decreases v@.len() - i,
    {
        let x = v[i];
        r.push(x);
        proof {
            assert(v@.take(i + 1) =~= v@.take(i as int).push(v@[i as int]));
        }
        i = i + 1;
    }
    proof {
        assert(v@.take(v@.len() as int) =~= v@);
    }
    r
}

} // verus!
