//! The sample bridge: a fixed-capacity FIFO of samples between the capture
//! callback (the only writer) and the render callback (the only reader),
//! held in a lock-free single-producer/single-consumer ring buffer.
//!
//! A sample is carried as the bit pattern of a 32-bit float; the bit pattern
//! `0` is silence.
use ringbuf::traits::{Consumer, Observer, Producer, Split};
use ringbuf::{HeapCons, HeapProd, HeapRb};
use vstd::prelude::*;

verus! {

/// The silent sample.
pub const SILENCE: u32 = 0;

/// A bridge owned by one thread, before it is split into its two ends.
#[verifier::external_body]
pub struct SampleBridge {
    ring: HeapRb<u32>,
}

/// The write end of a split bridge, held by the capture callback.
#[verifier::external_body]
pub struct BridgeWriter {
    end: HeapProd<u32>,
}

/// The read end of a split bridge, held by the render callback.
#[verifier::external_body]
pub struct BridgeReader {
    end: HeapCons<u32>,
}

/// The samples the bridge holds, oldest first.
pub uninterp spec fn bridge_contents(b: SampleBridge) -> Seq<u32>;

/// The number of samples the bridge was made to hold.
pub uninterp spec fn bridge_capacity(b: SampleBridge) -> nat;

/// The number of samples the bridge that a write end belongs to holds when
/// full.
pub uninterp spec fn writer_capacity(w: BridgeWriter) -> nat;

/// The number of samples the bridge that a read end belongs to holds when
/// full.
pub uninterp spec fn reader_capacity(r: BridgeReader) -> nat;

/// Relies on `HeapRb::new`: an empty ring buffer whose storage holds exactly
/// `capacity` items (it panics on a zero capacity).
#[verifier::external_body]
fn ring_new(capacity: usize) -> (b: SampleBridge)
    requires
        capacity > 0,
    ensures
        bridge_contents(b) == Seq::<u32>::empty(),
        bridge_capacity(b) == capacity,
{
    SampleBridge { ring: HeapRb::new(capacity) }
}

/// Relies on `Producer::try_push` of `HeapRb`: the sample is appended at the
/// back unless the buffer already holds `capacity` items, in which case it is
/// handed back and the buffer is left as it was.
#[verifier::external_body]
fn ring_push(b: &mut SampleBridge, sample: u32) -> (ok: bool)
    requires
        bridge_contents(*old(b)).len() <= bridge_capacity(*old(b)),
    ensures
        bridge_capacity(*final(b)) == bridge_capacity(*old(b)),
        ok == (bridge_contents(*old(b)).len() < bridge_capacity(*old(b))),
        ok ==> bridge_contents(*final(b)) == bridge_contents(*old(b)).push(sample),
        !ok ==> bridge_contents(*final(b)) == bridge_contents(*old(b)),
{
    b.ring.try_push(sample).is_ok()
}

/// Relies on `Consumer::try_pop` of `HeapRb`: the oldest sample is removed and
/// returned, or `None` when the buffer is empty.
#[verifier::external_body]
fn ring_pop(b: &mut SampleBridge) -> (r: Option<u32>)
    ensures
        bridge_capacity(*final(b)) == bridge_capacity(*old(b)),
        bridge_contents(*old(b)).len() == 0 ==> r is None && bridge_contents(*final(b))
            == bridge_contents(*old(b)),
        bridge_contents(*old(b)).len() > 0 ==> r == Some(bridge_contents(*old(b))[0])
            && bridge_contents(*final(b)) == bridge_contents(*old(b)).drop_first(),
{
    b.ring.try_pop()
}

/// Relies on `Observer::occupied_len` of `HeapRb`: the number of items held.
#[verifier::external_body]
fn ring_len(b: &SampleBridge) -> (n: usize)
    ensures
        n == bridge_contents(*b).len(),
{
    b.ring.occupied_len()
}

/// Relies on `Observer::capacity` of `HeapRb`: the number of items the
/// storage holds.
#[verifier::external_body]
fn ring_capacity(b: &SampleBridge) -> (n: usize)
    ensures
        n == bridge_capacity(*b),
{
    b.ring.capacity().get()
}

/// Relies on `Split::split` of `HeapRb`: the ring buffer is shared by a
/// producer and a consumer that may be moved to two threads; both report the
/// ring buffer's capacity through `Observer::capacity`, which is fixed for
/// the ring buffer's lifetime.
#[verifier::external_body]
fn ring_split(b: SampleBridge) -> (ends: (BridgeWriter, BridgeReader))
    ensures
        writer_capacity(ends.0) == bridge_capacity(b),
        reader_capacity(ends.1) == bridge_capacity(b),
{
    let (p, c) = b.ring.split();
    (BridgeWriter { end: p }, BridgeReader { end: c })
}

/// Relies on `Producer::try_push` of `HeapProd`: `true` when the sample was
/// appended. The reader may run concurrently, so nothing is known here of
/// what the buffer holds; its capacity does not change.
#[verifier::external_body]
fn end_push(w: &mut BridgeWriter, sample: u32) -> (ok: bool)
    ensures
        writer_capacity(*final(w)) == writer_capacity(*old(w)),
{
    w.end.try_push(sample).is_ok()
}

/// Relies on `Consumer::try_pop` of `HeapCons`: the oldest sample, or `None`
/// when the buffer is empty. The writer may run concurrently, so nothing is
/// known here of what the buffer holds; its capacity does not change.
#[verifier::external_body]
fn end_pop(r: &mut BridgeReader) -> (s: Option<u32>)
    ensures
        reader_capacity(*final(r)) == reader_capacity(*old(r)),
{
    r.end.try_pop()
}

impl View for SampleBridge {
    type V = Seq<u32>;

    open spec fn view(&self) -> Seq<u32> {
        bridge_contents(*self)
    }
}

/// One write into a FIFO of samples bounded by `cap`: the new contents and
/// whether the sample was taken.
pub open spec fn write_step(q: Seq<u32>, cap: nat, sample: u32) -> (Seq<u32>, bool) {
    if q.len() < cap {
        (q.push(sample), true)
    } else {
        (q, false)
    }
}

/// One read from a FIFO of samples: the new contents and the sample read, if
/// any.
pub open spec fn read_step(q: Seq<u32>) -> (Seq<u32>, Option<u32>) {
    if q.len() == 0 {
        (q, None)
    } else {
        (q.drop_first(), Some(q[0]))
    }
}

/// Writes `xs` in order with no read in between: the final contents and, for
/// each write, whether it was taken.
pub open spec fn write_all(q: Seq<u32>, cap: nat, xs: Seq<u32>) -> (Seq<u32>, Seq<bool>)
    decreases xs.len(),
{
    if xs.len() == 0 {
        (q, Seq::empty())
    } else {
        let prev = write_all(q, cap, xs.drop_last());
        let step = write_step(prev.0, cap, xs.last());
        (step.0, prev.1.push(step.1))
    }
}

/// Performs `n` reads in a row with no write in between: the final contents
/// and what each read gave.
pub open spec fn read_all(q: Seq<u32>, n: nat) -> (Seq<u32>, Seq<Option<u32>>)
    decreases n,
{
    if n == 0 {
        (q, Seq::empty())
    } else {
        let prev = read_all(q, (n - 1) as nat);
        let step = read_step(prev.0);
        (step.0, prev.1.push(step.1))
    }
}

/// The smaller of two integers.
pub open spec fn smaller(a: int, b: int) -> int {
    if a <= b {
        a
    } else {
        b
    }
}

/// What a read result is heard as: its sample, or silence for `None`.
pub open spec fn sample_or_silence(r: Option<u32>) -> u32 {
    match r {
        Some(x) => x,
        None => SILENCE,
    }
}

/// The number of refused writes in a run of write results.
pub open spec fn count_refused(oks: Seq<bool>) -> nat
    decreases oks.len(),
{
    if oks.len() == 0 {
        0
    } else {
        count_refused(oks.drop_last()) + if oks.last() {
            0nat
        } else {
            1nat
        }
    }
}

/// The most recent sample in a run of read results, if any read gave one.
pub open spec fn latest(pops: Seq<Option<u32>>) -> Option<u32>
    decreases pops.len(),
{
    if pops.len() == 0 {
        None
    } else if pops.last() is Some {
        pops.last()
    } else {
        latest(pops.drop_last())
    }
}

/// What an output slot plays given the most recent sample drained for it:
/// that sample, or silence reported as an underrun.
pub open spec fn slot_of(last: Option<u32>) -> (u32, bool) {
    match last {
        Some(x) => (x, false),
        None => (SILENCE, true),
    }
}

/// What an output slot plays given the results of the reads made for it.
pub open spec fn slot_of_pops(pops: Seq<Option<u32>>) -> (u32, bool) {
    slot_of(latest(pops))
}

/// Counts one write into the tally of dropped samples.
pub fn tally(dropped: u16, ok: bool) -> (r: u16)
    requires
        ok || dropped < u16::MAX,
    ensures
        r == dropped + if ok {
            0int
        } else {
            1int
        },
{
    if ok {
        dropped
    } else {
        dropped + 1
    }
}

/// Folds one read result into the most recent sample drained so far.
pub fn keep_latest(last: Option<u32>, popped: Option<u32>) -> (r: Option<u32>)
    ensures
        r == (if popped is Some {
            popped
        } else {
            last
        }),
{
    match popped {
        Some(x) => Some(x),
        None => last,
    }
}

/// The sample an output slot plays, and whether it underran, given the most
/// recent sample drained for it.
pub fn slot_result(last: Option<u32>) -> (r: (u32, bool))
    ensures
        r == slot_of(last),
{
    match last {
        Some(x) => (x, false),
        None => (SILENCE, true),
    }
}

impl SampleBridge {
    /// The number of samples the bridge holds when full.
    pub open spec fn cap(&self) -> nat {
        bridge_capacity(*self)
    }

    /// The bridge never holds more than its capacity, and the capacity is
    /// positive.
    pub open spec fn wf(&self) -> bool {
        0 < self.cap() && self@.len() <= self.cap()
    }

    /// An empty bridge that holds up to `capacity` samples.
    pub fn new(capacity: usize) -> (b: SampleBridge)
        requires
            capacity > 0,
        ensures
            b.wf(),
            b@ == Seq::<u32>::empty(),
            b.cap() == capacity,
    {
        ring_new(capacity)
    }

    /// An empty bridge that holds up to `capacity` samples, pre-filled with
    /// `prefill` silent samples to absorb the start-up jitter between the two
    /// callbacks.
    pub fn with_prefill(capacity: usize, prefill: usize) -> (b: SampleBridge)
        requires
            0 < capacity,
            prefill <= capacity,
        ensures
            b.wf(),
            b@ == Seq::new(prefill as nat, |i: int| SILENCE),
            b.cap() == capacity,
    {
        let mut b = ring_new(capacity);
        let mut i: usize = 0;
        while i < prefill
            invariant
                i <= prefill <= capacity,
                b.cap() == capacity,
                b@ == Seq::new(i as nat, |j: int| SILENCE),
            decreases prefill - i,
        {
            ring_push(&mut b, SILENCE);
            i = i + 1;
            assert(b@ =~= Seq::new(i as nat, |j: int| SILENCE));
        }
        b
    }

    /// Appends `sample` at the back; `false` reports a full bridge, which is
    /// then left as it was.
    pub fn try_write(&mut self, sample: u32) -> (ok: bool)
        requires
            old(self).wf(),
        ensures
            final(self).wf(),
            final(self).cap() == old(self).cap(),
            (final(self)@, ok) == write_step(old(self)@, old(self).cap(), sample),
    {
        ring_push(self, sample)
    }

    /// Removes and returns the oldest sample; `None` reports an empty bridge.
    pub fn try_read(&mut self) -> (r: Option<u32>)
        requires
            old(self).wf(),
        ensures
            final(self).wf(),
            final(self).cap() == old(self).cap(),
            (final(self)@, r) == read_step(old(self)@),
    {
        ring_pop(self)
    }

    /// Removes and returns the oldest sample, or silence when the bridge is
    /// empty; it never blocks.
    pub fn read_or_silence(&mut self) -> (r: u32)
        requires
            old(self).wf(),
        ensures
            final(self).wf(),
            final(self).cap() == old(self).cap(),
            final(self)@ == read_step(old(self)@).0,
            r == sample_or_silence(read_step(old(self)@).1),
            old(self)@.len() == 0 ==> r == SILENCE && final(self)@ == old(self)@,
    {
        match ring_pop(self) {
            Some(x) => x,
            None => SILENCE,
        }
    }

    /// Writes `sample` `factor` times, the capture side of channel adaptation.
    /// Writes past a full bridge are dropped and counted.
    pub fn write_replicated(&mut self, sample: u32, factor: u16) -> (dropped: u16)
        requires
            old(self).wf(),
        ensures
            final(self).wf(),
            final(self).cap() == old(self).cap(),
            final(self)@ == old(self)@ + Seq::new(
                (factor - dropped) as nat,
                |i: int| sample,
            ),
            factor - dropped == smaller(factor as int, old(self).cap() - old(self)@.len()),
    {
        let mut dropped: u16 = 0;
        let mut k: u16 = 0;
        while k < factor
            invariant
                self.wf(),
                self.cap() == old(self).cap(),
                old(self).wf(),
                dropped <= k <= factor,
                self@ == old(self)@ + Seq::new((k - dropped) as nat, |i: int| sample),
                k - dropped == smaller(k as int, old(self).cap() - old(self)@.len()),
            decreases factor - k,
        {
            let ok = ring_push(self, sample);
            dropped = tally(dropped, ok);
            k = k + 1;
            assert(self@ =~= old(self)@ + Seq::new((k - dropped) as nat, |i: int| sample));
        }
        dropped
    }

    /// Drains up to `factor` samples for one output slot, the render side of
    /// channel adaptation: the most recent of them is kept and the others are
    /// discarded. A slot that drains nothing is silent, and is reported as an
    /// underrun by the `true` beside it.
    pub fn render_slot(&mut self, factor: u16) -> (r: (u32, bool))
        requires
            old(self).wf(),
        ensures
            final(self).wf(),
            final(self).cap() == old(self).cap(),
            final(self)@ == old(self)@.skip(smaller(factor as int, old(self)@.len() as int)),
            smaller(factor as int, old(self)@.len() as int) == 0 ==> r == (SILENCE, true),
            smaller(factor as int, old(self)@.len() as int) > 0 ==> r == (
                old(self)@[smaller(factor as int, old(self)@.len() as int) - 1],
                false,
            ),
    {
        let mut last: Option<u32> = None;
        let mut k: u16 = 0;
        while k < factor
            invariant
                self.wf(),
                self.cap() == old(self).cap(),
                k <= factor,
                self@ == old(self)@.skip(smaller(k as int, old(self)@.len() as int)),
                smaller(k as int, old(self)@.len() as int) == 0 ==> last is None,
                smaller(k as int, old(self)@.len() as int) > 0 ==> last == Some(
                    old(self)@[smaller(k as int, old(self)@.len() as int) - 1],
                ),
            decreases factor - k,
        {
            let popped = ring_pop(self);
            last = keep_latest(last, popped);
            k = k + 1;
            assert(self@ =~= old(self)@.skip(smaller(k as int, old(self)@.len() as int)));
        }
        slot_result(last)
    }

    /// Splits the bridge into its write end and its read end, which may be
    /// moved to the capture and the render callbacks. Neither end takes a
    /// lock. Both ends belong to a bridge of this bridge's capacity.
    pub fn split(self) -> (ends: (BridgeWriter, BridgeReader))
        ensures
            writer_capacity(ends.0) == self.cap(),
            reader_capacity(ends.1) == self.cap(),
    {
        ring_split(self)
    }

    /// The number of samples held.
    pub fn len(&self) -> (n: usize)
        ensures
            n == self@.len(),
    {
        ring_len(self)
    }

    /// The number of samples the bridge holds when full.
    pub fn capacity(&self) -> (n: usize)
        ensures
            n == self.cap(),
    {
        ring_capacity(self)
    }
}

impl BridgeWriter {
    /// Writes `sample` `factor` times, the capture side of channel adaptation,
    /// and returns how many of the writes found the bridge full and were
    /// dropped. It never blocks. The reader runs concurrently, so which
    /// writes are refused is known only as the run of results they gave.
    pub fn write_replicated(&mut self, sample: u32, factor: u16) -> (dropped: u16)
        ensures
            dropped <= factor,
            writer_capacity(*final(self)) == writer_capacity(*old(self)),
            exists|oks: Seq<bool>| oks.len() == factor && dropped == #[trigger] count_refused(oks),
    {
        let mut dropped: u16 = 0;
        let mut k: u16 = 0;
        let ghost mut oks: Seq<bool> = Seq::empty();
        while k < factor
            invariant
                dropped <= k <= factor,
                oks.len() == k,
                dropped == count_refused(oks),
                writer_capacity(*self) == writer_capacity(*old(self)),
            decreases factor - k,
        {
            let ok = end_push(self, sample);
            let ghost prev = oks;
            proof {
                oks = oks.push(ok);
                assert(oks.drop_last() =~= prev);
            }
            dropped = tally(dropped, ok);
            k = k + 1;
        }
        assert(oks.len() == factor && dropped == count_refused(oks));
        dropped
    }
}

impl BridgeReader {
    /// Drains up to `factor` samples for one output slot, the render side of
    /// channel adaptation: the most recent one drained is kept. A slot that
    /// drains nothing is silent, and `true` beside it reports the underrun.
    /// It never blocks. The writer runs concurrently, so what was drained is
    /// known only as the run of `factor` read results it gave.
    pub fn render_slot(&mut self, factor: u16) -> (r: (u32, bool))
        ensures
            r.1 ==> r.0 == SILENCE,
            factor == 0 ==> r == (SILENCE, true),
            reader_capacity(*final(self)) == reader_capacity(*old(self)),
            exists|pops: Seq<Option<u32>>| pops.len() == factor && r == #[trigger] slot_of_pops(pops),
    {
        let mut last: Option<u32> = None;
        let mut k: u16 = 0;
        let ghost mut pops: Seq<Option<u32>> = Seq::empty();
        while k < factor
            invariant
                k <= factor,
                pops.len() == k,
                last == latest(pops),
                reader_capacity(*self) == reader_capacity(*old(self)),
            decreases factor - k,
        {
            let popped = end_pop(self);
            let ghost prev = pops;
            proof {
                pops = pops.push(popped);
                assert(pops.drop_last() =~= prev);
            }
            last = keep_latest(last, popped);
            k = k + 1;
        }
        let r = slot_result(last);
        assert(pops.len() == factor && r == slot_of_pops(pops));
        r
    }
}

/// Writing `xs` with no read in between takes the writes that fit, in order,
/// and reports a full bridge for each of the rest.
pub proof fn lemma_write_all(q: Seq<u32>, cap: nat, xs: Seq<u32>)
    requires
        q.len() <= cap,
    ensures
        write_all(q, cap, xs).0 == q + xs.take(smaller(xs.len() as int, cap - q.len())),
        write_all(q, cap, xs).1.len() == xs.len(),
        forall|i: int|
            0 <= i < xs.len() ==> #[trigger] write_all(q, cap, xs).1[i] == (i < cap - q.len()),
    decreases xs.len(),
{
    if xs.len() > 0 {
        let ys = xs.drop_last();
        lemma_write_all(q, cap, ys);
        let n = smaller(ys.len() as int, cap - q.len());
        assert(ys.take(n) =~= xs.take(n));
        if xs.len() <= cap - q.len() {
            assert(xs.take(n).push(xs.last()) =~= xs.take(n + 1));
        }
        let w = write_all(q, cap, xs);
        assert forall|i: int| 0 <= i < xs.len() implies #[trigger] w.1[i] == (i < cap - q.len()) by {
            if i < ys.len() {
                assert(w.1[i] == write_all(q, cap, ys).1[i]);
            }
        }
    }
}

/// Reading `n` times with no write in between yields the held samples in
/// order, then nothing once the bridge is empty.
pub proof fn lemma_read_all(q: Seq<u32>, n: nat)
    ensures
        read_all(q, n).0 == q.skip(smaller(n as int, q.len() as int)),
        read_all(q, n).1.len() == n,
        forall|i: int|
            0 <= i < n ==> #[trigger] read_all(q, n).1[i] == (if i < q.len() {
                Some(q[i])
            } else {
                None
            }),
    decreases n,
{
    if n > 0 {
        lemma_read_all(q, (n - 1) as nat);
        let t = smaller(n - 1, q.len() as int);
        let prev = read_all(q, (n - 1) as nat);
        if t < q.len() {
            assert(q.skip(t).drop_first() =~= q.skip(t + 1));
        }
        let r = read_all(q, n);
        assert forall|i: int| 0 <= i < n implies #[trigger] r.1[i] == (if i < q.len() {
            Some(q[i])
        } else {
            None
        }) by {
            if i < n - 1 {
                assert(r.1[i] == prev.1[i]);
            }
        }
    }
}

/// Round trip: writing `n <= capacity` samples into an empty bridge and then
/// reading `n` samples yields the same samples in the same order, and leaves
/// the bridge empty.
pub proof fn lemma_round_trip(cap: nat, xs: Seq<u32>)
    requires
        xs.len() <= cap,
    ensures
        forall|i: int|
            0 <= i < xs.len() ==> #[trigger] write_all(Seq::empty(), cap, xs).1[i],
        read_all(write_all(Seq::empty(), cap, xs).0, xs.len()).1 == xs.map_values(
            |x: u32| Some(x),
        ),
        read_all(write_all(Seq::empty(), cap, xs).0, xs.len()).0 == Seq::<u32>::empty(),
{
    lemma_write_all(Seq::empty(), cap, xs);
    let w = write_all(Seq::empty(), cap, xs);
    assert(w.0 =~= xs);
    lemma_read_all(w.0, xs.len());
    assert(read_all(w.0, xs.len()).1 =~= xs.map_values(|x: u32| Some(x)));
    assert(read_all(w.0, xs.len()).0 =~= Seq::<u32>::empty());
}

/// Overflow: writing more than `capacity` samples into an empty bridge with
/// no read in between reports a full bridge for exactly the excess writes and
/// keeps the first `capacity` samples, which then read back in order.
pub proof fn lemma_overflow(cap: nat, xs: Seq<u32>)
    requires
        xs.len() > cap,
    ensures
        forall|i: int|
            0 <= i < xs.len() ==> #[trigger] write_all(Seq::empty(), cap, xs).1[i] == (i < cap),
        write_all(Seq::empty(), cap, xs).0 == xs.take(cap as int),
        read_all(write_all(Seq::empty(), cap, xs).0, cap).1 == xs.take(cap as int).map_values(
            |x: u32| Some(x),
        ),
{
    lemma_write_all(Seq::empty(), cap, xs);
    let w = write_all(Seq::empty(), cap, xs);
    assert(w.0 =~= xs.take(cap as int));
    lemma_read_all(w.0, cap);
    assert(read_all(w.0, cap).1 =~= xs.take(cap as int).map_values(|x: u32| Some(x)));
}

/// Underflow: reading from an empty bridge, any number of times, yields
/// nothing, which the render path hears as silence, and leaves it empty.
pub proof fn lemma_underflow(n: nat)
    ensures
        read_all(Seq::empty(), n).0 == Seq::<u32>::empty(),
        forall|i: int|
            0 <= i < n ==> sample_or_silence(#[trigger] read_all(Seq::empty(), n).1[i]) == SILENCE,
{
    lemma_read_all(Seq::empty(), n);
    assert(Seq::<u32>::empty().skip(0) =~= Seq::<u32>::empty());
}

} // verus!
