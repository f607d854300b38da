//! A fixed-capacity sample queue that smooths packet arrival: the newest
//! samples win on overflow, and a reader that runs dry gets silence.

use vstd::prelude::*;

verus! {

/// The last `n` items of `s`, or all of `s` if it holds no more than `n`.
pub open spec fn keep_last<T>(s: Seq<T>, n: int) -> Seq<T> {
    if s.len() <= n {
        s
    } else if n <= 0 {
        Seq::empty()
    } else {
        s.subrange(s.len() - n, s.len() as int)
    }
}

/// How many of the oldest samples fall out when `pushed` samples arrive at
/// a ring of `capacity` slots that already holds `queued`.
pub open spec fn dropped(queued: int, pushed: int, capacity: int) -> int {
    if queued + pushed > capacity - 1 {
        queued + pushed - (capacity - 1)
    } else {
        0
    }
}

/// What a reader of `want` samples sees when the queue holds `queued`:
/// the oldest queued samples first, then `silence` for what is missing.
pub open spec fn padded_front<T>(queued: Seq<T>, want: int, silence: T) -> Seq<T> {
    Seq::new(
        if want < 0 { 0 } else { want as nat },
        |i: int| if i < queued.len() { queued[i] } else { silence },
    )
}

/// Ring of samples with one producer and one consumer. A ring of capacity
/// `c` holds at most `c - 1` samples: availability is the distance from
/// the read position to the write position, modulo `c`.
pub struct JitterBuffer<T> {
    buffer: Vec<T>,
    read_pos: usize,
    write_pos: usize,
    capacity: usize,
    silence: T,
}

impl<T: Copy> JitterBuffer<T> {
    /// The representation invariant.
    pub closed spec fn wf(&self) -> bool {
        &&& self.capacity > 0
        &&& self.buffer.len() == self.capacity
        &&& self.read_pos < self.capacity
        &&& self.write_pos < self.capacity
    }

    /// Number of slots in the ring.
    pub closed spec fn capacity(&self) -> nat {
        self.capacity as nat
    }

    /// The value handed out when the queue is empty.
    pub closed spec fn silence(&self) -> T {
        self.silence
    }

    /// Index of the slot the next sample is read from.
    pub closed spec fn read_index(&self) -> nat {
        self.read_pos as nat
    }

    /// Index of the slot the next sample is written to.
    pub closed spec fn write_index(&self) -> nat {
        self.write_pos as nat
    }

    /// Number of queued samples.
    pub closed spec fn queued(&self) -> nat {
        if self.write_pos >= self.read_pos {
            (self.write_pos - self.read_pos) as nat
        } else {
            (self.capacity - self.read_pos + self.write_pos) as nat
        }
    }

    /// The queued samples, oldest first.
    pub closed spec fn view(&self) -> Seq<T> {
        Seq::new(
            self.queued(),
            |i: int| self.buffer@[(self.read_pos as int + i) % (self.capacity as int)],
        )
    }

    /// The queue length is the distance between the two positions and
    /// never reaches the capacity.
    pub proof fn lemma_queued(&self)
        requires
            self.wf(),
        ensures
            self@.len() == self.queued(),
            self.queued() < self.capacity(),
            self.read_index() < self.capacity(),
            self.write_index() < self.capacity(),
            self.queued() == (self.write_index() as int + self.capacity() as int
                - self.read_index() as int) % (self.capacity() as int),
    {
        let c = self.capacity as int;
        let d = self.write_pos as int + c - self.read_pos as int;
        if self.write_pos >= self.read_pos {
            assert(d % c == d - c) by (nonlinear_arith)
                requires
                    c <= d < 2 * c,
                    c > 0,
            ;
        } else {
            assert(d % c == d) by (nonlinear_arith)
                requires
                    0 <= d < c,
            ;
        }
    }

    /// An empty ring of `capacity` slots that reads as `silence` when dry.
    pub fn new(capacity: usize, silence: T) -> (jb: Self)
        requires
            capacity > 0,
        ensures
            jb.wf(),
            jb.capacity() == capacity,
            jb.silence() == silence,
            jb@ == Seq::<T>::empty(),
            jb.read_index() == 0,
    {
        let mut buffer: Vec<T> = Vec::with_capacity(capacity);
        let mut i: usize = 0;
        while i < capacity
            invariant
                i <= capacity,
                buffer.len() == i,
            decreases capacity - i,
        {
            buffer.push(silence);
            i = i + 1;
        }
        let jb = JitterBuffer { buffer, read_pos: 0, write_pos: 0, capacity, silence };
        assert(jb@ =~= Seq::<T>::empty());
        jb
    }

    /// Number of samples that can be read.
    pub fn available(&self) -> (n: usize)
        requires
            self.wf(),
        ensures
            n == self@.len(),
            n < self.capacity(),
    {
        if self.write_pos >= self.read_pos {
            self.write_pos - self.read_pos
        } else {
            self.capacity - self.read_pos + self.write_pos
        }
    }

    fn push_one(&mut self, sample: T)
        requires
            old(self).wf(),
        ensures
            final(self).wf(),
            final(self).capacity() == old(self).capacity(),
            final(self).silence() == old(self).silence(),
            final(self)@ == keep_last(old(self)@.push(sample), old(self).capacity() - 1),
            final(self).read_index() == if old(self)@.len() + 1 == old(self).capacity() {
                (old(self).read_index() as int + 1) % (old(self).capacity() as int)
            } else {
                old(self).read_index() as int
            },
    {
        let ghost before = *self;
        let ghost c = self.capacity as int;
        self.buffer.set(self.write_pos, sample);
        self.write_pos = if self.write_pos + 1 == self.capacity {
            0
        } else {
            self.write_pos + 1
        };
        if self.write_pos == self.read_pos {
            self.read_pos = if self.read_pos + 1 == self.capacity {
                0
            } else {
                self.read_pos + 1
            };
        }
        proof {
            let r = before.read_pos as int;
            let w = before.write_pos as int;
            let n = before.queued() as int;
            assert((r + n) % c == w) by {
                if w >= r {
                    assert((r + n) % c == w) by (nonlinear_arith)
                        requires
                            r + n == w,
                            0 <= w < c,
                    ;
                } else {
                    assert((r + n) % c == w) by (nonlinear_arith)
                        requires
                            r + n == w + c,
                            0 <= w < c,
                    ;
                }
            }
            let full = n + 1 == c;
            assert((r + 1) % c == if r + 1 == c { 0 } else { r + 1 }) by (nonlinear_arith)
                requires
                    0 <= r < c,
            ;
            let want = keep_last(before@.push(sample), c - 1);
            assert(self@.len() == want.len());
            assert forall|i: int| 0 <= i < want.len() implies self@[i] == want[i] by {
                let shift: int = if full { 1 } else { 0 };
                let nr = self.read_pos as int;
                assert((nr + i) % c == (r + shift + i) % c) by (nonlinear_arith)
                    requires
                        nr == (if r + shift == c { 0 } else { r + shift }),
                        0 <= r < c,
                        0 <= shift <= 1,
                ;
                if i + shift < n {
                    assert((r + shift + i) % c != w) by (nonlinear_arith)
                        requires
                            0 <= i + shift < n,
                            n < c,
                            0 <= r < c,
                            0 <= w < c,
                            r + n == w || r + n == w + c,
                    ;
                } else {
                    assert((r + shift + i) % c == w) by (nonlinear_arith)
                        requires
                            i + shift == n,
                            0 <= w < c,
                            r + n == w || r + n == w + c,
                    ;
                }
            }
            assert(self@ =~= want);
        }
    }

    /// Queues `samples` in order. When the ring is full each new sample
    /// pushes the oldest one out, so afterwards the ring holds the newest
    /// `capacity - 1` of everything queued so far.
    pub fn push_samples(&mut self, samples: &[T])
        requires
            old(self).wf(),
        ensures
            final(self).wf(),
            final(self).capacity() == old(self).capacity(),
            final(self).silence() == old(self).silence(),
            final(self)@ == keep_last(old(self)@ + samples@, old(self).capacity() - 1),
            final(self).read_index() == (old(self).read_index() as int + dropped(
                old(self)@.len() as int,
                samples@.len() as int,
                old(self).capacity() as int,
            )) % (old(self).capacity() as int),
    {
        let ghost before = *self;
        let ghost keep = self.capacity as int - 1;
        let ghost c = self.capacity as int;
        let ghost r = self.read_pos as int;
        let ghost n0 = self@.len() as int;
        let mut i: usize = 0;
        proof {
            before.lemma_queued();
            assert(before@ + samples@.take(0) =~= before@);
            assert(r % c == r) by (nonlinear_arith)
                requires
                    0 <= r < c,
            ;
        }
        while i < samples.len()
            invariant
                i <= samples.len(),
                self.wf(),
                before.wf(),
                keep == before.capacity() - 1,
                self.capacity() == before.capacity(),
                self.silence() == before.silence(),
                self@ == keep_last(before@ + samples@.take(i as int), keep),
                c == before.capacity(),
                r == before.read_index(),
                n0 == before@.len(),
                n0 <= keep,
                self.read_index() == (r + dropped(n0, i as int, c)) % c,
            decreases samples.len() - i,
        {
            self.push_one(samples[i]);
            proof {
                let d = dropped(n0, i as int, c);
                lemma_ring_step(r + d, 1, c);
                let a = before@ + samples@.take(i as int);
                let b = before@ + samples@.take(i as int + 1);
                assert(b =~= a.push(samples@[i as int]));
                lemma_keep_last_push(a, samples@[i as int], keep);
            }
            i = i + 1;
        }
        assert(samples@.take(samples.len() as int) =~= samples@);
    }

    /// Fills `out` from the front of the queue and pads with silence what
    /// the queue cannot supply. Returns how many samples were real.
    pub fn pop_samples(&mut self, out: &mut [T]) -> (n: usize)
        requires
            old(self).wf(),
        ensures
            final(self).wf(),
            final(self).capacity() == old(self).capacity(),
            final(self).silence() == old(self).silence(),
            n == if old(out)@.len() <= old(self)@.len() {
                old(out)@.len()
            } else {
                old(self)@.len()
            },
            final(out)@ == padded_front(old(self)@, old(out)@.len() as int, old(self).silence()),
            final(self)@ == old(self)@.skip(n as int),
            final(self).read_index() == (old(self).read_index() as int + n as int) % (old(
                self,
            ).capacity() as int),
    {
        let ghost before = *self;
        let ghost c = self.capacity as int;
        let available = self.available();
        let to_read = if out.len() < available { out.len() } else { available };
        let len = out.len();
        let mut i: usize = 0;
        proof {
            before.lemma_queued();
            assert((before.read_pos as int + 0) % c == before.read_pos as int) by (nonlinear_arith)
                requires
                    0 <= before.read_pos as int,
                    (before.read_pos as int) < c,
            ;
        }
        while i < to_read
            invariant
                i <= to_read <= len,
                to_read <= before.queued(),
                len == out@.len(),
                c == self.capacity as int,
                self.wf(),
                before.wf(),
                self.buffer == before.buffer,
                self.capacity == before.capacity,
                self.write_pos == before.write_pos,
                self.silence == before.silence,
                self.read_pos as int == (before.read_pos as int + i as int) % c,
                forall|k: int| 0 <= k < i ==> out@[k] == before@[k],
            decreases to_read - i,
        {
            out[i] = self.buffer[self.read_pos];
            self.read_pos = if self.read_pos + 1 == self.capacity {
                0
            } else {
                self.read_pos + 1
            };
            proof {
                let r = before.read_pos as int;
                let j = i as int;
                assert((r + j + 1) % c == if (r + j) % c + 1 == c { 0 } else { (r + j) % c + 1 })
                    by (nonlinear_arith)
                    requires
                        c > 0,
                        r + j >= 0,
                ;
            }
            i = i + 1;
        }
        let mut j: usize = to_read;
        while j < len
            invariant
                to_read <= j <= len,
                len == out@.len(),
                forall|k: int| 0 <= k < to_read ==> out@[k] == before@[k],
                forall|k: int| to_read <= k < j ==> out@[k] == self.silence,
            decreases len - j,
        {
            out[j] = self.silence;
            j = j + 1;
        }
        proof {
            let r = before.read_pos as int;
            let w = before.write_pos as int;
            let n = to_read as int;
            let q = before.queued() as int;
            self.lemma_queued();
            assert(self.queued() == q - n) by {
                assert((w + c - (r + n) % c) % c == q - n) by (nonlinear_arith)
                    requires
                        0 <= r < c,
                        0 <= w < c,
                        0 <= n <= q < c,
                        r + q == w || r + q == w + c,
                ;
            }
            assert forall|k: int| 0 <= k < q - n implies self@[k] == before@.skip(n)[k] by {
                lemma_ring_step(r + n, k, c);
            }
            assert(self@ =~= before@.skip(n));
            assert(out@ =~= padded_front(before@, len as int, before.silence));
        }
        to_read
    }
}

/// Samples queued on an empty ring that has room for them are read back
/// in the order in which they were written.
pub proof fn lemma_first_in_first_out<T>(samples: Seq<T>, capacity: int, silence: T)
    requires
        samples.len() < capacity,
    ensures
        keep_last(Seq::<T>::empty() + samples, capacity - 1) == samples,
        padded_front(samples, samples.len() as int, silence) == samples,
{
    assert(Seq::<T>::empty() + samples =~= samples);
    assert(padded_front(samples, samples.len() as int, silence) =~= samples);
}

/// One more sample on a full ring pushes the oldest one out and moves the
/// read position by one slot.
pub proof fn lemma_overflow_drops_oldest<T>(queued: Seq<T>, sample: T, capacity: int)
    requires
        capacity >= 2,
        queued.len() == capacity - 1,
    ensures
        keep_last(queued.push(sample), capacity - 1) == queued.drop_first().push(sample),
        dropped(queued.len() as int, 1, capacity) == 1,
{
    assert(keep_last(queued.push(sample), capacity - 1) =~= queued.drop_first().push(sample));
}

/// Filling an empty ring to the brim and one sample over loses exactly
/// one sample: a ring of `capacity` slots holds `capacity - 1`.
pub proof fn lemma_fill_from_empty(capacity: int)
    requires
        capacity >= 1,
    ensures
        dropped(0, capacity - 1, capacity) == 0,
        dropped(0, capacity, capacity) == 1,
{
}

/// A reader of an empty ring gets nothing but silence.
pub proof fn lemma_dry_reads_silence<T>(want: nat, silence: T)
    ensures
        padded_front(Seq::<T>::empty(), want as int, silence) == Seq::new(want, |i: int| silence),
{
    assert(padded_front(Seq::<T>::empty(), want as int, silence) =~= Seq::new(
        want,
        |i: int| silence,
    ));
}

/// Stepping `k` slots on from slot `a % c` ends in slot `(a + k) % c`.
proof fn lemma_ring_step(a: int, k: int, c: int)
    requires
        c > 0,
    ensures
        (a % c + k) % c == (a + k) % c,
{
    vstd::arithmetic::div_mod::lemma_add_mod_noop(a, k, c);
    vstd::arithmetic::div_mod::lemma_add_mod_noop_right(a % c, k, c);
}

/// Keeping the last `n` after one more item arrives needs only the last
/// `n` from before.
pub proof fn lemma_keep_last_push<T>(s: Seq<T>, x: T, n: int)
    requires
        n >= 0,
    ensures
        keep_last(keep_last(s, n).push(x), n) == keep_last(s.push(x), n),
{
    assert(keep_last(keep_last(s, n).push(x), n) =~= keep_last(s.push(x), n));
}

} // verus!
