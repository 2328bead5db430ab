//! Fixed-capacity FIFO of samples with a drop-oldest overflow policy.

use vstd::prelude::*;

verus! {

/// What a queue of capacity `cap` holds once the samples of `s` have been
/// appended in order, and nothing removed: the newest `cap` of them,
/// oldest first.
pub open spec fn newest(s: Seq<u32>, cap: nat) -> Seq<u32> {
    if s.len() <= cap {
        s
    } else {
        s.subrange(s.len() - cap, s.len() as int)
    }
}

/// Appending one sample and then keeping the newest `cap` is the same as
/// keeping the newest `cap` first, dropping the oldest of them when they
/// already fill the capacity, and appending.
pub proof fn lemma_newest_push(s: Seq<u32>, x: u32, cap: nat)
    requires
        cap > 0,
    ensures
        newest(s, cap).len() < cap ==> newest(s.push(x), cap) == newest(s, cap).push(x),
        newest(s, cap).len() == cap ==> newest(s.push(x), cap) == newest(s, cap).drop_first().push(x),
        newest(s, cap).len() <= cap,
{
    let n = newest(s, cap);
    if n.len() < cap {
        assert(newest(s.push(x), cap) =~= n.push(x));
    } else {
        assert(newest(s.push(x), cap) =~= n.drop_first().push(x));
    }
}

/// `n` capped at the largest `u64`.
pub open spec fn saturated(n: int) -> u64 {
    if n < u64::MAX {
        n as u64
    } else {
        u64::MAX
    }
}

/// Position in the slot array of the `i`-th unread sample, counting from
/// the oldest one at `head`.
pub open spec fn slot_of(head: int, i: int, cap: int) -> int {
    if head + i < cap {
        head + i
    } else {
        head + i - cap
    }
}

/// A ring buffer of samples. The logical write cursor runs `len` samples
/// ahead of the read cursor, which sits at slot `head`; both wrap modulo
/// the capacity. The slot array is allocated once, by `new`, and never
/// resized.
pub struct RingBuffer {
    slots: Vec<u32>,
    head: usize,
    len: usize,
    dropped: u64,
}

impl View for RingBuffer {
    type V = Seq<u32>;

    /// The unread samples, oldest first.
    closed spec fn view(&self) -> Seq<u32> {
        Seq::new(
            self.len as nat,
            |i: int| self.slots@[slot_of(self.head as int, i, self.slots@.len() as int)],
        )
    }
}

impl RingBuffer {
    /// The fixed number of samples the buffer can hold.
    pub closed spec fn capacity(&self) -> nat {
        self.slots@.len()
    }

    /// How many samples overflow has discarded so far (saturating).
    pub closed spec fn dropped_total(&self) -> u64 {
        self.dropped
    }

    pub closed spec fn wf(&self) -> bool {
        &&& self.len <= self.slots@.len()
        &&& (self.slots@.len() == 0 ==> self.head == 0)
        &&& (self.slots@.len() > 0 ==> self.head < self.slots@.len())
    }

    /// An empty buffer holding up to `capacity` samples.
    pub fn new(capacity: usize) -> (r: RingBuffer)
        ensures
            r.wf(),
            r@ == Seq::<u32>::empty(),
            r.capacity() == capacity,
            r.dropped_total() == 0,
    {
        let mut slots: Vec<u32> = Vec::with_capacity(capacity);
        while slots.len() < capacity
            invariant
                slots@.len() <= capacity,
            decreases capacity - slots@.len(),
        {
            slots.push(0);
        }
        let r = RingBuffer { slots, head: 0, len: 0, dropped: 0 };
        assert(r@ =~= Seq::<u32>::empty());
        r
    }

    /// The fixed number of samples the buffer can hold.
    pub fn capacity_samples(&self) -> (r: usize)
        requires
            self.wf(),
        ensures
            r == self.capacity(),
    {
        self.slots.len()
    }

    /// How many unread samples the buffer holds.
    pub fn occupancy(&self) -> (r: usize)
        requires
            self.wf(),
        ensures
            r == self@.len(),
            r <= self.capacity(),
    {
        self.len
    }

    /// How many samples overflow has discarded since construction,
    /// saturating at `u64::MAX`.
    pub fn dropped(&self) -> (r: u64)
        ensures
            r == self.dropped_total(),
    {
        self.dropped
    }

    /// Appends `frames` without blocking or allocating. When the buffer is
    /// full, the oldest unread sample is discarded to make room for each new
    /// one (freshness over completeness), so afterwards the buffer holds the
    /// newest `capacity` samples of what it held followed by `frames`.
    /// Returns how many samples of `frames` were stored, and adds the
    /// number discarded to the overflow counter.
    pub fn try_push(&mut self, frames: &[u32]) -> (written: usize)
        requires
            old(self).wf(),
        ensures
            final(self).wf(),
            final(self).capacity() == old(self).capacity(),
            final(self)@ == newest(old(self)@ + frames@, old(self).capacity()),
            written == if frames@.len() <= old(self).capacity() {
                frames@.len()
            } else {
                old(self).capacity()
            },
            final(self).dropped_total() == saturated(
                old(self).dropped_total() + old(self)@.len() + frames@.len() - final(self)@.len(),
            ),
    {
        let cap = self.slots.len();
        let ghost before = self@;
        if cap == 0 {
            self.dropped = self.dropped.saturating_add(frames.len() as u64);
            assert(self@ =~= newest(before + frames@, 0));
            return 0;
        }
        let mut i: usize = 0;
        while i < frames.len()
            invariant
                self.wf(),
                cap == self.slots@.len(),
                cap > 0,
                i <= frames@.len(),
                self@ == newest(before + frames@.take(i as int), cap as nat),
                self.dropped == saturated(
                    old(self).dropped + before.len() + i - self@.len(),
                ),
            decreases frames@.len() - i,
        {
            let x = frames[i];
            let ghost pre = self@;
            proof {
                lemma_newest_push(before + frames@.take(i as int), x, cap as nat);
                assert((before + frames@.take(i as int)).push(x)
                    =~= before + frames@.take(i + 1));
            }
            if self.len < cap {
                let tail: usize = if self.head < cap - self.len {
                    self.head + self.len
                } else {
                    self.head - (cap - self.len)
                };
                self.slots.set(tail, x);
                self.len = self.len + 1;
                assert(self@ =~= pre.push(x));
            } else {
                self.slots.set(self.head, x);
                self.head = if self.head + 1 < cap {
                    self.head + 1
                } else {
                    0
                };
                if self.dropped < u64::MAX {
                    self.dropped = self.dropped + 1;
                }
                assert(self@ =~= pre.drop_first().push(x));
            }
            i = i + 1;
        }
        assert(frames@.take(frames@.len() as int) =~= frames@);
        if frames.len() <= cap {
            frames.len()
        } else {
            cap
        }
    }
    /// Moves up to `out.len()` of the oldest unread samples, in order, into
    /// the front of `out`, without blocking or allocating. Returns how many
    /// were moved; the rest of `out` is left as it was.
    pub fn try_pop(&mut self, out: &mut [u32]) -> (read: usize)
        requires
            old(self).wf(),
        ensures
            final(self).wf(),
            final(self).capacity() == old(self).capacity(),
            final(self).dropped_total() == old(self).dropped_total(),
            read == if old(out)@.len() <= old(self)@.len() {
                old(out)@.len()
            } else {
                old(self)@.len()
            },
            final(self)@ == old(self)@.skip(read as int),
            final(out)@ == old(self)@.take(read as int) + old(out)@.skip(read as int),
    {
        let n: usize = if out.len() <= self.len {
            out.len()
        } else {
            self.len
        };
        let cap = self.slots.len();
        let ghost before = self@;
        let ghost out0 = out@;
        let mut read: usize = 0;
        while read < n
            invariant
                self.wf(),
                cap == self.slots@.len(),
                self.dropped == old(self).dropped,
                n <= out0.len(),
                n <= before.len(),
                read <= n,
                self@ == before.skip(read as int),
                self.len == before.len() - read,
                out@.len() == out0.len(),
                forall|j: int| 0 <= j < read ==> out@[j] == before[j],
                forall|j: int| read <= j < out0.len() ==> out@[j] == out0[j],
            decreases n - read,
        {
            let ghost pre = self@;
            assert(pre[0] == before[read as int]);
            assert(self.slots@[self.head as int] == pre[0]);
            out[read] = self.slots[self.head];
            self.head = if self.head + 1 < cap {
                self.head + 1
            } else {
                0
            };
            self.len = self.len - 1;
            assert(self@ =~= pre.drop_first());
            assert(before.skip(read + 1) =~= pre.drop_first());
            read = read + 1;
        }
        assert(out@ =~= before.take(n as int) + out0.skip(n as int));
        n
    }
}

} // verus!
