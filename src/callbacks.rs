//! The work each real-time callback does on the shared ring buffer. Neither
//! blocks, allocates or fails: overflow and underrun are reported as counts.

use vstd::prelude::*;
use crate::ring::{newest, RingBuffer};

verus! {

/// `n` samples of silence (the bit pattern of `+0.0`).
pub open spec fn silence(n: nat) -> Seq<u32> {
    Seq::new(n, |_i: int| 0u32)
}

/// Capture side: pushes a captured block into the buffer. Returns how many
/// samples overflow discarded to make room, counting both older unread
/// samples and, for a block larger than the capacity, the block's own
/// oldest ones.
pub fn capture_block(rb: &mut RingBuffer, data: &[u32]) -> (lost: usize)
    requires
        old(rb).wf(),
    ensures
        final(rb).wf(),
        final(rb).capacity() == old(rb).capacity(),
        final(rb)@ == newest(old(rb)@ + data@, old(rb).capacity()),
        lost == old(rb)@.len() + data@.len() - final(rb)@.len(),
        final(rb).dropped_total() == crate::ring::saturated(
            old(rb).dropped_total() + lost,
        ),
{
    let before = rb.occupancy();
    rb.try_push(data);
    let after = rb.occupancy();
    data.len() - (after - before)
}

/// Playback side: fills `out` with the oldest unread samples, in order,
/// and every position the buffer could not supply with silence. Returns
/// how many samples came from the buffer; the remaining
/// `out.len() - read` positions are an underrun.
pub fn fill_output(rb: &mut RingBuffer, out: &mut [u32]) -> (read: usize)
    requires
        old(rb).wf(),
    ensures
        final(rb).wf(),
        final(rb).capacity() == old(rb).capacity(),
        final(rb).dropped_total() == old(rb).dropped_total(),
        read == if old(out)@.len() <= old(rb)@.len() {
            old(out)@.len()
        } else {
            old(rb)@.len()
        },
        final(rb)@ == old(rb)@.skip(read as int),
        final(out)@ == old(rb)@.take(read as int) + silence((old(out)@.len() - read) as nat),
{
    let ghost src = rb@;
    let read = rb.try_pop(out);
    let ghost popped = out@;
    assert(forall|k: int| 0 <= k < read ==> popped[k] == src[k]);
    let mut j: usize = read;
    while j < out.len()
        invariant
            read <= j <= out@.len(),
            out@.len() == popped.len(),
            forall|k: int| 0 <= k < read ==> out@[k] == src[k],
            forall|k: int| read <= k < j ==> out@[k] == 0u32,
        decreases out@.len() - j,
    {
        out[j] = 0;
        j = j + 1;
    }
    assert(out@ =~= src.take(read as int) + silence((out@.len() - read) as nat));
    read
}

/// Playback side when the buffer cannot be reached this period: the whole
/// block is silence.
pub fn fill_silence(out: &mut [u32])
    ensures
        final(out)@ == silence(old(out)@.len()),
{
    let mut j: usize = 0;
    while j < out.len()
        invariant
            j <= out@.len(),
            out@.len() == old(out)@.len(),
            forall|k: int| 0 <= k < j ==> out@[k] == 0u32,
        decreases out@.len() - j,
    {
        out[j] = 0;
        j = j + 1;
    }
    assert(out@ =~= silence(old(out)@.len()));
}

} // verus!
