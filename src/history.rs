//! The ring buffer over a whole history of operations. `try_push` and
//! `try_pop` each act on the buffer's contents as `apply_op` says (their
//! own contracts state exactly that), so what is proved here of a history
//! holds of any sequence of calls on one buffer.

use vstd::prelude::*;
use crate::ring::newest;

verus! {

/// One operation on the buffer: a push of these samples, or a pop into an
/// output block of this length.
pub enum BufferOp {
    Push(Seq<u32>),
    Pop(nat),
}

/// How many samples a pop into a block of `n` takes from `c`.
pub open spec fn pop_count(c: Seq<u32>, n: nat) -> nat {
    if n <= c.len() {
        n
    } else {
        c.len()
    }
}

/// The contents after `op`, for a buffer of capacity `cap` holding `c`.
pub open spec fn apply_op(c: Seq<u32>, cap: nat, op: BufferOp) -> Seq<u32> {
    match op {
        BufferOp::Push(f) => newest(c + f, cap),
        BufferOp::Pop(n) => c.skip(pop_count(c, n) as int),
    }
}

/// The samples `op` hands to the consumer.
pub open spec fn op_output(c: Seq<u32>, op: BufferOp) -> Seq<u32> {
    match op {
        BufferOp::Push(_) => Seq::empty(),
        BufferOp::Pop(n) => c.take(pop_count(c, n) as int),
    }
}

/// The samples `op` hands to the buffer.
pub open spec fn op_input(op: BufferOp) -> Seq<u32> {
    match op {
        BufferOp::Push(f) => f,
        BufferOp::Pop(_) => Seq::empty(),
    }
}

/// The contents after running `ops` in order from `c`.
pub open spec fn run_ops(c: Seq<u32>, cap: nat, ops: Seq<BufferOp>) -> Seq<u32>
    decreases ops.len(),
{
    if ops.len() == 0 {
        c
    } else {
        apply_op(run_ops(c, cap, ops.drop_last()), cap, ops.last())
    }
}

/// Everything the pops of `ops` returned, in order.
pub open spec fn popped(c: Seq<u32>, cap: nat, ops: Seq<BufferOp>) -> Seq<u32>
    decreases ops.len(),
{
    if ops.len() == 0 {
        Seq::empty()
    } else {
        popped(c, cap, ops.drop_last()) + op_output(run_ops(c, cap, ops.drop_last()), ops.last())
    }
}

/// Everything the pushes of `ops` supplied, in order.
pub open spec fn pushed(ops: Seq<BufferOp>) -> Seq<u32>
    decreases ops.len(),
{
    if ops.len() == 0 {
        Seq::empty()
    } else {
        pushed(ops.drop_last()) + op_input(ops.last())
    }
}

/// `idx` places the elements of `a`, in order, at increasing positions
/// of `b`: `a` is `b` with some elements left out.
pub open spec fn embeds(a: Seq<u32>, b: Seq<u32>, idx: Seq<int>) -> bool {
    &&& idx.len() == a.len()
    &&& forall|i: int, j: int| 0 <= i < j < idx.len() ==> idx[i] < idx[j]
    &&& forall|i: int| 0 <= i < idx.len() ==> 0 <= #[trigger] idx[i] < b.len() && b[idx[i]] == a[i]
}

/// Whether every op of `ops` is a push.
pub open spec fn pushes_only(ops: Seq<BufferOp>) -> bool {
    forall|i: int| 0 <= i < ops.len() ==> (#[trigger] ops[i] is Push)
}

/// Occupancy stays within `[0, cap]` whatever operations run.
pub proof fn lemma_occupancy_bounded(c: Seq<u32>, cap: nat, ops: Seq<BufferOp>)
    requires
        c.len() <= cap,
    ensures
        run_ops(c, cap, ops).len() <= cap,
    decreases ops.len(),
{
    if ops.len() > 0 {
        lemma_occupancy_bounded(c, cap, ops.drop_last());
    }
}

proof fn fifo_witness(c: Seq<u32>, cap: nat, ops: Seq<BufferOp>) -> (idx: Seq<int>)
    requires
        c.len() <= cap,
    ensures
        run_ops(c, cap, ops).len() <= (c + pushed(ops)).len(),
        run_ops(c, cap, ops) == (c + pushed(ops)).subrange(
            (c + pushed(ops)).len() - run_ops(c, cap, ops).len(),
            (c + pushed(ops)).len() as int,
        ),
        embeds(popped(c, cap, ops), c + pushed(ops), idx),
        forall|i: int|
            0 <= i < idx.len() ==> #[trigger] idx[i] < (c + pushed(ops)).len() - run_ops(
                c,
                cap,
                ops,
            ).len(),
    decreases ops.len(),
{
    if ops.len() == 0 {
        assert(c + pushed(ops) =~= c);
        assert(c.subrange(0, c.len() as int) =~= c);
        Seq::empty()
    } else {
        let prev = ops.drop_last();
        let idx0 = fifo_witness(c, cap, prev);
        let s0 = c + pushed(prev);
        let r0 = run_ops(c, cap, prev);
        let rp = s0.len() - r0.len();
        let s1 = c + pushed(ops);
        assert(s1 =~= s0 + op_input(ops.last()));
        match ops.last() {
            BufferOp::Push(f) => {
                assert(r0 + f =~= s1.subrange(rp, s1.len() as int));
                let r1 = newest(r0 + f, cap);
                assert(r1 =~= s1.subrange(s1.len() - r1.len(), s1.len() as int));
                assert(popped(c, cap, ops) =~= popped(c, cap, prev));
                idx0
            },
            BufferOp::Pop(n) => {
                let k = pop_count(r0, n);
                let idx1 = idx0 + Seq::new(k, |j: int| rp + j);
                let p0 = popped(c, cap, prev);
                assert(popped(c, cap, ops) =~= p0 + r0.take(k as int));
                assert(s1 =~= s0);
                let r1 = r0.skip(k as int);
                assert(r1 =~= s1.subrange(s1.len() - r1.len(), s1.len() as int));
                assert forall|i: int| 0 <= i < idx1.len() implies 0 <= #[trigger] idx1[i] < s1.len()
                    && s1[idx1[i]] == (p0 + r0.take(k as int))[i] by {
                    if i >= idx0.len() {
                        assert(s0[rp + (i - idx0.len())] == r0[i - idx0.len()]);
                    }
                }
                idx1
            },
        }
    }
}

/// Order is kept: the buffer's contents are always the newest samples of
/// everything it was given, in order, and everything popped, in order, is
/// what was given before them with some samples left out (those that
/// overflow discarded).
pub proof fn lemma_fifo_order(c: Seq<u32>, cap: nat, ops: Seq<BufferOp>)
    requires
        c.len() <= cap,
    ensures
        ({
            let given = c + pushed(ops);
            let left = run_ops(c, cap, ops);
            &&& left.len() <= given.len()
            &&& left == given.subrange(given.len() - left.len(), given.len() as int)
            &&& exists|idx: Seq<int>|
                #[trigger] embeds(popped(c, cap, ops), given.take(given.len() - left.len()), idx)
        }),
{
    let idx = fifo_witness(c, cap, ops);
    let given = c + pushed(ops);
    let left = run_ops(c, cap, ops);
    assert(embeds(popped(c, cap, ops), given.take(given.len() - left.len()), idx));
}

proof fn lemma_newest_append(s: Seq<u32>, f: Seq<u32>, cap: nat)
    ensures
        newest(newest(s, cap) + f, cap) == newest(s + f, cap),
{
    assert(newest(newest(s, cap) + f, cap) =~= newest(s + f, cap));
}

proof fn lemma_pushes_keep_newest(c: Seq<u32>, cap: nat, ops: Seq<BufferOp>)
    requires
        c.len() <= cap,
        pushes_only(ops),
    ensures
        run_ops(c, cap, ops) == newest(c + pushed(ops), cap),
    decreases ops.len(),
{
    if ops.len() == 0 {
        assert(c + pushed(ops) =~= c);
    } else {
        let prev = ops.drop_last();
        assert(pushes_only(prev)) by {
            assert forall|i: int| 0 <= i < prev.len() implies (#[trigger] prev[i] is Push) by {
                assert(prev[i] == ops[i]);
            }
        }
        lemma_pushes_keep_newest(c, cap, prev);
        assert(ops[ops.len() - 1] is Push);
        let f = op_input(ops.last());
        lemma_newest_append(c + pushed(prev), f, cap);
        assert(c + pushed(ops) =~= (c + pushed(prev)) + f);
    }
}

/// Overflow drops the oldest: pushing into a full buffer of capacity
/// `cap`, with no pops in between, leaves it holding exactly the `cap`
/// most recently given samples.
pub proof fn lemma_overflow_keeps_newest(c: Seq<u32>, cap: nat, ops: Seq<BufferOp>)
    requires
        c.len() == cap,
        pushes_only(ops),
    ensures
        ({
            let given = c + pushed(ops);
            &&& run_ops(c, cap, ops).len() == cap
            &&& run_ops(c, cap, ops) == given.subrange(given.len() - cap, given.len() as int)
        }),
{
    lemma_pushes_keep_newest(c, cap, ops);
    let given = c + pushed(ops);
    if given.len() == cap {
        assert(given.subrange(0, cap as int) =~= given);
    }
}

/// Round trip without contention: pushing samples into an empty buffer
/// large enough to hold them all, then popping as many, returns exactly
/// those samples and leaves the buffer empty.
pub proof fn lemma_round_trip(frames: Seq<u32>, cap: nat)
    requires
        frames.len() <= cap,
    ensures
        ({
            let ops = seq![BufferOp::Push(frames), BufferOp::Pop(frames.len())];
            &&& popped(Seq::empty(), cap, ops) == frames
            &&& run_ops(Seq::empty(), cap, ops) == Seq::<u32>::empty()
        }),
{
    let ops = seq![BufferOp::Push(frames), BufferOp::Pop(frames.len())];
    let one = ops.drop_last();
    assert(one.drop_last() =~= Seq::<BufferOp>::empty());
    assert(one.len() == 1 && one.last() == BufferOp::Push(frames));
    assert(ops.last() == BufferOp::Pop(frames.len()));
    assert(run_ops(Seq::empty(), cap, one.drop_last()) == Seq::<u32>::empty());
    assert(popped(Seq::empty(), cap, one.drop_last()) == Seq::<u32>::empty());
    assert(Seq::<u32>::empty() + frames =~= frames);
    assert(run_ops(Seq::empty(), cap, one) == frames);
    assert(popped(Seq::empty(), cap, one) =~= Seq::<u32>::empty());
    assert(frames.take(frames.len() as int) =~= frames);
    assert(popped(Seq::empty(), cap, ops) =~= frames);
    assert(run_ops(Seq::empty(), cap, ops) =~= Seq::<u32>::empty());
}

} // verus!
