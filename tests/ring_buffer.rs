use loopback::ring::RingBuffer;

fn drain(rb: &mut RingBuffer) -> Vec<u32> {
    let mut out = vec![0u32; rb.capacity_samples()];
    let n = rb.try_pop(&mut out);
    out.truncate(n);
    out
}

#[test]
fn new_buffer_is_empty() {
    let rb = RingBuffer::new(8);
    assert_eq!(rb.capacity_samples(), 8);
    assert_eq!(rb.occupancy(), 0);
    assert_eq!(rb.dropped(), 0);
}

#[test]
fn push_then_pop_is_fifo() {
    let mut rb = RingBuffer::new(8);
    assert_eq!(rb.try_push(&[1, 2, 3]), 3);
    assert_eq!(rb.try_push(&[4, 5]), 2);
    let mut out = [9u32; 2];
    assert_eq!(rb.try_pop(&mut out), 2);
    assert_eq!(out, [1, 2]);
    assert_eq!(drain(&mut rb), vec![3, 4, 5]);
    assert_eq!(rb.occupancy(), 0);
}

#[test]
fn pop_from_empty_reads_nothing_and_leaves_output() {
    let mut rb = RingBuffer::new(4);
    let mut out = [7u32; 3];
    assert_eq!(rb.try_pop(&mut out), 0);
    assert_eq!(out, [7, 7, 7]);
}

#[test]
fn short_pop_leaves_tail_untouched() {
    let mut rb = RingBuffer::new(4);
    rb.try_push(&[10, 20]);
    let mut out = [7u32; 4];
    assert_eq!(rb.try_pop(&mut out), 2);
    assert_eq!(out, [10, 20, 7, 7]);
}

#[test]
fn overflow_drops_oldest() {
    let mut rb = RingBuffer::new(4);
    rb.try_push(&[1, 2, 3, 4]);
    assert_eq!(rb.try_push(&[5, 6]), 2);
    assert_eq!(rb.dropped(), 2);
    assert_eq!(drain(&mut rb), vec![3, 4, 5, 6]);
}

#[test]
fn overflow_by_oversized_block_keeps_its_newest() {
    let mut rb = RingBuffer::new(3);
    rb.try_push(&[1]);
    assert_eq!(rb.try_push(&[2, 3, 4, 5, 6]), 3);
    assert_eq!(rb.dropped(), 3);
    assert_eq!(drain(&mut rb), vec![4, 5, 6]);
}

#[test]
fn full_buffer_retains_exactly_capacity_most_recent() {
    let cap = 16usize;
    let mut rb = RingBuffer::new(cap);
    let all: Vec<u32> = (0..100u32).collect();
    for chunk in all.chunks(7) {
        rb.try_push(chunk);
        assert!(rb.occupancy() <= cap);
    }
    assert_eq!(rb.occupancy(), cap);
    assert_eq!(rb.dropped(), 100 - cap as u64);
    assert_eq!(drain(&mut rb), all[100 - cap..].to_vec());
}

#[test]
fn wraps_around_many_times() {
    let mut rb = RingBuffer::new(5);
    let mut next = 0u32;
    let mut expect = 0u32;
    for round in 0..50u32 {
        let n = (round % 4 + 1) as usize;
        let block: Vec<u32> = (0..n as u32).map(|k| next + k).collect();
        next += n as u32;
        rb.try_push(&block);
        let mut out = [0u32; 5];
        let got = rb.try_pop(&mut out);
        for v in &out[..got] {
            assert_eq!(*v, expect);
            expect += 1;
        }
    }
}

#[test]
fn zero_capacity_drops_everything() {
    let mut rb = RingBuffer::new(0);
    assert_eq!(rb.try_push(&[1, 2, 3]), 0);
    assert_eq!(rb.dropped(), 3);
    let mut out = [5u32; 2];
    assert_eq!(rb.try_pop(&mut out), 0);
    assert_eq!(out, [5, 5]);
}

#[test]
fn round_trip_is_bit_exact() {
    let samples: Vec<f32> = vec![0.0, -0.0, 1.0, -1.0, 0.5, -0.25, f32::MIN_POSITIVE, 1e-40];
    let bits: Vec<u32> = samples.iter().map(|s| s.to_bits()).collect();
    let mut rb = RingBuffer::new(16);
    assert_eq!(rb.try_push(&bits), bits.len());
    let mut out = vec![0u32; bits.len()];
    assert_eq!(rb.try_pop(&mut out), bits.len());
    assert_eq!(out, bits);
    let back: Vec<f32> = out.iter().map(|b| f32::from_bits(*b)).collect();
    for (a, b) in samples.iter().zip(back.iter()) {
        assert_eq!(a.to_bits(), b.to_bits());
    }
    assert_eq!(rb.occupancy(), 0);
}
