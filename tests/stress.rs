use loopback::callbacks::{capture_block, fill_output};
use loopback::ring::RingBuffer;

#[test]
fn simulated_clock_drift_keeps_occupancy_bounded() {
    const BLOCK: usize = 256;
    const ITERATIONS: u64 = 10_000;
    const CAPTURE_PERIOD: u64 = 1000;
    const PLAYBACK_PERIOD: u64 = 1010;
    let cap = 16 * BLOCK;
    let mut rb = RingBuffer::new(cap);
    let mut input = vec![0u32; BLOCK];
    let mut output = vec![0u32; BLOCK];
    let (mut pushes, mut pops) = (0u64, 0u64);
    let (mut next_in, mut expect) = (1u32, 1u32);
    let (mut lost, mut read_total, mut silence) = (0u64, 0u64, 0u64);
    while pushes < ITERATIONS || pops < ITERATIONS {
        let capture_due = pushes < ITERATIONS
            && (pops >= ITERATIONS || pushes * CAPTURE_PERIOD <= pops * PLAYBACK_PERIOD);
        if capture_due {
            for s in input.iter_mut() {
                *s = next_in;
                next_in += 1;
            }
            lost += capture_block(&mut rb, &input) as u64;
            pushes += 1;
        } else {
            let read = fill_output(&mut rb, &mut output);
            for s in &output[..read] {
                // Samples come out in order, with gaps only where overflow dropped some.
                assert!(*s >= expect);
                expect = *s + 1;
            }
            assert!(output[read..].iter().all(|s| *s == 0));
            read_total += read as u64;
            silence += (BLOCK - read) as u64;
            pops += 1;
        }
        assert!(rb.occupancy() <= cap);
    }
    let pushed = ITERATIONS * BLOCK as u64;
    assert_eq!(rb.dropped(), lost);
    assert_eq!(pushed, read_total + lost + rb.occupancy() as u64);
    assert_eq!(read_total + silence, ITERATIONS * BLOCK as u64);
    // The capture clock gains one block on playback every 101 periods.
    let drift_blocks = ITERATIONS * (PLAYBACK_PERIOD - CAPTURE_PERIOD) / PLAYBACK_PERIOD + 1;
    assert!(lost <= drift_blocks * BLOCK as u64);
    println!("dropped {} of {} samples", lost, pushed);
}
