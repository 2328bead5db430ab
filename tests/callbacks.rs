use loopback::callbacks::{capture_block, fill_output, fill_silence};
use loopback::ring::RingBuffer;

#[test]
fn playback_underrun_is_silence() {
    let mut rb = RingBuffer::new(8);
    capture_block(&mut rb, &[1.0f32.to_bits(), 0.5f32.to_bits()]);
    let mut out = [0xdead_beefu32; 5];
    let read = fill_output(&mut rb, &mut out);
    assert_eq!(read, 2);
    assert_eq!(out, [1.0f32.to_bits(), 0.5f32.to_bits(), 0, 0, 0]);
    for s in &out[2..] {
        assert_eq!(f32::from_bits(*s), 0.0);
    }
}

#[test]
fn playback_from_empty_buffer_is_all_silence() {
    let mut rb = RingBuffer::new(4);
    let mut out = [3u32; 4];
    assert_eq!(fill_output(&mut rb, &mut out), 0);
    assert_eq!(out, [0, 0, 0, 0]);
}

#[test]
fn playback_with_enough_data_has_no_silence() {
    let mut rb = RingBuffer::new(8);
    capture_block(&mut rb, &[1, 2, 3, 4, 5]);
    let mut out = [0u32; 3];
    assert_eq!(fill_output(&mut rb, &mut out), 3);
    assert_eq!(out, [1, 2, 3]);
    assert_eq!(rb.occupancy(), 2);
}

#[test]
fn capture_reports_overflow_losses() {
    let mut rb = RingBuffer::new(4);
    assert_eq!(capture_block(&mut rb, &[1, 2, 3]), 0);
    assert_eq!(capture_block(&mut rb, &[4, 5, 6]), 2);
    assert_eq!(capture_block(&mut rb, &[7, 8, 9, 10, 11, 12]), 6);
    assert_eq!(rb.dropped(), 8);
    let mut out = [0u32; 4];
    fill_output(&mut rb, &mut out);
    assert_eq!(out, [9, 10, 11, 12]);
}

#[test]
fn silence_block_is_zero() {
    let mut out = [9u32; 6];
    fill_silence(&mut out);
    assert_eq!(out, [0u32; 6]);
    let mut empty: [u32; 0] = [];
    fill_silence(&mut empty);
}
