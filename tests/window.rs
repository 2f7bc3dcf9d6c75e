use quest_shadowplay::frame_window::{frame_capacity, SharedFrameBuffer};
use quest_shadowplay::CapturedFrame;

fn dummy_frame(id: u64) -> CapturedFrame {
    CapturedFrame {
        data: vec![0u8; 100],
        timestamp_ns: id,
        eye_index: 0,
        width: 100,
        height: 100,
    }
}

fn fill(buffer: &SharedFrameBuffer) -> f32 {
    buffer.frame_count() as f32 / buffer.capacity() as f32
}

#[test]
fn test_buffer_creation() {
    let buffer = SharedFrameBuffer::new(10_000, 90);
    assert_eq!(buffer.capacity(), 900);
    assert_eq!(buffer.frame_count(), 0);
}

#[test]
fn test_push_and_snapshot() {
    let buffer = SharedFrameBuffer::new(1_000, 10);

    for i in 0..5 {
        buffer.push_frame(dummy_frame(i));
    }

    let snapshot = buffer.snapshot();
    assert_eq!(snapshot.len(), 5);

    assert_eq!(snapshot[0].timestamp_ns, 0);
    assert_eq!(snapshot[4].timestamp_ns, 4);
}

#[test]
fn test_buffer_overflow() {
    let buffer = SharedFrameBuffer::new(1_000, 5);

    for i in 0..8 {
        buffer.push_frame(dummy_frame(i));
    }

    let snapshot = buffer.snapshot();

    assert_eq!(snapshot.len(), 5);

    assert_eq!(snapshot[0].timestamp_ns, 3);
    assert_eq!(snapshot[4].timestamp_ns, 7);
}

#[test]
fn test_fill_percentage() {
    let buffer = SharedFrameBuffer::new(1_000, 10);

    assert_eq!(fill(&buffer), 0.0);

    for i in 0..5 {
        buffer.push_frame(dummy_frame(i));
    }
    assert!((fill(&buffer) - 0.5).abs() < 0.01);

    for i in 5..10 {
        buffer.push_frame(dummy_frame(i));
    }
    assert!((fill(&buffer) - 1.0).abs() < 0.01);
}

#[test]
fn snapshot_twice_gives_same_frames() {
    let buffer = SharedFrameBuffer::with_capacity(4);
    for i in 0..6 {
        buffer.push_frame(dummy_frame(i));
    }
    let a: Vec<u64> = buffer.snapshot().iter().map(|f| f.timestamp_ns).collect();
    let b: Vec<u64> = buffer.snapshot().iter().map(|f| f.timestamp_ns).collect();
    assert_eq!(a, b);
    assert_eq!(a, vec![2, 3, 4, 5]);
}

#[test]
fn clear_keeps_capacity() {
    let buffer = SharedFrameBuffer::with_capacity(3);
    buffer.push_frame(dummy_frame(1));
    buffer.clear();
    assert_eq!(buffer.frame_count(), 0);
    assert_eq!(buffer.capacity(), 3);
    assert!(buffer.snapshot().is_empty());
}

#[test]
fn capacity_rounds_up() {
    assert_eq!(frame_capacity(10_000, 90), 900);
    assert_eq!(frame_capacity(1_500, 1), 2);
    assert_eq!(frame_capacity(1_001, 1000), 1001);
    assert_eq!(frame_capacity(0, 90), 0);
}
