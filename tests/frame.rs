use quest_shadowplay::{CapturedFrame, CompressionError, FrameCompressor};

#[test]
fn frame_test_frame_creation() {
    let data = vec![0u8; 1000];
    let frame = CapturedFrame::new(data.clone(), 0, 100, 100);

    assert_eq!(frame.data, data);
    assert_eq!(frame.eye_index, 0);
    assert_eq!(frame.width, 100);
    assert_eq!(frame.height, 100);
    assert!(frame.timestamp_ns > 0);
}

#[test]
fn mod_test_frame_creation() {
    let data = vec![0u8; 1000];
    let frame = CapturedFrame::new(data.clone(), 0, 100, 100);

    assert_eq!(frame.data, data);
    assert_eq!(frame.eye_index, 0);
    assert_eq!(frame.width, 100);
    assert_eq!(frame.height, 100);
    assert!(frame.timestamp_ns > 0);
}

#[test]
fn test_uncompressed_size() {
    let frame = CapturedFrame::new(vec![0u8; 1000], 0, 100, 100);
    assert_eq!(frame.uncompressed_size(), 40000);
}

#[test]
fn estimated_uncompressed_size_matches() {
    let frame = CapturedFrame::new(vec![0u8; 1000], 0, 100, 100);
    assert_eq!(frame.estimated_uncompressed_size(), 40000);
    assert_eq!(frame.compressed_size(), 1000);
}

#[test]
fn test_compressor_quality() {
    let compressor = FrameCompressor::new(80);
    assert_eq!(compressor.quality(), 80);

    let high = FrameCompressor::new(150);
    assert_eq!(high.quality(), 100);
}

#[test]
fn test_compressor_creation() {
    let compressor = FrameCompressor::new(80);
    assert_eq!(compressor.quality(), 80);

    let high_quality = FrameCompressor::new(150);
    assert_eq!(high_quality.quality(), 100);
}

#[test]
fn test_compression() {
    let compressor = FrameCompressor::new(80);

    let mut raw_rgba = vec![0u8; 100 * 100 * 4];
    for i in 0..(100 * 100) {
        raw_rgba[i * 4] = (i % 256) as u8;
        raw_rgba[i * 4 + 1] = ((i / 100) % 256) as u8;
        raw_rgba[i * 4 + 2] = 128;
        raw_rgba[i * 4 + 3] = 255;
    }

    let result = compressor.compress(&raw_rgba, 100, 100);
    assert!(result.is_ok());

    let compressed = result.unwrap();
    assert!(compressed.len() < raw_rgba.len() / 2);
}

#[test]
fn test_compression_invalid_size() {
    let compressor = FrameCompressor::new(80);
    let result = compressor.compress(&[0u8; 100], 100, 100);
    assert!(result.is_err());
}

#[test]
fn compression_invalid_size_reports_lengths() {
    let compressor = FrameCompressor::new(80);
    match compressor.compress(&[0u8; 100], 100, 100) {
        Err(CompressionError::InvalidInputSize { expected, got }) => {
            assert_eq!(expected, 40000);
            assert_eq!(got, 100);
        }
        _ => panic!("expected an invalid size error"),
    }
}

#[test]
fn compressed_output_is_jpeg() {
    let compressor = FrameCompressor::default();
    assert_eq!(compressor.quality(), 80);
    let raw = vec![200u8; 16 * 16 * 4];
    let jpeg = compressor.compress(&raw, 16, 16).unwrap();
    assert_ne!(jpeg, raw);
    assert_eq!(&jpeg[0..2], &[0xFF, 0xD8]);
}

#[test]
fn frame_with_timestamp_keeps_fields() {
    let frame = CapturedFrame::with_timestamp(vec![1, 2, 3], 1, 4, 5, 77);
    assert_eq!(frame.timestamp_ns, 77);
    assert_eq!(frame.eye_index, 1);
    let copy = frame.duplicate();
    assert_eq!(copy.data, vec![1, 2, 3]);
    assert_eq!(copy.timestamp_ns, 77);
}
