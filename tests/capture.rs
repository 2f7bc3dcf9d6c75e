use quest_shadowplay::capture::{
    frame_interval_us, generate_test_frame, pacing_delay_us, scale_bgra_to_rgba, test_pattern,
    AndroidCapture,
    CaptureHandle, MacOSCapture, SimulatedCapture,
};
use quest_shadowplay::encoder::VideoEncoder;
use quest_shadowplay::results::detect_export_fps;
use quest_shadowplay::{CapturedFrame, FrameCompressor};

#[test]
fn test_encoder_creation() {
    let encoder = VideoEncoder::new(1920, 1080, 90, 20_000_000);
    assert!(encoder.is_ok());

    let encoder = encoder.unwrap();
    let stats = encoder.stats();
    assert_eq!(stats.width, 1920);
    assert_eq!(stats.height, 1080);
    assert_eq!(stats.fps, 90);
}

#[test]
fn sources_have_their_rates() {
    let sim = SimulatedCapture::new();
    assert_eq!((sim.fps(), sim.width(), sim.height()), (30, 256, 256));
    let custom = SimulatedCapture::with_params(60, 8, 4);
    assert_eq!((custom.fps(), custom.width(), custom.height()), (60, 8, 4));
    assert_eq!(AndroidCapture::new().fps(), 60);
    assert_eq!(MacOSCapture::new().fps(), 30);
    assert!(!CaptureHandle::new().is_active());
}

#[test]
fn pacing_counts_from_start() {
    assert_eq!(frame_interval_us(30), 33_333);
    assert_eq!(pacing_delay_us(3, 33_333, 50_000), 49_999);
    assert_eq!(pacing_delay_us(3, 33_333, 200_000), 0);
    assert_eq!(pacing_delay_us(0, 33_333, 0), 0);
}

#[test]
fn pattern_is_reproducible() {
    let a = test_pattern(7, 4, 2);
    let b = test_pattern(7, 4, 2);
    assert_eq!(a, b);
    assert_eq!(a.len(), 32);
    assert_eq!(&a[0..4], &[7, 14, 21, 255]);
    assert_eq!(&a[4..8], &[64 + 7, 14, 21, 255]);
    assert_eq!(&a[16..20], &[7, 128 + 14, 21, 255]);
    assert_ne!(test_pattern(8, 4, 2), a);
}

#[test]
fn test_frame_is_compressed() {
    let compressor = FrameCompressor::new(80);
    let frame = generate_test_frame(&compressor, 3, 32, 32).unwrap();
    assert_eq!((frame.width, frame.height, frame.eye_index), (32, 32, 0));
    assert!(!frame.data.is_empty());
}

#[test]
fn export_rate_from_timestamps() {
    let f = |t: u64| CapturedFrame::with_timestamp(vec![], 0, 1, 1, t);
    let frames: Vec<CapturedFrame> = (0..90).map(|i| f(i * 11_111_111)).collect();
    assert_eq!(detect_export_fps(&frames), 91);
    assert_eq!(detect_export_fps(&frames[..1]), 30);
    assert_eq!(detect_export_fps(&[f(5), f(5)]), 30);
    assert_eq!(detect_export_fps(&[f(0), f(1_000_000_000)]), 2);
}

#[test]
fn screenshot_scaling_swaps_channels() {
    let pixels: Vec<u8> = (1..=16).collect();
    assert_eq!(scale_bgra_to_rgba(&pixels, 2, 2, 8, 1, 1), vec![3, 2, 1, 255]);
    let wide = scale_bgra_to_rgba(&pixels, 2, 2, 8, 4, 2);
    assert_eq!(&wide[0..16], &[3, 2, 1, 255, 3, 2, 1, 255, 7, 6, 5, 255, 7, 6, 5, 255]);
    assert_eq!(&wide[16..20], &[11, 10, 9, 255]);
    assert_eq!(scale_bgra_to_rgba(&pixels, 2, 2, 100, 1, 2), vec![3, 2, 1, 255, 0, 0, 0, 0]);
}

#[test]
fn zero_size_pattern_is_empty() {
    assert!(test_pattern(3, 0, 5).is_empty());
    assert!(test_pattern(3, 5, 0).is_empty());
    let frame = generate_test_frame(&FrameCompressor::new(80), 0, 0, 0);
    assert!(frame.is_some());
}

#[test]
fn test_frames_are_deterministic() {
    let compressor = FrameCompressor::new(80);
    let a = generate_test_frame(&compressor, 11, 24, 16).unwrap();
    let b = generate_test_frame(&compressor, 11, 24, 16).unwrap();
    assert_eq!(a.data, b.data);
}
