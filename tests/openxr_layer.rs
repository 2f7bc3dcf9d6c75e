use std::sync::Arc;

use quest_shadowplay::frame_window::SharedFrameBuffer;
use quest_shadowplay::openxr_layer::{EyeTexture, FrameSubmissionData, OpenXRLayer, XR_SUCCESS};

#[test]
fn test_layer_creation() {
    let buffer = Arc::new(SharedFrameBuffer::new(1_000, 10));
    let layer = OpenXRLayer::new(buffer);

    assert!(layer.is_enabled());
    assert_eq!(layer.frames_captured(), 0);
    assert_eq!(layer.frames_skipped(), 0);
}

#[test]
fn test_enable_disable() {
    let buffer = Arc::new(SharedFrameBuffer::new(1_000, 10));
    let mut layer = OpenXRLayer::new(buffer);

    assert!(layer.is_enabled());

    layer.disable();
    assert!(!layer.is_enabled());

    layer.enable();
    assert!(layer.is_enabled());
}

fn texture(width: u32, height: u32) -> EyeTexture {
    EyeTexture { handle: 1, width, height, format: 0 }
}

#[test]
fn both_eyes_go_into_the_window() {
    let buffer = Arc::new(SharedFrameBuffer::new(1_000, 10));
    let mut layer = OpenXRLayer::new(Arc::clone(&buffer));
    let data = FrameSubmissionData { eye_textures: vec![texture(16, 16), texture(16, 16)], display_time_ns: 0 };
    assert_eq!(layer.on_end_frame(7, &data), XR_SUCCESS);
    assert_eq!(layer.frames_captured(), 2);
    let snap = buffer.snapshot();
    assert_eq!(snap.len(), 2);
    assert_eq!((snap[0].eye_index, snap[1].eye_index), (0, 1));
}

#[test]
fn disabled_layer_passes_frames_through() {
    let buffer = Arc::new(SharedFrameBuffer::new(1_000, 10));
    let mut layer = OpenXRLayer::new(Arc::clone(&buffer));
    layer.disable();
    let data = FrameSubmissionData { eye_textures: vec![texture(8, 8)], display_time_ns: 0 };
    assert_eq!(layer.on_end_frame(7, &data), XR_SUCCESS);
    assert_eq!(layer.frames_captured(), 0);
    assert_eq!(buffer.frame_count(), 0);
}

#[test]
fn oversized_texture_is_skipped() {
    let buffer = Arc::new(SharedFrameBuffer::new(1_000, 10));
    let mut layer = OpenXRLayer::new(buffer);
    let data = FrameSubmissionData { eye_textures: vec![texture(70_000, 70_000)], display_time_ns: 0 };
    layer.on_end_frame(7, &data);
    assert_eq!(layer.frames_skipped(), 1);
    assert_eq!(layer.frames_captured(), 0);
}
