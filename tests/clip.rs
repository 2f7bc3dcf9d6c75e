use quest_shadowplay::clip::{ClipError, FrameReader};
use quest_shadowplay::encoder::VideoEncoder;
use quest_shadowplay::CapturedFrame;

fn frame(t: u64, payload: &[u8], eye: u32) -> CapturedFrame {
    CapturedFrame::with_timestamp(payload.to_vec(), eye, 4, 2, t)
}

#[test]
fn two_frames_round_trip() {
    let frames = vec![frame(0, b"a", 0), frame(1, b"b", 0)];
    let bytes = VideoEncoder::encode_frames(&frames, 90).unwrap();
    let reader = FrameReader::from_bytes(&bytes).unwrap();
    let back = reader.frames();
    assert_eq!(back.len(), 2);
    assert_eq!(back[0].timestamp_ns, 0);
    assert_eq!(back[0].data, b"a".to_vec());
    assert_eq!(back[1].timestamp_ns, 1);
    assert_eq!(back[1].data, b"b".to_vec());
    assert_eq!(reader.fps(), 90);
    assert_eq!(reader.width(), 4);
    assert_eq!(reader.height(), 2);
}

#[test]
fn round_trip_keeps_streams_and_order() {
    let frames = vec![frame(5, b"xyz", 1), frame(3, b"", 0), frame(9, &[0, 255, 7], 1)];
    let bytes = VideoEncoder::encode_frames(&frames, 72).unwrap();
    let back = FrameReader::from_bytes(&bytes).unwrap();
    let got: Vec<(u64, u32, Vec<u8>)> =
        back.frames().iter().map(|f| (f.timestamp_ns, f.eye_index, f.data.clone())).collect();
    let want: Vec<(u64, u32, Vec<u8>)> =
        frames.iter().map(|f| (f.timestamp_ns, f.eye_index, f.data.clone())).collect();
    assert_eq!(got, want);
}

#[test]
fn container_layout_is_little_endian() {
    let frames = vec![frame(0x0102, b"ab", 3)];
    let bytes = VideoEncoder::encode_frames(&frames, 60).unwrap();
    assert_eq!(&bytes[0..8], b"QSPCLIP\x01");
    assert_eq!(&bytes[8..12], &[1, 0, 0, 0]);
    assert_eq!(&bytes[12..16], &[4, 0, 0, 0]);
    assert_eq!(&bytes[16..20], &[2, 0, 0, 0]);
    assert_eq!(&bytes[20..24], &[60, 0, 0, 0]);
    assert_eq!(&bytes[24..32], &[2, 1, 0, 0, 0, 0, 0, 0]);
    assert_eq!(&bytes[32..36], &[3, 0, 0, 0]);
    assert_eq!(&bytes[36..40], &[2, 0, 0, 0]);
    assert_eq!(&bytes[40..], b"ab");
}

#[test]
fn empty_snapshot_is_rejected() {
    let frames: Vec<CapturedFrame> = Vec::new();
    assert_eq!(VideoEncoder::encode_frames(&frames, 90), Err(ClipError::EmptyInput));
}

#[test]
fn short_input_is_malformed() {
    assert_eq!(FrameReader::from_bytes(&[0u8; 10]).err(), Some(ClipError::MalformedHeader));
}

#[test]
fn wrong_magic_is_malformed() {
    let frames = vec![frame(1, b"a", 0)];
    let mut bytes = VideoEncoder::encode_frames(&frames, 90).unwrap();
    bytes[0] = b'X';
    assert_eq!(FrameReader::from_bytes(&bytes).err(), Some(ClipError::MalformedHeader));
}

#[test]
fn cut_record_is_truncated() {
    let frames = vec![frame(1, b"abcdef", 0)];
    let bytes = VideoEncoder::encode_frames(&frames, 90).unwrap();
    let cut = &bytes[..bytes.len() - 1];
    assert_eq!(FrameReader::from_bytes(cut).err(), Some(ClipError::TruncatedRecord));
    let head_only = &bytes[..30];
    assert_eq!(FrameReader::from_bytes(head_only).err(), Some(ClipError::TruncatedRecord));
}
