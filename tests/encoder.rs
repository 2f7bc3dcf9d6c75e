use quest_shadowplay::encoder::{rgba_to_yuv420, Mp4Muxer};

#[test]
fn test_yuv_conversion_size() {
    let width = 100;
    let height = 100;
    let rgba = vec![128u8; (width * height * 4) as usize];

    let yuv = rgba_to_yuv420(&rgba, width, height);

    let expected = (width * height) as usize + (width * height / 2) as usize;
    assert_eq!(yuv.len(), expected);
}

#[test]
fn grey_stays_grey() {
    let rgba = vec![128u8; 4 * 4 * 4];
    let yuv = rgba_to_yuv420(&rgba, 4, 4);
    assert_eq!(yuv, vec![128u8; 24]);
}

#[test]
fn red_block_values() {
    let mut rgba = Vec::new();
    for _ in 0..4 {
        rgba.extend_from_slice(&[255, 0, 0, 255]);
    }
    let yuv = rgba_to_yuv420(&rgba, 2, 2);
    assert_eq!(yuv, vec![76, 76, 76, 76, 84, 255]);
}

#[test]
fn odd_sizes_pad_with_zeros() {
    let rgba = vec![0u8; 3 * 3 * 4];
    let yuv = rgba_to_yuv420(&rgba, 3, 3);
    assert_eq!(yuv.len(), 9 + 4);
    assert_eq!(&yuv[0..9], &[0u8; 9]);
    assert_eq!(&yuv[9..11], &[128, 128]);
    assert_eq!(&yuv[11..13], &[0, 0]);
}

#[test]
fn muxer_collects_frames() {
    let mut muxer = Mp4Muxer::new("/tmp/out.mp4", 2, 2, 30).unwrap();
    assert!(muxer.add_frame(&[1, 2], 0).is_ok());
    assert!(muxer.add_frame(&[3], 33_333).is_ok());
    assert_eq!(muxer.frame_count(), 2);
}
