use arma_bench::codec::{decode_length, encode_frame, encode_length, split_frame, FrameSplit};

#[test]
fn length_is_little_endian() {
    assert_eq!(encode_length(0x0102_0304_0506_0708), vec![8, 7, 6, 5, 4, 3, 2, 1]);
    assert_eq!(encode_length(0), vec![0; 8]);
    assert_eq!(encode_length(u64::MAX), vec![255; 8]);
}

#[test]
fn length_decodes_back() {
    assert_eq!(decode_length(&[8, 7, 6, 5, 4, 3, 2, 1]), 0x0102_0304_0506_0708);
    assert_eq!(decode_length(&[44, 1, 0, 0, 0, 0, 0, 0]), 300);
    for n in [0u64, 1, 255, 256, 65_535, 1 << 40, u64::MAX] {
        assert_eq!(decode_length(&encode_length(n)), n);
    }
}

#[test]
fn frame_layout() {
    let f = encode_frame(&[10, 20, 30]);
    assert_eq!(f, vec![3, 0, 0, 0, 0, 0, 0, 0, 10, 20, 30]);
    assert_eq!(encode_frame(&[]), vec![0; 8]);
}

#[test]
fn frame_round_trip_with_trailing_bytes() {
    let payload: Vec<u8> = (0..=255u8).collect();
    let mut buf = encode_frame(&payload);
    buf.extend_from_slice(&[9, 9, 9]);
    match split_frame(&buf) {
        FrameSplit::Complete { payload: p, consumed } => {
            assert_eq!(p, payload);
            assert_eq!(consumed, 8 + 256);
        }
        FrameSplit::Incomplete => panic!("frame should be complete"),
    }
}

#[test]
fn incomplete_frames() {
    assert!(matches!(split_frame(&[]), FrameSplit::Incomplete));
    assert!(matches!(split_frame(&[5, 0, 0, 0]), FrameSplit::Incomplete));
    assert!(matches!(split_frame(&[5, 0, 0, 0, 0, 0, 0, 0, 1, 2]), FrameSplit::Incomplete));
    let huge = [255u8; 8];
    assert!(matches!(split_frame(&huge), FrameSplit::Incomplete));
}
