use farreach::protocol::{decode_frame, encode_frame, frame_body_len, FrameError, Platform, MAX_FRAME_BYTES};

#[test]
fn frame_has_big_endian_length_prefix() {
    let frame = encode_frame(b"{}").unwrap();
    assert_eq!(frame, vec![0, 0, 0, 2, b'{', b'}']);
    let body = vec![7u8; 0x0102_03];
    let frame = encode_frame(&body).unwrap();
    assert_eq!(&frame[..4], &[0x00, 0x01, 0x02, 0x03]);
    assert_eq!(frame.len(), 4 + body.len());
}

#[test]
fn frame_round_trip_leaves_rest() {
    let body = b"{\"type\":\"done\",\"success\":true}".to_vec();
    let mut buf = encode_frame(&body).unwrap();
    buf.extend_from_slice(b"next");
    let (got, used) = decode_frame(&buf).unwrap().unwrap();
    assert_eq!(got, body);
    assert_eq!(used, 4 + body.len());
    assert_eq!(&buf[used..], b"next");
}

#[test]
fn empty_body_round_trips() {
    let buf = encode_frame(&[]).unwrap();
    assert_eq!(buf, vec![0, 0, 0, 0]);
    assert_eq!(decode_frame(&buf).unwrap(), Some((vec![], 4)));
}

#[test]
fn frame_limit_is_enforced_both_ways() {
    let body = vec![0u8; MAX_FRAME_BYTES as usize];
    assert!(encode_frame(&body).is_ok());
    let body = vec![0u8; MAX_FRAME_BYTES as usize + 1];
    assert_eq!(encode_frame(&body), Err(FrameError::OverLimit { len: 1_048_577 }));
    assert_eq!(frame_body_len([0, 0x10, 0, 1]), Err(FrameError::OverLimit { len: 1_048_577 }));
    assert_eq!(frame_body_len([0, 0x10, 0, 0]), Ok(1_048_576));
    assert_eq!(decode_frame(&[0xff, 0xff, 0xff, 0xff]), Err(FrameError::OverLimit { len: u32::MAX }));
}

#[test]
fn short_streams() {
    assert_eq!(decode_frame(&[]), Ok(None));
    assert_eq!(decode_frame(&[0, 0, 1]), Ok(None));
    assert_eq!(
        decode_frame(&[0, 0, 0, 5, 1, 2]),
        Err(FrameError::Truncated { expected: 5, available: 2 })
    );
}

#[test]
fn platform_names() {
    assert_eq!(Platform::Esp.name(), "esp");
    assert_eq!(Platform::Stm32.name(), "stm32");
    assert_eq!(Platform::Nordic.name(), "nordic");
}
