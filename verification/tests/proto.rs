use audio_hub::proto::{
    decode_begin_file_payload, decode_device_list, decode_device_selector, decode_playback_pos,
    decode_track_info, encode_begin_file_payload, encode_device_list, encode_device_selector,
    encode_frame, encode_playback_pos, encode_track_info, read_frame_header, read_prelude,
    write_frame, write_prelude, ErrorKind, FrameKind, ProtoError, FRAME_HEADER_LEN, VERSION,
};

fn le16(v: u16) -> [u8; 2] {
    v.to_le_bytes()
}

#[test]
fn prelude_roundtrip_ok() {
    let mut buf = Vec::new();
    write_prelude(&mut buf);
    read_prelude(&buf).unwrap();
}

#[test]
fn prelude_rejects_bad_magic() {
    let mut buf = Vec::new();
    buf.extend_from_slice(b"NOPE");
    buf.extend_from_slice(&le16(VERSION));
    let err = read_prelude(&buf).unwrap_err();
    assert_eq!(err.kind(), ErrorKind::InvalidData);
}

#[test]
fn prelude_rejects_bad_version() {
    let mut buf = Vec::new();
    buf.extend_from_slice(b"ABRD");
    buf.extend_from_slice(&le16(VERSION + 1));
    let err = read_prelude(&buf).unwrap_err();
    assert_eq!(err.kind(), ErrorKind::InvalidData);
}

#[test]
fn frame_encode_and_header_roundtrip() {
    let payload = b"hello";
    let frame = encode_frame(FrameKind::FileChunk, payload).unwrap();
    let (kind, len) = read_frame_header(&frame).unwrap();
    assert_eq!(kind, FrameKind::FileChunk);
    assert_eq!(len, payload.len() as u32);

    let read_payload = &frame[FRAME_HEADER_LEN..FRAME_HEADER_LEN + len as usize];
    assert_eq!(read_payload, payload);
}

#[test]
fn write_frame_roundtrip() {
    let payload = b"abc123";
    let mut buf = Vec::new();
    write_frame(&mut buf, FrameKind::BeginFile, payload).unwrap();

    let (kind, len) = read_frame_header(&buf).unwrap();
    assert_eq!(kind, FrameKind::BeginFile);
    assert_eq!(len, payload.len() as u32);
    let read_payload = &buf[FRAME_HEADER_LEN..FRAME_HEADER_LEN + len as usize];
    assert_eq!(read_payload, payload);
}

#[test]
fn begin_file_payload_roundtrip() {
    let ext = "flac";
    let payload = encode_begin_file_payload(ext).unwrap();
    let decoded = decode_begin_file_payload(&payload).unwrap();
    assert_eq!(decoded, ext);
}

#[test]
fn begin_file_payload_rejects_short() {
    let err = decode_begin_file_payload(&[0x00]).unwrap_err();
    assert_eq!(err.kind(), ErrorKind::InvalidData);
}

#[test]
fn begin_file_payload_rejects_len_mismatch() {
    let payload = [0x02, 0x00, b'a']; // says len=2, only 1 byte provided
    let err = decode_begin_file_payload(&payload).unwrap_err();
    assert_eq!(err.kind(), ErrorKind::InvalidData);
}

#[test]
fn track_info_roundtrip() {
    let payload = encode_track_info(48_000, 2, Some(123_456));
    let (sr, ch, dur) = decode_track_info(&payload).unwrap();
    assert_eq!(sr, 48_000);
    assert_eq!(ch, 2);
    assert_eq!(dur, Some(123_456));
}

#[test]
fn track_info_unknown_duration() {
    let payload = encode_track_info(44_100, 1, None);
    let (_sr, _ch, dur) = decode_track_info(&payload).unwrap();
    assert_eq!(dur, None);
}

#[test]
fn track_info_rejects_bad_len() {
    let err = decode_track_info(&[0u8; 10]).unwrap_err();
    assert_eq!(err.kind(), ErrorKind::InvalidData);
}

#[test]
fn playback_pos_roundtrip() {
    let payload = encode_playback_pos(987_654, true);
    let (frames, paused) = decode_playback_pos(&payload).unwrap();
    assert_eq!(frames, 987_654);
    assert!(paused);
}

#[test]
fn playback_pos_rejects_bad_len() {
    let err = decode_playback_pos(&[0u8; 8]).unwrap_err();
    assert_eq!(err.kind(), ErrorKind::InvalidData);
}

#[test]
fn frame_kind_codes_are_stable() {
    assert_eq!(FrameKind::from_u8(0x10).unwrap(), FrameKind::BeginFile);
    assert_eq!(FrameKind::from_u8(0x7F).unwrap(), FrameKind::Error);
    assert_eq!(FrameKind::DeviceSet.as_u8(), 0x43);
    assert_eq!(FrameKind::from_u8(0x22), Err(ProtoError::UnknownFrameKind(0x22)));
    for b in 0u8..=255 {
        if let Ok(k) = FrameKind::from_u8(b) {
            assert_eq!(k.as_u8(), b);
        }
    }
}

#[test]
fn prelude_bytes_are_magic_and_version() {
    let mut buf = vec![9u8];
    write_prelude(&mut buf);
    assert_eq!(buf, vec![9, b'A', b'B', b'R', b'D', 4, 0]);
    assert_eq!(read_prelude(&buf[1..4]), Err(ProtoError::UnexpectedEof));
    assert_eq!(read_prelude(&buf[1..6]), Err(ProtoError::UnexpectedEof));
    assert_eq!(read_prelude(b"ABRD\x05\x00"), Err(ProtoError::UnsupportedVersion(5)));
}

#[test]
fn frame_header_layout_and_errors() {
    let frame = encode_frame(FrameKind::PlaybackPos, &[1, 2, 3]).unwrap();
    assert_eq!(frame, vec![0x31, 3, 0, 0, 0, 1, 2, 3]);
    assert_eq!(read_frame_header(&[]), Err(ProtoError::UnexpectedEof));
    assert_eq!(read_frame_header(&[0x99, 0, 0, 0, 0]), Err(ProtoError::UnknownFrameKind(0x99)));
    assert_eq!(read_frame_header(&[0x11, 0, 0]), Err(ProtoError::UnexpectedEof));
    assert_eq!(read_frame_header(&[0x11, 0x01, 0x02, 0x03, 0x04]).unwrap(), (FrameKind::FileChunk, 0x0403_0201));
}

#[test]
fn begin_file_payload_layout_and_errors() {
    assert_eq!(encode_begin_file_payload("mp3").unwrap(), vec![3, 0, b'm', b'p', b'3']);
    assert_eq!(decode_begin_file_payload(&[0, 0]).unwrap(), "");
    assert_eq!(decode_begin_file_payload(&[1, 0, 0xff]), Err(ProtoError::ExtensionNotUtf8));
    let long = "x".repeat(70_000);
    assert_eq!(encode_begin_file_payload(&long), Err(ProtoError::ExtensionTooLong));
    assert_eq!(encode_begin_file_payload(&long).unwrap_err().kind(), ErrorKind::InvalidInput);
    let utf = "ökö";
    assert_eq!(decode_begin_file_payload(&encode_begin_file_payload(utf).unwrap()).unwrap(), utf);
}

#[test]
fn track_info_layout_and_zero_duration() {
    let payload = encode_track_info(1, 2, Some(3));
    assert_eq!(payload, vec![1, 0, 0, 0, 2, 0, 3, 0, 0, 0, 0, 0, 0, 0]);
    let payload = encode_track_info(1, 2, Some(0));
    assert_eq!(decode_track_info(&payload).unwrap(), (1, 2, None));
}

#[test]
fn playback_pos_layout() {
    assert_eq!(encode_playback_pos(0x0102, false), vec![2, 1, 0, 0, 0, 0, 0, 0, 0]);
    assert_eq!(decode_playback_pos(&[0, 0, 0, 0, 0, 0, 0, 0, 7]).unwrap(), (0, true));
}

#[test]
fn device_list_roundtrip_and_errors() {
    let names = vec!["Built-in".to_string(), "USB DAC".to_string(), String::new()];
    let payload = encode_device_list(&names).unwrap();
    assert_eq!(&payload[..4], &[3, 0, 8, 0]);
    assert_eq!(decode_device_list(&payload).unwrap(), names);
    assert_eq!(decode_device_list(&[1]), Err(ProtoError::ShortDeviceList));
    assert_eq!(decode_device_list(&[1, 0, 5]), Err(ProtoError::TruncatedDeviceList));
    assert_eq!(decode_device_list(&[1, 0, 5, 0, b'a']), Err(ProtoError::TruncatedDeviceName));
    assert_eq!(decode_device_list(&[1, 0, 1, 0, 0xff]), Err(ProtoError::DeviceNameNotUtf8));
    assert_eq!(decode_device_list(&[0, 0, 9, 9]).unwrap(), Vec::<String>::new());
    let too_long = vec!["y".repeat(70_000)];
    assert_eq!(encode_device_list(&too_long), Err(ProtoError::DeviceNameTooLong));
    let too_many = vec![String::new(); 70_000];
    assert_eq!(encode_device_list(&too_many), Err(ProtoError::TooManyDevices));
}

#[test]
fn device_selector_roundtrip_and_errors() {
    let payload = encode_device_selector("USB").unwrap();
    assert_eq!(payload, vec![3, 0, b'U', b'S', b'B']);
    assert_eq!(decode_device_selector(&payload).unwrap(), "USB");
    assert_eq!(decode_device_selector(&[3]), Err(ProtoError::ShortDeviceSelector));
    assert_eq!(decode_device_selector(&[3, 0, b'a']), Err(ProtoError::DeviceSelectorLengthMismatch));
    assert_eq!(decode_device_selector(&[1, 0, 0xc3]), Err(ProtoError::DeviceSelectorNotUtf8));
    assert_eq!(encode_device_selector(&"z".repeat(70_000)), Err(ProtoError::DeviceNameTooLong));
}
