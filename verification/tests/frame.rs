use bytes::Bytes;
use p2p_transport::frame::{Frame, FrameDecodeError, FrameType};

fn frame(t: FrameType, stream_id: u32, payload: &[u8]) -> Frame {
    Frame { t, stream_id, payload: Bytes::copy_from_slice(payload) }
}

#[test]
fn encode_writes_the_documented_layout() {
    let wire = frame(FrameType::Data, 0x0403_0201, b"hi").encode();
    assert_eq!(&wire[..], &[1u8, 2, 3, 4, 2, 2, 0, 0, 0, b'h', b'i'][..]);
}

#[test]
fn encode_of_empty_close_is_nine_octets() {
    let wire = frame(FrameType::Close, 7, b"").encode();
    assert_eq!(&wire[..], &[7u8, 0, 0, 0, 3, 0, 0, 0, 0][..]);
}

#[test]
fn type_codes_are_one_to_four() {
    assert_eq!(FrameType::Open.code(), 1);
    assert_eq!(FrameType::Data.code(), 2);
    assert_eq!(FrameType::Close.code(), 3);
    assert_eq!(FrameType::Reset.code(), 4);
    assert_eq!(FrameType::from_code(1), Some(FrameType::Open));
    assert_eq!(FrameType::from_code(2), Some(FrameType::Data));
    assert_eq!(FrameType::from_code(3), Some(FrameType::Close));
    assert_eq!(FrameType::from_code(4), Some(FrameType::Reset));
    assert_eq!(FrameType::from_code(0), None);
    assert_eq!(FrameType::from_code(5), None);
    assert_eq!(FrameType::from_code(255), None);
}

#[test]
fn length_field_is_little_endian() {
    let payload = vec![0xabu8; 0x0102];
    let wire = frame(FrameType::Data, 1, &payload).encode();
    assert_eq!(&wire[5..9], &[0x02u8, 0x01, 0, 0][..]);
    assert_eq!(wire.len(), 9 + 0x0102);
}

#[test]
fn decode_inverts_encode() {
    for t in [FrameType::Open, FrameType::Data, FrameType::Close, FrameType::Reset] {
        for id in [0u32, 1, 2, 0x0102_0304, u32::MAX] {
            for payload in [&b""[..], &b"x"[..], &b"/ping/1.0.0"[..], &[0u8, 255, 10, 13][..]] {
                let wire = frame(t, id, payload).encode();
                let (back, taken) = Frame::decode(&wire).unwrap();
                assert_eq!(back.t, t);
                assert_eq!(back.stream_id, id);
                assert_eq!(&back.payload[..], payload);
                assert_eq!(taken, 9 + payload.len());
            }
        }
    }
}

#[test]
fn decode_inverts_encode_for_a_large_payload() {
    let payload = vec![0x5au8; 70_000];
    let wire = frame(FrameType::Data, 9, &payload).encode();
    let (back, taken) = Frame::decode(&wire).unwrap();
    assert_eq!(&back.payload[..], &payload[..]);
    assert_eq!(taken, 70_009);
}

#[test]
fn decode_leaves_trailing_octets_alone() {
    let mut wire = frame(FrameType::Data, 3, b"abc").encode().to_vec();
    wire.extend_from_slice(b"trailing");
    let (back, taken) = Frame::decode(&wire).unwrap();
    assert_eq!(&back.payload[..], b"abc");
    assert_eq!(taken, 12);
}

#[test]
fn decode_of_short_buffer_is_too_short() {
    for n in 0..9usize {
        let buf = vec![1u8; n];
        assert_eq!(Frame::decode(&buf).unwrap_err(), FrameDecodeError::TooShort);
    }
}

#[test]
fn decode_of_unknown_type_names_the_octet() {
    for code in [0u8, 5, 6, 100, 255] {
        let buf = [1u8, 0, 0, 0, code, 0, 0, 0, 0];
        assert_eq!(Frame::decode(&buf).unwrap_err(), FrameDecodeError::UnknownType(code));
    }
}

#[test]
fn decode_of_overlong_declaration_is_length_mismatch() {
    let buf = [1u8, 0, 0, 0, 2, 5, 0, 0, 0, b'a', b'b'];
    assert_eq!(
        Frame::decode(&buf).unwrap_err(),
        FrameDecodeError::LengthMismatch { declared: 5, actual: 2 }
    );
    let buf = [1u8, 0, 0, 0, 2, 0xff, 0xff, 0xff, 0xff];
    assert_eq!(
        Frame::decode(&buf).unwrap_err(),
        FrameDecodeError::LengthMismatch { declared: 0xffff_ffff, actual: 0 }
    );
}

#[test]
fn length_is_checked_before_type() {
    let buf = [1u8, 0, 0, 0, 9, 1, 0, 0, 0];
    assert_eq!(
        Frame::decode(&buf).unwrap_err(),
        FrameDecodeError::LengthMismatch { declared: 1, actual: 0 }
    );
}

#[test]
fn decode_reads_a_hand_written_frame() {
    let buf = [0x78u8, 0x56, 0x34, 0x12, 1, 3, 0, 0, 0, b'a', b'b', b'c'];
    let (f, taken) = Frame::decode(&buf).unwrap();
    assert_eq!(f.t, FrameType::Open);
    assert_eq!(f.stream_id, 0x1234_5678);
    assert_eq!(&f.payload[..], b"abc");
    assert_eq!(taken, 12);
}
