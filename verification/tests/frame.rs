use tundra::frame::{Frame, MuxCommand, MuxHeader};
use tundra::ProtocolError;

#[test]
fn frame_roundtrip() {
    let frame = Frame::new(MuxCommand::Data, 42, b"hello".to_vec());
    let encoded = frame.encode();
    let decoded = Frame::decode(&encoded).unwrap();
    assert_eq!(decoded.header.command, MuxCommand::Data);
    assert_eq!(decoded.header.stream_id, 42);
    assert_eq!(decoded.header.length, 5);
    assert_eq!(decoded.payload, b"hello");
}

#[test]
fn padded_frame_roundtrip() {
    let frame = Frame::new_padded(MuxCommand::Data, 7, b"hello".to_vec(), 64);
    let encoded = frame.encode();
    let decoded = Frame::decode(&encoded).unwrap();
    assert_eq!(decoded.header.command, MuxCommand::Data);
    assert_eq!(decoded.header.stream_id, 7);
    assert_eq!(decoded.real_data(), b"hello");
    assert_eq!(decoded.payload.len(), 64);
    assert_eq!(decoded.header.length as usize, 64);
}

#[test]
fn new_stream_frame() {
    let frame = Frame::new(MuxCommand::NewStream, 0, b"example.com:443".to_vec());
    let encoded = frame.encode();
    let decoded = Frame::decode(&encoded).unwrap();
    assert_eq!(decoded.header.command, MuxCommand::NewStream);
    assert_eq!(decoded.payload, b"example.com:443");
}

#[test]
fn large_stream_id() {
    let frame = Frame::new(MuxCommand::Data, 0xDEADBEEF, b"test".to_vec());
    let encoded = frame.encode();
    let decoded = Frame::decode(&encoded).unwrap();
    assert_eq!(decoded.header.stream_id, 0xDEADBEEF);
}

#[test]
fn frame_invalid_magic() {
    let data = [0xFF; 11];
    assert!(Frame::decode(&data).is_err());
}

#[test]
fn real_data_without_prefix() {
    let frame = Frame::new(MuxCommand::NewStream, 0, b"example.com:80".to_vec());
    assert_eq!(frame.real_data(), b"example.com:80");
}

#[test]
fn header_length_matches_payload() {
    let frame = Frame::new(MuxCommand::Ping, 0, vec![0xAB; 200]);
    assert_eq!(frame.header.length, 200);
    let encoded = frame.encode();
    let decoded = Frame::decode(&encoded).unwrap();
    assert_eq!(decoded.header.length, 200);
}

#[test]
fn empty_payload() {
    let frame = Frame::new(MuxCommand::Close, 999, vec![]);
    assert_eq!(frame.header.length, 0);
    let encoded = frame.encode();
    assert_eq!(encoded.len(), 11);
    let decoded = Frame::decode(&encoded).unwrap();
    assert_eq!(decoded.header.command, MuxCommand::Close);
    assert!(decoded.payload.is_empty());
}

#[test]
fn header_encode_exact_bytes() {
    let h = MuxHeader { command: MuxCommand::KeyConfirm, stream_id: 0x01020304, length: 0x0506 };
    assert_eq!(h.encode(), [9, 1, 2, 3, 4, 5, 6]);
    let back = MuxHeader::decode(&h.encode()).unwrap();
    assert_eq!(back, h);
}

#[test]
fn header_unknown_command_is_invalid_magic() {
    let r = MuxHeader::decode(&[10, 0, 0, 0, 1, 0, 0]);
    assert!(matches!(r, Err(ProtocolError::InvalidMagic)));
}

#[test]
fn encode_exact_wire_bytes() {
    let frame = Frame::new(MuxCommand::Data, 1, vec![0xAA]);
    assert_eq!(frame.encode(), vec![0x54, 0x4E, 0x44, 0x52, 1, 0, 0, 0, 1, 0, 1, 0xAA]);
}

#[test]
fn decode_short_input_reports_length() {
    let r = Frame::decode(&[0x54, 0x4E, 0x44]);
    assert!(matches!(r, Err(ProtocolError::FrameTooLarge(3))));
}

#[test]
fn decode_truncated_payload_reports_length() {
    let mut wire = Frame::new(MuxCommand::Data, 1, vec![1, 2, 3]).encode();
    wire.pop();
    let r = Frame::decode(&wire);
    assert!(matches!(r, Err(ProtocolError::FrameTooLarge(13))));
}

#[test]
fn decode_ignores_trailing_bytes() {
    let mut wire = Frame::new(MuxCommand::Pong, 5, vec![7, 8]).encode();
    wire.extend_from_slice(&[0xEE, 0xEE]);
    let f = Frame::decode(&wire).unwrap();
    assert_eq!(f.payload, vec![7, 8]);
    assert_eq!(f.header.stream_id, 5);
}

#[test]
fn handshake_frame_is_padded_to_1400_on_the_wire() {
    let f = Frame::new_handshake(MuxCommand::Auth, 0, vec![1, 2, 3]);
    assert_eq!(f.encode().len(), 1400);
    assert_eq!(&f.payload[..3], &[1, 2, 3]);
    assert!(f.payload[3..].iter().all(|&b| b == 0));
    let big = Frame::new_handshake(MuxCommand::Auth, 0, vec![9; 2000]);
    assert_eq!(big.payload.len(), 2000);
}

#[test]
fn padded_frame_without_room_keeps_prefix_and_data() {
    let f = Frame::new_padded(MuxCommand::Data, 3, vec![0xAB; 10], 0);
    assert_eq!(f.payload.len(), 12);
    assert_eq!(&f.payload[..2], &[10, 0]);
    assert_eq!(f.real_data(), &[0xAB; 10][..]);
    assert_eq!(f.raw_data().len(), 12);
}

#[test]
fn overhead_constants() {
    assert_eq!(Frame::wire_overhead(), 11);
    assert_eq!(Frame::min_wire_size(), 11);
}

#[test]
fn command_codes_roundtrip() {
    for v in 0u8..10 {
        let c = MuxCommand::from_u8(v).unwrap();
        assert_eq!(c.to_u8(), v);
    }
    assert!(MuxCommand::from_u8(10).is_none());
}
