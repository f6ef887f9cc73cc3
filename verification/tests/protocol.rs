//! Wire-level tests: token encoding, byte encodings, the Control codec and
//! the streaming frame parser.

use arrow_client::codec::{
    encode_ack_body, encode_hup_body, encode_register_body, encode_status_body, parse_ack_body,
    parse_hup_body, parse_redirect_body, ControlMessage, ControlMessageType,
};
use arrow_client::framer::{encode_frame, ArrowFramer};
use arrow_client::wire::{push_u16_be, push_u32_be, read_u16_be, read_u32_be};
use arrow_client::{session2token, token2session};

#[test]
fn token_round_trip() {
    assert_eq!(session2token(0), 1 << 24);
    assert_eq!(session2token(0x123), 0x1000123);
    assert_eq!(token2session(0x1000123), 0x123);
    assert_eq!(token2session(session2token(0xffffff)), 0xffffff);
    assert!(session2token(5) != 0);
}

#[test]
fn u16_u32_big_endian() {
    let mut out: Vec<u8> = Vec::new();
    push_u16_be(&mut out, 0x1234);
    push_u32_be(&mut out, 0xdeadbeef);
    assert_eq!(out, vec![0x12, 0x34, 0xde, 0xad, 0xbe, 0xef]);
    assert_eq!(read_u16_be(0x12, 0x34), 0x1234);
    assert_eq!(read_u32_be(0xde, 0xad, 0xbe, 0xef), 0xdeadbeef);
}

fn round_trip(msg_id: u16, msg_type: ControlMessageType, body: Vec<u8>) {
    let msg = ControlMessage { msg_id, msg_type, body: body.clone() };
    let bytes = msg.encode();
    let back = ControlMessage::parse(&bytes).expect("well-formed message must parse");
    assert_eq!(back.msg_id, msg_id);
    assert!(back.msg_type == msg_type);
    assert_eq!(back.body, body);
}

#[test]
fn control_round_trip_every_type() {
    round_trip(0, ControlMessageType::Ack, encode_ack_body(0));
    round_trip(1, ControlMessageType::Ping, vec![]);
    round_trip(2, ControlMessageType::Register, vec![1, 2, 3]);
    round_trip(3, ControlMessageType::Update, vec![9; 40]);
    round_trip(4, ControlMessageType::Redirect, b"host:1\0".to_vec());
    round_trip(5, ControlMessageType::Hup, encode_hup_body(7, 0));
    round_trip(6, ControlMessageType::ResetSvcTable, vec![]);
    round_trip(7, ControlMessageType::ScanNetwork, vec![]);
    round_trip(8, ControlMessageType::GetStatus, vec![]);
    round_trip(9, ControlMessageType::Status, encode_status_body(8, 1, 2));
    round_trip(0xffff, ControlMessageType::Unknown, vec![0xaa]);
}

#[test]
fn control_parse_rejects_short_input() {
    assert!(ControlMessage::parse(&[]).is_err());
    assert!(ControlMessage::parse(&[0, 1, 2]).is_err());
    assert!(ControlMessage::parse(&[0, 1, 0, 0]).is_ok());
}

#[test]
fn control_parse_unrecognized_code_is_unknown() {
    let bytes = vec![0x00, 0x07, 0x77, 0x77, 0xab];
    let m = ControlMessage::parse(&bytes).unwrap();
    assert!(m.msg_type == ControlMessageType::Unknown);
    assert_eq!(m.msg_id, 7);
    assert_eq!(m.body, vec![0xab]);
}

#[test]
fn ack_body_round_trip() {
    assert_eq!(parse_ack_body(&encode_ack_body(0)).unwrap(), 0);
    assert_eq!(parse_ack_body(&encode_ack_body(0xfeedface)).unwrap(), 0xfeedface);
    assert!(parse_ack_body(&[0, 0, 0]).is_err());
    assert!(parse_ack_body(&[0, 0, 0, 0, 0]).is_err());
}

#[test]
fn hup_body_round_trip() {
    let body = encode_hup_body(0x00abcd, 2);
    assert_eq!(body, vec![0x00, 0x00, 0xab, 0xcd, 0x00, 0x00, 0x00, 0x02]);
    assert_eq!(parse_hup_body(&body).unwrap(), (0x00abcd, 2));
    assert!(parse_hup_body(&body[..7]).is_err());
}

#[test]
fn status_body_layout() {
    let body = encode_status_body(0x0102, 1, 3);
    assert_eq!(body, vec![0x01, 0x02, 0, 0, 0, 1, 0, 0, 0, 3]);
}

#[test]
fn register_body_layout() {
    let uuid = [0x11u8; 16];
    let mac = [0x22u8; 6];
    let body = encode_register_body(&uuid, &mac, b"pw", &[0xf0, 0xf1]);
    let mut expected: Vec<u8> = Vec::new();
    expected.extend_from_slice(&uuid);
    expected.extend_from_slice(&mac);
    expected.extend_from_slice(&[0x00, 0x02]);
    expected.extend_from_slice(b"pw");
    expected.extend_from_slice(&[0xf0, 0xf1]);
    assert_eq!(body, expected);
}

#[test]
fn redirect_body_stops_at_first_nul() {
    let addr = parse_redirect_body(b"a.example:80\0junk").unwrap();
    assert_eq!(addr, b"a.example:80".to_vec());
    let empty = parse_redirect_body(b"\0").unwrap();
    assert_eq!(empty, Vec::<u8>::new());
    assert!(parse_redirect_body(b"no terminator").is_err());
}

#[test]
fn frame_encoding_layout() {
    let bytes = encode_frame(1, 2, &[0xaa]);
    assert_eq!(bytes, vec![0, 1, 0, 0, 0, 2, 0, 0, 0, 1, 0xaa]);
}

#[test]
fn framer_single_byte_feeds_produce_one_frame() {
    let bytes = encode_frame(42, 0x123, b"hello");
    let mut framer = ArrowFramer::new();
    for (i, b) in bytes.iter().enumerate() {
        assert!(!framer.is_complete());
        let consumed = framer.feed(&[*b], 0);
        assert_eq!(consumed, 1);
        assert_eq!(framer.is_complete(), i + 1 == bytes.len());
    }
    let (service_id, session_id, length) = framer.frame_header();
    assert_eq!(service_id, 42);
    assert_eq!(session_id, 0x123);
    assert_eq!(length, 5);
    let frame = framer.take_frame();
    assert_eq!(frame.service_id, 42);
    assert_eq!(frame.session_id, 0x123);
    assert_eq!(frame.payload, b"hello".to_vec());
    assert!(!framer.is_complete());
}

#[test]
fn framer_whole_buffer_feed() {
    let bytes = encode_frame(7, 9, &[1, 2, 3, 4]);
    let mut framer = ArrowFramer::new();
    let consumed = framer.feed(&bytes, 0);
    assert_eq!(consumed, bytes.len());
    assert!(framer.is_complete());
    let frame = framer.take_frame();
    assert_eq!(frame.service_id, 7);
    assert_eq!(frame.session_id, 9);
    assert_eq!(frame.payload, vec![1, 2, 3, 4]);
}

#[test]
fn framer_stops_at_frame_boundary() {
    let mut bytes = encode_frame(1, 1, b"x");
    let second = encode_frame(2, 2, b"y");
    bytes.extend_from_slice(&second);
    let mut framer = ArrowFramer::new();
    let consumed = framer.feed(&bytes, 0);
    assert_eq!(consumed, 11);
    assert!(framer.is_complete());
    let first = framer.take_frame();
    assert_eq!(first.service_id, 1);
    let consumed2 = framer.feed(&bytes, consumed);
    assert_eq!(consumed + consumed2, bytes.len());
    let frame = framer.take_frame();
    assert_eq!(frame.service_id, 2);
    assert_eq!(frame.payload, b"y".to_vec());
}

#[test]
fn framer_empty_payload_frame() {
    let bytes = encode_frame(3, 4, &[]);
    assert_eq!(bytes.len(), 10);
    let mut framer = ArrowFramer::new();
    framer.feed(&bytes, 0);
    assert!(framer.is_complete());
    let frame = framer.take_frame();
    assert_eq!(frame.payload, Vec::<u8>::new());
}
