//! Behavioral tests of the connection engine: the handshake, Control
//! dispatch, session lifecycle, round-robin egress, backpressure and
//! deadlines, all driven with plain values in place of sockets.

use arrow_client::buffer::ByteQueue;
use arrow_client::codec::{
    encode_ack_body, parse_hup_body, ControlMessage, ControlMessageType, STATUS_FLAG_SCAN,
};
use arrow_client::engine::{
    Engine, EngineError, FrameDisposition, ProtocolState, EGRESS_CHUNK, TUNNEL_OUTPUT_CAPACITY,
};
use arrow_client::framer::{encode_frame, ArrowFrame, ArrowFramer};
use arrow_client::session::{SessionContext, CONNECTION_TIMEOUT, SESSION_INPUT_CAPACITY};
use arrow_client::stream::{can_read, can_write, Readiness, StreamState};
use arrow_client::timeout::Timeout;
use arrow_client::Command;

fn new_engine(now: u64) -> Engine {
    Engine::new(now, &[0x55u8; 16], &[0x66u8; 6], b"secret", &[1, 2, 3, 4], 7)
}

/// Serialize a Control message as a whole tunnel frame.
fn control_frame(msg_id: u16, msg_type: ControlMessageType, body: Vec<u8>) -> Vec<u8> {
    let msg = ControlMessage { msg_id, msg_type, body };
    encode_frame(0, 0, &msg.encode())
}

/// Pull everything out of the tunnel output buffer, as the TLS stream
/// would.
fn drain(engine: &mut Engine, now: u64) -> Vec<u8> {
    let mut out: Vec<u8> = Vec::new();
    while let Some(chunk) = engine.next_tunnel_chunk() {
        engine.on_tunnel_wrote(chunk.len(), now);
        out.extend_from_slice(&chunk);
    }
    out
}

/// Split drained tunnel bytes back into frames.
fn deframe(bytes: &[u8]) -> Vec<ArrowFrame> {
    let mut framer = ArrowFramer::new();
    let mut frames = Vec::new();
    let mut consumed = 0;
    while consumed < bytes.len() {
        consumed += framer.feed(bytes, consumed);
        if framer.is_complete() {
            frames.push(framer.take_frame());
        }
    }
    assert!(!framer.is_complete());
    frames
}

/// Feed one whole frame to the engine and dispatch it.
fn inject(
    engine: &mut Engine,
    frame_bytes: &[u8],
    now: u64,
) -> Result<FrameDisposition, EngineError> {
    let mut frames = engine.ingest(frame_bytes);
    assert_eq!(frames.len(), 1);
    let frame = frames.remove(0);
    engine.handle_frame(&frame, false, now)
}

/// Bring a fresh engine into the `Established` state and drain the
/// REGISTER frame.
fn established(now: u64) -> Engine {
    let mut engine = new_engine(now);
    drain(&mut engine, now);
    let r = inject(&mut engine, &control_frame(0, ControlMessageType::Ack, encode_ack_body(0)), now);
    assert!(matches!(r, Ok(FrameDisposition::HandshakeComplete)));
    assert!(engine.state() == ProtocolState::Established);
    engine
}

#[test]
fn handshake_success() {
    let mut engine = new_engine(0);
    assert!(engine.state() == ProtocolState::Handshake);
    assert_eq!(engine.outstanding_acks(), 1);

    // The first frame emitted is a REGISTER with message ID 0.
    let frames = deframe(&drain(&mut engine, 0));
    assert_eq!(frames.len(), 1);
    assert_eq!(frames[0].service_id, 0);
    assert_eq!(frames[0].session_id, 0);
    let msg = ControlMessage::parse(&frames[0].payload).unwrap();
    assert_eq!(msg.msg_id, 0);
    assert!(msg.msg_type == ControlMessageType::Register);

    // ACK(msg_id 0, error 0) establishes the connection.
    let r = inject(&mut engine, &control_frame(0, ControlMessageType::Ack, encode_ack_body(0)), 1);
    assert!(matches!(r, Ok(FrameDisposition::HandshakeComplete)));
    assert!(engine.state() == ProtocolState::Established);
    assert_eq!(engine.outstanding_acks(), 0);
}

#[test]
fn handshake_refused() {
    let mut engine = new_engine(0);
    let r = inject(&mut engine, &control_frame(0, ControlMessageType::Ack, encode_ack_body(1)), 1);
    assert!(matches!(r, Err(EngineError::RegisterRefused)));
    assert!(engine.state() == ProtocolState::Handshake);
}

#[test]
fn non_ack_control_in_handshake_is_fatal() {
    let mut engine = new_engine(0);
    let r = inject(&mut engine, &control_frame(5, ControlMessageType::Ping, vec![]), 1);
    assert!(matches!(r, Err(EngineError::HandshakeViolation)));

    let mut engine = new_engine(0);
    let r = inject(&mut engine, &control_frame(5, ControlMessageType::Hup, vec![0; 8]), 1);
    assert!(matches!(r, Err(EngineError::HandshakeViolation)));

    let mut engine = new_engine(0);
    let r = inject(&mut engine, &control_frame(5, ControlMessageType::Redirect, b"x\0".to_vec()), 1);
    assert!(matches!(r, Err(EngineError::HandshakeViolation)));
}

#[test]
fn service_frame_in_handshake_is_fatal() {
    let mut engine = new_engine(0);
    let r = inject(&mut engine, &encode_frame(42, 0x123, b"hello"), 1);
    assert!(matches!(r, Err(EngineError::HandshakeViolation)));
}

#[test]
fn unknown_control_type_is_fatal() {
    let mut engine = established(0);
    let frame = encode_frame(0, 0, &[0x00, 0x01, 0x77, 0x77]);
    let r = inject(&mut engine, &frame, 1);
    assert!(matches!(r, Err(EngineError::UnknownControlType)));
}

#[test]
fn register_from_peer_is_fatal() {
    let mut engine = established(0);
    let r = inject(&mut engine, &control_frame(3, ControlMessageType::Register, vec![]), 1);
    assert!(matches!(r, Err(EngineError::UnsupportedControlType)));
}

#[test]
fn ack_order_is_preserved() {
    let mut engine = established(0);
    engine.on_ping_timer(10);
    engine.on_ping_timer(20);
    assert_eq!(engine.outstanding_acks(), 2);
    drain(&mut engine, 20);

    // ACKs in send order are accepted one by one.
    let r = inject(&mut engine, &control_frame(1, ControlMessageType::Ack, encode_ack_body(0)), 30);
    assert!(matches!(r, Ok(FrameDisposition::Handled)));
    assert_eq!(engine.outstanding_acks(), 1);
    let r = inject(&mut engine, &control_frame(2, ControlMessageType::Ack, encode_ack_body(0)), 31);
    assert!(matches!(r, Ok(FrameDisposition::Handled)));
    assert_eq!(engine.outstanding_acks(), 0);
}

#[test]
fn ack_out_of_order_is_fatal() {
    let mut engine = established(0);
    engine.on_ping_timer(10);
    engine.on_ping_timer(20);
    let r = inject(&mut engine, &control_frame(2, ControlMessageType::Ack, encode_ack_body(0)), 30);
    assert!(matches!(r, Err(EngineError::UnexpectedAckId)));
}

#[test]
fn ack_without_outstanding_request_is_fatal() {
    let mut engine = established(0);
    let r = inject(&mut engine, &control_frame(9, ControlMessageType::Ack, encode_ack_body(0)), 30);
    assert!(matches!(r, Err(EngineError::NoAckExpected)));
}

#[test]
fn ping_is_acked() {
    let mut engine = established(0);
    let r = inject(&mut engine, &control_frame(0x42, ControlMessageType::Ping, vec![]), 1);
    assert!(matches!(r, Ok(FrameDisposition::Handled)));
    let frames = deframe(&drain(&mut engine, 1));
    assert_eq!(frames.len(), 1);
    let msg = ControlMessage::parse(&frames[0].payload).unwrap();
    assert!(msg.msg_type == ControlMessageType::Ack);
    assert_eq!(msg.msg_id, 0x42);
    assert_eq!(msg.body, encode_ack_body(0));
}

#[test]
fn commands_are_forwarded() {
    let mut engine = established(0);
    let r = inject(&mut engine, &control_frame(1, ControlMessageType::ResetSvcTable, vec![]), 1);
    assert!(matches!(r, Ok(FrameDisposition::Forward(Command::ResetServiceTable))));
    let r = inject(&mut engine, &control_frame(2, ControlMessageType::ScanNetwork, vec![]), 2);
    assert!(matches!(r, Ok(FrameDisposition::Forward(Command::ScanNetwork))));
}

#[test]
fn get_status_is_answered() {
    let mut engine = established(0);
    let mut frames = engine.ingest(&control_frame(0x10, ControlMessageType::GetStatus, vec![]));
    let frame = frames.remove(0);
    let r = engine.handle_frame(&frame, true, 1);
    assert!(matches!(r, Ok(FrameDisposition::Handled)));
    let frames = deframe(&drain(&mut engine, 1));
    assert_eq!(frames.len(), 1);
    let msg = ControlMessage::parse(&frames[0].payload).unwrap();
    assert!(msg.msg_type == ControlMessageType::Status);
    // request_id, flags (scan bit), active session count
    assert_eq!(msg.body[..2], [0x00, 0x10]);
    assert_eq!(msg.body[2..6], STATUS_FLAG_SCAN.to_be_bytes());
    assert_eq!(msg.body[6..10], 0u32.to_be_bytes());
}

#[test]
fn service_proxy_round_trip() {
    let mut engine = established(0);

    // A frame for an unknown session asks the application for a session.
    let r = inject(&mut engine, &encode_frame(42, 0x123, b"hello"), 1);
    let (service_id, session_id, payload) = match r {
        Ok(FrameDisposition::NeedSession { service_id, session_id, payload }) => {
            (service_id, session_id, payload)
        },
        other => panic!("expected NeedSession, got {:?}", other),
    };
    assert_eq!(service_id, 42);
    assert_eq!(session_id, 0x123);
    assert_eq!(payload, b"hello".to_vec());

    // The application connects and opens the session with the payload.
    engine.open_session(service_id, session_id, &payload, 1);
    assert!(engine.has_session(0x123));
    assert_eq!(engine.session_output_len(0x123), Some(5));

    // The local socket becomes writable: "hello" goes out.
    let chunk = engine.session_write_step(0x123).unwrap();
    assert_eq!(chunk, b"hello".to_vec());
    engine.on_session_wrote(0x123, 5, 2);
    assert_eq!(engine.session_output_len(0x123), Some(0));

    // The local service echoes "hello" back.
    assert!(engine.session_wants_read(0x123));
    assert_eq!(engine.on_session_read(0x123, b"hello"), Some(5));

    // One tunnel-writable cycle emits the echo wrapped for the session.
    let visited = engine.fill_output_buffer(3);
    assert_eq!(visited, 1);
    let frames = deframe(&drain(&mut engine, 3));
    assert_eq!(frames.len(), 1);
    assert_eq!(frames[0].service_id, 42);
    assert_eq!(frames[0].session_id, 0x123);
    assert_eq!(frames[0].payload, b"hello".to_vec());
    assert_eq!(engine.session_input_len(0x123), Some(0));
}

#[test]
fn unknown_service_yields_one_hup() {
    let mut engine = established(0);
    let r = inject(&mut engine, &encode_frame(9999, 0x00abcd, b"x"), 1);
    let session_id = match r {
        Ok(FrameDisposition::NeedSession { session_id, .. }) => session_id,
        other => panic!("expected NeedSession, got {:?}", other),
    };
    // The service table knows no service 9999: the engine answers with
    // exactly one HUP carrying error code 1 and creates no session.
    engine.reject_service_request(session_id, 1);
    assert!(!engine.has_session(0x00abcd));
    assert_eq!(engine.session_count(), 0);
    let frames = deframe(&drain(&mut engine, 1));
    assert_eq!(frames.len(), 1);
    let msg = ControlMessage::parse(&frames[0].payload).unwrap();
    assert!(msg.msg_type == ControlMessageType::Hup);
    assert_eq!(parse_hup_body(&msg.body).unwrap(), (0x00abcd, 1));
}

#[test]
fn redirect_terminates_with_address() {
    let mut engine = established(0);
    let r = inject(
        &mut engine,
        &control_frame(1, ControlMessageType::Redirect, b"new.host.example:12345\0".to_vec()),
        1,
    );
    match r {
        Ok(FrameDisposition::Redirect(addr)) => {
            assert_eq!(addr, b"new.host.example:12345".to_vec());
        },
        other => panic!("expected Redirect, got {:?}", other),
    }
}

#[test]
fn redirect_without_terminator_is_fatal() {
    let mut engine = established(0);
    let r = inject(
        &mut engine,
        &control_frame(1, ControlMessageType::Redirect, b"no terminator".to_vec()),
        1,
    );
    assert!(matches!(r, Err(EngineError::MalformedControl)));
}

#[test]
fn peer_hup_destroys_session() {
    let mut engine = established(0);
    engine.open_session(42, 0x123, b"hi", 1);
    assert!(engine.has_session(0x123));
    let mut body = Vec::new();
    body.extend_from_slice(&0x123u32.to_be_bytes());
    body.extend_from_slice(&0u32.to_be_bytes());
    let r = inject(&mut engine, &control_frame(1, ControlMessageType::Hup, body), 2);
    assert!(matches!(r, Ok(FrameDisposition::SessionClosed(0x123))));
    assert!(!engine.has_session(0x123));
}

#[test]
fn ack_timeout_terminates() {
    let mut engine = established(1000);
    engine.on_ping_timer(1000);
    // Within the deadline the check passes and would be rescheduled.
    assert!(engine.check_tunnel_timeouts(1000 + CONNECTION_TIMEOUT - 1).is_ok());
    // At the deadline the engine reports the connection timeout.
    let r = engine.check_tunnel_timeouts(1000 + CONNECTION_TIMEOUT);
    assert!(matches!(r, Err(EngineError::ConnectionTimeout)));
}

#[test]
fn acked_ping_clears_the_deadline() {
    let mut engine = established(1000);
    engine.on_ping_timer(1000);
    drain(&mut engine, 1000);
    let r = inject(
        &mut engine,
        &control_frame(1, ControlMessageType::Ack, encode_ack_body(0)),
        1500,
    );
    assert!(matches!(r, Ok(FrameDisposition::Handled)));
    // No outstanding ACK and nothing buffered: no deadline can expire.
    assert!(engine.check_tunnel_timeouts(1000 + 10 * CONNECTION_TIMEOUT).is_ok());
}

#[test]
fn session_write_timeout_sends_hup() {
    let mut engine = established(0);
    engine.open_session(42, 0x123, b"stuck", 100);
    drain(&mut engine, 100);
    assert!(!engine.check_session_timeout(0x123, 100 + CONNECTION_TIMEOUT - 1));
    assert!(engine.has_session(0x123));
    assert!(engine.check_session_timeout(0x123, 100 + CONNECTION_TIMEOUT));
    assert!(!engine.has_session(0x123));
    let frames = deframe(&drain(&mut engine, 100 + CONNECTION_TIMEOUT));
    assert_eq!(frames.len(), 1);
    let msg = ControlMessage::parse(&frames[0].payload).unwrap();
    assert!(msg.msg_type == ControlMessageType::Hup);
    assert_eq!(parse_hup_body(&msg.body).unwrap(), (0x123, 0));
}

#[test]
fn session_error_sends_hup_code_two() {
    let mut engine = established(0);
    engine.open_session(42, 0x123, b"hi", 1);
    drain(&mut engine, 1);
    engine.on_session_error(0x123, 2);
    assert!(!engine.has_session(0x123));
    let frames = deframe(&drain(&mut engine, 2));
    let msg = ControlMessage::parse(&frames[0].payload).unwrap();
    assert_eq!(parse_hup_body(&msg.body).unwrap(), (0x123, 2));
}

#[test]
fn session_error_for_unknown_session_is_a_noop() {
    let mut engine = established(0);
    engine.on_session_error(0x999, 1);
    engine.on_session_hangup(0x999, 1);
    assert_eq!(engine.output_len(), 0);
    // A session torn down once stays gone: a second hangup emits nothing.
    engine.open_session(42, 0x123, b"hi", 1);
    drain(&mut engine, 1);
    engine.on_session_hangup(0x123, 2);
    let first = engine.output_len();
    assert!(first > 0);
    engine.on_session_hangup(0x123, 3);
    engine.on_session_error(0x123, 3);
    assert_eq!(engine.output_len(), first);
}

#[test]
fn full_input_buffer_stops_reads() {
    let mut engine = established(0);
    engine.open_session(42, 0x123, b"", 1);
    assert!(engine.session_wants_read(0x123));
    let big = vec![0u8; SESSION_INPUT_CAPACITY];
    engine.on_session_read(0x123, &big);
    assert!(!engine.session_wants_read(0x123));
    // One egress pass drains one chunk and reopens the window.
    engine.fill_output_buffer(2);
    assert!(engine.session_wants_read(0x123));
    assert_eq!(engine.session_input_len(0x123), Some(SESSION_INPUT_CAPACITY - EGRESS_CHUNK));
}

#[test]
fn full_output_buffer_makes_refill_a_noop() {
    let mut engine = established(0);
    engine.open_session(42, 0x123, b"", 1);
    engine.on_session_read(0x123, &vec![7u8; SESSION_INPUT_CAPACITY]);
    // Repeated passes fill the tunnel output buffer to (at least) capacity.
    let mut passes = 0;
    while engine.output_len() < TUNNEL_OUTPUT_CAPACITY {
        assert_eq!(engine.fill_output_buffer(2), 1);
        passes += 1;
        assert!(passes <= 16);
    }
    let len_at_capacity = engine.output_len();
    let input_left = engine.session_input_len(0x123).unwrap();
    // The buffer is full: one more refill visits nothing and changes nothing.
    assert_eq!(engine.fill_output_buffer(3), 0);
    assert_eq!(engine.output_len(), len_at_capacity);
    assert_eq!(engine.session_input_len(0x123), Some(input_left));
}

#[test]
fn round_robin_rotates_sessions() {
    let mut engine = established(0);
    engine.open_session(1, 1, b"", 1);
    engine.open_session(2, 2, b"", 1);
    engine.open_session(3, 3, b"", 1);
    drain(&mut engine, 1);
    engine.on_session_read(1, b"aa");
    engine.on_session_read(2, b"bb");
    engine.on_session_read(3, b"cc");
    let visited = engine.fill_output_buffer(2);
    assert_eq!(visited, 3);
    let frames = deframe(&drain(&mut engine, 2));
    assert_eq!(frames.len(), 3);
    // One frame per backlogged session, in queue order.
    assert_eq!(frames[0].session_id, 1);
    assert_eq!(frames[1].session_id, 2);
    assert_eq!(frames[2].session_id, 3);
    // The next pass starts from the same rotation point again.
    engine.on_session_read(2, b"b2");
    let visited = engine.fill_output_buffer(3);
    assert_eq!(visited, 3);
    let frames = deframe(&drain(&mut engine, 3));
    assert_eq!(frames.len(), 1);
    assert_eq!(frames[0].session_id, 2);
}

#[test]
fn update_is_sent_only_for_newer_versions() {
    let mut engine = established(0);
    // Version 7 was sent with the REGISTER: the same version sends nothing.
    engine.on_update_timer(7, &[9, 9], 1);
    assert_eq!(engine.output_len(), 0);
    // An older version sends nothing.
    engine.on_update_timer(6, &[9, 9], 2);
    assert_eq!(engine.output_len(), 0);
    // A newer version sends an UPDATE carrying the current table.
    engine.on_update_timer(8, &[9, 9], 3);
    let frames = deframe(&drain(&mut engine, 3));
    assert_eq!(frames.len(), 1);
    let msg = ControlMessage::parse(&frames[0].payload).unwrap();
    assert!(msg.msg_type == ControlMessageType::Update);
    assert_eq!(msg.body, vec![9, 9]);
    // The recorded version moved up: version 8 sends nothing now.
    engine.on_update_timer(8, &[9, 9], 4);
    assert_eq!(engine.output_len(), 0);
}

#[test]
fn ingest_splits_and_rejoins_frames() {
    let mut engine = established(0);
    let first = encode_frame(1, 1, b"ab");
    let second = encode_frame(2, 2, b"cdef");
    let mut bytes = first.clone();
    bytes.extend_from_slice(&second);
    // Hand over two whole frames and the start of a third in one read.
    let third = encode_frame(3, 3, b"gh");
    bytes.extend_from_slice(&third[..7]);
    let frames = engine.ingest(&bytes);
    assert_eq!(frames.len(), 2);
    assert_eq!(frames[0].session_id, 1);
    assert_eq!(frames[0].payload, b"ab".to_vec());
    assert_eq!(frames[1].session_id, 2);
    assert_eq!(frames[1].payload, b"cdef".to_vec());
    // The rest of the third frame completes it on the next read.
    let frames = engine.ingest(&third[7..]);
    assert_eq!(frames.len(), 1);
    assert_eq!(frames[0].session_id, 3);
    assert_eq!(frames[0].payload, b"gh".to_vec());
}

#[test]
fn tls_readiness_projection() {
    let readable = Readiness { readable: true, writable: false, error: false, hangup: false };
    let writable = Readiness { readable: false, writable: true, error: false, hangup: false };
    assert!(can_read(StreamState::Ready, readable));
    assert!(!can_read(StreamState::Ready, writable));
    // A read that blocked on want-write resumes only on a writable socket.
    assert!(can_read(StreamState::ReaderWantWrite, writable));
    assert!(!can_read(StreamState::ReaderWantWrite, readable));
    // A pending write blocks reads entirely.
    assert!(!can_read(StreamState::WriterWantRead, readable));
    assert!(can_write(StreamState::WriterWantRead, readable));
    assert!(!can_write(StreamState::WriterWantRead, writable));
    assert!(can_write(StreamState::Ready, writable));
}

#[test]
fn session_context_buffers_and_interest() {
    let mut ctx = SessionContext::new(42, 0x123);
    assert_eq!(ctx.service_id(), 42);
    assert!(!ctx.input_ready());
    assert_eq!(ctx.interest(), (true, false));
    ctx.send_message(b"out", 0);
    assert_eq!(ctx.interest(), (true, true));
    assert_eq!(ctx.output_chunk(), b"out".to_vec());
    ctx.on_wrote(3, 1);
    assert_eq!(ctx.interest(), (true, false));
    ctx.push_input(b"in");
    assert!(ctx.input_ready());
    assert_eq!(ctx.input_chunk(1), b"i".to_vec());
    assert_eq!(ctx.input_chunk(10), b"in".to_vec());
    ctx.drop_input_bytes(2);
    assert!(!ctx.input_ready());
}

#[test]
fn byte_queue_fifo_and_capacity() {
    let mut q = ByteQueue::new(4);
    assert!(q.is_empty());
    assert!(!q.is_full());
    q.write_all(&[1, 2, 3]);
    assert_eq!(q.buffered(), 3);
    assert!(!q.is_full());
    q.write_all(&[4, 5]);
    assert!(q.is_full());
    assert_eq!(q.as_bytes(), &[1, 2, 3, 4, 5]);
    q.drop_front(2);
    assert_eq!(q.as_bytes(), &[3, 4, 5]);
    assert!(!q.is_full());
    q.drop_front(3);
    assert!(q.is_empty());
}

#[test]
fn timeout_check_semantics() {
    let mut t = Timeout::new();
    assert!(t.check(0));
    assert!(t.check(u64::MAX - 1));
    t.set(100, 50);
    assert!(t.check(149));
    assert!(!t.check(150));
    t.clear();
    assert!(t.check(150));
}
