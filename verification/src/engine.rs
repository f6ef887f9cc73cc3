//! The connection engine: the protocol and multiplexing state machine of
//! the tunnel.
//!
//! The engine owns no sockets and reads no clock.  The surrounding
//! application performs the I/O and feeds the engine plain values: bytes
//! read, byte counts written, readiness outcomes, and the current time in
//! milliseconds.  Every decision — framing, Control dispatch, the
//! handshake, session lifecycle, round-robin egress, deadlines — is made
//! here, under contract.

use vstd::prelude::*;

use std::collections::HashMap;
use std::collections::VecDeque;

use crate::buffer::ByteQueue;
use crate::codec::{
    encode_register_body, encode_status_body, parse_ack_body, parse_hup_body,
    parse_redirect_body, spec_ack_body, spec_control_bytes, spec_hup_body, spec_parse_control,
    spec_register_body, spec_status_body, ControlMessage, ControlMessageType, STATUS_FLAG_SCAN,
};
use crate::framer::{encode_frame, spec_complete, spec_feed_len, spec_frame_bytes, ArrowFrame, ArrowFramer};
use crate::session::{
    spec_input_full, spec_session_interest, SessionContext, SessionView, CONNECTION_TIMEOUT,
};
use crate::stream::{
    can_read, can_write, spec_can_read, spec_can_write, spec_state_after_read,
    spec_state_after_write, spec_stream_interest, state_after_read, state_after_write,
    stream_interest, Readiness, StreamState, TlsIoOutcome,
};
use crate::timeout::Timeout;
use crate::Command;

verus! {

broadcast use vstd::std_specs::hash::group_hash_axioms;

/// Capacity of the tunnel output buffer.
pub const TUNNEL_OUTPUT_CAPACITY: usize = 262144;

/// At most this many bytes are handed to one TLS write.
pub const TUNNEL_WRITE_CHUNK: usize = 16384;

/// At most this many payload bytes one session may contribute per
/// round-robin visit.
pub const EGRESS_CHUNK: usize = 32768;

/// Period of the service-table update check.
pub const UPDATE_CHECK_PERIOD: u64 = 5000;

/// Period of the tunnel and session deadline checks.
pub const TIMEOUT_CHECK_PERIOD: u64 = 1000;

/// Period of the keep-alive PING.
pub const PING_PERIOD: u64 = 60000;

/// Protocol states: from connection establishment until the REGISTER is
/// acknowledged the engine is in `Handshake`; afterwards `Established`.
#[derive(Debug, Copy, Clone, Eq, PartialEq, Structural)]
pub enum ProtocolState {
    Handshake,
    Established,
}

/// Fatal conditions: each terminates the tunnel.
#[derive(Debug, Copy, Clone, Eq, PartialEq, Structural)]
pub enum EngineError {
    /// A Control payload shorter than its layout demands, or a REDIRECT
    /// body without a NUL terminator, or an ACK body that is not four
    /// bytes.
    MalformedControl,
    /// A Control type code the codec does not recognize.
    UnknownControlType,
    /// A recognized Control type the client never accepts (REGISTER,
    /// UPDATE, STATUS).
    UnsupportedControlType,
    /// An ACK arrived with no message awaiting one.
    NoAckExpected,
    /// An ACK arrived out of order: its ID is not the oldest outstanding.
    UnexpectedAckId,
    /// The service refused the REGISTER (non-zero ACK error code).
    RegisterRefused,
    /// A message arrived that is not allowed before the handshake is done.
    HandshakeViolation,
    /// The tunnel write deadline or the ACK deadline expired.
    ConnectionTimeout,
}

/// What handling one frame asks of the surrounding application.
#[derive(Debug)]
pub enum FrameDisposition {
    /// Fully handled; nothing to do.
    Handled,
    /// The REGISTER was acknowledged: start the update and ping timers.
    HandshakeComplete,
    /// Terminate, reconnecting to the address carried here.
    Redirect(Vec<u8>),
    /// Hand this command to the command channel.
    Forward(Command),
    /// A service frame for an unknown session: look the service up and
    /// either connect and `open_session`, or `reject_service_request`.
    NeedSession { service_id: u16, session_id: u32, payload: Vec<u8> },
    /// A session was torn down by the peer: deregister its socket.
    SessionClosed(u32),
}

/// The mathematical image of the engine.
#[verifier::ext_equal]
pub struct EngineView {
    pub state: ProtocolState,
    pub sessions: Map<u32, SessionView>,
    pub queue: Seq<u32>,
    pub absorbed: Seq<u8>,
    pub out: Seq<u8>,
    pub stream: StreamState,
    pub last_update: Option<u64>,
    pub write_deadline: Option<u64>,
    pub ack_deadline: Option<u64>,
    pub msg_id: u16,
    pub expected_acks: Seq<u16>,
}

/// The views of a map of session contexts.
pub open spec fn views_of(m: Map<u32, SessionContext>) -> Map<u32, SessionView> {
    m.map_values(|c: SessionContext| c@)
}

/// The wire bytes of a whole Control frame: a frame with service 0 and
/// session 0 carrying an encoded Control message.
pub open spec fn spec_control_frame(msg_id: u16, t: ControlMessageType, body: Seq<u8>) -> Seq<u8> {
    spec_frame_bytes(0, 0, spec_control_bytes(msg_id, t, body))
}

/// The message ID after one send: a 16-bit counter that wraps.
pub open spec fn spec_next_msg_id(id: u16) -> u16 {
    if id == 0xffff {
        0
    } else {
        (id + 1) as u16
    }
}

/// The connection engine.
pub struct Engine {
    state: ProtocolState,
    sessions: HashMap<u32, SessionContext>,
    session_queue: VecDeque<u32>,
    framer: ArrowFramer,
    output_buffer: ByteQueue,
    stream: StreamState,
    last_update: Option<u64>,
    write_tout: Timeout,
    ack_tout: Timeout,
    msg_id: u16,
    expected_acks: VecDeque<u16>,
}

impl View for Engine {
    type V = EngineView;

    closed spec fn view(&self) -> EngineView {
        EngineView {
            state: self.state,
            sessions: views_of(self.sessions@),
            queue: self.session_queue@,
            absorbed: self.framer@,
            out: self.output_buffer@,
            stream: self.stream,
            last_update: self.last_update,
            write_deadline: self.write_tout@,
            ack_deadline: self.ack_tout@,
            msg_id: self.msg_id,
            expected_acks: self.expected_acks@,
        }
    }
}

impl Engine {
    /// Structural soundness: the framer never rests on a complete frame,
    /// the output buffer carries the intended capacity, and the round-robin
    /// queue holds exactly the live session IDs, each once, each naming a
    /// well-formed context that knows its own IDs.
    pub closed spec fn wf(&self) -> bool {
        &&& self.framer.wf()
        &&& !spec_complete(self.framer@)
        &&& self.output_buffer.capacity() == TUNNEL_OUTPUT_CAPACITY
        &&& self.session_queue@.no_duplicates()
        &&& forall|i: int|
            0 <= i < self.session_queue@.len() ==> self.sessions@.contains_key(
                #[trigger] self.session_queue@[i],
            )
        &&& forall|k: u32|
            #[trigger] self.sessions@.contains_key(k) ==> self.session_queue@.contains(k)
        &&& forall|k: u32|
            #[trigger] self.sessions@.contains_key(k) ==> self.sessions@[k].wf()
                && self.sessions@[k]@.session_id == k
    }

    /// Create the engine and queue the REGISTER request: the very first
    /// frame emitted, carrying message ID 0, awaiting the very first ACK.
    /// Both the write and the ACK deadline are armed.  The caller registers
    /// the tunnel socket for read and write interest and schedules the
    /// tunnel deadline check.
    pub fn new(
        now: u64,
        uuid: &[u8],
        mac: &[u8],
        password: &[u8],
        svc_table: &[u8],
        version: u64,
    ) -> (e: Engine)
        requires
            uuid@.len() == 16,
            mac@.len() == 6,
            password@.len() <= u16::MAX,
            28 + password@.len() + svc_table@.len() <= u32::MAX,
            now + CONNECTION_TIMEOUT <= u64::MAX,
        ensures
            e.wf(),
            e@ =~= (EngineView {
                state: ProtocolState::Handshake,
                sessions: Map::<u32, SessionView>::empty(),
                queue: Seq::<u32>::empty(),
                absorbed: Seq::<u8>::empty(),
                out: spec_control_frame(
                    0,
                    ControlMessageType::Register,
                    spec_register_body(uuid@, mac@, password@, svc_table@),
                ),
                stream: StreamState::Ready,
                last_update: Some(version),
                write_deadline: Some((now + CONNECTION_TIMEOUT) as u64),
                ack_deadline: Some((now + CONNECTION_TIMEOUT) as u64),
                msg_id: 1,
                expected_acks: seq![0u16],
            }),
    {
        let mut e = Engine {
            state: ProtocolState::Handshake,
            sessions: HashMap::new(),
            session_queue: VecDeque::new(),
            framer: ArrowFramer::new(),
            output_buffer: ByteQueue::new(TUNNEL_OUTPUT_CAPACITY),
            stream: StreamState::Ready,
            last_update: Some(version),
            write_tout: Timeout::new(),
            ack_tout: Timeout::new(),
            msg_id: 0,
            expected_acks: VecDeque::new(),
        };
        proof {
            assert(views_of(e.sessions@) =~= Map::<u32, SessionView>::empty());
        }
        let body = encode_register_body(uuid, mac, password, svc_table);
        let id = e.msg_id;
        e.send_unconfirmed_control(id, ControlMessageType::Register, body, now);
        e.bump_msg_id();
        e
    }

    fn bump_msg_id(&mut self)
        requires
            old(self).wf(),
        ensures
            final(self).wf(),
            final(self)@ =~= (EngineView { msg_id: spec_next_msg_id(old(self)@.msg_id), ..old(
                self,
            )@ }),
    {
        if self.msg_id == 0xffff {
            self.msg_id = 0;
        } else {
            self.msg_id = self.msg_id + 1;
        }
    }

    /// Append a Control frame to the tunnel output buffer, arming the
    /// tunnel write deadline when the buffer was empty.
    fn send_control(&mut self, msg_id: u16, t: ControlMessageType, body: Vec<u8>, now: u64)
        requires
            old(self).wf(),
            body@.len() + 4 <= u32::MAX,
            now + CONNECTION_TIMEOUT <= u64::MAX,
        ensures
            final(self).wf(),
            final(self)@ =~= (EngineView {
                out: old(self)@.out + spec_control_frame(msg_id, t, body@),
                write_deadline: if old(self)@.out.len() == 0 {
                    Some((now + CONNECTION_TIMEOUT) as u64)
                } else {
                    old(self)@.write_deadline
                },
                ..old(self)@
            }),
    {
        let was_empty = self.output_buffer.is_empty();
        let msg = ControlMessage { msg_id, msg_type: t, body };
        let control_bytes = msg.encode();
        let frame_bytes = encode_frame(0, 0, control_bytes.as_slice());
        if was_empty {
            self.write_tout.set(now, CONNECTION_TIMEOUT);
        }
        self.output_buffer.write_all(frame_bytes.as_slice());
    }

    /// Append a Control frame that demands an ACK: its message ID joins the
    /// expected-ACK queue, and the ACK deadline is armed if no ACK was
    /// outstanding.
    fn send_unconfirmed_control(
        &mut self,
        msg_id: u16,
        t: ControlMessageType,
        body: Vec<u8>,
        now: u64,
    )
        requires
            old(self).wf(),
            body@.len() + 4 <= u32::MAX,
            now + CONNECTION_TIMEOUT <= u64::MAX,
        ensures
            final(self).wf(),
            final(self)@ =~= (EngineView {
                out: old(self)@.out + spec_control_frame(msg_id, t, body@),
                write_deadline: if old(self)@.out.len() == 0 {
                    Some((now + CONNECTION_TIMEOUT) as u64)
                } else {
                    old(self)@.write_deadline
                },
                ack_deadline: if old(self)@.expected_acks.len() == 0 {
                    Some((now + CONNECTION_TIMEOUT) as u64)
                } else {
                    old(self)@.ack_deadline
                },
                expected_acks: old(self)@.expected_acks.push(msg_id),
                ..old(self)@
            }),
    {
        if self.expected_acks.len() == 0 {
            self.ack_tout.set(now, CONNECTION_TIMEOUT);
        }
        self.expected_acks.push_back(msg_id);
        self.send_control(msg_id, t, body, now);
    }

    /// Send a HUP for a session, with an error code: `0` for a normal
    /// close or timeout, `1` when no session could be opened, `2` for a
    /// mid-session socket error.
    pub fn send_hup_message(&mut self, session_id: u32, error_code: u32, now: u64)
        requires
            old(self).wf(),
            now + CONNECTION_TIMEOUT <= u64::MAX,
        ensures
            final(self).wf(),
            final(self)@ =~= (EngineView {
                out: old(self)@.out + spec_control_frame(
                    old(self)@.msg_id,
                    ControlMessageType::Hup,
                    spec_hup_body(session_id, error_code),
                ),
                write_deadline: if old(self)@.out.len() == 0 {
                    Some((now + CONNECTION_TIMEOUT) as u64)
                } else {
                    old(self)@.write_deadline
                },
                msg_id: spec_next_msg_id(old(self)@.msg_id),
                ..old(self)@
            }),
    {
        let body = crate::codec::encode_hup_body(session_id, error_code);
        let id = self.msg_id;
        self.send_control(id, ControlMessageType::Hup, body, now);
        self.bump_msg_id();
    }

    /// The service asked for a session the engine cannot provide (unknown
    /// service ID, a Control-only service, or an ID outside the session
    /// token space): answer with exactly one HUP carrying error code 1 and
    /// create no session.
    pub fn reject_service_request(&mut self, session_id: u32, now: u64)
        requires
            old(self).wf(),
            now + CONNECTION_TIMEOUT <= u64::MAX,
        ensures
            final(self).wf(),
            final(self)@ =~= (EngineView {
                out: old(self)@.out + spec_control_frame(
                    old(self)@.msg_id,
                    ControlMessageType::Hup,
                    spec_hup_body(session_id, 1),
                ),
                write_deadline: if old(self)@.out.len() == 0 {
                    Some((now + CONNECTION_TIMEOUT) as u64)
                } else {
                    old(self)@.write_deadline
                },
                msg_id: spec_next_msg_id(old(self)@.msg_id),
                ..old(self)@
            }),
            final(self)@.sessions == old(self)@.sessions,
    {
        self.send_hup_message(session_id, 1, now);
    }

    /// Send the keep-alive PING and expect its ACK.  The caller reschedules
    /// the ping timer.
    pub fn on_ping_timer(&mut self, now: u64)
        requires
            old(self).wf(),
            now + CONNECTION_TIMEOUT <= u64::MAX,
        ensures
            final(self).wf(),
            final(self)@ =~= (EngineView {
                out: old(self)@.out + spec_control_frame(
                    old(self)@.msg_id,
                    ControlMessageType::Ping,
                    Seq::<u8>::empty(),
                ),
                write_deadline: if old(self)@.out.len() == 0 {
                    Some((now + CONNECTION_TIMEOUT) as u64)
                } else {
                    old(self)@.write_deadline
                },
                ack_deadline: if old(self)@.expected_acks.len() == 0 {
                    Some((now + CONNECTION_TIMEOUT) as u64)
                } else {
                    old(self)@.ack_deadline
                },
                msg_id: spec_next_msg_id(old(self)@.msg_id),
                expected_acks: old(self)@.expected_acks.push(old(self)@.msg_id),
                ..old(self)@
            }),
    {
        let body: Vec<u8> = Vec::new();
        let id = self.msg_id;
        self.send_unconfirmed_control(id, ControlMessageType::Ping, body, now);
        self.bump_msg_id();
    }

    /// Compare the current service-table version with the last one sent;
    /// when strictly newer, send an UPDATE carrying the current table and
    /// record its version.  The recorded version never decreases.  The
    /// caller reschedules the update timer.
    pub fn on_update_timer(&mut self, version: u64, svc_table: &[u8], now: u64)
        requires
            old(self).wf(),
            svc_table@.len() + 4 <= u32::MAX,
            now + CONNECTION_TIMEOUT <= u64::MAX,
        ensures
            final(self).wf(),
            ({
                let send = match old(self)@.last_update {
                    Some(sent) => version > sent,
                    None => true,
                };
                if send {
                    final(self)@ =~= (EngineView {
                        out: old(self)@.out + spec_control_frame(
                            old(self)@.msg_id,
                            ControlMessageType::Update,
                            svc_table@,
                        ),
                        write_deadline: if old(self)@.out.len() == 0 {
                            Some((now + CONNECTION_TIMEOUT) as u64)
                        } else {
                            old(self)@.write_deadline
                        },
                        msg_id: spec_next_msg_id(old(self)@.msg_id),
                        last_update: Some(version),
                        ..old(self)@
                    })
                } else {
                    final(self)@ =~= old(self)@
                }
            }),
            // The recorded version is non-decreasing.
            old(self)@.last_update matches Some(sent) ==> final(self)@.last_update matches Some(v)
                && v >= sent,
    {
        let send_update = match self.last_update {
            Some(sent) => version > sent,
            None => true,
        };
        if send_update {
            let mut body: Vec<u8> = Vec::new();
            crate::codec::append_slice(&mut body, svc_table);
            let id = self.msg_id;
            self.send_control(id, ControlMessageType::Update, body, now);
            self.bump_msg_id();
            self.last_update = Some(version);
        }
    }

    /// Check the tunnel deadlines: the tunnel write deadline and the ACK
    /// deadline must both be unexpired.  On success the caller reschedules
    /// the check.
    pub fn check_tunnel_timeouts(&self, now: u64) -> (r: Result<(), EngineError>)
        ensures
            r is Ok <==> (match self@.write_deadline {
                None => true,
                Some(d) => now < d,
            } && match self@.ack_deadline {
                None => true,
                Some(d) => now < d,
            }),
            r is Err ==> r == Err::<(), EngineError>(EngineError::ConnectionTimeout),
    {
        if !self.write_tout.check(now) || !self.ack_tout.check(now) {
            Err(EngineError::ConnectionTimeout)
        } else {
            Ok(())
        }
    }

    /// The protocol state.
    pub fn state(&self) -> (s: ProtocolState)
        ensures
            s == self@.state,
    {
        self.state
    }

    /// Whether output awaits delivery to the tunnel; while it does, the
    /// tunnel socket should be registered for write interest.
    pub fn wants_tunnel_write(&self) -> (r: bool)
        ensures
            r <==> self@.out.len() > 0,
    {
        !self.output_buffer.is_empty()
    }

    /// Whether a session with this ID exists.
    pub fn has_session(&self, session_id: u32) -> (r: bool)
        requires
            self.wf(),
        ensures
            r == self@.sessions.contains_key(session_id),
    {
        self.sessions.contains_key(&session_id)
    }

    /// Number of live sessions.
    pub fn session_count(&self) -> (n: usize)
        requires
            self.wf(),
        ensures
            n == self@.queue.len(),
    {
        self.session_queue.len()
    }
}


/// Removing a queue entry keeps the queue duplicate-free and removes
/// exactly that element from the membership.
proof fn lemma_queue_remove_wf(q: Seq<u32>, i: int)
    requires
        q.no_duplicates(),
        0 <= i < q.len(),
    ensures
        q.remove(i).no_duplicates(),
        forall|k: u32| q.remove(i).contains(k) <==> (q.contains(k) && k != q[i]),
{
    let r = q.remove(i);
    assert forall|a: int, b: int| 0 <= a < b < r.len() implies r[a] != r[b] by {
        let a2 = if a < i { a } else { a + 1 };
        let b2 = if b < i { b } else { b + 1 };
        assert(r[a] == q[a2] && r[b] == q[b2]);
    }
    assert forall|k: u32| r.contains(k) implies (q.contains(k) && k != q[i]) by {
        let j = choose|j: int| 0 <= j < r.len() && r[j] == k;
        let j2 = if j < i { j } else { j + 1 };
        assert(q[j2] == k);
        assert(j2 != i);
    }
    assert forall|k: u32| q.contains(k) && k != q[i] implies r.contains(k) by {
        let j = choose|j: int| 0 <= j < q.len() && q[j] == k;
        if j < i {
            assert(r[j] == k);
        } else {
            assert(r[j - 1] == k);
        }
    }
}

/// Mapping session contexts to their views commutes with `insert`.
proof fn lemma_views_insert(m: Map<u32, SessionContext>, k: u32, c: SessionContext)
    ensures
        views_of(m.insert(k, c)) =~= views_of(m).insert(k, c@),
{
}

/// Mapping session contexts to their views commutes with `remove`.
proof fn lemma_views_remove(m: Map<u32, SessionContext>, k: u32)
    ensures
        views_of(m.remove(k)) =~= views_of(m).remove(k),
{
}

/// Remove the first (under no duplicates: the only) occurrence of a
/// session ID from the round-robin queue.
fn queue_remove(q: &mut VecDeque<u32>, sid: u32)
    ensures
        final(q)@ == old(q)@.remove_value(sid),
{
    let mut i: usize = 0;
    while i < q.len()
        invariant
            i <= q@.len(),
            q@ == old(q)@,
            forall|j: int| 0 <= j < i ==> q@[j] != sid,
        decreases q@.len() - i,
    {
        if q[i] == sid {
            proof {
                old(q)@.index_of_first_ensures(sid);
                assert(old(q)@.contains(sid));
                let first = old(q)@.index_of_first(sid)->Some_0;
                assert(first == i as int);
            }
            q.remove(i);
            return;
        }
        i = i + 1;
    }
    proof {
        old(q)@.index_of_first_ensures(sid);
        if old(q)@.contains(sid) {
            let j = choose|j: int| 0 <= j < old(q)@.len() && old(q)@[j] == sid;
            assert(false);
        }
    }
}

/// The active-session count reported in STATUS: the number of live
/// sessions, saturated to the 32-bit field.
pub open spec fn spec_active_count(n: nat) -> u32 {
    if n >= 0xffffffff {
        0xffffffffu32
    } else {
        n as u32
    }
}

impl Engine {
    /// Drop a session from the map and the round-robin queue.
    fn remove_session(&mut self, session_id: u32)
        requires
            old(self).wf(),
        ensures
            final(self).wf(),
            final(self)@ =~= (EngineView {
                sessions: old(self)@.sessions.remove(session_id),
                queue: old(self)@.queue.remove_value(session_id),
                ..old(self)@
            }),
    {
        self.sessions.remove(&session_id);
        queue_remove(&mut self.session_queue, session_id);
        proof {
            lemma_views_remove(old(self).sessions@, session_id);
            old(self).session_queue@.index_of_first_ensures(session_id);
            match old(self).session_queue@.index_of_first(session_id) {
                Some(i) => {
                    lemma_queue_remove_wf(old(self).session_queue@, i);
                    assert forall|j: int| 0 <= j < self.session_queue@.len()
                        implies self.sessions@.contains_key(#[trigger] self.session_queue@[j]) by {
                        assert(self.session_queue@.contains(self.session_queue@[j]));
                    }
                },
                None => {
                    assert(!old(self).sessions@.contains_key(session_id));
                    assert(self.sessions@ =~= old(self).sessions@);
                },
            }
        }
    }

    /// Dispatch one whole frame.
    ///
    /// A frame with `service_id == 0` is a Control message: its payload is
    /// decoded and handled by type, with only ACK (and the stateless
    /// RESET_SVC_TABLE, SCAN_NETWORK and GET_STATUS) accepted before the
    /// handshake is complete.  ACKs must match the oldest outstanding
    /// message ID exactly, in order; any other ACK is fatal.  Any other
    /// frame is a service request: its payload is forwarded to the named
    /// session, or handed back as `NeedSession` when none exists.
    pub fn handle_frame(&mut self, frame: &ArrowFrame, scanning: bool, now: u64) -> (r: Result<
        FrameDisposition,
        EngineError,
    >)
        requires
            old(self).wf(),
            now + CONNECTION_TIMEOUT <= u64::MAX,
        ensures
            final(self).wf(),
            ({
                let pre = old(self)@;
                let post = final(self)@;
                let payload = frame@.payload;
                let p = spec_parse_control(payload);
                frame@.service_id == 0 ==> {
                    &&& (p is None ==> r == Err::<FrameDisposition, EngineError>(
                        EngineError::MalformedControl,
                    ) && post =~= pre)
                    &&& (p matches Some((id, t, body)) ==> {
                        &&& (t == ControlMessageType::Unknown ==> r == Err::<
                            FrameDisposition,
                            EngineError,
                        >(EngineError::UnknownControlType) && post =~= pre)
                        &&& (t == ControlMessageType::Ack ==> spec_ack_case(pre, post, id, body, now, r))
                        &&& (t == ControlMessageType::Ping ==> {
                            if pre.state == ProtocolState::Established {
                                &&& r matches Ok(d) && d is Handled
                                &&& post =~= (EngineView {
                                    out: pre.out + spec_control_frame(
                                        id,
                                        ControlMessageType::Ack,
                                        spec_ack_body(0),
                                    ),
                                    write_deadline: spec_write_deadline_after_send(pre, now),
                                    ..pre
                                })
                            } else {
                                r == Err::<FrameDisposition, EngineError>(
                                    EngineError::HandshakeViolation,
                                ) && post =~= pre
                            }
                        })
                        &&& (t == ControlMessageType::Redirect ==> {
                            if pre.state != ProtocolState::Established {
                                r == Err::<FrameDisposition, EngineError>(
                                    EngineError::HandshakeViolation,
                                ) && post =~= pre
                            } else {
                                &&& post =~= pre
                                &&& ((forall|j: int| 0 <= j < body.len() ==> body[j] != 0) ==> r
                                    == Err::<FrameDisposition, EngineError>(
                                    EngineError::MalformedControl,
                                ))
                                &&& (r matches Ok(d) ==> d matches FrameDisposition::Redirect(addr)
                                    && addr@.len() < body.len() && addr@ == body.take(
                                    addr@.len() as int,
                                ) && body[addr@.len() as int] == 0 && (forall|j: int|
                                    0 <= j < addr@.len() ==> body[j] != 0))
                                &&& ((exists|j: int| 0 <= j < body.len() && body[j] == 0) ==> r is Ok)
                            }
                        })
                        &&& (t == ControlMessageType::Hup ==> {
                            if pre.state != ProtocolState::Established {
                                r == Err::<FrameDisposition, EngineError>(
                                    EngineError::HandshakeViolation,
                                ) && post =~= pre
                            } else if body.len() != 8 {
                                r == Err::<FrameDisposition, EngineError>(
                                    EngineError::MalformedControl,
                                ) && post =~= pre
                            } else {
                                let sid = crate::wire::spec_u32_from_be(body.subrange(0, 4));
                                &&& r matches Ok(d) && d matches FrameDisposition::SessionClosed(
                                    s,
                                ) && s == sid
                                &&& post =~= (EngineView {
                                    sessions: pre.sessions.remove(sid),
                                    queue: pre.queue.remove_value(sid),
                                    ..pre
                                })
                            }
                        })
                        &&& (t == ControlMessageType::ResetSvcTable ==> {
                            &&& r matches Ok(d) && (d matches FrameDisposition::Forward(c) && c
                                == Command::ResetServiceTable)
                            &&& post =~= pre
                        })
                        &&& (t == ControlMessageType::ScanNetwork ==> {
                            &&& r matches Ok(d) && (d matches FrameDisposition::Forward(c) && c
                                == Command::ScanNetwork)
                            &&& post =~= pre
                        })
                        &&& (t == ControlMessageType::GetStatus ==> {
                            &&& r matches Ok(d) && d is Handled
                            &&& post =~= (EngineView {
                                out: pre.out + spec_control_frame(
                                    pre.msg_id,
                                    ControlMessageType::Status,
                                    spec_status_body(
                                        id,
                                        if scanning {
                                            STATUS_FLAG_SCAN
                                        } else {
                                            0
                                        },
                                        spec_active_count(pre.queue.len()),
                                    ),
                                ),
                                write_deadline: spec_write_deadline_after_send(pre, now),
                                msg_id: spec_next_msg_id(pre.msg_id),
                                ..pre
                            })
                        })
                        &&& ((t == ControlMessageType::Register || t == ControlMessageType::Update
                            || t == ControlMessageType::Status) ==> r == Err::<
                            FrameDisposition,
                            EngineError,
                        >(EngineError::UnsupportedControlType) && post =~= pre)
                    })
                }
            }),
            ({
                let pre = old(self)@;
                let post = final(self)@;
                let sid = frame@.session_id;
                let payload = frame@.payload;
                frame@.service_id != 0 ==> {
                    &&& (pre.state == ProtocolState::Handshake ==> r == Err::<
                        FrameDisposition,
                        EngineError,
                    >(EngineError::HandshakeViolation) && post =~= pre)
                    &&& (pre.state == ProtocolState::Established && pre.sessions.contains_key(sid)
                        ==> {
                        &&& r matches Ok(d) && d is Handled
                        &&& post =~= (EngineView {
                            sessions: pre.sessions.insert(
                                sid,
                                SessionView {
                                    output: pre.sessions[sid].output + payload,
                                    write_deadline: if pre.sessions[sid].output.len() == 0 {
                                        Some((now + CONNECTION_TIMEOUT) as u64)
                                    } else {
                                        pre.sessions[sid].write_deadline
                                    },
                                    ..pre.sessions[sid]
                                },
                            ),
                            ..pre
                        })
                    })
                    &&& (pre.state == ProtocolState::Established && !pre.sessions.contains_key(sid)
                        ==> {
                        &&& r matches Ok(d) && d matches FrameDisposition::NeedSession {
                            service_id: s2,
                            session_id: sid2,
                            payload: pl,
                        } && s2 == frame@.service_id && sid2 == sid && pl@ == payload
                        &&& post =~= pre
                    })
                }
            }),
    {
        if frame.service_id == 0 {
            let m = match ControlMessage::parse(frame.payload.as_slice()) {
                Ok(m) => m,
                Err(_) => {
                    return Err(EngineError::MalformedControl);
                },
            };
            match m.msg_type {
                ControlMessageType::Unknown => Err(EngineError::UnknownControlType),
                ControlMessageType::Ack => {
                    let popped = self.expected_acks.pop_front();
                    if self.expected_acks.len() == 0 {
                        self.ack_tout.clear();
                    } else {
                        self.ack_tout.set(now, CONNECTION_TIMEOUT);
                    }
                    match popped {
                        None => Err(EngineError::NoAckExpected),
                        Some(expected) => {
                            if m.msg_id == expected {
                                if self.state == ProtocolState::Handshake {
                                    match parse_ack_body(m.body.as_slice()) {
                                        Err(_) => Err(EngineError::MalformedControl),
                                        Ok(code) => {
                                            if code == 0 {
                                                self.state = ProtocolState::Established;
                                                Ok(FrameDisposition::HandshakeComplete)
                                            } else {
                                                Err(EngineError::RegisterRefused)
                                            }
                                        },
                                    }
                                } else {
                                    Ok(FrameDisposition::Handled)
                                }
                            } else {
                                Err(EngineError::UnexpectedAckId)
                            }
                        },
                    }
                },
                ControlMessageType::Ping => {
                    if self.state == ProtocolState::Established {
                        let body = crate::codec::encode_ack_body(0);
                        self.send_control(m.msg_id, ControlMessageType::Ack, body, now);
                        Ok(FrameDisposition::Handled)
                    } else {
                        Err(EngineError::HandshakeViolation)
                    }
                },
                ControlMessageType::Redirect => {
                    if self.state == ProtocolState::Established {
                        match parse_redirect_body(m.body.as_slice()) {
                            Ok(addr) => Ok(FrameDisposition::Redirect(addr)),
                            Err(_) => Err(EngineError::MalformedControl),
                        }
                    } else {
                        Err(EngineError::HandshakeViolation)
                    }
                },
                ControlMessageType::Hup => {
                    if self.state == ProtocolState::Established {
                        match parse_hup_body(m.body.as_slice()) {
                            Err(_) => Err(EngineError::MalformedControl),
                            Ok((sid, _error_code)) => {
                                self.remove_session(sid);
                                Ok(FrameDisposition::SessionClosed(sid))
                            },
                        }
                    } else {
                        Err(EngineError::HandshakeViolation)
                    }
                },
                ControlMessageType::ResetSvcTable => Ok(
                    FrameDisposition::Forward(Command::ResetServiceTable),
                ),
                ControlMessageType::ScanNetwork => Ok(
                    FrameDisposition::Forward(Command::ScanNetwork),
                ),
                ControlMessageType::GetStatus => {
                    let n = self.session_queue.len();
                    let active: u32 = if n >= 0xffffffffusize {
                        0xffffffffu32
                    } else {
                        n as u32
                    };
                    let flags: u32 = if scanning {
                        STATUS_FLAG_SCAN
                    } else {
                        0
                    };
                    let body = encode_status_body(m.msg_id, flags, active);
                    let id = self.msg_id;
                    self.send_control(id, ControlMessageType::Status, body, now);
                    self.bump_msg_id();
                    Ok(FrameDisposition::Handled)
                },
                _ => Err(EngineError::UnsupportedControlType),
            }
        } else {
            if self.state == ProtocolState::Handshake {
                return Err(EngineError::HandshakeViolation);
            }
            let sid = frame.session_id;
            if self.sessions.contains_key(&sid) {
                let mut ctx = match self.sessions.remove(&sid) {
                    Some(c) => c,
                    None => {
                        proof {
                            assert(false);
                        }
                        vstd::pervasive::unreached()
                    },
                };
                ctx.send_message(frame.payload.as_slice(), now);
                self.sessions.insert(sid, ctx);
                proof {
                    lemma_views_remove(old(self).sessions@, sid);
                    lemma_views_insert(old(self).sessions@.remove(sid), sid, ctx);
                    assert(views_of(self.sessions@) =~= views_of(old(self).sessions@).insert(
                        sid,
                        ctx@,
                    ));
                }
                Ok(FrameDisposition::Handled)
            } else {
                let mut payload: Vec<u8> = Vec::new();
                crate::codec::append_slice(&mut payload, frame.payload.as_slice());
                Ok(
                    FrameDisposition::NeedSession {
                        service_id: frame.service_id,
                        session_id: sid,
                        payload,
                    },
                )
            }
        }
    }
}

/// The tunnel write deadline after a send: freshly armed when the output
/// buffer was empty, untouched otherwise.
pub open spec fn spec_write_deadline_after_send(pre: EngineView, now: u64) -> Option<u64> {
    if pre.out.len() == 0 {
        Some((now + CONNECTION_TIMEOUT) as u64)
    } else {
        pre.write_deadline
    }
}

/// How an ACK with message ID `id` and body `body` is handled.  Exactly
/// the oldest outstanding message ID is accepted, and accepting it
/// consumes it: the remaining expectations keep their order.  During the
/// handshake the accepted ACK's error code decides: zero establishes the
/// connection, anything else refuses the registration.
pub open spec fn spec_ack_case(
    pre: EngineView,
    post: EngineView,
    id: u16,
    body: Seq<u8>,
    now: u64,
    r: Result<FrameDisposition, EngineError>,
) -> bool {
    let popped = EngineView {
        expected_acks: pre.expected_acks.drop_first(),
        ack_deadline: if pre.expected_acks.len() == 1 {
            None
        } else {
            Some((now + CONNECTION_TIMEOUT) as u64)
        },
        ..pre
    };
    if pre.expected_acks.len() == 0 {
        &&& r == Err::<FrameDisposition, EngineError>(EngineError::NoAckExpected)
        &&& post =~= (EngineView { ack_deadline: None, ..pre })
    } else if pre.expected_acks[0] != id {
        &&& r == Err::<FrameDisposition, EngineError>(EngineError::UnexpectedAckId)
        &&& post =~= popped
    } else if pre.state == ProtocolState::Established {
        &&& r matches Ok(d) && d is Handled
        &&& post =~= popped
    } else if body.len() != 4 {
        &&& r == Err::<FrameDisposition, EngineError>(EngineError::MalformedControl)
        &&& post =~= popped
    } else if crate::wire::spec_u32_from_be(body) == 0 {
        &&& r matches Ok(d) && d is HandshakeComplete
        &&& post =~= (EngineView { state: ProtocolState::Established, ..popped })
    } else {
        &&& r == Err::<FrameDisposition, EngineError>(EngineError::RegisterRefused)
        &&& post =~= popped
    }
}


impl Engine {
    /// Open the session a `NeedSession` disposition asked for, after the
    /// surrounding application has resolved the service address and
    /// connected the local socket.  The frame's payload becomes the
    /// session's first output and its write deadline is armed.  The caller
    /// registers the socket under the session token and schedules the
    /// session deadline check.
    pub fn open_session(&mut self, service_id: u16, session_id: u32, payload: &[u8], now: u64)
        requires
            old(self).wf(),
            !old(self)@.sessions.contains_key(session_id),
            now + CONNECTION_TIMEOUT <= u64::MAX,
        ensures
            final(self).wf(),
            final(self)@ =~= (EngineView {
                sessions: old(self)@.sessions.insert(
                    session_id,
                    SessionView {
                        service_id,
                        session_id,
                        input: Seq::<u8>::empty(),
                        output: payload@,
                        write_deadline: Some((now + CONNECTION_TIMEOUT) as u64),
                    },
                ),
                queue: old(self)@.queue.push(session_id),
                ..old(self)@
            }),
    {
        let mut ctx = SessionContext::new(service_id, session_id);
        ctx.send_message(payload, now);
        proof {
            lemma_views_insert(old(self).sessions@, session_id, ctx);
        }
        self.sessions.insert(session_id, ctx);
        self.session_queue.push_back(session_id);
        proof {
            assert(payload@ =~= Seq::<u8>::empty() + payload@);
            assert forall|i: int| 0 <= i < self.session_queue@.len()
                implies self.sessions@.contains_key(#[trigger] self.session_queue@[i]) by {
                if i < old(self).session_queue@.len() {
                    assert(old(self).sessions@.contains_key(old(self).session_queue@[i]));
                }
            }
            assert forall|k: u32| #[trigger] self.sessions@.contains_key(k)
                implies self.session_queue@.contains(k) by {
                if k == session_id {
                    assert(self.session_queue@[self.session_queue@.len() - 1] == k);
                } else {
                    assert(old(self).sessions@.contains_key(k));
                    let j = choose|j: int|
                        0 <= j < old(self).session_queue@.len() && old(self).session_queue@[j]
                            == k;
                    assert(self.session_queue@[j] == k);
                }
            }
            assert(self.session_queue@.no_duplicates()) by {
                assert forall|a: int, b: int|
                    0 <= a < b < self.session_queue@.len()
                    implies self.session_queue@[a] != self.session_queue@[b] by {
                    if b == self.session_queue@.len() - 1 {
                        assert(old(self).sessions@.contains_key(old(self).session_queue@[a]));
                    }
                }
            }
        }
    }

    /// Whether the engine is ready to take more bytes from this session's
    /// local socket: only while the session exists and its input buffer is
    /// not full.  Once the buffer fills, no further reads are issued until
    /// egress drains it.
    pub fn session_wants_read(&self, session_id: u32) -> (r: bool)
        requires
            self.wf(),
        ensures
            r <==> (self@.sessions.contains_key(session_id) && !spec_input_full(
                self@.sessions[session_id],
            )),
    {
        match self.sessions.get(&session_id) {
            Some(ctx) => !ctx.is_input_full(),
            None => false,
        }
    }

    /// Append bytes read from a session's local socket to its input
    /// buffer; returns the buffered input size, or `None` when no such
    /// session exists.
    pub fn on_session_read(&mut self, session_id: u32, bytes: &[u8]) -> (r: Option<usize>)
        requires
            old(self).wf(),
        ensures
            final(self).wf(),
            !old(self)@.sessions.contains_key(session_id) ==> r is None && final(self)@ =~= old(
                self,
            )@,
            old(self)@.sessions.contains_key(session_id) ==> {
                &&& r == Some((old(self)@.sessions[session_id].input.len() + bytes@.len()) as usize)
                &&& final(self)@ =~= (EngineView {
                    sessions: old(self)@.sessions.insert(
                        session_id,
                        SessionView {
                            input: old(self)@.sessions[session_id].input + bytes@,
                            ..old(self)@.sessions[session_id]
                        },
                    ),
                    ..old(self)@
                })
            },
    {
        if !self.sessions.contains_key(&session_id) {
            return None;
        }
        let mut ctx = match self.sessions.remove(&session_id) {
            Some(c) => c,
            None => {
                proof {
                    assert(false);
                }
                vstd::pervasive::unreached()
            },
        };
        ctx.push_input(bytes);
        let n = ctx.input_len();
        self.sessions.insert(session_id, ctx);
        proof {
            lemma_views_remove(old(self).sessions@, session_id);
            lemma_views_insert(old(self).sessions@.remove(session_id), session_id, ctx);
            assert(views_of(self.sessions@) =~= views_of(old(self).sessions@).insert(
                session_id,
                ctx@,
            ));
        }
        Some(n)
    }

    /// One step of delivering a session's output to its local socket: when
    /// the output buffer is empty, the write deadline is cleared and there
    /// is nothing to write; otherwise the buffered bytes are handed out
    /// for the socket write, unchanged.
    pub fn session_write_step(&mut self, session_id: u32) -> (r: Option<Vec<u8>>)
        requires
            old(self).wf(),
        ensures
            final(self).wf(),
            !old(self)@.sessions.contains_key(session_id) ==> r is None && final(self)@ =~= old(
                self,
            )@,
            old(self)@.sessions.contains_key(session_id)
                && old(self)@.sessions[session_id].output.len() == 0 ==> r is None && final(self)@
                =~= (EngineView {
                sessions: old(self)@.sessions.insert(
                    session_id,
                    SessionView { write_deadline: None, ..old(self)@.sessions[session_id] },
                ),
                ..old(self)@
            }),
            old(self)@.sessions.contains_key(session_id)
                && old(self)@.sessions[session_id].output.len() > 0 ==> {
                &&& r matches Some(chunk) && chunk@ == old(self)@.sessions[session_id].output
                &&& final(self)@ =~= old(self)@
            },
    {
        if !self.sessions.contains_key(&session_id) {
            return None;
        }
        let mut ctx = match self.sessions.remove(&session_id) {
            Some(c) => c,
            None => {
                proof {
                    assert(false);
                }
                vstd::pervasive::unreached()
            },
        };
        let r = if ctx.output_len() == 0 {
            ctx.clear_write_timeout();
            None
        } else {
            Some(ctx.output_chunk())
        };
        self.sessions.insert(session_id, ctx);
        proof {
            lemma_views_remove(old(self).sessions@, session_id);
            lemma_views_insert(old(self).sessions@.remove(session_id), session_id, ctx);
            assert(views_of(self.sessions@) =~= views_of(old(self).sessions@).insert(
                session_id,
                ctx@,
            ));
            if old(self)@.sessions[session_id].output.len() > 0 {
                assert(ctx@ == old(self)@.sessions[session_id]);
                assert(views_of(self.sessions@) =~= views_of(old(self).sessions@));
            }
        }
        r
    }

    /// Account for bytes a session's local socket accepted: drop them from
    /// the session's output buffer and re-arm its write deadline if any
    /// were written.
    pub fn on_session_wrote(&mut self, session_id: u32, count: usize, now: u64)
        requires
            old(self).wf(),
            old(self)@.sessions.contains_key(session_id) ==> count <= old(
                self,
            )@.sessions[session_id].output.len(),
            now + CONNECTION_TIMEOUT <= u64::MAX,
        ensures
            final(self).wf(),
            !old(self)@.sessions.contains_key(session_id) ==> final(self)@ =~= old(self)@,
            old(self)@.sessions.contains_key(session_id) ==> final(self)@ =~= (EngineView {
                sessions: old(self)@.sessions.insert(
                    session_id,
                    SessionView {
                        output: old(self)@.sessions[session_id].output.skip(count as int),
                        write_deadline: if count > 0 {
                            Some((now + CONNECTION_TIMEOUT) as u64)
                        } else {
                            old(self)@.sessions[session_id].write_deadline
                        },
                        ..old(self)@.sessions[session_id]
                    },
                ),
                ..old(self)@
            }),
    {
        if !self.sessions.contains_key(&session_id) {
            return ;
        }
        let mut ctx = match self.sessions.remove(&session_id) {
            Some(c) => c,
            None => {
                proof {
                    assert(false);
                }
                vstd::pervasive::unreached()
            },
        };
        ctx.on_wrote(count, now);
        self.sessions.insert(session_id, ctx);
        proof {
            lemma_views_remove(old(self).sessions@, session_id);
            lemma_views_insert(old(self).sessions@.remove(session_id), session_id, ctx);
            assert(views_of(self.sessions@) =~= views_of(old(self).sessions@).insert(
                session_id,
                ctx@,
            ));
        }
    }

    /// The socket interest a session asks for: readable while its input
    /// buffer has room, writable while output awaits delivery.
    pub fn session_interest(&self, session_id: u32) -> (r: Option<(bool, bool)>)
        requires
            self.wf(),
        ensures
            r is Some <==> self@.sessions.contains_key(session_id),
            r matches Some(i) ==> i == spec_session_interest(self@.sessions[session_id]),
    {
        match self.sessions.get(&session_id) {
            Some(ctx) => Some(ctx.interest()),
            None => None,
        }
    }

    /// Check one session's write deadline.  An expired deadline means the
    /// session is stuck: a HUP with error code 0 is sent and the session
    /// is destroyed (the caller deregisters its socket and stops its
    /// deadline check); otherwise the caller reschedules the check.
    pub fn check_session_timeout(&mut self, session_id: u32, now: u64) -> (timed_out: bool)
        requires
            old(self).wf(),
            now + CONNECTION_TIMEOUT <= u64::MAX,
        ensures
            final(self).wf(),
            timed_out <==> (old(self)@.sessions.contains_key(session_id) && match old(
                self,
            )@.sessions[session_id].write_deadline {
                None => false,
                Some(d) => now >= d,
            }),
            !timed_out ==> final(self)@ =~= old(self)@,
            timed_out ==> final(self)@ =~= (EngineView {
                out: old(self)@.out + spec_control_frame(
                    old(self)@.msg_id,
                    ControlMessageType::Hup,
                    spec_hup_body(session_id, 0),
                ),
                write_deadline: spec_write_deadline_after_send(old(self)@, now),
                msg_id: spec_next_msg_id(old(self)@.msg_id),
                sessions: old(self)@.sessions.remove(session_id),
                queue: old(self)@.queue.remove_value(session_id),
                ..old(self)@
            }),
    {
        let timed_out = match self.sessions.get(&session_id) {
            Some(ctx) => !ctx.check_timeout(now),
            None => false,
        };
        if timed_out {
            self.send_hup_message(session_id, 0, now);
            self.remove_session(session_id);
        }
        timed_out
    }

    /// The session's local socket hung up: send a HUP with error code 0
    /// and destroy the session (the caller deregisters the socket).  For a
    /// session ID that is not live — a second readiness event can arrive
    /// for a session the first one tore down — this does nothing.
    pub fn on_session_hangup(&mut self, session_id: u32, now: u64)
        requires
            old(self).wf(),
            now + CONNECTION_TIMEOUT <= u64::MAX,
        ensures
            final(self).wf(),
            !old(self)@.sessions.contains_key(session_id) ==> final(self)@ =~= old(self)@,
            old(self)@.sessions.contains_key(session_id) ==> final(self)@ =~= (EngineView {
                out: old(self)@.out + spec_control_frame(
                    old(self)@.msg_id,
                    ControlMessageType::Hup,
                    spec_hup_body(session_id, 0),
                ),
                write_deadline: spec_write_deadline_after_send(old(self)@, now),
                msg_id: spec_next_msg_id(old(self)@.msg_id),
                sessions: old(self)@.sessions.remove(session_id),
                queue: old(self)@.queue.remove_value(session_id),
                ..old(self)@
            }),
    {
        if !self.sessions.contains_key(&session_id) {
            return ;
        }
        self.send_hup_message(session_id, 0, now);
        self.remove_session(session_id);
    }

    /// The session's local socket reported an error: send a HUP with error
    /// code 2 and destroy the session (the caller deregisters the socket).
    /// For a session ID that is not live, this does nothing.
    pub fn on_session_error(&mut self, session_id: u32, now: u64)
        requires
            old(self).wf(),
            now + CONNECTION_TIMEOUT <= u64::MAX,
        ensures
            final(self).wf(),
            !old(self)@.sessions.contains_key(session_id) ==> final(self)@ =~= old(self)@,
            old(self)@.sessions.contains_key(session_id) ==> final(self)@ =~= (EngineView {
                out: old(self)@.out + spec_control_frame(
                    old(self)@.msg_id,
                    ControlMessageType::Hup,
                    spec_hup_body(session_id, 2),
                ),
                write_deadline: spec_write_deadline_after_send(old(self)@, now),
                msg_id: spec_next_msg_id(old(self)@.msg_id),
                sessions: old(self)@.sessions.remove(session_id),
                queue: old(self)@.queue.remove_value(session_id),
                ..old(self)@
            }),
    {
        if !self.sessions.contains_key(&session_id) {
            return ;
        }
        self.send_hup_message(session_id, 2, now);
        self.remove_session(session_id);
    }

    /// Whether the tunnel may be read, given the readiness flags projected
    /// through the TLS stream state.
    pub fn can_read_tunnel(&self, flags: Readiness) -> (r: bool)
        ensures
            r == spec_can_read(self@.stream, flags),
    {
        can_read(self.stream, flags)
    }

    /// Whether the tunnel may be written, symmetrically.
    pub fn can_write_tunnel(&self, flags: Readiness) -> (r: bool)
        ensures
            r == spec_can_write(self@.stream, flags),
    {
        can_write(self.stream, flags)
    }

    /// Record what a TLS read attempt reported and return the socket
    /// interest to register: only the direction the stream now waits on.
    pub fn note_tunnel_read_outcome(&mut self, outcome: TlsIoOutcome) -> (interest: (bool, bool))
        requires
            old(self).wf(),
        ensures
            final(self).wf(),
            final(self)@ =~= (EngineView { stream: spec_state_after_read(outcome), ..old(self)@ }),
            interest == spec_stream_interest(spec_state_after_read(outcome)),
    {
        self.stream = state_after_read(outcome);
        stream_interest(self.stream)
    }

    /// Record what a TLS write attempt reported, symmetrically.
    pub fn note_tunnel_write_outcome(&mut self, outcome: TlsIoOutcome) -> (interest: (bool, bool))
        requires
            old(self).wf(),
        ensures
            final(self).wf(),
            final(self)@ =~= (EngineView { stream: spec_state_after_write(outcome), ..old(self)@ }),
            interest == spec_stream_interest(spec_state_after_write(outcome)),
    {
        self.stream = state_after_write(outcome);
        stream_interest(self.stream)
    }
}

/// How many input bytes one session contributes on a round-robin visit:
/// everything it has buffered, capped at `EGRESS_CHUNK`.
pub open spec fn spec_taken(v: SessionView) -> int {
    if v.input.len() <= EGRESS_CHUNK {
        v.input.len() as int
    } else {
        EGRESS_CHUNK as int
    }
}

/// The frame one session contributes on a round-robin visit: its capped
/// input wrapped with its service and session IDs, or nothing when its
/// input buffer is empty.
pub open spec fn spec_contribution(m: Map<u32, SessionView>, sid: u32) -> Seq<u8> {
    let v = m[sid];
    if spec_taken(v) > 0 {
        spec_frame_bytes(v.service_id, sid, v.input.take(spec_taken(v)))
    } else {
        Seq::<u8>::empty()
    }
}

/// The bytes the first `k` round-robin visits append to the tunnel output
/// buffer: one contribution per visited queue entry, in queue order.
pub open spec fn spec_refill_out(m: Map<u32, SessionView>, q: Seq<u32>, k: int) -> Seq<u8>
    recommends
        k <= q.len(),
    decreases k,
{
    if k <= 0 {
        Seq::<u8>::empty()
    } else {
        spec_contribution(m, q[0]) + spec_refill_out(m, q.skip(1), k - 1)
    }
}

/// Unrolling one visit at the back: the first `k + 1` contributions are
/// the first `k` followed by that of the `k`-th queue entry.
proof fn lemma_refill_out_snoc(m: Map<u32, SessionView>, q: Seq<u32>, k: int)
    requires
        0 <= k < q.len(),
    ensures
        spec_refill_out(m, q, k + 1) == spec_refill_out(m, q, k) + spec_contribution(m, q[k]),
    decreases k,
{
    if k == 0 {
        assert(spec_refill_out(m, q.skip(1), 0) == Seq::<u8>::empty());
        assert(spec_contribution(m, q[0]) + Seq::<u8>::empty() =~= spec_contribution(m, q[0]));
        assert(Seq::<u8>::empty() + spec_contribution(m, q[0]) =~= spec_contribution(m, q[0]));
    } else {
        lemma_refill_out_snoc(m, q.skip(1), k - 1);
        assert(q.skip(1)[k - 1] == q[k]);
        assert((spec_contribution(m, q[0]) + spec_refill_out(m, q.skip(1), k - 1))
            + spec_contribution(m, q[k]) =~= spec_contribution(m, q[0]) + (spec_refill_out(
            m,
            q.skip(1),
            k - 1,
        ) + spec_contribution(m, q[k])));
    }
}

impl Engine {
    /// Refill the tunnel output buffer from session input buffers, round
    /// robin: starting at the head of the session queue, each visited
    /// session contributes at most one frame of at most `EGRESS_CHUNK`
    /// payload bytes and rotates to the tail, until the buffer is full or
    /// every session has been visited once.  A full buffer is a no-op.
    /// Returns how many queue entries were visited.
    pub fn fill_output_buffer(&mut self, now: u64) -> (visited: usize)
        requires
            old(self).wf(),
            now + CONNECTION_TIMEOUT <= u64::MAX,
        ensures
            final(self).wf(),
            visited <= old(self)@.queue.len(),
            // Visits happen only while the buffer is below capacity ...
            forall|j: int|
                0 <= j < visited ==> (old(self)@.out + spec_refill_out(
                    old(self)@.sessions,
                    old(self)@.queue,
                    j,
                )).len() < TUNNEL_OUTPUT_CAPACITY,
            // ... and stop only at a full buffer or after one full pass.
            visited == old(self)@.queue.len() || (old(self)@.out + spec_refill_out(
                old(self)@.sessions,
                old(self)@.queue,
                visited as int,
            )).len() >= TUNNEL_OUTPUT_CAPACITY,
            final(self)@.out == old(self)@.out + spec_refill_out(
                old(self)@.sessions,
                old(self)@.queue,
                visited as int,
            ),
            // The queue rotates by exactly the visited entries.
            final(self)@.queue == old(self)@.queue.skip(visited as int) + old(self)@.queue.take(
                visited as int,
            ),
            final(self)@.sessions.dom() == old(self)@.sessions.dom(),
            // Each visited session lost exactly its contribution ...
            forall|j: int|
                0 <= j < visited ==> final(self)@.sessions[old(self)@.queue[j]]
                    == (SessionView {
                    input: old(self)@.sessions[old(self)@.queue[j]].input.skip(
                        spec_taken(old(self)@.sessions[old(self)@.queue[j]]),
                    ),
                    ..old(self)@.sessions[old(self)@.queue[j]]
                }),
            // ... and unvisited sessions are untouched.
            forall|k: u32|
                old(self)@.sessions.contains_key(k) && !old(self)@.queue.take(
                    visited as int,
                ).contains(k) ==> final(self)@.sessions[k] == old(self)@.sessions[k],
            final(self)@.write_deadline == (if old(self)@.out.len() == 0 && final(self)@.out.len()
                > 0 {
                Some((now + CONNECTION_TIMEOUT) as u64)
            } else {
                old(self)@.write_deadline
            }),
            final(self)@.state == old(self)@.state,
            final(self)@.absorbed == old(self)@.absorbed,
            final(self)@.stream == old(self)@.stream,
            final(self)@.last_update == old(self)@.last_update,
            final(self)@.ack_deadline == old(self)@.ack_deadline,
            final(self)@.msg_id == old(self)@.msg_id,
            final(self)@.expected_acks == old(self)@.expected_acks,
            // A full buffer is a no-op.
            old(self)@.out.len() >= TUNNEL_OUTPUT_CAPACITY ==> visited == 0 && final(self)@ =~= old(
                self,
            )@,
    {
        let ghost pre_sessions = old(self)@.sessions;
        let ghost pre_queue = old(self)@.queue;
        let ghost pre_out = old(self)@.out;
        let n = self.session_queue.len();
        let mut visited: usize = 0;
        while visited < n && !self.output_buffer.is_full()
            invariant
                old(self).wf(),
                now + CONNECTION_TIMEOUT <= u64::MAX,
                pre_sessions == old(self)@.sessions,
                pre_queue == old(self)@.queue,
                pre_out == old(self)@.out,
                n == pre_queue.len(),
                visited <= n,
                self.session_queue@ == pre_queue.skip(visited as int) + pre_queue.take(
                    visited as int,
                ),
                views_of(self.sessions@).dom() == pre_sessions.dom(),
                forall|j: int|
                    0 <= j < visited ==> views_of(self.sessions@)[pre_queue[j]]
                        == (SessionView {
                        input: pre_sessions[pre_queue[j]].input.skip(
                            spec_taken(pre_sessions[pre_queue[j]]),
                        ),
                        ..pre_sessions[pre_queue[j]]
                    }),
                forall|k: u32|
                    pre_sessions.contains_key(k) && !pre_queue.take(visited as int).contains(k)
                        ==> views_of(self.sessions@)[k] == pre_sessions[k],
                forall|k: u32|
                    #[trigger] self.sessions@.contains_key(k) ==> self.sessions@[k].wf()
                        && self.sessions@[k]@.session_id == k,
                self.output_buffer@ == pre_out + spec_refill_out(
                    pre_sessions,
                    pre_queue,
                    visited as int,
                ),
                self.output_buffer.capacity() == TUNNEL_OUTPUT_CAPACITY,
                self.write_tout@ == (if pre_out.len() == 0 && self.output_buffer@.len() > 0 {
                    Some((now + CONNECTION_TIMEOUT) as u64)
                } else {
                    old(self)@.write_deadline
                }),
                forall|j: int|
                    0 <= j < visited ==> (pre_out + spec_refill_out(
                        pre_sessions,
                        pre_queue,
                        j,
                    )).len() < TUNNEL_OUTPUT_CAPACITY,
                self.state == old(self).state,
                self.framer == old(self).framer,
                self.stream == old(self).stream,
                self.last_update == old(self).last_update,
                self.ack_tout == old(self).ack_tout,
                self.msg_id == old(self).msg_id,
                self.expected_acks == old(self).expected_acks,
            decreases n - visited,
        {
            let ghost sid_spec = pre_queue[visited as int];
            proof {
                assert(self.session_queue@.len() == pre_queue.len());
                assert(self.session_queue@[0] == pre_queue.skip(visited as int)[0]);
                assert(pre_queue.skip(visited as int)[0] == pre_queue[visited as int]);
                assert(pre_queue.contains(sid_spec));
                assert(pre_sessions.contains_key(sid_spec)) by {
                    assert(old(self)@.sessions.contains_key(pre_queue[visited as int]));
                }
                // the session about to be visited has not been visited yet
                assert(!pre_queue.take(visited as int).contains(sid_spec)) by {
                    if pre_queue.take(visited as int).contains(sid_spec) {
                        let j = choose|j: int|
                            0 <= j < visited && pre_queue.take(visited as int)[j] == sid_spec;
                        assert(pre_queue[j] == sid_spec);
                    }
                }
            }
            let sid = match self.session_queue.pop_front() {
                Some(s) => s,
                None => {
                    proof {
                        assert(false);
                    }
                    vstd::pervasive::unreached()
                },
            };
            let mut ctx = match self.sessions.remove(&sid) {
                Some(c) => c,
                None => {
                    proof {
                        assert(views_of(old(self).sessions@).dom() == old(self)@.sessions.dom());
                        assert(false);
                    }
                    vstd::pervasive::unreached()
                },
            };
            proof {
                assert(ctx@ == pre_sessions[sid_spec]);
            }
            let available = ctx.input_len();
            let taken = if available <= EGRESS_CHUNK {
                available
            } else {
                EGRESS_CHUNK
            };
            if taken > 0 {
                let chunk = ctx.input_chunk(EGRESS_CHUNK);
                let frame = encode_frame(ctx.service_id(), sid, chunk.as_slice());
                proof {
                    crate::framer::lemma_frame_decode(ctx@.service_id, sid, chunk@);
                    assert(frame@ == spec_contribution(pre_sessions, sid_spec));
                }
                if self.output_buffer.is_empty() {
                    self.write_tout.set(now, CONNECTION_TIMEOUT);
                }
                self.output_buffer.write_all(frame.as_slice());
                ctx.drop_input_bytes(taken);
            } else {
                proof {
                    assert(spec_contribution(pre_sessions, sid_spec) =~= Seq::<u8>::empty());
                    assert(ctx@.input.skip(0) =~= ctx@.input);
                }
            }
            self.sessions.insert(sid, ctx);
            self.session_queue.push_back(sid);
            proof {
                lemma_views_remove(old(self).sessions@, sid);
                lemma_views_insert(old(self).sessions@.remove(sid), sid, ctx);
            }
            visited = visited + 1;
            proof {
                lemma_refill_out_snoc(pre_sessions, pre_queue, visited - 1);
                assert(self.output_buffer@ =~= pre_out + spec_refill_out(
                    pre_sessions,
                    pre_queue,
                    visited as int,
                ));
                assert(self.session_queue@ =~= pre_queue.skip(visited as int) + pre_queue.take(
                    visited as int,
                ));
                assert(views_of(self.sessions@).dom() =~= pre_sessions.dom());
                assert forall|k: u32|
                    #[trigger] pre_sessions.contains_key(k) && !pre_queue.take(
                        visited as int,
                    ).contains(k) implies views_of(self.sessions@)[k] == pre_sessions[k] by {
                    assert(k != sid_spec) by {
                        if k == sid_spec {
                            assert(pre_queue.take(visited as int)[visited - 1] == sid_spec);
                        }
                    }
                    assert(!pre_queue.take(visited as int - 1).contains(k)) by {
                        if pre_queue.take(visited as int - 1).contains(k) {
                            let j = choose|j: int|
                                0 <= j < visited - 1 && #[trigger] pre_queue.take(
                                    visited as int - 1,
                                )[j] == k;
                            assert(pre_queue.take(visited as int)[j] == k);
                        }
                    }
                }
            }
        }
        proof {
            // rebuild the engine invariant for the rotated queue
            assert(self.session_queue@.no_duplicates()) by {
                assert forall|a: int, b: int|
                    0 <= a < b < self.session_queue@.len()
                    implies self.session_queue@[a] != self.session_queue@[b] by {
                    let la = if a < n - visited {
                        a + visited
                    } else {
                        a - (n - visited)
                    };
                    let lb = if b < n - visited {
                        b + visited
                    } else {
                        b - (n - visited)
                    };
                    assert(self.session_queue@[a] == pre_queue[la]);
                    assert(self.session_queue@[b] == pre_queue[lb]);
                }
            }
            assert forall|i: int| 0 <= i < self.session_queue@.len()
                implies self.sessions@.contains_key(#[trigger] self.session_queue@[i]) by {
                let li = if i < n - visited {
                    i + visited
                } else {
                    i - (n - visited)
                };
                assert(self.session_queue@[i] == pre_queue[li]);
                assert(old(self)@.sessions.contains_key(pre_queue[li]));
                assert(views_of(self.sessions@).dom() == pre_sessions.dom());
            }
            assert forall|k: u32| #[trigger] self.sessions@.contains_key(k)
                implies self.session_queue@.contains(k) by {
                assert(views_of(self.sessions@).dom() == pre_sessions.dom());
                assert(old(self)@.sessions.contains_key(k));
                assert(old(self).session_queue@.contains(k));
                let j = choose|j: int| 0 <= j < pre_queue.len() && pre_queue[j] == k;
                let i = if j >= visited {
                    j - visited
                } else {
                    j + (n - visited)
                };
                assert(self.session_queue@[i] == k);
            }
            if pre_out.len() >= TUNNEL_OUTPUT_CAPACITY && visited > 0 {
                assert(spec_refill_out(pre_sessions, pre_queue, 0) == Seq::<u8>::empty());
                assert((pre_out + spec_refill_out(pre_sessions, pre_queue, 0)).len()
                    < TUNNEL_OUTPUT_CAPACITY);
                assert(false);
            }
            if visited == 0 {
                assert(spec_refill_out(pre_sessions, pre_queue, 0) == Seq::<u8>::empty());
                assert(self.output_buffer@ =~= pre_out);
                assert(self.session_queue@ =~= pre_queue);
                assert(views_of(self.sessions@) =~= pre_sessions) by {
                    assert(pre_queue.take(0).len() == 0);
                    assert forall|k: u32| #[trigger] pre_sessions.contains_key(k)
                        implies views_of(self.sessions@)[k] == pre_sessions[k] by {
                        assert(!pre_queue.take(0).contains(k));
                    }
                }
            }
        }
        visited
    }

    /// Decide the tunnel write after a refill: when nothing is buffered,
    /// clear the tunnel write deadline and report nothing to write (the
    /// caller drops write interest); otherwise hand out the front of the
    /// buffer, at most `TUNNEL_WRITE_CHUNK` bytes, leaving it buffered
    /// until `on_tunnel_wrote` accounts for what the stream accepted.
    pub fn next_tunnel_chunk(&mut self) -> (r: Option<Vec<u8>>)
        requires
            old(self).wf(),
        ensures
            final(self).wf(),
            old(self)@.out.len() == 0 ==> r is None && final(self)@ =~= (EngineView {
                write_deadline: None,
                ..old(self)@
            }),
            old(self)@.out.len() > 0 ==> {
                &&& r matches Some(chunk) && chunk@ == old(self)@.out.take(
                    if TUNNEL_WRITE_CHUNK <= old(self)@.out.len() {
                        TUNNEL_WRITE_CHUNK as int
                    } else {
                        old(self)@.out.len() as int
                    },
                )
                &&& final(self)@ =~= old(self)@
            },
    {
        if self.output_buffer.is_empty() {
            self.write_tout.clear();
            return None;
        }
        let bytes = self.output_buffer.as_bytes();
        let len = if TUNNEL_WRITE_CHUNK <= bytes.len() {
            TUNNEL_WRITE_CHUNK
        } else {
            bytes.len()
        };
        let mut chunk: Vec<u8> = Vec::new();
        let mut i: usize = 0;
        while i < len
            invariant
                i <= len <= bytes@.len(),
                chunk@ == bytes@.take(i as int),
            decreases len - i,
        {
            chunk.push(bytes[i]);
            i = i + 1;
            proof {
                assert(chunk@ =~= bytes@.take(i as int));
            }
        }
        Some(chunk)
    }

    /// Account for bytes the TLS stream accepted: drop them from the
    /// output buffer and re-arm the tunnel write deadline if any were
    /// written.
    pub fn on_tunnel_wrote(&mut self, count: usize, now: u64)
        requires
            old(self).wf(),
            count <= old(self)@.out.len(),
            now + CONNECTION_TIMEOUT <= u64::MAX,
        ensures
            final(self).wf(),
            final(self)@ =~= (EngineView {
                out: old(self)@.out.skip(count as int),
                write_deadline: if count > 0 {
                    Some((now + CONNECTION_TIMEOUT) as u64)
                } else {
                    old(self)@.write_deadline
                },
                ..old(self)@
            }),
    {
        if count > 0 {
            self.write_tout.set(now, CONNECTION_TIMEOUT);
            self.output_buffer.drop_front(count);
        }
    }
}

/// The frame a complete absorbed sequence decodes to.
pub open spec fn spec_frame_of(absorbed: Seq<u8>) -> crate::framer::FrameView {
    crate::framer::FrameView {
        service_id: crate::wire::spec_u16_from_be(absorbed.subrange(0, 2)),
        session_id: crate::wire::spec_u32_from_be(absorbed.subrange(2, 6)),
        payload: absorbed.skip(10),
    }
}

/// What absorbing an input byte sequence produces, one byte at a time:
/// the whole frames completed along the way, in order, and the bytes of
/// the unfinished frame left absorbed at the end.
pub open spec fn spec_ingest(absorbed: Seq<u8>, input: Seq<u8>) -> (
    Seq<crate::framer::FrameView>,
    Seq<u8>,
)
    decreases input.len(),
{
    if input.len() == 0 {
        (Seq::<crate::framer::FrameView>::empty(), absorbed)
    } else {
        let a2 = absorbed.push(input[0]);
        if spec_complete(a2) {
            let rest = spec_ingest(Seq::<u8>::empty(), input.skip(1));
            (seq![spec_frame_of(a2)] + rest.0, rest.1)
        } else {
            spec_ingest(a2, input.skip(1))
        }
    }
}

/// The views of a sequence of frames.
pub open spec fn spec_frame_views(frames: Seq<ArrowFrame>) -> Seq<crate::framer::FrameView> {
    frames.map_values(|f: ArrowFrame| f@)
}

/// One chunk-feed step agrees with the byte-at-a-time model: a feed that
/// ends short of completion consumed everything and produced no frame; a
/// feed that completes a frame produced exactly that frame, and the model
/// continues on the unconsumed input with an empty parser.
proof fn lemma_ingest_feed(absorbed: Seq<u8>, input: Seq<u8>)
    requires
        !spec_complete(absorbed),
    ensures
        spec_feed_len(absorbed, input) <= input.len(),
        ({
            let n = spec_feed_len(absorbed, input) as int;
            let a2 = absorbed + input.take(n);
            &&& (!spec_complete(a2) ==> n == input.len() && spec_ingest(absorbed, input) == (
                Seq::<crate::framer::FrameView>::empty(),
                a2,
            ))
            &&& (spec_complete(a2) ==> n >= 1 && spec_ingest(absorbed, input) == (
                seq![spec_frame_of(a2)] + spec_ingest(Seq::<u8>::empty(), input.skip(n)).0,
                spec_ingest(Seq::<u8>::empty(), input.skip(n)).1,
            ))
        }),
    decreases input.len(),
{
    if input.len() == 0 {
        assert(absorbed + input.take(0) =~= absorbed);
    } else {
        let a1 = absorbed.push(input[0]);
        assert(input.skip(1).len() == input.len() - 1);
        if spec_complete(a1) {
            assert(spec_feed_len(a1, input.skip(1)) == 0);
            assert(spec_feed_len(absorbed, input) == 1);
            assert(absorbed + input.take(1) =~= a1);
        } else {
            lemma_ingest_feed(a1, input.skip(1));
            let n1 = spec_feed_len(a1, input.skip(1)) as int;
            let n = spec_feed_len(absorbed, input) as int;
            assert(n == 1 + n1);
            assert(a1 + input.skip(1).take(n1) =~= absorbed + input.take(n));
            assert(input.skip(1).skip(n1) =~= input.skip(n));
            assert(spec_ingest(absorbed, input) == spec_ingest(a1, input.skip(1)));
        }
    }
}

impl Engine {
    /// Absorb bytes read from the tunnel and hand back every whole frame
    /// they complete, in arrival order; a trailing partial frame stays
    /// absorbed for the next read.
    pub fn ingest(&mut self, bytes: &[u8]) -> (frames: Vec<ArrowFrame>)
        requires
            old(self).wf(),
        ensures
            final(self).wf(),
            spec_frame_views(frames@) == spec_ingest(old(self)@.absorbed, bytes@).0,
            final(self)@ =~= (EngineView {
                absorbed: spec_ingest(old(self)@.absorbed, bytes@).1,
                ..old(self)@
            }),
    {
        let mut frames: Vec<ArrowFrame> = Vec::new();
        let mut i: usize = 0;
        proof {
            assert(spec_frame_views(frames@) =~= Seq::<crate::framer::FrameView>::empty());
            assert(Seq::<crate::framer::FrameView>::empty() + spec_ingest(
                self.framer@,
                bytes@.skip(0),
            ).0 =~= spec_ingest(self.framer@, bytes@.skip(0)).0);
            assert(bytes@.skip(0) =~= bytes@);
        }
        while i < bytes.len()
            invariant
                i <= bytes@.len(),
                self.framer.wf(),
                !spec_complete(self.framer@),
                spec_ingest(old(self)@.absorbed, bytes@).0 == spec_frame_views(frames@)
                    + spec_ingest(self.framer@, bytes@.skip(i as int)).0,
                spec_ingest(old(self)@.absorbed, bytes@).1 == spec_ingest(
                    self.framer@,
                    bytes@.skip(i as int),
                ).1,
                self.state == old(self).state,
                self.sessions == old(self).sessions,
                self.session_queue == old(self).session_queue,
                self.output_buffer == old(self).output_buffer,
                self.stream == old(self).stream,
                self.last_update == old(self).last_update,
                self.write_tout == old(self).write_tout,
                self.ack_tout == old(self).ack_tout,
                self.msg_id == old(self).msg_id,
                self.expected_acks == old(self).expected_acks,
            decreases bytes@.len() - i,
        {
            let ghost pre_absorbed = self.framer@;
            let ghost rest = bytes@.skip(i as int);
            proof {
                assert(rest.len() > 0);
                assert(spec_feed_len(pre_absorbed, rest) >= 1) by {
                    assert(spec_feed_len(pre_absorbed, rest) == 1 + spec_feed_len(
                        pre_absorbed.push(rest[0]),
                        rest.skip(1),
                    ));
                }
                lemma_ingest_feed(pre_absorbed, rest);
            }
            let n = self.framer.feed(bytes, i);
            proof {
                assert(bytes@.subrange(i as int, i + n) =~= rest.take(n as int));
                assert(self.framer@ == pre_absorbed + rest.take(n as int));
                assert(rest.skip(n as int) =~= bytes@.skip(i + n));
            }
            i = i + n;
            if self.framer.is_complete() {
                let ghost a2 = self.framer@;
                let f = self.framer.take_frame();
                proof {
                    assert(f@ == spec_frame_of(a2));
                }
                frames.push(f);
                proof {
                    assert(spec_frame_views(frames@) =~= spec_frame_views(frames@.drop_last())
                        + seq![f@]);
                    assert((spec_frame_views(frames@.drop_last()) + seq![spec_frame_of(a2)])
                        + spec_ingest(self.framer@, bytes@.skip(i as int)).0 =~= spec_frame_views(
                        frames@.drop_last(),
                    ) + (seq![spec_frame_of(a2)] + spec_ingest(
                        self.framer@,
                        bytes@.skip(i as int),
                    ).0));
                    assert(self.framer@ =~= Seq::<u8>::empty());
                }
            }
        }
        proof {
            assert(bytes@.skip(bytes@.len() as int).len() == 0);
            assert(spec_frame_views(frames@) + Seq::<crate::framer::FrameView>::empty()
                =~= spec_frame_views(frames@));
        }
        frames
    }
}

/// ACK order preservation: an ACK is accepted only when it matches the
/// oldest outstanding message ID exactly, and accepting it consumes that
/// expectation, leaving the rest in their original order; an ACK with any
/// other ID, or with none outstanding, terminates the tunnel.
pub proof fn lemma_ack_order(
    pre: EngineView,
    post: EngineView,
    id: u16,
    body: Seq<u8>,
    now: u64,
    r: Result<FrameDisposition, EngineError>,
)
    requires
        spec_ack_case(pre, post, id, body, now, r),
    ensures
        r is Ok ==> pre.expected_acks.len() > 0 && id == pre.expected_acks[0]
            && post.expected_acks == pre.expected_acks.drop_first(),
        pre.expected_acks.len() == 0 ==> r is Err,
        pre.expected_acks.len() > 0 && id != pre.expected_acks[0] ==> r is Err,
{
}

/// Round-robin egress fairness, within one refill pass: every visited
/// queue entry contributes at most one frame carrying at most
/// `EGRESS_CHUNK` payload bytes.
pub proof fn lemma_egress_contribution_bounded(m: Map<u32, SessionView>, sid: u32)
    ensures
        0 <= spec_taken(m[sid]) <= EGRESS_CHUNK,
        m[sid].input.len() > 0 ==> spec_contribution(m, sid).len() == 10 + spec_taken(m[sid]),
        m[sid].input.len() == 0 ==> spec_contribution(m, sid).len() == 0,
{
    let v = m[sid];
    if v.input.len() > 0 {
        crate::framer::lemma_frame_decode(v.service_id, sid, v.input.take(spec_taken(v)));
    }
}

impl Engine {
    /// Number of bytes buffered for the tunnel.
    pub fn output_len(&self) -> (n: usize)
        ensures
            n == self@.out.len(),
    {
        self.output_buffer.buffered()
    }

    /// Number of input bytes a session has buffered, when it exists.
    pub fn session_input_len(&self, session_id: u32) -> (r: Option<usize>)
        requires
            self.wf(),
        ensures
            r is Some <==> self@.sessions.contains_key(session_id),
            r matches Some(n) ==> n == self@.sessions[session_id].input.len(),
    {
        match self.sessions.get(&session_id) {
            Some(ctx) => Some(ctx.input_len()),
            None => None,
        }
    }

    /// Number of output bytes a session has buffered, when it exists.
    pub fn session_output_len(&self, session_id: u32) -> (r: Option<usize>)
        requires
            self.wf(),
        ensures
            r is Some <==> self@.sessions.contains_key(session_id),
            r matches Some(n) ==> n == self@.sessions[session_id].output.len(),
    {
        match self.sessions.get(&session_id) {
            Some(ctx) => Some(ctx.output_len()),
            None => None,
        }
    }

    /// Number of control messages still awaiting their ACK.
    pub fn outstanding_acks(&self) -> (n: usize)
        ensures
            n == self@.expected_acks.len(),
    {
        self.expected_acks.len()
    }
}


} // verus!
