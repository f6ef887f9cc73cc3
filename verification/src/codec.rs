//! The Control sub-protocol codec.
//!
//! A Control message travels as the payload of a frame with `service_id ==
//! 0`.  Its header is a big-endian `msg_id: u16` followed by a big-endian
//! type code `u16`; the body follows.  Type codes that the codec does not
//! recognize decode to `Unknown`; the engine treats those as fatal.

use vstd::prelude::*;

use crate::wire::{
    lemma_u16_be_round_trip, lemma_u32_be_round_trip, push_u16_be, push_u32_be, read_u16_be,
    read_u32_be, spec_u16_be, spec_u16_from_be, spec_u32_be, spec_u32_from_be,
};

verus! {

/// Status flag reported to the service: a network scan is in progress.
pub const STATUS_FLAG_SCAN: u32 = 0x00000001;

/// Control message types.  `Unknown` stands for every type code the codec
/// does not recognize; it is never encoded.
#[derive(Debug, Copy, Clone, Eq, PartialEq, Structural)]
pub enum ControlMessageType {
    Ack,
    Ping,
    Register,
    Update,
    Redirect,
    Hup,
    ResetSvcTable,
    ScanNetwork,
    GetStatus,
    Status,
    Unknown,
}

/// Errors the codec reports: the input is shorter than the message layout
/// demands, or a REDIRECT body carries no NUL terminator.
#[derive(Debug, Copy, Clone, Eq, PartialEq, Structural)]
pub enum CodecError {
    Truncated,
    MissingNul,
}

/// A decoded Control message: header fields plus the raw body.
#[derive(Debug)]
pub struct ControlMessage {
    pub msg_id: u16,
    pub msg_type: ControlMessageType,
    pub body: Vec<u8>,
}

/// The wire code of each Control message type.
pub open spec fn spec_type_code(t: ControlMessageType) -> u16 {
    match t {
        ControlMessageType::Ack => 0,
        ControlMessageType::Ping => 1,
        ControlMessageType::Register => 2,
        ControlMessageType::Update => 3,
        ControlMessageType::Redirect => 4,
        ControlMessageType::Hup => 5,
        ControlMessageType::ResetSvcTable => 6,
        ControlMessageType::ScanNetwork => 7,
        ControlMessageType::GetStatus => 8,
        ControlMessageType::Status => 9,
        ControlMessageType::Unknown => 0xffff,
    }
}

/// The Control message type of a wire code.
pub open spec fn spec_type_of_code(code: u16) -> ControlMessageType {
    if code == 0 {
        ControlMessageType::Ack
    } else if code == 1 {
        ControlMessageType::Ping
    } else if code == 2 {
        ControlMessageType::Register
    } else if code == 3 {
        ControlMessageType::Update
    } else if code == 4 {
        ControlMessageType::Redirect
    } else if code == 5 {
        ControlMessageType::Hup
    } else if code == 6 {
        ControlMessageType::ResetSvcTable
    } else if code == 7 {
        ControlMessageType::ScanNetwork
    } else if code == 8 {
        ControlMessageType::GetStatus
    } else if code == 9 {
        ControlMessageType::Status
    } else {
        ControlMessageType::Unknown
    }
}

/// Decoding a type's own wire code gives the type back, for every type.
pub proof fn lemma_type_code_round_trip(t: ControlMessageType)
    ensures
        spec_type_of_code(spec_type_code(t)) == t,
{
}

fn type_code(t: ControlMessageType) -> (code: u16)
    ensures
        code == spec_type_code(t),
{
    match t {
        ControlMessageType::Ack => 0,
        ControlMessageType::Ping => 1,
        ControlMessageType::Register => 2,
        ControlMessageType::Update => 3,
        ControlMessageType::Redirect => 4,
        ControlMessageType::Hup => 5,
        ControlMessageType::ResetSvcTable => 6,
        ControlMessageType::ScanNetwork => 7,
        ControlMessageType::GetStatus => 8,
        ControlMessageType::Status => 9,
        ControlMessageType::Unknown => 0xffff,
    }
}

fn type_of_code(code: u16) -> (t: ControlMessageType)
    ensures
        t == spec_type_of_code(code),
{
    match code {
        0 => ControlMessageType::Ack,
        1 => ControlMessageType::Ping,
        2 => ControlMessageType::Register,
        3 => ControlMessageType::Update,
        4 => ControlMessageType::Redirect,
        5 => ControlMessageType::Hup,
        6 => ControlMessageType::ResetSvcTable,
        7 => ControlMessageType::ScanNetwork,
        8 => ControlMessageType::GetStatus,
        9 => ControlMessageType::Status,
        _ => ControlMessageType::Unknown,
    }
}

/// The wire bytes of a Control message: `msg_id`, type code, body.
pub open spec fn spec_control_bytes(msg_id: u16, t: ControlMessageType, body: Seq<u8>) -> Seq<u8> {
    spec_u16_be(msg_id) + spec_u16_be(spec_type_code(t)) + body
}

/// What decoding a Control payload gives: `None` when shorter than the
/// four header bytes, else the header fields and the body.
pub open spec fn spec_parse_control(bytes: Seq<u8>) -> Option<(u16, ControlMessageType, Seq<u8>)> {
    if bytes.len() < 4 {
        None
    } else {
        Some(
            (
                spec_u16_from_be(bytes.subrange(0, 2)),
                spec_type_of_code(spec_u16_from_be(bytes.subrange(2, 4))),
                bytes.skip(4),
            ),
        )
    }
}

impl ControlMessage {
    /// Encode this message into its wire bytes.
    pub fn encode(&self) -> (out: Vec<u8>)
        ensures
            out@ == spec_control_bytes(self.msg_id, self.msg_type, self.body@),
    {
        let mut out: Vec<u8> = Vec::new();
        push_u16_be(&mut out, self.msg_id);
        push_u16_be(&mut out, type_code(self.msg_type));
        let mut i: usize = 0;
        let ghost head = out@;
        while i < self.body.len()
            invariant
                i <= self.body@.len(),
                out@ == head + self.body@.take(i as int),
            decreases self.body@.len() - i,
        {
            out.push(self.body[i]);
            i = i + 1;
            proof {
                assert(out@ =~= head + self.body@.take(i as int));
            }
        }
        proof {
            assert(out@ =~= spec_control_bytes(self.msg_id, self.msg_type, self.body@));
        }
        out
    }

    /// Decode a Control payload.  Fails exactly when fewer than four bytes
    /// are given; an unrecognized type code decodes to `Unknown`.
    pub fn parse(bytes: &[u8]) -> (r: Result<ControlMessage, CodecError>)
        ensures
            r is Err <==> bytes@.len() < 4,
            r is Err ==> r == Err::<ControlMessage, CodecError>(CodecError::Truncated),
            r matches Ok(m) ==> {
                &&& Some((m.msg_id, m.msg_type, m.body@)) == spec_parse_control(bytes@)
                &&& m.msg_id == spec_u16_from_be(bytes@.subrange(0, 2))
                &&& m.msg_type == spec_type_of_code(spec_u16_from_be(bytes@.subrange(2, 4)))
                &&& m.body@ == bytes@.skip(4)
            },
    {
        if bytes.len() < 4 {
            return Err(CodecError::Truncated);
        }
        let msg_id = read_u16_be(bytes[0], bytes[1]);
        let code = read_u16_be(bytes[2], bytes[3]);
        proof {
            assert(seq![bytes@[0], bytes@[1]] =~= bytes@.subrange(0, 2));
            assert(seq![bytes@[2], bytes@[3]] =~= bytes@.subrange(2, 4));
        }
        let mut body: Vec<u8> = Vec::new();
        let mut i: usize = 4;
        while i < bytes.len()
            invariant
                4 <= i <= bytes@.len(),
                body@ == bytes@.subrange(4, i as int),
            decreases bytes@.len() - i,
        {
            body.push(bytes[i]);
            i = i + 1;
            proof {
                assert(body@ =~= bytes@.subrange(4, i as int));
            }
        }
        proof {
            assert(body@ =~= bytes@.skip(4));
        }
        Ok(ControlMessage { msg_id, msg_type: type_of_code(code), body })
    }
}

/// Decoding the encoding of any Control message gives the original logical
/// message back: the same `msg_id`, the same type, the same body.
pub proof fn lemma_control_round_trip(msg_id: u16, t: ControlMessageType, body: Seq<u8>)
    ensures
        spec_parse_control(spec_control_bytes(msg_id, t, body)) == Some(
            (msg_id, t, body),
        ),
{
    let bytes = spec_control_bytes(msg_id, t, body);
    lemma_u16_be_round_trip(msg_id);
    lemma_u16_be_round_trip(spec_type_code(t));
    assert(bytes.subrange(0, 2) =~= spec_u16_be(msg_id));
    assert(bytes.subrange(2, 4) =~= spec_u16_be(spec_type_code(t)));
    assert(bytes.skip(4) =~= body);
    lemma_type_code_round_trip(t);
}

/// The body of an ACK message: an error code, zero meaning success.
pub open spec fn spec_ack_body(error_code: u32) -> Seq<u8> {
    spec_u32_be(error_code)
}

/// Encode an ACK body.
pub fn encode_ack_body(error_code: u32) -> (out: Vec<u8>)
    ensures
        out@ == spec_ack_body(error_code),
{
    let mut out: Vec<u8> = Vec::new();
    push_u32_be(&mut out, error_code);
    proof {
        assert(out@ =~= spec_ack_body(error_code));
    }
    out
}

/// Decode an ACK body.  Fails exactly when the body is not four bytes.
pub fn parse_ack_body(bytes: &[u8]) -> (r: Result<u32, CodecError>)
    ensures
        r matches Ok(c) ==> bytes@.len() == 4 && c == spec_u32_from_be(bytes@),
        r is Err <==> bytes@.len() != 4,
{
    if bytes.len() != 4 {
        return Err(CodecError::Truncated);
    }
    let c = read_u32_be(bytes[0], bytes[1], bytes[2], bytes[3]);
    proof {
        assert(seq![bytes@[0], bytes@[1], bytes@[2], bytes@[3]] =~= bytes@);
    }
    Ok(c)
}

/// The body of a HUP message: a session ID and an error code.
pub open spec fn spec_hup_body(session_id: u32, error_code: u32) -> Seq<u8> {
    spec_u32_be(session_id) + spec_u32_be(error_code)
}

/// Encode a HUP body.
pub fn encode_hup_body(session_id: u32, error_code: u32) -> (out: Vec<u8>)
    ensures
        out@ == spec_hup_body(session_id, error_code),
{
    let mut out: Vec<u8> = Vec::new();
    push_u32_be(&mut out, session_id);
    push_u32_be(&mut out, error_code);
    proof {
        assert(out@ =~= spec_hup_body(session_id, error_code));
    }
    out
}

/// Decode a HUP body into `(session_id, error_code)`.  Fails exactly when
/// the body is not eight bytes.
pub fn parse_hup_body(bytes: &[u8]) -> (r: Result<(u32, u32), CodecError>)
    ensures
        r matches Ok(p) ==> {
            &&& bytes@.len() == 8
            &&& p.0 == spec_u32_from_be(bytes@.subrange(0, 4))
            &&& p.1 == spec_u32_from_be(bytes@.subrange(4, 8))
        },
        r is Err <==> bytes@.len() != 8,
{
    if bytes.len() != 8 {
        return Err(CodecError::Truncated);
    }
    let session_id = read_u32_be(bytes[0], bytes[1], bytes[2], bytes[3]);
    let error_code = read_u32_be(bytes[4], bytes[5], bytes[6], bytes[7]);
    proof {
        assert(seq![bytes@[0], bytes@[1], bytes@[2], bytes@[3]] =~= bytes@.subrange(0, 4));
        assert(seq![bytes@[4], bytes@[5], bytes@[6], bytes@[7]] =~= bytes@.subrange(4, 8));
    }
    Ok((session_id, error_code))
}

/// Encoding then decoding a HUP body gives the fields back.
pub proof fn lemma_hup_body_round_trip(session_id: u32, error_code: u32)
    ensures
        spec_hup_body(session_id, error_code).len() == 8,
        spec_u32_from_be(spec_hup_body(session_id, error_code).subrange(0, 4)) == session_id,
        spec_u32_from_be(spec_hup_body(session_id, error_code).subrange(4, 8)) == error_code,
{
    lemma_u32_be_round_trip(session_id);
    lemma_u32_be_round_trip(error_code);
    assert(spec_hup_body(session_id, error_code).subrange(0, 4) =~= spec_u32_be(session_id));
    assert(spec_hup_body(session_id, error_code).subrange(4, 8) =~= spec_u32_be(error_code));
}

/// The body of a STATUS message: request ID, flags, active session count.
pub open spec fn spec_status_body(request_id: u16, flags: u32, active_sessions: u32) -> Seq<u8> {
    spec_u16_be(request_id) + spec_u32_be(flags) + spec_u32_be(active_sessions)
}

/// Encode a STATUS body.
pub fn encode_status_body(request_id: u16, flags: u32, active_sessions: u32) -> (out: Vec<u8>)
    ensures
        out@ == spec_status_body(request_id, flags, active_sessions),
{
    let mut out: Vec<u8> = Vec::new();
    push_u16_be(&mut out, request_id);
    push_u32_be(&mut out, flags);
    push_u32_be(&mut out, active_sessions);
    proof {
        assert(out@ =~= spec_status_body(request_id, flags, active_sessions));
    }
    out
}

/// The body of a REGISTER message: a 16-byte UUID, a 6-byte MAC address,
/// a length-prefixed password, and the serialized service table.
pub open spec fn spec_register_body(
    uuid: Seq<u8>,
    mac: Seq<u8>,
    password: Seq<u8>,
    svc_table: Seq<u8>,
) -> Seq<u8> {
    uuid + mac + spec_u16_be(password.len() as u16) + password + svc_table
}

/// Encode a REGISTER body.
pub fn encode_register_body(uuid: &[u8], mac: &[u8], password: &[u8], svc_table: &[u8]) -> (out:
    Vec<u8>)
    requires
        uuid@.len() == 16,
        mac@.len() == 6,
        password@.len() <= u16::MAX,
    ensures
        out@ == spec_register_body(uuid@, mac@, password@, svc_table@),
{
    let mut out: Vec<u8> = Vec::new();
    append_slice(&mut out, uuid);
    append_slice(&mut out, mac);
    push_u16_be(&mut out, password.len() as u16);
    append_slice(&mut out, password);
    append_slice(&mut out, svc_table);
    proof {
        assert(out@ =~= spec_register_body(uuid@, mac@, password@, svc_table@));
    }
    out
}

/// Decode a REDIRECT body: the bytes before the first NUL.  Fails exactly
/// when no NUL is present.
pub fn parse_redirect_body(bytes: &[u8]) -> (r: Result<Vec<u8>, CodecError>)
    ensures
        r matches Ok(addr) ==> {
            &&& addr@.len() < bytes@.len()
            &&& addr@ == bytes@.take(addr@.len() as int)
            &&& bytes@[addr@.len() as int] == 0
            &&& forall|j: int| 0 <= j < addr@.len() ==> bytes@[j] != 0
        },
        r is Err <==> (forall|j: int| 0 <= j < bytes@.len() ==> bytes@[j] != 0),
{
    let mut addr: Vec<u8> = Vec::new();
    let mut i: usize = 0;
    while i < bytes.len()
        invariant
            i <= bytes@.len(),
            addr@ == bytes@.take(i as int),
            forall|j: int| 0 <= j < i ==> bytes@[j] != 0,
        decreases bytes@.len() - i,
    {
        if bytes[i] == 0 {
            return Ok(addr);
        }
        addr.push(bytes[i]);
        i = i + 1;
        proof {
            assert(addr@ =~= bytes@.take(i as int));
        }
    }
    Err(CodecError::MissingNul)
}

/// Append a whole slice to a byte vector.
pub fn append_slice(out: &mut Vec<u8>, bytes: &[u8])
    ensures
        final(out)@ == old(out)@ + bytes@,
{
    let mut i: usize = 0;
    while i < bytes.len()
        invariant
            i <= bytes@.len(),
            out@ == old(out)@ + bytes@.take(i as int),
        decreases bytes@.len() - i,
    {
        out.push(bytes[i]);
        i = i + 1;
        proof {
            assert(out@ =~= old(out)@ + bytes@.take(i as int));
        }
    }
    proof {
        assert(out@ =~= old(out)@ + bytes@);
    }
}

} // verus!
