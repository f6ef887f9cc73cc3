//! Framing of messages on the tunnel.
//!
//! A frame is a 10-byte header — `service_id: u16`, `session_id: u32`,
//! payload length `u32`, all big-endian — followed by the payload.
//! `ArrowFramer` is a streaming parser: it absorbs bytes in arbitrary
//! increments, never looks ahead past its own header, and holds one
//! complete frame at a time.

use vstd::prelude::*;

use crate::codec::append_slice;
use crate::wire::{
    lemma_u16_be_round_trip, lemma_u32_be_round_trip, push_u16_be, push_u32_be, read_u16_be,
    read_u32_be, spec_u16_be, spec_u16_from_be, spec_u32_be, spec_u32_from_be,
};

verus! {

/// Length of the frame header in bytes.
pub const FRAME_HEADER_LEN: usize = 10;

/// A whole message received from or destined for the tunnel.
#[derive(Debug)]
pub struct ArrowFrame {
    pub service_id: u16,
    pub session_id: u32,
    pub payload: Vec<u8>,
}

/// The mathematical image of a frame.
pub struct FrameView {
    pub service_id: u16,
    pub session_id: u32,
    pub payload: Seq<u8>,
}

impl View for ArrowFrame {
    type V = FrameView;

    open spec fn view(&self) -> FrameView {
        FrameView { service_id: self.service_id, session_id: self.session_id, payload: self.payload@ }
    }
}

/// The wire bytes of a frame.
pub open spec fn spec_frame_bytes(service_id: u16, session_id: u32, payload: Seq<u8>) -> Seq<u8>
    recommends
        payload.len() <= u32::MAX,
{
    spec_u16_be(service_id) + spec_u32_be(session_id) + spec_u32_be(payload.len() as u32) + payload
}

/// The payload length a full header announces.
pub open spec fn spec_announced_len(absorbed: Seq<u8>) -> int
    recommends
        absorbed.len() >= 10,
{
    spec_u32_from_be(absorbed.subrange(6, 10)) as int
}

/// A byte sequence is a complete frame: a full header followed by exactly
/// the announced number of payload bytes.
pub open spec fn spec_complete(absorbed: Seq<u8>) -> bool {
    absorbed.len() >= 10 && absorbed.len() == 10 + spec_announced_len(absorbed)
}

/// How many input bytes a feed starting from `absorbed` consumes: one byte
/// at a time until the absorbed sequence is a complete frame or the input
/// is exhausted.
pub open spec fn spec_feed_len(absorbed: Seq<u8>, input: Seq<u8>) -> nat
    decreases input.len(),
{
    if spec_complete(absorbed) || input.len() == 0 {
        0
    } else {
        1 + spec_feed_len(absorbed.push(input[0]), input.skip(1))
    }
}

/// Streaming frame parser.  It accumulates the header, learns the payload
/// length from it, then accumulates exactly that many payload bytes.
pub struct ArrowFramer {
    header: Vec<u8>,
    body: Vec<u8>,
}

impl View for ArrowFramer {
    type V = Seq<u8>;

    closed spec fn view(&self) -> Seq<u8> {
        self.header@ + self.body@
    }
}

impl ArrowFramer {
    /// Structural soundness: the header holds at most 10 bytes, payload
    /// bytes are accumulated only once the header is full, and never past
    /// the announced length.
    pub closed spec fn wf(&self) -> bool {
        &&& self.header@.len() <= 10
        &&& (self.header@.len() < 10 ==> self.body@.len() == 0)
        &&& (self.header@.len() == 10 ==> self.body@.len() <= spec_announced_len(self.header@))
    }

    proof fn lemma_view_announced(&self)
        requires
            self.wf(),
            self.header@.len() == 10,
        ensures
            self@.subrange(6, 10) =~= self.header@.subrange(6, 10),
            spec_announced_len(self@) == spec_announced_len(self.header@),
    {
        assert(self@.subrange(6, 10) =~= self.header@.subrange(6, 10));
    }

    /// A fresh parser with nothing absorbed.
    pub fn new() -> (f: ArrowFramer)
        ensures
            f.wf(),
            f@ == Seq::<u8>::empty(),
    {
        let f = ArrowFramer { header: Vec::new(), body: Vec::new() };
        proof {
            assert(f@ =~= Seq::<u8>::empty());
        }
        f
    }

    /// Forget everything absorbed, making room for the next frame.
    pub fn clear(&mut self)
        ensures
            final(self).wf(),
            final(self)@ == Seq::<u8>::empty(),
    {
        self.header = Vec::new();
        self.body = Vec::new();
        proof {
            assert(self@ =~= Seq::<u8>::empty());
        }
    }

    /// True iff a whole frame has been absorbed.
    pub fn is_complete(&self) -> (r: bool)
        requires
            self.wf(),
        ensures
            r == spec_complete(self@),
    {
        if self.header.len() < FRAME_HEADER_LEN {
            proof {
                assert(self@.len() < 10);
            }
            false
        } else {
            let announced = read_u32_be(self.header[6], self.header[7], self.header[8], self.header[9]);
            proof {
                assert(seq![self.header@[6], self.header@[7], self.header@[8], self.header@[9]]
                    =~= self.header@.subrange(6, 10));
                self.lemma_view_announced();
            }
            self.body.len() == announced as usize
        }
    }

    /// Absorb input bytes starting at `from`, one at a time, until a frame
    /// is complete or the input ends.  Returns how many were absorbed.
    pub fn feed(&mut self, bytes: &[u8], from: usize) -> (consumed: usize)
        requires
            old(self).wf(),
            from <= bytes@.len(),
        ensures
            final(self).wf(),
            consumed == spec_feed_len(old(self)@, bytes@.skip(from as int)),
            from + consumed <= bytes@.len(),
            final(self)@ == old(self)@ + bytes@.subrange(from as int, from + consumed),
            spec_complete(final(self)@) || from + consumed == bytes@.len(),
    {
        let ghost input = bytes@.skip(from as int);
        let mut i: usize = from;
        while i < bytes.len() && !self.is_complete()
            invariant
                self.wf(),
                from <= i <= bytes@.len(),
                input == bytes@.skip(from as int),
                self@ == old(self)@ + bytes@.subrange(from as int, i as int),
                spec_feed_len(old(self)@, input) == (i - from) + spec_feed_len(
                    self@,
                    bytes@.skip(i as int),
                ),
            decreases bytes@.len() - i,
        {
            proof {
                // One unfolding of spec_feed_len at the current state.
                let rest = bytes@.skip(i as int);
                assert(rest.len() > 0 && rest[0] == bytes@[i as int]);
                assert(rest.skip(1) =~= bytes@.skip(i as int + 1));
                assert(spec_feed_len(self@, rest) == 1 + spec_feed_len(
                    self@.push(bytes@[i as int]),
                    bytes@.skip(i as int + 1),
                ));
            }
            let b = bytes[i];
            if self.header.len() < FRAME_HEADER_LEN {
                self.header.push(b);
                proof {
                    if self.header@.len() == 10 {
                        let announced = spec_announced_len(self.header@);
                        assert(spec_u32_from_be(self.header@.subrange(6, 10)) >= 0);
                    }
                }
            } else {
                let announced = read_u32_be(self.header[6], self.header[7], self.header[8], self.header[9]);
                proof {
                    assert(seq![self.header@[6], self.header@[7], self.header@[8], self.header@[9]]
                        =~= self.header@.subrange(6, 10));
                    self.lemma_view_announced();
                }
                self.body.push(b);
            }
            i = i + 1;
            proof {
                assert(self@ =~= old(self)@ + bytes@.subrange(from as int, i as int));
            }
        }
        proof {
            if i == bytes@.len() {
                assert(bytes@.skip(i as int).len() == 0);
            }
        }
        i - from
    }

    /// The header of the complete frame: service ID, session ID, payload
    /// length.
    pub fn frame_header(&self) -> (r: (u16, u32, u32))
        requires
            self.wf(),
            spec_complete(self@),
        ensures
            r.0 == spec_u16_from_be(self@.subrange(0, 2)),
            r.1 == spec_u32_from_be(self@.subrange(2, 6)),
            r.2 == spec_u32_from_be(self@.subrange(6, 10)),
    {
        let service_id = read_u16_be(self.header[0], self.header[1]);
        let session_id = read_u32_be(self.header[2], self.header[3], self.header[4], self.header[5]);
        let length = read_u32_be(self.header[6], self.header[7], self.header[8], self.header[9]);
        proof {
            assert(seq![self.header@[0], self.header@[1]] =~= self@.subrange(0, 2));
            assert(seq![self.header@[2], self.header@[3], self.header@[4], self.header@[5]]
                =~= self@.subrange(2, 6));
            assert(seq![self.header@[6], self.header@[7], self.header@[8], self.header@[9]]
                =~= self@.subrange(6, 10));
        }
        (service_id, session_id, length)
    }

    /// Hand out the complete frame and reset for the next one.
    pub fn take_frame(&mut self) -> (frame: ArrowFrame)
        requires
            old(self).wf(),
            spec_complete(old(self)@),
        ensures
            final(self).wf(),
            final(self)@ == Seq::<u8>::empty(),
            frame@.service_id == spec_u16_from_be(old(self)@.subrange(0, 2)),
            frame@.session_id == spec_u32_from_be(old(self)@.subrange(2, 6)),
            frame@.payload == old(self)@.skip(10),
    {
        let (service_id, session_id, _) = self.frame_header();
        let mut payload: Vec<u8> = Vec::new();
        append_slice(&mut payload, self.body.as_slice());
        proof {
            assert(payload@ =~= old(self)@.skip(10));
        }
        self.clear();
        ArrowFrame { service_id, session_id, payload }
    }
}

/// Build the wire bytes of a frame.
pub fn encode_frame(service_id: u16, session_id: u32, payload: &[u8]) -> (out: Vec<u8>)
    requires
        payload@.len() <= u32::MAX,
    ensures
        out@ == spec_frame_bytes(service_id, session_id, payload@),
{
    let mut out: Vec<u8> = Vec::new();
    push_u16_be(&mut out, service_id);
    push_u32_be(&mut out, session_id);
    push_u32_be(&mut out, payload.len() as u32);
    append_slice(&mut out, payload);
    proof {
        assert(out@ =~= spec_frame_bytes(service_id, session_id, payload@));
    }
    out
}

/// Decoding the wire bytes of a frame gives the header fields and payload
/// back.
pub proof fn lemma_frame_decode(service_id: u16, session_id: u32, payload: Seq<u8>)
    requires
        payload.len() <= u32::MAX,
    ensures
        spec_frame_bytes(service_id, session_id, payload).len() == 10 + payload.len(),
        spec_u16_from_be(spec_frame_bytes(service_id, session_id, payload).subrange(0, 2))
            == service_id,
        spec_u32_from_be(spec_frame_bytes(service_id, session_id, payload).subrange(2, 6))
            == session_id,
        spec_announced_len(spec_frame_bytes(service_id, session_id, payload)) == payload.len(),
        spec_frame_bytes(service_id, session_id, payload).skip(10) =~= payload,
        spec_complete(spec_frame_bytes(service_id, session_id, payload)),
{
    let s = spec_frame_bytes(service_id, session_id, payload);
    lemma_u16_be_round_trip(service_id);
    lemma_u32_be_round_trip(session_id);
    lemma_u32_be_round_trip(payload.len() as u32);
    assert(s.subrange(0, 2) =~= spec_u16_be(service_id));
    assert(s.subrange(2, 6) =~= spec_u32_be(session_id));
    assert(s.subrange(6, 10) =~= spec_u32_be(payload.len() as u32));
    assert(s.skip(10) =~= payload);
}

/// No strict prefix of a frame's wire bytes is complete: the parser can
/// neither finish early nor need lookahead.
pub proof fn lemma_frame_prefix_incomplete(service_id: u16, session_id: u32, payload: Seq<u8>, k: int)
    requires
        payload.len() <= u32::MAX,
        0 <= k < spec_frame_bytes(service_id, session_id, payload).len(),
    ensures
        !spec_complete(spec_frame_bytes(service_id, session_id, payload).take(k)),
{
    let s = spec_frame_bytes(service_id, session_id, payload);
    lemma_frame_decode(service_id, session_id, payload);
    if k >= 10 {
        assert(s.take(k).subrange(6, 10) =~= s.subrange(6, 10));
    }
}

/// Feeding a serialized frame one byte at a time: each single byte is
/// absorbed, and the frame is complete exactly when the last byte lands.
pub proof fn lemma_frame_byte_at_a_time(service_id: u16, session_id: u32, payload: Seq<u8>, k: int)
    requires
        payload.len() <= u32::MAX,
        0 <= k < spec_frame_bytes(service_id, session_id, payload).len(),
    ensures
        spec_feed_len(
            spec_frame_bytes(service_id, session_id, payload).take(k),
            seq![spec_frame_bytes(service_id, session_id, payload)[k]],
        ) == 1,
        spec_frame_bytes(service_id, session_id, payload).take(k).push(
            spec_frame_bytes(service_id, session_id, payload)[k],
        ) =~= spec_frame_bytes(service_id, session_id, payload).take(k + 1),
        spec_complete(spec_frame_bytes(service_id, session_id, payload).take(k + 1)) <==> k + 1
            == spec_frame_bytes(service_id, session_id, payload).len(),
{
    let s = spec_frame_bytes(service_id, session_id, payload);
    lemma_frame_decode(service_id, session_id, payload);
    lemma_frame_prefix_incomplete(service_id, session_id, payload, k);
    let single = seq![s[k]];
    assert(single.skip(1) =~= Seq::<u8>::empty());
    assert(spec_feed_len(s.take(k).push(s[k]), single.skip(1)) == 0);
    assert(s.take(k).push(s[k]) =~= s.take(k + 1));
    if k + 1 == s.len() {
        assert(s.take(k + 1) =~= s);
    } else {
        lemma_frame_prefix_incomplete(service_id, session_id, payload, k + 1);
    }
}

} // verus!
