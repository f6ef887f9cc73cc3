//! Client side of the Arrow Protocol: a persistent TLS-secured tunnel that
//! multiplexes many remote-initiated sessions over one connection.
//!
//! This crate holds the verified protocol logic: byte buffers, the frame
//! parser, the Control sub-protocol codec, timeout bookkeeping, the TLS
//! stream readiness projection, and the connection engine itself.  All
//! socket and TLS I/O stays outside; the engine is driven with plain values
//! (bytes read, byte counts written, readiness flags, the current time in
//! milliseconds) and answers with plain values.

use vstd::prelude::*;

pub mod buffer;
pub mod codec;
pub mod engine;
pub mod framer;
pub mod session;
pub mod stream;
pub mod timeout;
pub mod wire;

verus! {

/// Commands that the engine asks the surrounding application to forward
/// into its command queue.
#[derive(Debug, Copy, Clone, Eq, PartialEq, Structural)]
pub enum Command {
    ResetServiceTable,
    ScanNetwork,
}

/// Common trait for implementations of command senders.  A failed send
/// returns the command back to the caller so it can be logged.
pub trait Sender<C: Send> {
    fn send(&self, cmd: C) -> Result<(), C>;
}

/// Convert a session ID into a reactor token ID.  Session tokens live in a
/// space disjoint from the tunnel token `0`: bit 24 is always set.
pub fn session2token(session_id: u32) -> (token_id: usize)
    requires
        session_id < 0x1000000,
    ensures
        token_id == (session_id as usize) | 0x1000000usize,
        token_id != 0,
{
    proof {
        assert(session_id < 0x1000000 ==> (session_id as usize) | 0x1000000usize != 0)
            by (bit_vector);
        assert((session_id as usize) | 0x1000000usize == (session_id as usize) | (
        1usize << 24)) by (bit_vector);
    }
    (session_id as usize) | (1usize << 24)
}

/// Convert a reactor token ID back into a session ID.  The token must carry
/// the session mark (bit 24) and nothing above it.
pub fn token2session(token_id: usize) -> (session_id: u32)
    requires
        token_id & !0xffffffusize == 0x1000000usize,
    ensures
        session_id as usize == token_id & 0xffffffusize,
        session_id < 0x1000000,
{
    proof {
        assert((token_id & 0xffffffusize) < 0x1000000usize) by (bit_vector);
        assert(((token_id & 0xffffffusize) as u32) as usize == token_id & 0xffffffusize)
            by (bit_vector);
    }
    (token_id & 0xffffff) as u32
}

/// Round trip of the token encoding: decoding an encoded session ID gives
/// the session ID back, and the encoded token is a valid session token.
pub proof fn lemma_token_round_trip(session_id: u32)
    requires
        session_id < 0x1000000,
    ensures
        ((session_id as usize) | 0x1000000usize) & !0xffffffusize == 0x1000000usize,
        ((session_id as usize) | 0x1000000usize) & 0xffffffusize == session_id as usize,
{
    assert(session_id < 0x1000000 ==> {
        &&& ((session_id as usize) | 0x1000000usize) & !0xffffffusize == 0x1000000usize
        &&& ((session_id as usize) | 0x1000000usize) & 0xffffffusize == session_id as usize
    }) by (bit_vector);
}

} // verus!
