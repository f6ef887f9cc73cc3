//! Readiness projection for the non-blocking TLS tunnel stream.
//!
//! TLS renegotiation can force I/O in the direction opposite to the
//! caller's: a read may block until the socket is writable and vice versa.
//! The stream therefore tracks which direction it last blocked on, and
//! readiness flags must be projected through that state — otherwise the
//! engine would spin on spurious wake-ups or stall forever.

use vstd::prelude::*;

verus! {

/// Readiness flags delivered by the reactor for one socket.
#[derive(Debug, Copy, Clone, Eq, PartialEq, Structural)]
pub struct Readiness {
    pub readable: bool,
    pub writable: bool,
    pub error: bool,
    pub hangup: bool,
}

/// What the last TLS read or write attempt reported.
#[derive(Debug, Copy, Clone, Eq, PartialEq, Structural)]
pub enum TlsIoOutcome {
    /// The call made progress (possibly zero bytes) without blocking.
    Done,
    /// The call must wait until the socket is readable.
    WantRead,
    /// The call must wait until the socket is writable.
    WantWrite,
}

/// Tunnel stream states: `Ready` when no direction is blocked, else the last read
/// or write is waiting for the socket to become readable or writable.
#[derive(Debug, Copy, Clone, Eq, PartialEq, Structural)]
pub enum StreamState {
    Ready,
    ReaderWantRead,
    ReaderWantWrite,
    WriterWantRead,
    WriterWantWrite,
}

/// Whether a read may be attempted given the stream state and the
/// readiness flags.  A read that blocked on want-write resumes only on a
/// writable socket; a pending write blocks reads entirely.
pub open spec fn spec_can_read(state: StreamState, flags: Readiness) -> bool {
    match state {
        StreamState::Ready => flags.readable,
        StreamState::ReaderWantRead => flags.readable,
        StreamState::ReaderWantWrite => flags.writable,
        _ => false,
    }
}

/// Whether a write may be attempted, symmetrically.
pub open spec fn spec_can_write(state: StreamState, flags: Readiness) -> bool {
    match state {
        StreamState::Ready => flags.writable,
        StreamState::WriterWantRead => flags.readable,
        StreamState::WriterWantWrite => flags.writable,
        _ => false,
    }
}

/// The state after a read attempt reported `outcome`.
pub open spec fn spec_state_after_read(outcome: TlsIoOutcome) -> StreamState {
    match outcome {
        TlsIoOutcome::Done => StreamState::Ready,
        TlsIoOutcome::WantRead => StreamState::ReaderWantRead,
        TlsIoOutcome::WantWrite => StreamState::ReaderWantWrite,
    }
}

/// The state after a write attempt reported `outcome`.
pub open spec fn spec_state_after_write(outcome: TlsIoOutcome) -> StreamState {
    match outcome {
        TlsIoOutcome::Done => StreamState::Ready,
        TlsIoOutcome::WantRead => StreamState::WriterWantRead,
        TlsIoOutcome::WantWrite => StreamState::WriterWantWrite,
    }
}

/// The socket interest to register for a given stream state: wait only for
/// the direction the stream is blocked on, both otherwise.
pub open spec fn spec_stream_interest(state: StreamState) -> (bool, bool) {
    match state {
        StreamState::Ready => (true, true),
        StreamState::ReaderWantRead => (true, false),
        StreamState::ReaderWantWrite => (false, true),
        StreamState::WriterWantRead => (true, false),
        StreamState::WriterWantWrite => (false, true),
    }
}

pub fn can_read(state: StreamState, flags: Readiness) -> (r: bool)
    ensures
        r == spec_can_read(state, flags),
{
    match state {
        StreamState::Ready => flags.readable,
        StreamState::ReaderWantRead => flags.readable,
        StreamState::ReaderWantWrite => flags.writable,
        _ => false,
    }
}

pub fn can_write(state: StreamState, flags: Readiness) -> (r: bool)
    ensures
        r == spec_can_write(state, flags),
{
    match state {
        StreamState::Ready => flags.writable,
        StreamState::WriterWantRead => flags.readable,
        StreamState::WriterWantWrite => flags.writable,
        _ => false,
    }
}

pub fn state_after_read(outcome: TlsIoOutcome) -> (s: StreamState)
    ensures
        s == spec_state_after_read(outcome),
{
    match outcome {
        TlsIoOutcome::Done => StreamState::Ready,
        TlsIoOutcome::WantRead => StreamState::ReaderWantRead,
        TlsIoOutcome::WantWrite => StreamState::ReaderWantWrite,
    }
}

pub fn state_after_write(outcome: TlsIoOutcome) -> (s: StreamState)
    ensures
        s == spec_state_after_write(outcome),
{
    match outcome {
        TlsIoOutcome::Done => StreamState::Ready,
        TlsIoOutcome::WantRead => StreamState::WriterWantRead,
        TlsIoOutcome::WantWrite => StreamState::WriterWantWrite,
    }
}

/// Interest mask for the current stream state: `(readable, writable)`.
pub fn stream_interest(state: StreamState) -> (r: (bool, bool))
    ensures
        r == spec_stream_interest(state),
{
    match state {
        StreamState::Ready => (true, true),
        StreamState::ReaderWantRead => (true, false),
        StreamState::ReaderWantWrite => (false, true),
        StreamState::WriterWantRead => (true, false),
        StreamState::WriterWantWrite => (false, true),
    }
}

} // verus!
