//! Per-session state: the byte buffers and the write deadline that bridge
//! one remote session to one local service socket.  The socket itself is
//! owned by the surrounding application; the engine only decides what to
//! read, write and time out.

use vstd::prelude::*;

use crate::buffer::ByteQueue;
use crate::timeout::Timeout;

verus! {

/// Capacity of a session's input buffer (bytes read from the local
/// service, awaiting egress onto the tunnel).
pub const SESSION_INPUT_CAPACITY: usize = 262144;

/// A session's write deadline: if its output has not drained at all within
/// this many milliseconds, the session is considered stuck.
pub const CONNECTION_TIMEOUT: u64 = 20000;

/// The mathematical image of a session.
#[verifier::ext_equal]
pub struct SessionView {
    pub service_id: u16,
    pub session_id: u32,
    pub input: Seq<u8>,
    pub output: Seq<u8>,
    pub write_deadline: Option<u64>,
}

/// Context of one proxied session: which service it belongs to, bytes read
/// from the local socket (input), bytes awaiting delivery to the local
/// socket (output), and the write deadline.
pub struct SessionContext {
    service_id: u16,
    session_id: u32,
    input_buffer: ByteQueue,
    output_buffer: ByteQueue,
    write_tout: Timeout,
}

impl View for SessionContext {
    type V = SessionView;

    closed spec fn view(&self) -> SessionView {
        SessionView {
            service_id: self.service_id,
            session_id: self.session_id,
            input: self.input_buffer@,
            output: self.output_buffer@,
            write_deadline: self.write_tout@,
        }
    }
}

/// A session's input buffer is full once it holds the full capacity.
pub open spec fn spec_input_full(v: SessionView) -> bool {
    v.input.len() >= SESSION_INPUT_CAPACITY
}

/// The socket interest a session asks for: readable while there is room
/// for more input, writable while output remains to be delivered.
pub open spec fn spec_session_interest(v: SessionView) -> (bool, bool) {
    (!spec_input_full(v), v.output.len() > 0)
}

impl SessionContext {
    /// The buffers carry the intended capacities: a bounded input buffer
    /// and an unbounded (always-full-flagged) output buffer.
    pub closed spec fn wf(&self) -> bool {
        &&& self.input_buffer.capacity() == SESSION_INPUT_CAPACITY
        &&& self.output_buffer.capacity() == 0
    }

    /// A fresh session context with empty buffers and no deadline.
    pub fn new(service_id: u16, session_id: u32) -> (ctx: SessionContext)
        ensures
            ctx.wf(),
            ctx@ == (SessionView {
                service_id,
                session_id,
                input: Seq::<u8>::empty(),
                output: Seq::<u8>::empty(),
                write_deadline: None::<u64>,
            }),
    {
        SessionContext {
            service_id,
            session_id,
            input_buffer: ByteQueue::new(SESSION_INPUT_CAPACITY),
            output_buffer: ByteQueue::new(0),
            write_tout: Timeout::new(),
        }
    }

    /// The service this session proxies.
    pub fn service_id(&self) -> (r: u16)
        ensures
            r == self@.service_id,
    {
        self.service_id
    }

    /// True iff input awaits egress onto the tunnel.
    pub fn input_ready(&self) -> (r: bool)
        ensures
            r <==> self@.input.len() > 0,
    {
        !self.input_buffer.is_empty()
    }

    /// True iff the input buffer has reached its capacity; the engine then
    /// issues no further reads from the local socket.
    pub fn is_input_full(&self) -> (r: bool)
        requires
            self.wf(),
        ensures
            r == spec_input_full(self@),
    {
        self.input_buffer.is_full()
    }

    /// Number of buffered input bytes.
    pub fn input_len(&self) -> (n: usize)
        ensures
            n == self@.input.len(),
    {
        self.input_buffer.buffered()
    }

    /// Copy out up to `max` input bytes, front first.
    pub fn input_chunk(&self, max: usize) -> (chunk: Vec<u8>)
        ensures
            chunk@ == self@.input.take(if max <= self@.input.len() {
                max as int
            } else {
                self@.input.len() as int
            }),
    {
        let bytes = self.input_buffer.as_bytes();
        let len = if max <= bytes.len() {
            max
        } else {
            bytes.len()
        };
        let mut chunk: Vec<u8> = Vec::new();
        let mut i: usize = 0;
        while i < len
            invariant
                i <= len <= bytes@.len(),
                bytes@ == self@.input,
                chunk@ == bytes@.take(i as int),
            decreases len - i,
        {
            chunk.push(bytes[i]);
            i = i + 1;
            proof {
                assert(chunk@ =~= bytes@.take(i as int));
            }
        }
        chunk
    }

    /// Copy out the whole output buffer, front first.
    pub fn output_chunk(&self) -> (chunk: Vec<u8>)
        ensures
            chunk@ == self@.output,
    {
        let bytes = self.output_buffer.as_bytes();
        let mut chunk: Vec<u8> = Vec::new();
        let mut i: usize = 0;
        while i < bytes.len()
            invariant
                i <= bytes@.len(),
                bytes@ == self@.output,
                chunk@ == bytes@.take(i as int),
            decreases bytes@.len() - i,
        {
            chunk.push(bytes[i]);
            i = i + 1;
            proof {
                assert(chunk@ =~= bytes@.take(i as int));
            }
        }
        proof {
            assert(bytes@.take(bytes@.len() as int) =~= bytes@);
        }
        chunk
    }

    /// Number of buffered output bytes.
    pub fn output_len(&self) -> (n: usize)
        ensures
            n == self@.output.len(),
    {
        self.output_buffer.buffered()
    }

    /// Append bytes read from the local socket to the input buffer.
    pub fn push_input(&mut self, bytes: &[u8])
        requires
            old(self).wf(),
        ensures
            final(self).wf(),
            final(self)@ == (SessionView { input: old(self)@.input + bytes@, ..old(self)@ }),
    {
        self.input_buffer.write_all(bytes);
    }

    /// Release input bytes that were moved onto the tunnel.
    pub fn drop_input_bytes(&mut self, count: usize)
        requires
            old(self).wf(),
            count <= old(self)@.input.len(),
        ensures
            final(self).wf(),
            final(self)@ == (SessionView {
                input: old(self)@.input.skip(count as int),
                ..old(self)@
            }),
    {
        self.input_buffer.drop_front(count);
    }

    /// Queue a message for delivery to the local socket.  When the output
    /// buffer was empty, the write deadline is armed.
    pub fn send_message(&mut self, data: &[u8], now: u64)
        requires
            old(self).wf(),
            now + CONNECTION_TIMEOUT <= u64::MAX,
        ensures
            final(self).wf(),
            final(self)@ == (SessionView {
                output: old(self)@.output + data@,
                write_deadline: if old(self)@.output.len() == 0 {
                    Some((now + CONNECTION_TIMEOUT) as u64)
                } else {
                    old(self)@.write_deadline
                },
                ..old(self)@
            }),
    {
        let was_empty = self.output_buffer.is_empty();
        self.output_buffer.write_all(data);
        if was_empty {
            self.write_tout.set(now, CONNECTION_TIMEOUT);
        }
    }

    /// Account for bytes the local socket accepted: drop them from the
    /// output buffer and re-arm the write deadline if any were written.
    pub fn on_wrote(&mut self, count: usize, now: u64)
        requires
            old(self).wf(),
            count <= old(self)@.output.len(),
            now + CONNECTION_TIMEOUT <= u64::MAX,
        ensures
            final(self).wf(),
            final(self)@ == (SessionView {
                output: old(self)@.output.skip(count as int),
                write_deadline: if count > 0 {
                    Some((now + CONNECTION_TIMEOUT) as u64)
                } else {
                    old(self)@.write_deadline
                },
                ..old(self)@
            }),
    {
        if count > 0 {
            self.output_buffer.drop_front(count);
            self.write_tout.set(now, CONNECTION_TIMEOUT);
        }
    }

    /// Unset the write deadline (the output buffer has drained).
    pub fn clear_write_timeout(&mut self)
        requires
            old(self).wf(),
        ensures
            final(self).wf(),
            final(self)@ == (SessionView { write_deadline: None::<u64>, ..old(self)@ }),
    {
        self.write_tout.clear();
    }

    /// True iff the write deadline is unset or still in the future.
    pub fn check_timeout(&self, now: u64) -> (ok: bool)
        ensures
            ok == match self@.write_deadline {
                None => true,
                Some(deadline) => now < deadline,
            },
    {
        self.write_tout.check(now)
    }

    /// The socket interest this session currently asks for.
    pub fn interest(&self) -> (r: (bool, bool))
        requires
            self.wf(),
        ensures
            r == spec_session_interest(self@),
    {
        (!self.input_buffer.is_full(), !self.output_buffer.is_empty())
    }
}

} // verus!
