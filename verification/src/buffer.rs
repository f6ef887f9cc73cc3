//! A FIFO byte buffer with a soft capacity.
//!
//! Writes always succeed (storage is unbounded); the capacity only drives
//! the `is_full` signal that callers consult for backpressure.  The engine
//! keeps writes bounded by honouring that signal, so the buffer never grows
//! past its capacity by more than one frame.

use vstd::prelude::*;

verus! {

/// FIFO byte buffer: bytes are appended at the back and dropped from the
/// front.  `is_full` reports whether the buffered amount has reached the
/// soft capacity the buffer was created with.
pub struct ByteQueue {
    data: Vec<u8>,
    capacity: usize,
}

impl View for ByteQueue {
    type V = Seq<u8>;

    closed spec fn view(&self) -> Seq<u8> {
        self.data@
    }
}

impl ByteQueue {
    /// The soft capacity the buffer was created with.
    pub closed spec fn capacity(&self) -> usize {
        self.capacity
    }

    /// Create an empty buffer with the given soft capacity.
    pub fn new(capacity: usize) -> (q: ByteQueue)
        ensures
            q@ == Seq::<u8>::empty(),
            q.capacity() == capacity,
    {
        ByteQueue { data: Vec::new(), capacity }
    }

    /// Number of buffered bytes.
    pub fn buffered(&self) -> (n: usize)
        ensures
            n == self@.len(),
    {
        self.data.len()
    }

    /// True iff nothing is buffered.
    pub fn is_empty(&self) -> (r: bool)
        ensures
            r <==> self@.len() == 0,
    {
        self.data.len() == 0
    }

    /// True iff the buffered amount has reached the soft capacity.
    pub fn is_full(&self) -> (r: bool)
        ensures
            r <==> self@.len() >= self.capacity(),
    {
        self.data.len() >= self.capacity
    }

    /// Append all given bytes at the back.  Always succeeds; callers that
    /// care about the capacity check `is_full` first.
    pub fn write_all(&mut self, bytes: &[u8])
        ensures
            final(self)@ == old(self)@ + bytes@,
            final(self).capacity() == old(self).capacity(),
    {
        let mut i: usize = 0;
        while i < bytes.len()
            invariant
                i <= bytes@.len(),
                self.data@ == old(self).data@ + bytes@.take(i as int),
                self.capacity == old(self).capacity,
            decreases bytes@.len() - i,
        {
            self.data.push(bytes[i]);
            i = i + 1;
            proof {
                assert(self.data@ =~= old(self).data@ + bytes@.take(i as int));
            }
        }
        proof {
            assert(bytes@.take(bytes@.len() as int) =~= bytes@);
        }
    }

    /// Borrow the buffered bytes, front first.
    pub fn as_bytes(&self) -> (s: &[u8])
        ensures
            s@ == self@,
    {
        self.data.as_slice()
    }

    /// Remove `count` bytes from the front.
    pub fn drop_front(&mut self, count: usize)
        requires
            count <= old(self)@.len(),
        ensures
            final(self)@ == old(self)@.skip(count as int),
            final(self).capacity() == old(self).capacity(),
    {
        let mut rest: Vec<u8> = Vec::new();
        let mut i: usize = count;
        while i < self.data.len()
            invariant
                count <= i <= self.data@.len(),
                self.data@ == old(self).data@,
                rest@ == self.data@.subrange(count as int, i as int),
            decreases self.data@.len() - i,
        {
            rest.push(self.data[i]);
            i = i + 1;
            proof {
                assert(rest@ =~= self.data@.subrange(count as int, i as int));
            }
        }
        self.data = rest;
        proof {
            assert(self.data@ =~= old(self).data@.skip(count as int));
        }
    }
}

} // verus!
