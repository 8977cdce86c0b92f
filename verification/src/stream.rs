//! The bounded buffers between a channel and its local pipes.

use vstd::prelude::*;

verus! {

/// How much each stream of a channel buffers.
pub const STREAM_CAPACITY: usize = 8192;

/// Bytes waiting to be passed on, never more than the limit.
pub struct StreamBuffer {
    data: Vec<u8>,
    limit: usize,
}

/// What a write of the whole buffer came to.
#[derive(Debug, Clone, Copy, PartialEq, Eq, Structural)]
pub enum WriteOutcome {
    /// So many of the first bytes were taken.
    Wrote(usize),
    WouldBlock,
    Failed,
}

/// What a read into the free room of the buffer came to.
#[derive(Debug)]
pub enum ReadOutcome {
    /// At least one byte.
    Data(Vec<u8>),
    /// The read returned nothing: the other end is finished.
    Eof,
    WouldBlock,
    Failed,
}

impl View for StreamBuffer {
    type V = Seq<u8>;

    closed spec fn view(&self) -> Seq<u8> {
        self.data@
    }
}

impl StreamBuffer {
    pub closed spec fn limit(&self) -> nat {
        self.limit as nat
    }

    pub open spec fn wf(&self) -> bool {
        self@.len() <= self.limit()
    }

    /// A write outcome that the buffer admits: no more is taken than there is.
    pub open spec fn admits_write(&self, outcome: WriteOutcome) -> bool {
        outcome matches WriteOutcome::Wrote(n) ==> n <= self@.len()
    }

    /// A read outcome that the buffer admits: no more arrives than there is
    /// room for.
    pub open spec fn admits_read(&self, outcome: ReadOutcome) -> bool {
        outcome matches ReadOutcome::Data(d) ==> 0 < d@.len() <= self.limit() - self@.len()
    }

    pub fn new() -> (b: StreamBuffer)
        ensures
            b.wf(),
            b@ == Seq::<u8>::empty(),
            b.limit() == STREAM_CAPACITY,
    {
        StreamBuffer { data: Vec::new(), limit: STREAM_CAPACITY }
    }

    pub fn len(&self) -> (n: usize)
        ensures
            n == self@.len(),
    {
        self.data.len()
    }

    pub fn is_empty(&self) -> (r: bool)
        ensures
            r == (self@.len() == 0),
    {
        self.data.len() == 0
    }

    /// How many more bytes fit.
    pub fn room(&self) -> (n: usize)
        requires
            self.wf(),
        ensures
            n == self.limit() - self@.len(),
    {
        self.limit - self.data.len()
    }

    /// The buffered bytes.
    pub fn bytes(&self) -> (d: &[u8])
        ensures
            d@ == self@,
    {
        self.data.as_slice()
    }

    /// Accounts for a write out of the buffer. What was taken leaves from the
    /// front; a write that would have blocked is no error. Returns whether the
    /// write failed.
    pub fn write_from_buf(&mut self, outcome: WriteOutcome) -> (failed: bool)
        requires
            old(self).wf(),
            old(self).admits_write(outcome),
        ensures
            final(self).wf(),
            final(self).limit() == old(self).limit(),
            failed == (outcome is Failed),
            final(self)@ == match outcome {
                WriteOutcome::Wrote(n) => old(self)@.skip(n as int),
                _ => old(self)@,
            },
    {
        match outcome {
            WriteOutcome::Wrote(n) => {
                let rest = self.data.split_off(n);
                self.data = rest;
                assert(self@ == old(self)@.skip(n as int));
                false
            },
            WriteOutcome::WouldBlock => false,
            WriteOutcome::Failed => true,
        }
    }

    /// Accounts for a read into the buffer. What arrived goes to the back; a
    /// read that would have blocked is no error, and one that returned nothing
    /// is. Returns whether the read failed or was at the end.
    pub fn read_into_buf(&mut self, outcome: ReadOutcome) -> (failed: bool)
        requires
            old(self).wf(),
            old(self).admits_read(outcome),
        ensures
            final(self).wf(),
            final(self).limit() == old(self).limit(),
            failed == (outcome is Eof || outcome is Failed),
            final(self)@ == match outcome {
                ReadOutcome::Data(d) => old(self)@ + d@,
                _ => old(self)@,
            },
    {
        match outcome {
            ReadOutcome::Data(d) => {
                let mut d = d;
                self.data.append(&mut d);
                false
            },
            ReadOutcome::WouldBlock => false,
            ReadOutcome::Eof => true,
            ReadOutcome::Failed => true,
        }
    }
}

} // verus!
