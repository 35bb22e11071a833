//! The state of one connection between its codec and its byte stream: what
//! was read and not yet decoded, what was encoded and not yet written, and
//! the rules by which the next action is chosen.

use crate::buffer::{advance, chunk, contents, extend_from_slice, is_empty, len, with_capacity};
use crate::codec::{after_decode, after_decode_eof, Decoded, Decoder, Encoder};
use crate::error::Error;
use bytes::BytesMut;
use vstd::prelude::*;
use vstd::slice::slice_subrange;

verus! {

/// The size of one read from the stream, the capacity that both buffers
/// start with, and the default backpressure boundary.
pub const INITIAL_CAPACITY: usize = 8 * 1024;

/// What was read from the stream and how far the stream has come.
pub struct ReadFrame {
    pub eof: bool,
    pub readable: bool,
    pub buffer: BytesMut,
    pub tmp_buf: [u8; INITIAL_CAPACITY],
}

/// What waits to be written to the stream.
pub struct WriteFrame {
    pub backpressure_boundary: usize,
    pub buffer: BytesMut,
}

/// Both halves of a connection's state.
pub struct RWFrame {
    pub read: ReadFrame,
    pub write: WriteFrame,
}

/// The read side as contracts see it.
pub struct ReadModel {
    /// Bytes that arrived and were not yet taken by a decode, oldest first.
    pub buffer: Seq<u8>,
    /// A decode is owed before the next read from the stream.
    pub readable: bool,
    /// The stream has ended.
    pub eof: bool,
}

/// The write side as contracts see it.
pub struct WriteModel {
    /// Bytes that were encoded and not yet written, oldest first.
    pub buffer: Seq<u8>,
    /// Past this many waiting bytes a flush comes before the next item.
    pub boundary: nat,
}

/// What the read side asks for or hands out.
#[derive(Debug, PartialEq, Eq)]
pub enum Next<T> {
    /// The next frame.
    Frame(T),
    /// The stream has ended and nothing is left.
    End,
    /// The connection is to be given up.
    Failed(Error),
    /// No whole frame is buffered: one read from the stream is due.
    Read,
}

/// Whether the write side takes another item.
#[derive(Clone, Copy, Debug, PartialEq, Eq)]
pub enum Readiness {
    Ready,
    MustFlush,
}

/// The next action of a flush.
#[derive(Clone, Copy, Debug, PartialEq, Eq)]
pub enum FlushStep {
    /// Write the pending bytes to the stream and report how many went.
    Write,
    /// Nothing is pending: flush the stream itself.
    FlushStream,
}

/// The next action of a close.
#[derive(Clone, Copy, Debug, PartialEq, Eq)]
pub enum CloseStep {
    /// Write the pending bytes to the stream and report how many went.
    Write,
    /// Nothing is pending: flush the stream, then close it.
    Close,
}

/// An answer of the read side, with its frame taken by its view.
pub open spec fn next_view<T: View>(n: Next<T>) -> Next<T::V> {
    match n {
        Next::Frame(item) => Next::Frame(item@),
        Next::End => Next::End,
        Next::Failed(e) => Next::Failed(e),
        Next::Read => Next::Read,
    }
}

/// One step of the read side. With no decode owed, a read is due. After the
/// end of the stream the buffer is drained and then closed, cleanly or with
/// an error. Else a buffered frame is handed out without a read, and only
/// when there is none is a read asked for.
pub open spec fn read_step<C: Decoder>(s: ReadModel) -> (ReadModel, Next<<C::Item as View>::V>) {
    if !s.readable {
        (s, Next::Read)
    } else if s.eof {
        let after = after_decode_eof(C::parse(s.buffer), s.buffer);
        match after.1 {
            Ok(Some(item)) => (ReadModel { buffer: after.0, ..s }, Next::Frame(item)),
            Ok(None) => (s, Next::End),
            Err(e) => (s, Next::Failed(e)),
        }
    } else {
        let after = after_decode(C::parse(s.buffer), s.buffer);
        match after.1 {
            Ok(Some(item)) => (ReadModel { buffer: after.0, ..s }, Next::Frame(item)),
            Ok(None) => (ReadModel { readable: false, ..s }, Next::Read),
            Err(e) => (s, Next::Failed(e)),
        }
    }
}

/// The read side after one read from the stream gave `chunk`: no byte marks
/// the end of the stream, any other chunk joins the tail of the buffer, and
/// either way a decode is owed.
pub open spec fn after_read(s: ReadModel, chunk: Seq<u8>) -> ReadModel {
    if chunk.len() == 0 {
        ReadModel { eof: true, readable: true, ..s }
    } else {
        ReadModel { buffer: s.buffer + chunk, readable: true, ..s }
    }
}

/// What holds of the read side of every connection: once the stream has
/// ended, a decode is owed for good, so that no read is asked for after the
/// end.
pub open spec fn settled(s: ReadModel) -> bool {
    s.eof ==> s.readable
}

/// Whether a write side takes another item: not while more bytes wait than
/// its boundary allows.
pub open spec fn readiness(w: WriteModel) -> Readiness {
    if w.buffer.len() > w.boundary {
        Readiness::MustFlush
    } else {
        Readiness::Ready
    }
}

impl Default for ReadFrame {
    fn default() -> (r: Self)
        ensures
            !r.eof,
            !r.readable,
            contents(r.buffer) == Seq::<u8>::empty(),
    {
        ReadFrame {
            eof: false,
            readable: false,
            buffer: with_capacity(INITIAL_CAPACITY),
            tmp_buf: [0u8; INITIAL_CAPACITY],
        }
    }
}

impl Default for WriteFrame {
    fn default() -> (r: Self)
        ensures
            r.backpressure_boundary == INITIAL_CAPACITY,
            contents(r.buffer) == Seq::<u8>::empty(),
    {
        WriteFrame {
            backpressure_boundary: INITIAL_CAPACITY,
            buffer: with_capacity(INITIAL_CAPACITY),
        }
    }
}

/// One connection's codec with its read and write state. The byte stream
/// itself stays with the caller, who performs each read and write that the
/// `poll_` functions ask for and reports what came of it.
pub struct HttpFramed<C> {
    codec: C,
    state: RWFrame,
}

impl<C> HttpFramed<C> {
    pub closed spec fn read(&self) -> ReadModel {
        ReadModel {
            buffer: contents(self.state.read.buffer),
            readable: self.state.read.readable,
            eof: self.state.read.eof,
        }
    }

    pub closed spec fn write(&self) -> WriteModel {
        WriteModel {
            buffer: contents(self.state.write.buffer),
            boundary: self.state.write.backpressure_boundary as nat,
        }
    }

    /// The chunk that each read from the stream is made into. What it holds
    /// is taken over by `filled` and kept nowhere else.
    pub closed spec fn scratch_bytes(&self) -> Seq<u8> {
        self.state.read.tmp_buf@
    }

    /// The codec of the connection.
    pub closed spec fn codec(&self) -> C {
        self.codec
    }

    /// A connection on which nothing was read or written yet.
    pub fn new(codec: C) -> (r: Self)
        ensures
            r.read() == (ReadModel { buffer: Seq::<u8>::empty(), readable: false, eof: false }),
            r.write() == (WriteModel {
                buffer: Seq::<u8>::empty(),
                boundary: INITIAL_CAPACITY as nat,
            }),
            r.scratch_bytes().len() == INITIAL_CAPACITY,
            r.codec() == codec,
            settled(r.read()),
    {
        HttpFramed {
            codec,
            state: RWFrame { read: ReadFrame::default(), write: WriteFrame::default() },
        }
    }

    /// The chunk to make the next read from the stream into. Writing to it
    /// changes nothing else.
    pub fn scratch(&mut self) -> (chunk: &mut [u8; INITIAL_CAPACITY])
        ensures
            final(self).read() == old(self).read(),
            final(self).write() == old(self).write(),
            final(self).scratch_bytes() == final(chunk)@,
            final(self).scratch_bytes().len() == INITIAL_CAPACITY,
            final(self).codec() == old(self).codec(),
    {
        &mut self.state.read.tmp_buf
    }

    /// Takes in that one read from the stream put `n` bytes at the start of
    /// the chunk; no byte means that the stream has ended.
    pub fn filled(&mut self, n: usize)
        requires
            n <= INITIAL_CAPACITY,
        ensures
            final(self).read() == after_read(old(self).read(), old(self).scratch_bytes().take(n as int)),
            final(self).write() == old(self).write(),
            final(self).scratch_bytes() == old(self).scratch_bytes(),
            final(self).codec() == old(self).codec(),
            settled(final(self).read()),
    {
        if n == 0 {
            self.state.read.eof = true;
        } else {
            let got = slice_subrange(self.state.read.tmp_buf.as_slice(), 0, n);
            assert(got@ =~= self.scratch_bytes().take(n as int));
            extend_from_slice(&mut self.state.read.buffer, got);
        }
        self.state.read.readable = true;
    }

    /// Whether another item may be accepted before a flush.
    pub fn poll_ready(&self) -> (r: Readiness)
        ensures
            r == readiness(self.write()),
    {
        if len(&self.state.write.buffer) > self.state.write.backpressure_boundary {
            Readiness::MustFlush
        } else {
            Readiness::Ready
        }
    }

    /// The next action of a flush: a write while bytes wait.
    pub fn poll_flush(&self) -> (r: FlushStep)
        ensures
            r == (if self.write().buffer.len() > 0 {
                FlushStep::Write
            } else {
                FlushStep::FlushStream
            }),
    {
        if is_empty(&self.state.write.buffer) {
            FlushStep::FlushStream
        } else {
            FlushStep::Write
        }
    }

    /// The next action of a close: every waiting byte is written first.
    pub fn poll_close(&self) -> (r: CloseStep)
        ensures
            r == (if self.write().buffer.len() > 0 {
                CloseStep::Write
            } else {
                CloseStep::Close
            }),
    {
        if is_empty(&self.state.write.buffer) {
            CloseStep::Close
        } else {
            CloseStep::Write
        }
    }

    /// The bytes that wait to be written, oldest first.
    pub fn pending(&self) -> (bytes: &[u8])
        ensures
            bytes@ == self.write().buffer,
    {
        chunk(&self.state.write.buffer)
    }

    /// Takes in that one write to the stream took the first `n` waiting
    /// bytes. A write that took none while bytes were waiting is an error.
    pub fn wrote(&mut self, n: usize) -> (r: Result<(), Error>)
        requires
            n <= old(self).write().buffer.len(),
        ensures
            final(self).write() == (WriteModel {
                buffer: old(self).write().buffer.skip(n as int),
                ..old(self).write()
            }),
            final(self).read() == old(self).read(),
            final(self).scratch_bytes() == old(self).scratch_bytes(),
            final(self).codec() == old(self).codec(),
            r == (if n == 0 && old(self).write().buffer.len() > 0 {
                Err::<(), Error>(Error::BrokenConnection)
            } else {
                Ok::<(), Error>(())
            }),
    {
        let waiting = len(&self.state.write.buffer);
        advance(&mut self.state.write.buffer, n);
        if n == 0 && waiting > 0 {
            Err(Error::BrokenConnection)
        } else {
            Ok(())
        }
    }
}

impl<C: Decoder> HttpFramed<C> {
    /// One step of the read side: the next frame, the end, a failure, or the
    /// request for one read from the stream.
    pub fn poll_next(&mut self) -> (r: Next<C::Item>)
        ensures
            (final(self).read(), next_view(r)) == read_step::<C>(old(self).read()),
            r is Frame ==> (C::parse(old(self).read().buffer) matches Decoded::Frame {
                consumed,
                ..
            } && consumed <= old(self).read().buffer.len()),
            final(self).write() == old(self).write(),
            final(self).scratch_bytes() == old(self).scratch_bytes(),
            settled(old(self).read()) ==> settled(final(self).read()),
            settled(old(self).read()) && r is Read ==> !final(self).read().eof,
    {
        if self.state.read.readable {
            if self.state.read.eof {
                return match self.codec.decode_eof(&mut self.state.read.buffer) {
                    Ok(Some(frame)) => Next::Frame(frame),
                    Ok(None) => Next::End,
                    Err(e) => Next::Failed(e),
                };
            }
            match self.codec.decode(&mut self.state.read.buffer) {
                Ok(Some(frame)) => {
                    return Next::Frame(frame);
                },
                Ok(None) => {},
                Err(e) => {
                    return Next::Failed(e);
                },
            }
            self.state.read.readable = false;
        }
        Next::Read
    }
}

impl<C> HttpFramed<C> {
    /// Encodes `item` onto the tail of the waiting bytes. Nothing is
    /// written to the stream.
    pub fn start_send<I>(&mut self, item: I) -> (r: Result<(), Error>) where C: Encoder<I>
        ensures
            final(self).read() == old(self).read(),
            final(self).scratch_bytes() == old(self).scratch_bytes(),
            final(self).write().boundary == old(self).write().boundary,
            r is Err ==> final(self).write() == old(self).write(),
            match C::refusal(item) {
                Some(e) => r == Err::<(), Error>(e),
                None => match r {
                    Ok(_) => {
                        &&& old(self).write().buffer.is_prefix_of(final(self).write().buffer)
                        &&& C::encodes(
                            item,
                            final(self).write().buffer.skip(old(self).write().buffer.len() as int),
                        )
                    },
                    Err(e) => C::hindrance(e),
                },
            },
    {
        self.codec.encode(item, &mut self.state.write.buffer)
    }
}

} // verus!
