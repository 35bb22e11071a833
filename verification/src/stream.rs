//! A whole stream through the read side: what a connection hands out when
//! its bytes arrive in chunks, and that the cuts between the chunks do not
//! show in it.

use crate::codec::{Decoded, Decoder};
use crate::error::Error;
use crate::framed::{
    after_read, read_step, readiness, settled, Next, ReadModel, Readiness, WriteModel,
};
use vstd::prelude::*;

verus! {

/// The chunks one after the other, as one sequence of bytes.
pub open spec fn joined(chunks: Seq<Seq<u8>>) -> Seq<u8>
    decreases chunks.len(),
{
    if chunks.len() == 0 {
        Seq::<u8>::empty()
    } else {
        chunks[0] + joined(chunks.drop_first())
    }
}

/// Whether every chunk holds at least one byte.
pub open spec fn all_nonempty(chunks: Seq<Seq<u8>>) -> bool {
    forall|i: int| 0 <= i < chunks.len() ==> (#[trigger] chunks[i]).len() > 0
}

/// The read side of a new connection.
pub open spec fn fresh() -> ReadModel {
    ReadModel { buffer: Seq::<u8>::empty(), readable: false, eof: false }
}

/// What makes a codec fit for a stream that arrives in pieces: a frame
/// takes at least one byte and no more than there are, and once the codec
/// has found a frame or an error at the head of some bytes, bytes that
/// follow do not change what it found.
pub open spec fn steady<C: Decoder>() -> bool {
    &&& forall|b: Seq<u8>| (#[trigger] C::parse(b)) matches Decoded::Frame { consumed, .. } ==> 0
        < consumed <= b.len()
    &&& forall|a: Seq<u8>, b: Seq<u8>|
        !(C::parse(a) is Incomplete) ==> #[trigger] C::parse(a + b) == C::parse(a)
}

/// The frames of a stream that is there as a whole and has ended, in their
/// order, and the error that ends them, if any: bytes left over that are no
/// frame are an error.
pub open spec fn stream_outcome<C: Decoder>(stream: Seq<u8>) -> (
    Seq<<C::Item as View>::V>,
    Option<Error>,
)
    decreases stream.len(),
{
    match C::parse(stream) {
        Decoded::Frame { item, consumed } => if 0 < consumed <= stream.len() {
            let rest = stream_outcome::<C>(stream.skip(consumed as int));
            (seq![item] + rest.0, rest.1)
        } else {
            (Seq::empty(), None)
        },
        Decoded::Incomplete => (
            Seq::empty(),
            if stream.len() == 0 {
                None
            } else {
                Some(Error::TrailingBytes)
            },
        ),
        Decoded::Invalid(e) => (Seq::empty(), Some(e)),
    }
}

/// The frames that the read side hands out from state `s` on, and the error
/// that ends them, if any, when each read that it asks for gives the next of
/// `chunks`, and the stream ends after the last.
pub open spec fn run<C: Decoder>(s: ReadModel, chunks: Seq<Seq<u8>>) -> (
    Seq<<C::Item as View>::V>,
    Option<Error>,
)
    decreases chunks.len(), (if s.eof { 0nat } else { 1nat }), s.buffer.len(),
{
    let step = read_step::<C>(s);
    match step.1 {
        Next::Frame(item) => if step.0.buffer.len() < s.buffer.len() && step.0.eof == s.eof {
            let rest = run::<C>(step.0, chunks);
            (seq![item] + rest.0, rest.1)
        } else {
            (Seq::empty(), None)
        },
        Next::End => (Seq::empty(), None),
        Next::Failed(e) => (Seq::empty(), Some(e)),
        Next::Read => if s.eof {
            (Seq::empty(), None)
        } else if chunks.len() == 0 {
            run::<C>(after_read(step.0, Seq::empty()), chunks)
        } else {
            run::<C>(after_read(step.0, chunks[0]), chunks.drop_first())
        },
    }
}

/// Once the stream has ended, the read side hands out what the buffer holds
/// as a stream of its own, and asks for no read.
pub proof fn lemma_run_after_end<C: Decoder>(s: ReadModel, chunks: Seq<Seq<u8>>)
    requires
        steady::<C>(),
        s.eof,
        s.readable,
    ensures
        run::<C>(s, chunks) == stream_outcome::<C>(s.buffer),
    decreases s.buffer.len(),
{
    match C::parse(s.buffer) {
        Decoded::Frame { item, consumed } => {
            lemma_run_after_end::<C>(read_step::<C>(s).0, chunks);
        },
        _ => {},
    }
}

/// From any state before the end of the stream, the read side hands out the
/// frames of what it has buffered followed by all that is still to come.
pub proof fn lemma_run_chunks<C: Decoder>(s: ReadModel, chunks: Seq<Seq<u8>>)
    requires
        steady::<C>(),
        all_nonempty(chunks),
        !s.eof,
    ensures
        run::<C>(s, chunks) == stream_outcome::<C>(s.buffer + joined(chunks)),
    decreases chunks.len(), s.buffer.len(),
{
    let step = read_step::<C>(s);
    let rest = joined(chunks);
    let all = s.buffer + rest;
    if step.1 is Read {
        if chunks.len() == 0 {
            lemma_run_after_end::<C>(after_read(step.0, Seq::empty()), chunks);
            assert(all =~= s.buffer);
        } else {
            let next = after_read(step.0, chunks[0]);
            let later = chunks.drop_first();
            assert(all_nonempty(later)) by {
                assert forall|i: int| 0 <= i < later.len() implies (#[trigger] later[i]).len()
                    > 0 by {
                    assert(later[i] == chunks[i + 1]);
                }
            }
            lemma_run_chunks::<C>(next, later);
            assert(next.buffer + joined(later) =~= all);
        }
    } else {
        assert(!(C::parse(s.buffer) is Incomplete));
        assert(C::parse(s.buffer + rest) == C::parse(s.buffer));
        match C::parse(s.buffer) {
            Decoded::Frame { item, consumed } => {
                lemma_run_chunks::<C>(step.0, chunks);
                assert(all.skip(consumed as int) =~= step.0.buffer + rest);
            },
            _ => {},
        }
    }
}

/// Bytes that arrive in chunks give the frames, in the order, and the end
/// that the same bytes give as a whole: with a steady codec, a new
/// connection that is fed any chunks hands out the outcome of their joined
/// stream, and so what it hands out when that stream comes as one chunk.
pub proof fn lemma_chunking_is_invisible<C: Decoder>(chunks: Seq<Seq<u8>>)
    requires
        steady::<C>(),
        all_nonempty(chunks),
    ensures
        run::<C>(fresh(), chunks) == stream_outcome::<C>(joined(chunks)),
        joined(chunks).len() > 0 ==> run::<C>(fresh(), chunks) == run::<C>(
            fresh(),
            seq![joined(chunks)],
        ),
{
    lemma_run_chunks::<C>(fresh(), chunks);
    assert(fresh().buffer + joined(chunks) =~= joined(chunks));
    if joined(chunks).len() > 0 {
        let one = seq![joined(chunks)];
        assert(one.drop_first() =~= Seq::<Seq<u8>>::empty());
        assert(joined(one.drop_first()) =~= Seq::<u8>::empty());
        assert(joined(one) =~= joined(chunks));
        lemma_run_chunks::<C>(fresh(), one);
    }
}

/// Two frames back to back in the buffer come out of two steps in a row,
/// the first first, with no read between them.
pub proof fn lemma_pipelined_frames<C: Decoder>(
    s: ReadModel,
    first: <C::Item as View>::V,
    n: nat,
    second: <C::Item as View>::V,
    m: nat,
)
    requires
        s.readable,
        C::parse(s.buffer) == (Decoded::Frame { item: first, consumed: n }),
        C::parse(s.buffer.skip(n as int)) == (Decoded::Frame { item: second, consumed: m }),
    ensures
        read_step::<C>(s).1 == Next::Frame(first),
        read_step::<C>(read_step::<C>(s).0).1 == Next::Frame(second),
        read_step::<C>(read_step::<C>(s).0).0 == (ReadModel {
            buffer: s.buffer.skip(n as int).skip(m as int),
            ..s
        }),
{
}

/// At the end of the stream, with no frame to be had, an empty buffer ends
/// the sequence cleanly and any byte left over is an error.
pub proof fn lemma_end_of_stream<C: Decoder>(s: ReadModel)
    requires
        s.readable,
        s.eof,
        C::parse(s.buffer) is Incomplete,
    ensures
        read_step::<C>(s).0 == s,
        s.buffer.len() == 0 ==> read_step::<C>(s).1 == Next::<<C::Item as View>::V>::End,
        s.buffer.len() > 0 ==> read_step::<C>(s).1 == Next::<<C::Item as View>::V>::Failed(
            Error::TrailingBytes,
        ),
{
}

/// Once more bytes wait than the boundary allows, a flush is asked for, and
/// it stays asked for however much is encoded on top: only a write brings
/// the count down.
pub proof fn lemma_backpressure_holds(w: WriteModel, encoded: Seq<u8>)
    requires
        w.buffer.len() > w.boundary,
    ensures
        readiness(w) == Readiness::MustFlush,
        readiness(WriteModel { buffer: w.buffer + encoded, ..w }) == Readiness::MustFlush,
{
}

/// The flags of the read side keep their meaning from step to step: the end
/// of the stream, once seen, stays seen; a read is asked for only when no
/// decode is owed any more; and taking in a read always leaves one owed.
pub proof fn lemma_read_flags<C: Decoder>(s: ReadModel, chunk: Seq<u8>)
    ensures
        read_step::<C>(s).0.eof == s.eof,
        s.eof ==> after_read(s, chunk).eof,
        after_read(s, chunk).readable,
        after_read(s, chunk).eof == (s.eof || chunk.len() == 0),
        read_step::<C>(s).1 is Read ==> !read_step::<C>(s).0.readable,
        s.readable && s.eof ==> !(read_step::<C>(s).1 is Read),
{
}

/// The buffer of the read side is a queue: a read joins bytes at its tail
/// and leaves what was there in place, and a step takes bytes only from its
/// head, and only the bytes of the frame that it hands out, so that the
/// bytes taken followed by the bytes left are the bytes that were there.
pub proof fn lemma_buffer_is_queue<C: Decoder>(s: ReadModel, chunk: Seq<u8>)
    requires
        C::parse(s.buffer) matches Decoded::Frame { consumed, .. } ==> consumed <= s.buffer.len(),
    ensures
        s.buffer.is_prefix_of(after_read(s, chunk).buffer),
        after_read(s, chunk).buffer == s.buffer || after_read(s, chunk).buffer == s.buffer + chunk,
        read_step::<C>(s).0.buffer.is_suffix_of(s.buffer),
        s.buffer.take(s.buffer.len() - read_step::<C>(s).0.buffer.len()) + read_step::<C>(
            s,
        ).0.buffer == s.buffer,
        !(read_step::<C>(s).1 is Frame) ==> read_step::<C>(s).0.buffer == s.buffer,
        read_step::<C>(s).1 is Frame ==> (C::parse(s.buffer) matches Decoded::Frame {
            consumed,
            ..
        } && read_step::<C>(s).0.buffer == s.buffer.skip(consumed as int)),
{
    assert(s.buffer.is_prefix_of(s.buffer + chunk)) by {
        assert((s.buffer + chunk).subrange(0, s.buffer.len() as int) =~= s.buffer);
    }
    assert(s.buffer.is_prefix_of(s.buffer)) by {
        assert(s.buffer.subrange(0, s.buffer.len() as int) =~= s.buffer);
    }
    let after = read_step::<C>(s).0.buffer;
    assert(after.is_suffix_of(s.buffer)) by {
        assert(s.buffer.skip(0) =~= s.buffer);
    }
    assert(s.buffer.take(s.buffer.len() - after.len()) + after =~= s.buffer);
}

/// The bytes that a write took and the bytes that still wait are, one after
/// the other, the bytes that waited before: nothing is lost or reordered,
/// and a write that took a byte leaves fewer waiting.
pub proof fn lemma_write_takes_from_head(w: WriteModel, n: nat)
    requires
        n <= w.buffer.len(),
    ensures
        w.buffer.take(n as int) + w.buffer.skip(n as int) == w.buffer,
        n > 0 ==> w.buffer.skip(n as int).len() < w.buffer.len(),
{
    assert(w.buffer.take(n as int) + w.buffer.skip(n as int) =~= w.buffer);
}

/// Every state that a connection comes to is settled: a new one is, a read
/// leaves one so, and a step keeps one so. From a settled state no read is
/// asked for once the stream has ended.
pub proof fn lemma_settled_is_kept<C: Decoder>(s: ReadModel, chunk: Seq<u8>)
    ensures
        settled(fresh()),
        settled(after_read(s, chunk)),
        settled(s) ==> settled(read_step::<C>(s).0),
        settled(s) && read_step::<C>(s).1 is Read ==> !s.eof,
{
}

} // verus!
