//! A fixed-capacity in-memory byte pipe with backpressure, held in tokio's
//! `SimplexStream` and driven one non-blocking attempt at a time.

use std::future::Future;
use std::task::{Context, Poll, Waker};
use tokio::io::{AsyncReadExt, AsyncWriteExt, SimplexStream};
use vstd::prelude::*;

verus! {

/// The capacity of each pipe of a session, in bytes.
pub const PIPE_CAPACITY: usize = 64;

#[verifier::external_type_specification]
#[verifier::external_body]
pub struct ExSimplexStream(SimplexStream);

/// The bytes a stream buffers: written and not yet read, oldest first.
pub uninterp spec fn stream_bytes(stream: SimplexStream) -> Seq<u8>;

/// The buffer size a stream was made with.
pub uninterp spec fn stream_limit(stream: SimplexStream) -> nat;

/// Whether a stream's write side has been shut down.
pub uninterp spec fn stream_closed(stream: SimplexStream) -> bool;

/// What one write attempt on a pipe came to.
#[derive(Debug, PartialEq, Eq)]
pub enum PipeWrite {
    /// This many bytes from the front of the buffer are now in the pipe.
    Accepted(usize),
    /// Nothing was written; the writer waits for the reader to make room.
    Suspend,
    /// The write end has been closed; nothing was written.
    Closed,
}

/// What one read attempt on a pipe came to.
#[derive(Debug, PartialEq, Eq)]
pub enum PipeRead {
    /// These bytes left the pipe, oldest first.
    Data(Vec<u8>),
    /// The pipe is drained and its write end closed: no byte will follow.
    EndOfStream,
    /// Nothing was read; the reader waits for the writer.
    Suspend,
}

/// A read poll of the stream, as the stream reports it.
enum ReadPoll {
    Ready(Vec<u8>),
    Failed,
    Pending,
}

/// `SimplexStream::new_unsplit`: an open stream with an empty buffer and the
/// given buffer size. The outside function panics on a size of 0.
#[verifier::external_body]
fn stream_new(max_buf_size: usize) -> (stream: SimplexStream)
    requires
        max_buf_size > 0,
    ensures
        stream_bytes(stream) == Seq::<u8>::empty(),
        stream_limit(stream) == max_buf_size,
        !stream_closed(stream),
{
    SimplexStream::new_unsplit(max_buf_size)
}

/// `AsyncWriteExt::write` on a `SimplexStream`, polled once with a waker
/// that does nothing and outside tokio's cooperative budget
/// (`tokio::task::unconstrained`), so that the stream alone decides. A
/// closed stream refuses with an error. An open one takes an empty `buf` at
/// once, is pending while its buffer is full, and else appends the first
/// `min(buf.len(), room)` bytes of `buf`, where `room` is the limit less the
/// buffered length. The stream panics if it buffers more than its limit.
#[verifier::external_body]
fn stream_write(stream: &mut SimplexStream, buf: &[u8]) -> (r: PipeWrite)
    requires
        stream_bytes(*old(stream)).len() <= stream_limit(*old(stream)),
    ensures
        stream_limit(*final(stream)) == stream_limit(*old(stream)),
        stream_closed(*final(stream)) == stream_closed(*old(stream)),
        r == if stream_closed(*old(stream)) {
            PipeWrite::Closed
        } else if buf@.len() == 0 {
            PipeWrite::Accepted(0)
        } else if stream_bytes(*old(stream)).len() == stream_limit(*old(stream)) {
            PipeWrite::Suspend
        } else if buf@.len() <= stream_limit(*old(stream)) - stream_bytes(*old(stream)).len() {
            PipeWrite::Accepted(buf@.len() as usize)
        } else {
            PipeWrite::Accepted(
                (stream_limit(*old(stream)) - stream_bytes(*old(stream)).len()) as usize,
            )
        },
        stream_bytes(*final(stream)) == match r {
            PipeWrite::Accepted(n) => stream_bytes(*old(stream)) + buf@.take(n as int),
            _ => stream_bytes(*old(stream)),
        },
{
    let mut cx = Context::from_waker(Waker::noop());
    let mut attempt = Box::pin(tokio::task::unconstrained(stream.write(buf)));
    match attempt.as_mut().poll(&mut cx) {
        Poll::Ready(Ok(n)) => PipeWrite::Accepted(n),
        Poll::Ready(Err(_)) => PipeWrite::Closed,
        Poll::Pending => PipeWrite::Suspend,
    }
}

/// `AsyncReadExt::read` on a `SimplexStream` into a fresh buffer of
/// `max_len` bytes, polled once with a waker that does nothing and outside
/// tokio's cooperative budget (`tokio::task::unconstrained`); the filled
/// part of the buffer is handed back. The read never fails. It is pending
/// exactly when bytes are asked for and the stream is empty and open. Else
/// it moves the oldest `min(max_len, buffered)` bytes out of the stream,
/// which are none when `max_len` is 0 or the stream is drained and closed.
#[verifier::external_body]
fn stream_read(stream: &mut SimplexStream, max_len: usize) -> (r: ReadPoll)
    requires
        max_len <= isize::MAX,
    ensures
        stream_limit(*final(stream)) == stream_limit(*old(stream)),
        stream_closed(*final(stream)) == stream_closed(*old(stream)),
        !(r is Failed),
        r is Pending <==> max_len > 0 && stream_bytes(*old(stream)).len() == 0 && !stream_closed(
            *old(stream),
        ),
        r is Pending ==> stream_bytes(*final(stream)) == stream_bytes(*old(stream)),
        r matches ReadPoll::Ready(data) ==> {
            &&& data@.len() <= max_len
            &&& data@.len() <= stream_bytes(*old(stream)).len()
            &&& data@.len() == max_len || data@.len() == stream_bytes(*old(stream)).len()
            &&& data@ == stream_bytes(*old(stream)).take(data@.len() as int)
            &&& stream_bytes(*final(stream)) == stream_bytes(*old(stream)).skip(
                data@.len() as int,
            )
        },
{
    let mut data = vec![0u8; max_len];
    let mut cx = Context::from_waker(Waker::noop());
    let mut attempt = Box::pin(tokio::task::unconstrained(stream.read(&mut data)));
    let polled = attempt.as_mut().poll(&mut cx);
    drop(attempt);
    match polled {
        Poll::Ready(Ok(filled)) => {
            data.truncate(filled);
            ReadPoll::Ready(data)
        },
        Poll::Ready(Err(_)) => ReadPoll::Failed,
        Poll::Pending => ReadPoll::Pending,
    }
}

/// `AsyncWriteExt::shutdown` on a `SimplexStream`, polled once: it marks
/// the write side closed, is ready at once, and leaves the buffer as it was.
#[verifier::external_body]
fn stream_shutdown(stream: &mut SimplexStream)
    ensures
        stream_closed(*final(stream)),
        stream_limit(*final(stream)) == stream_limit(*old(stream)),
        stream_bytes(*final(stream)) == stream_bytes(*old(stream)),
{
    let mut cx = Context::from_waker(Waker::noop());
    let mut attempt = Box::pin(stream.shutdown());
    let _ = attempt.as_mut().poll(&mut cx);
}

/// The state of a pipe: what it buffers, how much it can buffer, and
/// whether its write end is closed.
pub ghost struct PipeState {
    pub bytes: Seq<u8>,
    pub capacity: nat,
    pub closed: bool,
}

/// One attempt on a pipe.
pub ghost enum PipeOp {
    /// A write attempt with this buffer.
    Write(Seq<u8>),
    /// A read attempt for at most this many bytes.
    Read(nat),
    /// Closing the write end.
    Close,
}

impl PipeState {
    /// An open, empty pipe.
    pub open spec fn fresh(capacity: nat) -> PipeState {
        PipeState { bytes: Seq::empty(), capacity, closed: false }
    }

    /// No pipe holds more than its capacity.
    pub open spec fn bounded(self) -> bool {
        self.bytes.len() <= self.capacity
    }

    /// Bytes that still fit.
    pub open spec fn room(self) -> nat {
        (self.capacity - self.bytes.len()) as nat
    }

    /// How many bytes of a buffer of `len` bytes a write to the open pipe
    /// takes: all of them, or as many as fit.
    pub open spec fn accepts(self, len: nat) -> nat {
        if len <= self.room() {
            len
        } else {
            self.room()
        }
    }

    /// How many bytes a read of at most `max_len` bytes yields.
    pub open spec fn yields(self, max_len: nat) -> nat {
        if max_len <= self.bytes.len() {
            max_len
        } else {
            self.bytes.len()
        }
    }

    /// What a write attempt with `buf` comes to. A closed pipe refuses. An
    /// open one takes an empty buffer at once, suspends the writer while it
    /// is full, and else takes what fits.
    pub open spec fn write_outcome(self, buf: Seq<u8>) -> PipeWrite {
        if self.closed {
            PipeWrite::Closed
        } else if buf.len() == 0 {
            PipeWrite::Accepted(0)
        } else if self.room() == 0 {
            PipeWrite::Suspend
        } else {
            PipeWrite::Accepted(self.accepts(buf.len()) as usize)
        }
    }

    /// Whether a read attempt for at most `max_len` bytes suspends the
    /// reader: bytes are asked for, none is there, and more may come.
    pub open spec fn read_suspends(self, max_len: nat) -> bool {
        max_len > 0 && self.bytes.len() == 0 && !self.closed
    }

    /// Whether a read attempt for at most `max_len` bytes reports the end
    /// of the stream: bytes are asked for, none is there, and none will come.
    pub open spec fn read_ends(self, max_len: nat) -> bool {
        max_len > 0 && self.bytes.len() == 0 && self.closed
    }

    /// The bytes that `op` puts into the pipe.
    pub open spec fn sent(self, op: PipeOp) -> Seq<u8> {
        match op {
            PipeOp::Write(buf) => if self.closed {
                Seq::empty()
            } else {
                buf.take(self.accepts(buf.len()) as int)
            },
            _ => Seq::empty(),
        }
    }

    /// The bytes that `op` takes out of the pipe.
    pub open spec fn received(self, op: PipeOp) -> Seq<u8> {
        match op {
            PipeOp::Read(max_len) => self.bytes.take(self.yields(max_len) as int),
            _ => Seq::empty(),
        }
    }

    /// The pipe after `op`.
    pub open spec fn step(self, op: PipeOp) -> PipeState {
        match op {
            PipeOp::Write(_) => PipeState { bytes: self.bytes + self.sent(op), ..self },
            PipeOp::Read(max_len) => PipeState {
                bytes: self.bytes.skip(self.yields(max_len) as int),
                ..self
            },
            PipeOp::Close => PipeState { closed: true, ..self },
        }
    }
}

/// What a read that completed with `data` means when at most `max_len`
/// bytes were asked for: completing with no byte although some were asked
/// for is the end of the stream.
pub fn read_outcome(data: Vec<u8>, max_len: usize) -> (r: PipeRead)
    ensures
        r == if data@.len() > 0 || max_len == 0 {
            PipeRead::Data(data)
        } else {
            PipeRead::EndOfStream
        },
{
    if data.len() > 0 || max_len == 0 {
        PipeRead::Data(data)
    } else {
        PipeRead::EndOfStream
    }
}

/// A byte pipe of fixed capacity: single producer, single consumer, strict
/// FIFO, no framing.
pub struct Pipe {
    stream: SimplexStream,
    capacity: usize,
}

impl View for Pipe {
    type V = PipeState;

    closed spec fn view(&self) -> PipeState {
        PipeState {
            bytes: stream_bytes(self.stream),
            capacity: stream_limit(self.stream),
            closed: stream_closed(self.stream),
        }
    }
}

impl Pipe {
    /// What every pipe made by `new` satisfies and every method keeps: the
    /// capacity is the one it was made with, and no more is buffered.
    pub closed spec fn wf(&self) -> bool {
        &&& self.capacity == stream_limit(self.stream)
        &&& 0 < self.capacity <= isize::MAX
        &&& stream_bytes(self.stream).len() <= self.capacity
    }

    /// A well-formed pipe holds no more than its capacity.
    pub proof fn lemma_bounded(&self)
        requires
            self.wf(),
        ensures
            self@.bounded(),
            0 < self@.capacity <= isize::MAX,
    {
    }

    /// An open, empty pipe that buffers at most `capacity` bytes.
    pub fn new(capacity: usize) -> (pipe: Self)
        requires
            0 < capacity <= isize::MAX,
        ensures
            pipe.wf(),
            pipe@ == PipeState::fresh(capacity as nat),
    {
        Pipe { stream: stream_new(capacity), capacity }
    }

    /// The capacity the pipe was made with.
    pub fn capacity(&self) -> (n: usize)
        requires
            self.wf(),
        ensures
            n == self@.capacity,
            n > 0,
    {
        self.capacity
    }

    /// One write attempt. Accepted bytes go behind those already buffered,
    /// and never more than fit: a short write is legal and the writer comes
    /// back with the rest. While the pipe is full the writer is suspended
    /// until the reader has made room. A suspended or refused attempt
    /// changes nothing.
    pub fn write(&mut self, buf: &[u8]) -> (r: PipeWrite)
        requires
            old(self).wf(),
        ensures
            final(self).wf(),
            r == old(self)@.write_outcome(buf@),
            final(self)@ == old(self)@.step(PipeOp::Write(buf@)),
    {
        let r = stream_write(&mut self.stream, buf);
        proof {
            let before = old(self)@;
            assert(before.bytes + Seq::<u8>::empty() =~= before.bytes);
            assert(buf@.take(0) =~= Seq::<u8>::empty());
        }
        r
    }

    /// One read attempt for at most `max_len` bytes. Data comes out oldest
    /// first, as much as is there and asked for. While the pipe is empty and
    /// open the reader is suspended until the writer has produced bytes or
    /// closed its end; once it is empty and closed, every read that asks for
    /// bytes reports the end of the stream.
    pub fn read(&mut self, max_len: usize) -> (r: PipeRead)
        requires
            old(self).wf(),
        ensures
            final(self).wf(),
            r is Suspend <==> old(self)@.read_suspends(max_len as nat),
            r is EndOfStream <==> old(self)@.read_ends(max_len as nat),
            r matches PipeRead::Data(data) ==> data@ == old(self)@.received(
                PipeOp::Read(max_len as nat),
            ),
            final(self)@ == old(self)@.step(PipeOp::Read(max_len as nat)),
    {
        let want = if max_len <= self.capacity {
            max_len
        } else {
            self.capacity
        };
        let polled = stream_read(&mut self.stream, want);
        proof {
            let before = old(self)@;
            assert(before.bytes.skip(0) =~= before.bytes);
        }
        match polled {
            ReadPoll::Ready(data) => read_outcome(data, max_len),
            _ => PipeRead::Suspend,
        }
    }

    /// Closes the write end. What is buffered can still be read; after it,
    /// reads report the end of the stream and writes are refused.
    pub fn close(&mut self)
        requires
            old(self).wf(),
        ensures
            final(self).wf(),
            final(self)@ == old(self)@.step(PipeOp::Close),
    {
        stream_shutdown(&mut self.stream);
    }

    /// Gives up the pipe for its stream, to be split into a read end and a
    /// write end that two tasks own.
    pub fn into_stream(self) -> (stream: SimplexStream)
        requires
            self.wf(),
        ensures
            stream_bytes(stream) == self@.bytes,
            stream_limit(stream) == self@.capacity,
            stream_closed(stream) == self@.closed,
    {
        self.stream
    }
}

/// The pipe after the attempts `ops`, made in order from `start`.
pub open spec fn run(start: PipeState, ops: Seq<PipeOp>) -> PipeState
    decreases ops.len(),
{
    if ops.len() == 0 {
        start
    } else {
        run(start, ops.drop_last()).step(ops.last())
    }
}

/// All bytes the writes of `ops` put into the pipe, in order.
pub open spec fn written(start: PipeState, ops: Seq<PipeOp>) -> Seq<u8>
    decreases ops.len(),
{
    if ops.len() == 0 {
        Seq::empty()
    } else {
        written(start, ops.drop_last()) + run(start, ops.drop_last()).sent(ops.last())
    }
}

/// All bytes the reads of `ops` took out of the pipe, in order.
pub open spec fn delivered(start: PipeState, ops: Seq<PipeOp>) -> Seq<u8>
    decreases ops.len(),
{
    if ops.len() == 0 {
        Seq::empty()
    } else {
        delivered(start, ops.drop_last()) + run(start, ops.drop_last()).received(ops.last())
    }
}

/// First in, first out: whatever the sizes of the writes and reads, the
/// bytes read so far followed by the bytes still buffered are the bytes
/// buffered at the start followed by the bytes written, in order. The
/// capacity never changes.
pub proof fn lemma_fifo(start: PipeState, ops: Seq<PipeOp>)
    ensures
        delivered(start, ops) + run(start, ops).bytes == start.bytes + written(start, ops),
        run(start, ops).capacity == start.capacity,
    decreases ops.len(),
{
    if ops.len() > 0 {
        let before = run(start, ops.drop_last());
        lemma_fifo(start, ops.drop_last());
        let taken = before.received(ops.last()).len() as int;
        assert(before.bytes.take(taken) + before.bytes.skip(taken) =~= before.bytes);
        assert(delivered(start, ops) + run(start, ops).bytes =~= delivered(start, ops.drop_last())
            + before.bytes + before.sent(ops.last()));
        assert(start.bytes + written(start, ops) =~= start.bytes + written(start, ops.drop_last())
            + before.sent(ops.last()));
    } else {
        assert(delivered(start, ops) + run(start, ops).bytes =~= start.bytes + written(
            start,
            ops,
        ));
    }
}

/// A pipe that starts empty hands out exactly what was written into it once
/// it is drained again.
pub proof fn lemma_fifo_drained(start: PipeState, ops: Seq<PipeOp>)
    requires
        start.bytes.len() == 0,
        run(start, ops).bytes.len() == 0,
    ensures
        delivered(start, ops) == written(start, ops),
{
    lemma_fifo(start, ops);
    assert(delivered(start, ops) + run(start, ops).bytes =~= delivered(start, ops));
    assert(start.bytes + written(start, ops) =~= written(start, ops));
}

/// Backpressure: a pipe never holds more than its capacity, so the bytes
/// written never run ahead of the bytes read by more than the capacity less
/// what was buffered at the start. As this holds of every sequence of
/// attempts, it holds after each attempt of a longer one.
pub proof fn lemma_backpressure(start: PipeState, ops: Seq<PipeOp>)
    requires
        start.bounded(),
    ensures
        run(start, ops).bounded(),
        start.bytes.len() + written(start, ops).len() <= delivered(start, ops).len()
            + start.capacity,
    decreases ops.len(),
{
    lemma_fifo(start, ops);
    if ops.len() > 0 {
        lemma_backpressure(start, ops.drop_last());
    }
    assert((delivered(start, ops) + run(start, ops).bytes).len() == (start.bytes + written(
        start,
        ops,
    )).len());
}

/// One write takes what fits and no more. Into an open pipe with `room`
/// free bytes a buffer of `len` bytes puts `min(len, room)` bytes; if that
/// is not all of it, the pipe is full afterwards, the next write attempt
/// suspends, and the rest gets in only as reads make room.
pub proof fn lemma_write_waits_for_room(state: PipeState, buf: Seq<u8>)
    requires
        state.bounded(),
        !state.closed,
    ensures
        state.sent(PipeOp::Write(buf)).len() == state.accepts(buf.len()),
        state.accepts(buf.len()) <= state.room(),
        state.step(PipeOp::Write(buf)).bytes.len() == state.bytes.len() + state.accepts(buf.len()),
        buf.len() > state.room() ==> {
            let full = state.step(PipeOp::Write(buf));
            let rest = buf.skip(state.accepts(buf.len()) as int);
            &&& full.room() == 0
            &&& full.write_outcome(rest) == PipeWrite::Suspend
            &&& forall|drained: nat|
                0 < drained <= full.bytes.len() ==> #[trigger] full.step(
                    PipeOp::Read(drained),
                ).write_outcome(rest) == PipeWrite::Accepted(
                    (if rest.len() <= drained {
                        rest.len()
                    } else {
                        drained
                    }) as usize,
                )
        },
{
}

/// Pending, then resolved: a read on an open, empty pipe suspends and
/// leaves the pipe as it is, however often it is tried. Once the writer has
/// put `bytes` in, the next read completes with the front of `bytes`, as
/// much of it as was asked for: nothing stands before it, and no byte is
/// lost or altered. A read that asks for at least as many bytes as were
/// written hands out exactly `bytes` and leaves the pipe empty again.
pub proof fn lemma_pending_then_resolved(start: PipeState, bytes: Seq<u8>, max_len: nat)
    requires
        start.bytes.len() == 0,
        !start.closed,
        0 < bytes.len() <= start.capacity,
        0 < max_len,
    ensures
        start.read_suspends(max_len),
        start.step(PipeOp::Read(max_len)) == start,
        start.write_outcome(bytes) == PipeWrite::Accepted(bytes.len() as usize),
        ({
            let filled = start.step(PipeOp::Write(bytes));
            &&& filled.bytes == bytes
            &&& !filled.read_suspends(max_len)
            &&& !filled.read_ends(max_len)
            &&& filled.received(PipeOp::Read(max_len)) == bytes.take(filled.yields(max_len) as int)
            &&& filled.step(PipeOp::Read(max_len)).bytes == bytes.skip(
                filled.yields(max_len) as int,
            )
            &&& max_len >= bytes.len() ==> {
                &&& filled.received(PipeOp::Read(max_len)) == bytes
                &&& filled.step(PipeOp::Read(max_len)) == start
            }
        }),
{
    assert(start.bytes.skip(0) =~= start.bytes);
    assert(bytes.take(bytes.len() as int) =~= bytes);
    assert(start.bytes + bytes =~= bytes);
    assert(bytes.skip(bytes.len() as int) =~= start.bytes);
}

} // verus!
