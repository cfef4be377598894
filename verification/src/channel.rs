//! The dual-pipe channel: two independent pipes that form a virtual
//! full-duplex connection between a guest-facing and a host-facing side.
//! What the guest writes the host reads, and what the host writes the guest
//! reads. No ordering holds across the two pipes.

use crate::pipe::{
    delivered, lemma_fifo_drained, run, written, Pipe, PipeOp, PipeRead, PipeState, PipeWrite,
};
use vstd::prelude::*;

verus! {

/// The state of a channel: the state of each of its pipes.
pub ghost struct ChannelState {
    /// Carries what the guest writes to where the host reads.
    pub to_host: PipeState,
    /// Carries what the host writes to where the guest reads.
    pub to_guest: PipeState,
}

/// Two pipes, cross-wired.
pub struct Channel {
    to_host: Pipe,
    to_guest: Pipe,
}

impl View for Channel {
    type V = ChannelState;

    closed spec fn view(&self) -> ChannelState {
        ChannelState { to_host: self.to_host@, to_guest: self.to_guest@ }
    }
}

impl Channel {
    /// Both pipes are well formed.
    pub closed spec fn wf(&self) -> bool {
        self.to_host.wf() && self.to_guest.wf()
    }

    /// A well-formed channel holds no more than its capacity in either pipe.
    pub proof fn lemma_bounded(&self)
        requires
            self.wf(),
        ensures
            self@.to_host.bounded(),
            self@.to_guest.bounded(),
    {
        self.to_host.lemma_bounded();
        self.to_guest.lemma_bounded();
    }

    /// A channel of two open, empty pipes of `capacity` bytes each.
    pub fn new(capacity: usize) -> (channel: Self)
        requires
            0 < capacity <= isize::MAX,
        ensures
            channel.wf(),
            channel@.to_host == PipeState::fresh(capacity as nat),
            channel@.to_guest == PipeState::fresh(capacity as nat),
    {
        Channel { to_host: Pipe::new(capacity), to_guest: Pipe::new(capacity) }
    }

    /// The guest's write end: one write attempt on the pipe the host reads.
    pub fn guest_write(&mut self, buf: &[u8]) -> (r: PipeWrite)
        requires
            old(self).wf(),
        ensures
            final(self).wf(),
            r == old(self)@.to_host.write_outcome(buf@),
            final(self)@.to_host == old(self)@.to_host.step(PipeOp::Write(buf@)),
            final(self)@.to_guest == old(self)@.to_guest,
    {
        self.to_host.write(buf)
    }

    /// The host's read end: one read attempt on the pipe the guest writes.
    pub fn host_read(&mut self, max_len: usize) -> (r: PipeRead)
        requires
            old(self).wf(),
        ensures
            final(self).wf(),
            r is Suspend <==> old(self)@.to_host.read_suspends(max_len as nat),
            r is EndOfStream <==> old(self)@.to_host.read_ends(max_len as nat),
            r matches PipeRead::Data(data) ==> data@ == old(self)@.to_host.received(
                PipeOp::Read(max_len as nat),
            ),
            final(self)@.to_host == old(self)@.to_host.step(PipeOp::Read(max_len as nat)),
            final(self)@.to_guest == old(self)@.to_guest,
    {
        self.to_host.read(max_len)
    }

    /// The host's write end: one write attempt on the pipe the guest reads.
    pub fn host_write(&mut self, buf: &[u8]) -> (r: PipeWrite)
        requires
            old(self).wf(),
        ensures
            final(self).wf(),
            r == old(self)@.to_guest.write_outcome(buf@),
            final(self)@.to_guest == old(self)@.to_guest.step(PipeOp::Write(buf@)),
            final(self)@.to_host == old(self)@.to_host,
    {
        self.to_guest.write(buf)
    }

    /// The guest's read end: one read attempt on the pipe the host writes.
    pub fn guest_read(&mut self, max_len: usize) -> (r: PipeRead)
        requires
            old(self).wf(),
        ensures
            final(self).wf(),
            r is Suspend <==> old(self)@.to_guest.read_suspends(max_len as nat),
            r is EndOfStream <==> old(self)@.to_guest.read_ends(max_len as nat),
            r matches PipeRead::Data(data) ==> data@ == old(self)@.to_guest.received(
                PipeOp::Read(max_len as nat),
            ),
            final(self)@.to_guest == old(self)@.to_guest.step(PipeOp::Read(max_len as nat)),
            final(self)@.to_host == old(self)@.to_host,
    {
        self.to_guest.read(max_len)
    }

    /// The guest drops its write end: the host reads what is buffered, then
    /// the end of the stream.
    pub fn close_guest_write(&mut self)
        requires
            old(self).wf(),
        ensures
            final(self).wf(),
            final(self)@.to_host == old(self)@.to_host.step(PipeOp::Close),
            final(self)@.to_guest == old(self)@.to_guest,
    {
        self.to_host.close();
    }

    /// The host drops its write end: the guest reads what is buffered, then
    /// the end of the stream.
    pub fn close_host_write(&mut self)
        requires
            old(self).wf(),
        ensures
            final(self).wf(),
            final(self)@.to_guest == old(self)@.to_guest.step(PipeOp::Close),
            final(self)@.to_host == old(self)@.to_host,
    {
        self.to_guest.close();
    }

    /// Takes the channel apart into its two pipes, the one towards the host
    /// first, so that each can be split into the ends that the two
    /// orchestrators own.
    pub fn into_pipes(self) -> (pipes: (Pipe, Pipe))
        requires
            self.wf(),
        ensures
            pipes.0.wf(),
            pipes.1.wf(),
            pipes.0@ == self@.to_host,
            pipes.1@ == self@.to_guest,
    {
        (self.to_host, self.to_guest)
    }
}

/// Round trip: a guest that echoes writes towards the host exactly the bytes
/// it has read. When both pipes start empty and are drained again, the host
/// has then read back exactly the bytes it wrote, in order and unaltered,
/// whatever the sizes of the writes and reads on either pipe. The channel
/// adds no framing and takes none away.
pub proof fn lemma_echo_round_trip(
    start: ChannelState,
    to_guest_ops: Seq<PipeOp>,
    to_host_ops: Seq<PipeOp>,
)
    requires
        start.to_guest.bytes.len() == 0,
        start.to_host.bytes.len() == 0,
        run(start.to_guest, to_guest_ops).bytes.len() == 0,
        run(start.to_host, to_host_ops).bytes.len() == 0,
        written(start.to_host, to_host_ops) == delivered(start.to_guest, to_guest_ops),
    ensures
        delivered(start.to_host, to_host_ops) == written(start.to_guest, to_guest_ops),
{
    lemma_fifo_drained(start.to_guest, to_guest_ops);
    lemma_fifo_drained(start.to_host, to_host_ops);
}

} // verus!
