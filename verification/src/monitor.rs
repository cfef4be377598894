//! A labelled pair of a read side and a write side whose traffic can be
//! traced: what each completed read newly filled in, and what each completed
//! write took.

use vstd::prelude::*;
use vstd::slice::slice_subrange;

verus! {

/// What is traced of one completed read or write: under which label, in
/// which direction, and which bytes.
#[derive(Debug, PartialEq, Eq)]
pub struct Trace<'a> {
    pub label: &'static str,
    /// `"READ"` or `"WRITE"`.
    pub verb: &'static str,
    pub bytes: &'a [u8],
}

/// A read side and a write side under one label.
#[derive(Debug)]
pub struct MonitoredStream<R, W> {
    inner_read: R,
    inner_write: W,
    label: &'static str,
}

impl<R, W> MonitoredStream<R, W> {
    /// The read side.
    pub closed spec fn read_side(self) -> R {
        self.inner_read
    }

    /// The write side.
    pub closed spec fn write_side(self) -> W {
        self.inner_write
    }

    /// The label that traces carry.
    pub closed spec fn tag(self) -> &'static str {
        self.label
    }

    pub fn new(inner_read: R, inner_write: W, label: &'static str) -> (stream: Self)
        ensures
            stream.read_side() == inner_read,
            stream.write_side() == inner_write,
            stream.tag() == label,
    {
        Self { inner_read, inner_write, label }
    }

    pub fn label(&self) -> (label: &'static str)
        ensures
            label == self.tag(),
    {
        self.label
    }

    pub fn reader(&self) -> (r: &R)
        ensures
            *r == self.read_side(),
    {
        &self.inner_read
    }

    pub fn writer(&self) -> (w: &W)
        ensures
            *w == self.write_side(),
    {
        &self.inner_write
    }

    /// The read side, to poll it. Label and write side stay as they are.
    pub fn reader_mut(&mut self) -> (r: &mut R)
        ensures
            *r == old(self).read_side(),
            final(self).read_side() == *final(r),
            final(self).write_side() == old(self).write_side(),
            final(self).tag() == old(self).tag(),
    {
        &mut self.inner_read
    }

    /// The write side, to poll it. Label and read side stay as they are.
    pub fn writer_mut(&mut self) -> (w: &mut W)
        ensures
            *w == old(self).write_side(),
            final(self).write_side() == *final(w),
            final(self).read_side() == old(self).read_side(),
            final(self).tag() == old(self).tag(),
    {
        &mut self.inner_write
    }

    /// Takes the stream apart again.
    pub fn into_inner(self) -> (sides: (R, W))
        ensures
            sides.0 == self.read_side(),
            sides.1 == self.write_side(),
    {
        (self.inner_read, self.inner_write)
    }

    /// After a read completed: `filled` is the filled part of the caller's
    /// buffer, of which the first `before_len` bytes were there before the
    /// read. Gives what to trace, the bytes that the read added, and nothing
    /// when it added none.
    pub fn observe_read<'a>(&self, before_len: usize, filled: &'a [u8]) -> (trace: Option<
        Trace<'a>,
    >)
        requires
            before_len <= filled@.len(),
        ensures
            trace is None <==> filled@.len() == before_len,
            trace matches Some(t) ==> {
                &&& t.label == self.tag()
                &&& t.verb@ == "READ"@
                &&& t.bytes@ == filled@.skip(before_len as int)
            },
    {
        let new_data = slice_subrange(filled, before_len, filled.len());
        if new_data.len() > 0 {
            assert(new_data@ =~= filled@.skip(before_len as int));
            Some(Trace { label: self.label, verb: "READ", bytes: new_data })
        } else {
            None
        }
    }

    /// After a write completed with `written` bytes taken from the front of
    /// `buf`. Gives what to trace, those bytes, and nothing when the write
    /// took none.
    pub fn observe_write<'a>(&self, buf: &'a [u8], written: usize) -> (trace: Option<Trace<'a>>)
        requires
            written <= buf@.len(),
        ensures
            trace is None <==> written == 0,
            trace matches Some(t) ==> {
                &&& t.label == self.tag()
                &&& t.verb@ == "WRITE"@
                &&& t.bytes@ == buf@.take(written as int)
            },
    {
        if written > 0 {
            let sent = slice_subrange(buf, 0, written);
            assert(sent@ =~= buf@.take(written as int));
            Some(Trace { label: self.label, verb: "WRITE", bytes: sent })
        } else {
            None
        }
    }
}

} // verus!
