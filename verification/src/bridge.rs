//! The readiness-to-async bridge. The bridge wraps a stream that can only be
//! asked "what is there now?" and turns each answer into one of three
//! outcomes: complete, suspend until the readiness registry resumes the
//! caller, or fail. The stream calls themselves are made by the caller, which
//! hands their results in and carries the decision out.

use crate::registry::Registry;
use vstd::prelude::*;

verus! {

/// The one error kind of the bridge: an I/O failure that carries the cause the
/// underlying stream reported. The bridge never retries.
#[derive(Debug)]
pub struct IoFailure<E> {
    pub cause: E,
}

/// What a read does after its non-blocking read attempt.
#[derive(Debug)]
pub enum ReadStep<E> {
    /// Bytes were produced: the read completes with exactly these bytes.
    Deliver(Vec<u8>),
    /// Nothing was available: subscribe for "readable", register the token
    /// with the caller's waiter, and suspend.
    Suspend,
    /// The attempt failed.
    Fail(IoFailure<E>),
}

/// What a write does after its non-blocking writable-length check.
#[derive(Debug)]
pub enum WriteStep<E> {
    /// Write this many bytes from the front of the buffer. It may be fewer
    /// than the buffer holds; the caller loops until all are sent.
    Send(usize),
    /// No room at all: subscribe for "writable", register, and suspend.
    Suspend,
    /// The check failed.
    Fail(IoFailure<E>),
}

pub open spec fn read_decision<E>(attempt: Result<Vec<u8>, E>) -> ReadStep<E> {
    match attempt {
        Ok(bytes) => if bytes@.len() > 0 {
            ReadStep::Deliver(bytes)
        } else {
            ReadStep::Suspend
        },
        Err(cause) => ReadStep::Fail(IoFailure { cause }),
    }
}

pub open spec fn send_len(buf_len: nat, permit: nat) -> nat {
    if buf_len <= permit {
        buf_len
    } else {
        permit
    }
}

pub open spec fn write_decision<E>(buf_len: usize, permit: Result<u64, E>) -> WriteStep<E> {
    match permit {
        Ok(room) => if room > 0 {
            WriteStep::Send(send_len(buf_len as nat, room as nat) as usize)
        } else {
            WriteStep::Suspend
        },
        Err(cause) => WriteStep::Fail(IoFailure { cause }),
    }
}

/// The length to ask the stream for when the caller's buffer has room for
/// `max_len` more bytes.
pub fn read_request(max_len: usize) -> (len: u64)
    ensures
        len == max_len,
{
    max_len as u64
}

/// Decides a read from the result of the read attempt. An empty result is not
/// an error: it means "not ready".
pub fn read_step<E>(attempt: Result<Vec<u8>, E>) -> (step: ReadStep<E>)
    ensures
        step == read_decision(attempt),
{
    match attempt {
        Ok(bytes) => {
            if bytes.len() > 0 {
                ReadStep::Deliver(bytes)
            } else {
                ReadStep::Suspend
            }
        },
        Err(cause) => ReadStep::Fail(IoFailure { cause }),
    }
}

/// Decides a write of a buffer of `buf_len` bytes from the result of the
/// writable-length check: with room for `room > 0` bytes it sends
/// `min(buf_len, room)`, never more than was permitted.
pub fn write_step<E>(buf_len: usize, permit: Result<u64, E>) -> (step: WriteStep<E>)
    ensures
        step == write_decision(buf_len, permit),
        step matches WriteStep::Send(n) ==> n <= buf_len && (permit matches Ok(room) && n <= room),
{
    match permit {
        Ok(room) => {
            if room == 0 {
                WriteStep::Suspend
            } else if buf_len as u64 <= room {
                WriteStep::Send(buf_len)
            } else {
                WriteStep::Send(room as usize)
            }
        },
        Err(cause) => WriteStep::Fail(IoFailure { cause }),
    }
}

/// Completes a write of `count` bytes from the result of the stream's write.
pub fn write_result<E>(count: usize, outcome: Result<(), E>) -> (r: Result<usize, IoFailure<E>>)
    ensures
        r == match outcome {
            Ok(_) => Ok::<usize, IoFailure<E>>(count),
            Err(cause) => Err(IoFailure { cause }),
        },
{
    match outcome {
        Ok(_) => Ok(count),
        Err(cause) => Err(IoFailure { cause }),
    }
}

/// Completes a flush from the result of the stream's flush: any failure is
/// surfaced as an I/O failure.
pub fn flush_result<E>(outcome: Result<(), E>) -> (r: Result<(), IoFailure<E>>)
    ensures
        r == match outcome {
            Ok(_) => Ok::<(), IoFailure<E>>(()),
            Err(cause) => Err(IoFailure { cause }),
        },
{
    match outcome {
        Ok(_) => Ok(()),
        Err(cause) => Err(IoFailure { cause }),
    }
}

/// Shutdown is a flush: the bridge has no separate half-close.
pub fn shutdown_result<E>(outcome: Result<(), E>) -> (r: Result<(), IoFailure<E>>)
    ensures
        r == match outcome {
            Ok(_) => Ok::<(), IoFailure<E>>(()),
            Err(cause) => Err(IoFailure { cause }),
        },
{
    flush_result(outcome)
}

/// The registry `after` is `before` with one more registration: a token
/// that `subscribe` handed out, paired with `waiter`.
pub open spec fn registered<T, W, S: FnOnce() -> T>(
    subscribe: S,
    waiter: W,
    before: Seq<(T, W)>,
    after: Seq<(T, W)>,
) -> bool {
    exists|token: T| #[trigger]
        call_ensures(subscribe, (), token) && after == before.push((token, waiter))
}

/// Suspends the caller on a condition of the stream: obtains a fresh
/// readiness token from `subscribe` and registers it with the caller's
/// waiter. Every suspension is a registration of its own; earlier ones stay
/// as they are.
pub fn suspend<T, W, S: FnOnce() -> T>(registry: &mut Registry<T, W>, subscribe: S, waiter: W)
    requires
        call_requires(subscribe, ()),
    ensures
        registered(subscribe, waiter, old(registry)@, final(registry)@),
{
    let token = subscribe();
    registry.register(token, waiter);
}

/// One poll of a read, after the read attempt was made: decides as
/// `read_step` does and, where the read suspends, registers the caller for
/// "readable". A completed or failed read leaves the registry untouched and
/// does not call `subscribe`.
pub fn poll_read<T, W, E, S: FnOnce() -> T>(
    registry: &mut Registry<T, W>,
    attempt: Result<Vec<u8>, E>,
    subscribe: S,
    waiter: W,
) -> (step: ReadStep<E>)
    requires
        call_requires(subscribe, ()),
    ensures
        step == read_decision(attempt),
        step is Suspend ==> registered(subscribe, waiter, old(registry)@, final(registry)@),
        !(step is Suspend) ==> final(registry)@ == old(registry)@,
{
    let step = read_step(attempt);
    match step {
        ReadStep::Suspend => {
            suspend(registry, subscribe, waiter);
            ReadStep::Suspend
        },
        other => other,
    }
}

/// One poll of a write of a buffer of `buf_len` bytes, after the
/// writable-length check was made: decides as `write_step` does and, where
/// the write suspends, registers the caller for "writable". Otherwise the
/// registry is untouched and `subscribe` is not called.
pub fn poll_write<T, W, E, S: FnOnce() -> T>(
    registry: &mut Registry<T, W>,
    buf_len: usize,
    permit: Result<u64, E>,
    subscribe: S,
    waiter: W,
) -> (step: WriteStep<E>)
    requires
        call_requires(subscribe, ()),
    ensures
        step == write_decision(buf_len, permit),
        step matches WriteStep::Send(n) ==> n <= buf_len && (permit matches Ok(room) && n <= room),
        step is Suspend ==> registered(subscribe, waiter, old(registry)@, final(registry)@),
        !(step is Suspend) ==> final(registry)@ == old(registry)@,
{
    let step = write_step(buf_len, permit);
    match step {
        WriteStep::Suspend => {
            suspend(registry, subscribe, waiter);
            WriteStep::Suspend
        },
        other => other,
    }
}

} // verus!
