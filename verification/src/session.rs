//! The lifecycle of one run: how a session is wired, which step the host
//! client takes after each outcome, which failures end the run, and how the
//! run is shut down.

use crate::channel::Channel;
use crate::pipe::{PipeState, PIPE_CAPACITY};
use crate::scope::{within, ScopeId, ScopeState, ScopeTree, ROOT};
use vstd::prelude::*;

verus! {

/// The one directory the guest may read and write; it reaches no other path.
pub const GUEST_DIR: &'static str = "logs";

/// What a session is made of: the channel between guest and host, and the
/// scope tree with one scope for each of the two tasks that run side by side.
pub struct Wiring {
    pub channel: Channel,
    pub scopes: ScopeTree,
    /// The scope the guest orchestrator waits on.
    pub guest_scope: ScopeId,
    /// The scope the protocol session runs under.
    pub client_scope: ScopeId,
}

/// Every scope of a valid tree descends from the root.
pub proof fn lemma_all_within_root(state: ScopeState, node: int)
    requires
        state.valid(),
        0 <= node < state.len(),
    ensures
        within(state.parents, node, 0),
    decreases node,
{
    if node > 0 {
        lemma_all_within_root(state, state.parents[node]);
    }
}

/// Wires a session: a channel of two empty pipes of `PIPE_CAPACITY` bytes,
/// and a fresh scope tree in which the guest's scope and the client's scope
/// are both children of the root, neither cancelled.
pub fn wire() -> (w: Wiring)
    ensures
        w.channel.wf(),
        w.channel@.to_host == PipeState::fresh(PIPE_CAPACITY as nat),
        w.channel@.to_guest == PipeState::fresh(PIPE_CAPACITY as nat),
        w.scopes.wf(),
        w.scopes@ == ScopeState::root().after_derive(ROOT as int).after_derive(ROOT as int),
        w.guest_scope == 1,
        w.client_scope == 2,
{
    let channel = Channel::new(PIPE_CAPACITY);
    let mut scopes = ScopeTree::new();
    let guest_scope = scopes.derive(ROOT);
    let client_scope = scopes.derive(ROOT);
    Wiring { channel, scopes, guest_scope, client_scope }
}

/// Shuts a run down: cancels the root scope. Afterwards every scope of the
/// tree reports cancelled, so every task that waits on one is released.
pub fn shut_down(scopes: &mut ScopeTree)
    requires
        old(scopes).wf(),
    ensures
        final(scopes).wf(),
        final(scopes)@ == old(scopes)@.after_cancel(ROOT as int),
        forall|scope: int| 0 <= scope < final(scopes)@.len() ==> final(scopes)@.cancelled[scope],
{
    proof {
        old(scopes).lemma_valid();
    }
    scopes.cancel(ROOT);
    proof {
        let before = old(scopes)@;
        assert forall|scope: int| 0 <= scope < scopes@.len() implies scopes@.cancelled[scope] by {
            lemma_all_within_root(before, scope);
        }
    }
}

/// Why a run ended early.
#[derive(Clone, Copy, Debug, PartialEq, Eq, Structural)]
pub enum Fault {
    /// The guest unit could not be supplied: fatal at startup, before any
    /// protocol traffic.
    Load,
    /// The protocol session failed: a call was refused, a response was
    /// malformed, or the stream closed early.
    Protocol,
}

/// Where the host client stands. Each phase but the last two names the step
/// whose outcome is awaited.
#[derive(Clone, Copy, Debug, PartialEq, Eq, Structural)]
pub enum Phase {
    /// Making the guest's directory.
    Preparing,
    /// Fetching the guest unit's bytes.
    Loading,
    /// Wiring the session, starting the guest, opening the protocol session.
    Connecting,
    /// Enumerating resources.
    Resources,
    /// Enumerating invocable operations.
    Operations,
    /// Sending the graceful session shutdown.
    Closing,
    /// The run completed.
    Done,
    /// The run ended with a fault.
    Failed(Fault),
}

/// What the host client does next.
#[derive(Clone, Copy, Debug, PartialEq, Eq, Structural)]
pub enum Action {
    /// Make the guest's directory.
    Prepare,
    /// Fetch the guest unit's bytes. `warn` says that the step before failed,
    /// which is logged and does not end the run.
    Load { warn: bool },
    /// Wire the session, start the guest under its scope, open the protocol
    /// session.
    Connect,
    /// Enumerate resources.
    ListResources,
    /// Enumerate invocable operations.
    ListOperations,
    /// Send the graceful session shutdown.
    Close,
    /// Cancel the shared scope and report success.
    Cancel,
    /// Surface this fault to the caller. There is no local recovery.
    Abort(Fault),
    /// Nothing is left to do.
    Rest,
}

/// The first phase and the first action of a run.
pub open spec fn opening() -> (Phase, Action) {
    (Phase::Preparing, Action::Prepare)
}

/// The phase and the action that follow when the step awaited in `phase`
/// ended well (`ok`) or failed.
pub open spec fn transition(phase: Phase, ok: bool) -> (Phase, Action) {
    match phase {
        Phase::Preparing => (Phase::Loading, Action::Load { warn: !ok }),
        Phase::Loading => if ok {
            (Phase::Connecting, Action::Connect)
        } else {
            (Phase::Failed(Fault::Load), Action::Abort(Fault::Load))
        },
        Phase::Connecting => if ok {
            (Phase::Resources, Action::ListResources)
        } else {
            (Phase::Failed(Fault::Protocol), Action::Abort(Fault::Protocol))
        },
        Phase::Resources => if ok {
            (Phase::Operations, Action::ListOperations)
        } else {
            (Phase::Failed(Fault::Protocol), Action::Abort(Fault::Protocol))
        },
        Phase::Operations => if ok {
            (Phase::Closing, Action::Close)
        } else {
            (Phase::Failed(Fault::Protocol), Action::Abort(Fault::Protocol))
        },
        Phase::Closing => if ok {
            (Phase::Done, Action::Cancel)
        } else {
            (Phase::Failed(Fault::Protocol), Action::Abort(Fault::Protocol))
        },
        Phase::Done => (Phase::Done, Action::Rest),
        Phase::Failed(fault) => (Phase::Failed(fault), Action::Rest),
    }
}

/// Starts a run.
pub fn begin() -> (first: (Phase, Action))
    ensures
        first == opening(),
{
    (Phase::Preparing, Action::Prepare)
}

/// Takes the outcome of the step awaited in `phase` and decides the next
/// phase and action.
pub fn advance(phase: Phase, ok: bool) -> (next: (Phase, Action))
    ensures
        next == transition(phase, ok),
{
    match phase {
        Phase::Preparing => (Phase::Loading, Action::Load { warn: !ok }),
        Phase::Done => (Phase::Done, Action::Rest),
        Phase::Failed(fault) => (Phase::Failed(fault), Action::Rest),
        _ => {
            if ok {
                match phase {
                    Phase::Loading => (Phase::Connecting, Action::Connect),
                    Phase::Connecting => (Phase::Resources, Action::ListResources),
                    Phase::Resources => (Phase::Operations, Action::ListOperations),
                    Phase::Operations => (Phase::Closing, Action::Close),
                    _ => (Phase::Done, Action::Cancel),
                }
            } else {
                let fault = match phase {
                    Phase::Loading => Fault::Load,
                    _ => Fault::Protocol,
                };
                (Phase::Failed(fault), Action::Abort(fault))
            }
        },
    }
}

/// The phase reached from the start after the outcomes `outcomes`, in order.
pub open spec fn phase_after(outcomes: Seq<bool>) -> Phase
    decreases outcomes.len(),
{
    if outcomes.len() == 0 {
        opening().0
    } else {
        transition(phase_after(outcomes.drop_last()), outcomes.last()).0
    }
}

/// The scope is cancelled only once the session shutdown has gone through,
/// and a fault is surfaced only on a failed step.
pub proof fn lemma_cancel_follows_close(phase: Phase, ok: bool)
    ensures
        transition(phase, ok).1 == Action::Cancel <==> phase == Phase::Closing && ok,
        transition(phase, ok).1 is Abort ==> !ok,
        transition(phase, ok).1 is Abort <==> transition(phase, ok).0 is Failed && !(
        phase is Failed),
{
}

/// A finished run stays finished, and a fault is never replaced.
pub proof fn lemma_terminal(phase: Phase, ok: bool)
    requires
        phase == Phase::Done || phase is Failed,
    ensures
        transition(phase, ok) == (phase, Action::Rest),
{
}

/// No step is skipped: the run is done after six outcomes exactly when all
/// of them but the first were good. The first, making the directory, may
/// fail without ending the run.
pub proof fn lemma_done_needs_all(outcomes: Seq<bool>)
    requires
        outcomes.len() == 6,
    ensures
        phase_after(outcomes) == Phase::Done <==> (forall|i: int| 1 <= i < 6 ==> outcomes[i]),
{
    let o = outcomes;
    let o5 = o.drop_last();
    let o4 = o5.drop_last();
    let o3 = o4.drop_last();
    let o2 = o3.drop_last();
    let o1 = o2.drop_last();
    assert(o1.drop_last().len() == 0);
    assert(phase_after(o1.drop_last()) == Phase::Preparing);
    assert(phase_after(o1) == Phase::Loading);
    assert(o2.last() == o[1] && o3.last() == o[2] && o4.last() == o[3] && o5.last() == o[4]
        && o.last() == o[5]);
    assert(phase_after(o2) == transition(phase_after(o1), o[1]).0);
    assert(phase_after(o3) == transition(phase_after(o2), o[2]).0);
    assert(phase_after(o4) == transition(phase_after(o3), o[3]).0);
    assert(phase_after(o5) == transition(phase_after(o4), o[4]).0);
    assert(phase_after(o) == transition(phase_after(o5), o[5]).0);
}

/// The first failed step decides the fault: a failed load is a load fault,
/// every later failure a protocol fault.
pub proof fn lemma_fault_kind(phase: Phase)
    ensures
        transition(phase, false).1 == Action::Abort(Fault::Load) <==> phase == Phase::Loading,
        transition(phase, false).1 == Action::Abort(Fault::Protocol) <==> (phase
            == Phase::Connecting || phase == Phase::Resources || phase == Phase::Operations
            || phase == Phase::Closing),
{
}

} // verus!
