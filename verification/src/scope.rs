//! Cancellation scopes: a tree of one-shot signals, held in tokio-util's
//! `CancellationToken`s. Cancelling a scope cancels all its descendants and
//! nothing else; a cancelled scope stays cancelled.
//!
//! The tree owns the token of every scope and gives none of them away, so a
//! scope changes only through the tree. A task that waits for a scope gets a
//! token of its own, derived from the scope's: cancelling the scope reaches
//! it, and cancelling it reaches no scope.

use tokio_util::sync::CancellationToken;
use vstd::prelude::*;

verus! {

#[verifier::external_type_specification]
#[verifier::external_body]
pub struct ExCancellationToken(CancellationToken);

/// For each token of a family, whether it has been cancelled.
pub uninterp spec fn signalled(tokens: Seq<CancellationToken>) -> Seq<bool>;

/// For each token of a family, the position of the token it was derived
/// from; -1 for a token that was derived from none.
pub uninterp spec fn parentage(tokens: Seq<CancellationToken>) -> Seq<int>;

/// Whether a token was already cancelled when it was made.
pub uninterp spec fn born_cancelled(token: CancellationToken) -> bool;

/// `node` is `top` or descends from it.
pub open spec fn within(parents: Seq<int>, node: int, top: int) -> bool
    decreases node,
{
    if node == top {
        true
    } else if 0 <= node < parents.len() && 0 <= parents[node] < node {
        within(parents, parents[node], top)
    } else {
        false
    }
}

/// `CancellationToken::new`: a family of one token, derived from none and
/// not cancelled.
#[verifier::external_body]
fn family_new() -> (tokens: Vec<CancellationToken>)
    ensures
        tokens@.len() == 1,
        signalled(tokens@) == seq![false],
        parentage(tokens@) == seq![-1int],
{
    vec![CancellationToken::new()]
}

/// `CancellationToken::child_token` on the token at `parent`. The child is
/// a new token and not a second handle to its parent: it is made cancelled
/// exactly when the parent is cancelled at that moment, and making it
/// changes the state of no token of the family. The last two clauses say
/// what the family is with the child at its end.
#[verifier::external_body]
fn family_child(tokens: &Vec<CancellationToken>, parent: usize) -> (child: CancellationToken)
    requires
        parent < tokens@.len(),
        signalled(tokens@).len() == tokens@.len(),
    ensures
        born_cancelled(child) == signalled(tokens@)[parent as int],
        signalled(tokens@.push(child)) == signalled(tokens@).push(
            signalled(tokens@)[parent as int],
        ),
        parentage(tokens@.push(child)) == parentage(tokens@).push(parent as int),
{
    tokens[parent].child_token()
}

/// `CancellationToken::cancel` on the token at `target`: afterwards that
/// token and every token that descends from it are cancelled, and every
/// other token is as it was. Nothing changes in who descends from whom.
#[verifier::external_body]
fn family_cancel(tokens: &mut Vec<CancellationToken>, target: usize)
    requires
        target < old(tokens)@.len(),
        signalled(old(tokens)@).len() == old(tokens)@.len(),
    ensures
        final(tokens)@.len() == old(tokens)@.len(),
        parentage(final(tokens)@) == parentage(old(tokens)@),
        signalled(final(tokens)@).len() == old(tokens)@.len(),
        forall|j: int|
            0 <= j < old(tokens)@.len() ==> #[trigger] signalled(final(tokens)@)[j] == (signalled(
                old(tokens)@,
            )[j] || within(parentage(old(tokens)@), j, target as int)),
{
    tokens[target].cancel();
}

/// `CancellationToken::is_cancelled` on the token at `target`.
#[verifier::external_body]
fn family_is_cancelled(tokens: &Vec<CancellationToken>, target: usize) -> (r: bool)
    requires
        target < tokens@.len(),
        signalled(tokens@).len() == tokens@.len(),
    ensures
        r == signalled(tokens@)[target as int],
{
    tokens[target].is_cancelled()
}

/// The state of a scope tree. Scopes are numbered in the order in which
/// they were made; the root is scope 0.
pub ghost struct ScopeState {
    /// For each scope the scope it was derived from; -1 for the root.
    pub parents: Seq<int>,
    /// For each scope whether it has been cancelled.
    pub cancelled: Seq<bool>,
}

impl ScopeState {
    /// A lone root that has not been cancelled.
    pub open spec fn root() -> ScopeState {
        ScopeState { parents: seq![-1int], cancelled: seq![false] }
    }

    pub open spec fn len(self) -> nat {
        self.parents.len()
    }

    /// Every scope but the root was derived from an earlier one, and
    /// cancellation has reached every descendant of a cancelled scope.
    pub open spec fn valid(self) -> bool {
        &&& self.parents.len() == self.cancelled.len()
        &&& self.parents.len() > 0
        &&& self.parents[0] == -1
        &&& forall|j: int| 0 < j < self.parents.len() ==> 0 <= #[trigger] self.parents[j] < j
        &&& forall|j: int|
            0 < j < self.parents.len() && self.cancelled[#[trigger] self.parents[j]]
                ==> self.cancelled[j]
    }

    /// The tree after a child was derived from `parent`. A child of a
    /// cancelled scope is cancelled from the start.
    pub open spec fn after_derive(self, parent: int) -> ScopeState {
        ScopeState {
            parents: self.parents.push(parent),
            cancelled: self.cancelled.push(self.cancelled[parent]),
        }
    }

    /// The tree after `target` was cancelled.
    pub open spec fn after_cancel(self, target: int) -> ScopeState {
        ScopeState {
            parents: self.parents,
            cancelled: Seq::new(
                self.cancelled.len(),
                |j: int| self.cancelled[j] || within(self.parents, j, target),
            ),
        }
    }
}

/// An index into a scope tree.
pub type ScopeId = usize;

/// The root scope of every tree.
pub const ROOT: ScopeId = 0;

/// A tree of cancellation scopes.
pub struct ScopeTree {
    tokens: Vec<CancellationToken>,
}

impl View for ScopeTree {
    type V = ScopeState;

    closed spec fn view(&self) -> ScopeState {
        ScopeState { parents: parentage(self.tokens@), cancelled: signalled(self.tokens@) }
    }
}

impl ScopeTree {
    /// What `new` establishes and every method keeps.
    pub closed spec fn wf(&self) -> bool {
        &&& self@.valid()
        &&& self@.len() == self.tokens@.len()
    }

    /// A well-formed tree is a valid one.
    pub proof fn lemma_valid(&self)
        requires
            self.wf(),
        ensures
            self@.valid(),
    {
    }

    /// A tree of one scope, the root, not cancelled.
    pub fn new() -> (tree: Self)
        ensures
            tree.wf(),
            tree@ == ScopeState::root(),
    {
        ScopeTree { tokens: family_new() }
    }

    /// Number of scopes in the tree.
    pub fn len(&self) -> (n: usize)
        requires
            self.wf(),
        ensures
            n == self@.len(),
            n > 0,
    {
        self.tokens.len()
    }

    /// Derives a child scope of `parent` and returns its id.
    pub fn derive(&mut self, parent: ScopeId) -> (child: ScopeId)
        requires
            old(self).wf(),
            parent < old(self)@.len(),
        ensures
            final(self).wf(),
            child == old(self)@.len(),
            final(self)@ == old(self)@.after_derive(parent as int),
    {
        let id = self.tokens.len();
        let child = family_child(&self.tokens, parent);
        self.tokens.push(child);
        proof {
            lemma_derive_keeps_valid(old(self)@, parent as int);
        }
        id
    }

    /// Cancels `target` and with it every scope that descends from it.
    /// Ancestors, siblings and all other scopes keep their state. Cancelling
    /// a cancelled scope changes nothing.
    pub fn cancel(&mut self, target: ScopeId)
        requires
            old(self).wf(),
            target < old(self)@.len(),
        ensures
            final(self).wf(),
            final(self)@ == old(self)@.after_cancel(target as int),
            forall|scope: int|
                0 <= scope < old(self)@.len() && within(old(self)@.parents, scope, target as int)
                    ==> #[trigger] final(self)@.cancelled[scope],
            forall|scope: int|
                0 <= scope < old(self)@.len() && !within(old(self)@.parents, scope, target as int)
                    ==> #[trigger] final(self)@.cancelled[scope] == old(self)@.cancelled[scope],
    {
        family_cancel(&mut self.tokens, target);
        proof {
            let before = old(self)@;
            assert(self@.cancelled =~= before.after_cancel(target as int).cancelled);
            lemma_cancel_keeps_valid(before, target as int);
        }
    }

    /// Whether `scope` has been cancelled, by itself or through an ancestor.
    pub fn is_cancelled(&self, scope: ScopeId) -> (r: bool)
        requires
            self.wf(),
            scope < self@.len(),
        ensures
            r == self@.cancelled[scope as int],
    {
        family_is_cancelled(&self.tokens, scope)
    }

    /// A token for a task that waits for the cancellation of `scope`: a new
    /// child of the scope's token, which the tree does not keep. It starts
    /// cancelled exactly when `scope` is cancelled already. The tree stays
    /// as it is, now and whatever is done with the token: cancelling it
    /// cancels no scope.
    pub fn token(&self, scope: ScopeId) -> (handle: CancellationToken)
        requires
            self.wf(),
            scope < self@.len(),
        ensures
            born_cancelled(handle) == self@.cancelled[scope as int],
    {
        family_child(&self.tokens, scope)
    }
}

/// Every descendant has a larger number than its ancestor.
pub proof fn lemma_within_order(parents: Seq<int>, node: int, top: int)
    requires
        within(parents, node, top),
    ensures
        top <= node,
    decreases node,
{
    if node != top {
        lemma_within_order(parents, parents[node], top);
    }
}

/// A scope derived from a scope within `top` is within `top` too.
pub proof fn lemma_within_child(parents: Seq<int>, node: int, top: int)
    requires
        0 <= node < parents.len(),
        0 <= parents[node] < node,
        within(parents, parents[node], top),
    ensures
        within(parents, node, top),
{
}

/// Cancelling keeps a valid tree valid.
pub proof fn lemma_cancel_keeps_valid(state: ScopeState, target: int)
    requires
        state.valid(),
        0 <= target < state.len(),
    ensures
        state.after_cancel(target).valid(),
{
    let after = state.after_cancel(target);
    assert forall|j: int|
        0 < j < after.parents.len() && after.cancelled[#[trigger] after.parents[j]]
            implies after.cancelled[j] by {
        let p = state.parents[j];
        if within(state.parents, p, target) {
            lemma_within_child(state.parents, j, target);
        }
    }
}

/// Deriving keeps a valid tree valid.
pub proof fn lemma_derive_keeps_valid(state: ScopeState, parent: int)
    requires
        state.valid(),
        0 <= parent < state.len(),
    ensures
        state.after_derive(parent).valid(),
{
    let after = state.after_derive(parent);
    assert forall|j: int| 0 < j < after.parents.len() implies 0 <= #[trigger] after.parents[j]
        < j by {
        if j < state.parents.len() {
            assert(after.parents[j] == state.parents[j]);
        }
    }
    assert forall|j: int|
        0 < j < after.parents.len() && after.cancelled[#[trigger] after.parents[j]]
            implies after.cancelled[j] by {
        if j < state.parents.len() {
            assert(after.parents[j] == state.parents[j]);
        }
    }
}

/// Cancelling a parent reaches every scope derived from it, directly or
/// through other scopes: after `top` is cancelled, each scope within `top`
/// reports cancelled.
pub proof fn lemma_cancel_reaches_descendants(state: ScopeState, top: int, node: int)
    requires
        state.valid(),
        0 <= top < state.len(),
        0 <= node < state.len(),
        within(state.parents, node, top),
    ensures
        state.after_cancel(top).cancelled[node],
{
}

/// Cancelling a scope leaves every scope outside it as it was. That covers
/// each of its ancestors and each of its siblings with all their
/// descendants.
pub proof fn lemma_cancel_spares_others(state: ScopeState, target: int, other: int)
    requires
        state.valid(),
        0 <= target < state.len(),
        0 <= other < state.len(),
        !within(state.parents, other, target),
    ensures
        state.after_cancel(target).cancelled[other] == state.cancelled[other],
{
}

/// The parent of a scope is not within that scope.
pub proof fn lemma_parent_outside(state: ScopeState, child: int)
    requires
        state.valid(),
        0 < child < state.len(),
    ensures
        !within(state.parents, state.parents[child], child),
{
    if within(state.parents, state.parents[child], child) {
        lemma_within_order(state.parents, state.parents[child], child);
    }
}

/// A sibling of a scope, and everything within the sibling, is not within
/// that scope.
pub proof fn lemma_sibling_outside(state: ScopeState, child: int, sibling: int, node: int)
    requires
        state.valid(),
        0 < child < state.len(),
        0 < sibling < state.len(),
        child != sibling,
        state.parents[child] == state.parents[sibling],
        0 <= node < state.len(),
        within(state.parents, node, sibling),
    ensures
        !within(state.parents, node, child),
    decreases node,
{
    if node == sibling {
        if within(state.parents, sibling, child) {
            // the first step up from `sibling` is the shared parent, which
            // lies above `child`
            lemma_parent_outside(state, child);
        }
    } else {
        lemma_sibling_outside(state, child, sibling, state.parents[node]);
        if node == child {
            lemma_within_order(state.parents, child, sibling);
            lemma_parent_outside(state, sibling);
        }
    }
}

/// Cancelling a parent cancels each scope derived from it.
pub proof fn lemma_parent_cancels_child(state: ScopeState, parent: int, child: int)
    requires
        state.valid(),
        0 <= parent < state.len(),
        0 < child < state.len(),
        state.parents[child] == parent,
    ensures
        state.after_cancel(parent).cancelled[child],
        state.after_cancel(parent).cancelled[parent],
{
    lemma_within_child(state.parents, child, parent);
}

/// Cancelling a child leaves its parent and each of its siblings as they
/// were.
pub proof fn lemma_child_spares_parent_and_siblings(state: ScopeState, child: int, sibling: int)
    requires
        state.valid(),
        0 < child < state.len(),
        0 < sibling < state.len(),
        child != sibling,
        state.parents[child] == state.parents[sibling],
    ensures
        state.after_cancel(child).cancelled[state.parents[child]]
            == state.cancelled[state.parents[child]],
        state.after_cancel(child).cancelled[sibling] == state.cancelled[sibling],
{
    lemma_parent_outside(state, child);
    lemma_sibling_outside(state, child, sibling, sibling);
}

/// Cancelling is one-shot: cancelling a scope a second time changes nothing.
pub proof fn lemma_cancel_idempotent(state: ScopeState, target: int)
    requires
        state.valid(),
        0 <= target < state.len(),
    ensures
        state.after_cancel(target).after_cancel(target) == state.after_cancel(target),
{
    assert(state.after_cancel(target).after_cancel(target).cancelled =~= state.after_cancel(
        target,
    ).cancelled);
}

/// Cancellation is never undone: a scope that was cancelled stays cancelled
/// whatever is cancelled or derived afterwards.
pub proof fn lemma_cancelled_stays(state: ScopeState, target: int, node: int)
    requires
        state.valid(),
        0 <= target < state.len(),
        0 <= node < state.len(),
        state.cancelled[node],
    ensures
        state.after_cancel(target).cancelled[node],
        state.after_derive(target).cancelled[node],
{
}

} // verus!
