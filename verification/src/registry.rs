//! The readiness registry: outstanding readiness waits, each a token paired
//! with the waiter to resume once the token's condition holds.

use vstd::prelude::*;

verus! {

/// The interval, in milliseconds, at which the background driver scans the
/// registry. A longer interval costs latency, a shorter one processor time.
pub const POLL_INTERVAL_MILLIS: u64 = 10;

/// The registrations of `before` that a scan with observations `found` leaves
/// pending: those observed not ready, in registration order.
pub open spec fn still_pending<T, W>(before: Seq<(T, W)>, found: Seq<bool>) -> Seq<(T, W)>
    decreases before.len(),
{
    if before.len() == 0 {
        Seq::empty()
    } else if found.last() {
        still_pending(before.drop_last(), found.drop_last())
    } else {
        still_pending(before.drop_last(), found.drop_last()).push(before.last())
    }
}

/// The waiters of `before` that a scan with observations `found` resolves:
/// those whose token was observed ready, in registration order.
pub open spec fn resolved<T, W>(before: Seq<(T, W)>, found: Seq<bool>) -> Seq<W>
    decreases before.len(),
{
    if before.len() == 0 {
        Seq::empty()
    } else if found.last() {
        resolved(before.drop_last(), found.drop_last()).push(before.last().1)
    } else {
        resolved(before.drop_last(), found.drop_last())
    }
}

/// `found` records one run of the readiness check `ready` over the tokens of
/// `before`: one observation per registration, each a value the check can
/// return for that token.
pub open spec fn observed<T, W, F: Fn(&T) -> bool>(
    ready: F,
    before: Seq<(T, W)>,
    found: Seq<bool>,
) -> bool {
    &&& found.len() == before.len()
    &&& forall|i: int|
        0 <= i < before.len() ==> call_ensures(ready, (&#[trigger] before[i].0,), found[i])
}

/// One scan of `before` under the readiness check `ready`, with observations
/// `found`, leaves `after` pending and resolves the waiters `woken`.
pub open spec fn scan_of<T, W, F: Fn(&T) -> bool>(
    ready: F,
    before: Seq<(T, W)>,
    found: Seq<bool>,
    after: Seq<(T, W)>,
    woken: Seq<W>,
) -> bool {
    &&& observed(ready, before, found)
    &&& after == still_pending(before, found)
    &&& woken == resolved(before, found)
}

/// The pending set of readiness waits.
pub struct Registry<T, W> {
    pending: Vec<(T, W)>,
}

impl<T, W> View for Registry<T, W> {
    type V = Seq<(T, W)>;

    closed spec fn view(&self) -> Seq<(T, W)> {
        self.pending@
    }
}

impl<T, W> Registry<T, W> {
    /// A registry with nothing pending.
    pub fn new() -> (r: Self)
        ensures
            r@ == Seq::<(T, W)>::empty(),
    {
        Registry { pending: Vec::new() }
    }

    /// Number of registrations still pending.
    pub fn len(&self) -> (n: usize)
        ensures
            n == self@.len(),
    {
        self.pending.len()
    }

    /// Adds one pending pair. Registering a token that is already pending
    /// keeps both pairs; each resolves on its own.
    pub fn register(&mut self, token: T, waiter: W)
        ensures
            final(self)@ == old(self)@.push((token, waiter)),
    {
        self.pending.push((token, waiter));
    }

    /// Scans the pending set once, asking `ready` about each token exactly
    /// once and in registration order. Every registration found ready leaves
    /// the set and its waiter is handed back; the others stay, in order. The
    /// caller wakes the returned waiters after it has released whatever guards
    /// the registry.
    pub fn poll_all<F: Fn(&T) -> bool>(&mut self, ready: F) -> (woken: Vec<W>)
        requires
            forall|t: &T| call_requires(ready, (t,)),
        ensures
            exists|found: Seq<bool>| #[trigger]
                scan_of(ready, old(self)@, found, final(self)@, woken@),
    {
        let ghost before = self.pending@;
        let ghost mut found: Seq<bool> = Seq::empty();
        let mut woken: Vec<W> = Vec::new();
        let mut i: usize = 0;
        proof {
            assert(before.take(0) =~= Seq::<(T, W)>::empty());
            assert(before.skip(0) =~= before);
        }
        while i < self.pending.len()
            invariant
                forall|t: &T| call_requires(ready, (t,)),
                found.len() <= before.len(),
                observed(ready, before.take(found.len() as int), found),
                i == still_pending(before.take(found.len() as int), found).len(),
                self.pending@ == still_pending(before.take(found.len() as int), found)
                    + before.skip(found.len() as int),
                woken@ == resolved(before.take(found.len() as int), found),
            decreases before.len() - found.len(),
        {
            let ghost k = found.len() as int;
            assert(self.pending@[i as int] == before.skip(k)[0]);
            assert(k < before.len());
            let is_ready = ready(&self.pending[i].0);
            proof {
                let next = found.push(is_ready);
                assert(before.take(k + 1).drop_last() =~= before.take(k));
                assert(next.drop_last() =~= found);
                assert(before.take(k + 1).last() == before[k]);
                assert(observed(ready, before.take(k + 1), next)) by {
                    assert forall|j: int| 0 <= j < k + 1 implies call_ensures(
                        ready,
                        (&#[trigger] before.take(k + 1)[j].0,),
                        next[j],
                    ) by {
                        if j < k {
                            assert(before.take(k)[j] == before.take(k + 1)[j]);
                        }
                    }
                }
            }
            if is_ready {
                let entry = self.pending.remove(i);
                woken.push(entry.1);
                proof {
                    found = found.push(true);
                    assert(self.pending@ =~= still_pending(before.take(k + 1), found) + before.skip(
                        k + 1,
                    ));
                }
            } else {
                i += 1;
                proof {
                    found = found.push(false);
                    assert(self.pending@ =~= still_pending(before.take(k + 1), found) + before.skip(
                        k + 1,
                    ));
                }
            }
        }
        proof {
            assert(found.len() == before.len());
            assert(before.take(before.len() as int) =~= before);
            assert(before.skip(before.len() as int) =~= Seq::<(T, W)>::empty());
            assert(self.pending@ =~= still_pending(before, found));
            assert(scan_of(ready, old(self)@, found, self@, woken@));
        }
        woken
    }
}

/// How many of the first `i` observations of `found` were "ready".
pub open spec fn ready_before(found: Seq<bool>, i: int) -> nat
    decreases i,
{
    if i <= 0 {
        0
    } else if found[i - 1] {
        ready_before(found, i - 1) + 1
    } else {
        ready_before(found, i - 1)
    }
}

proof fn lemma_ready_before_prefix(found: Seq<bool>, shorter: Seq<bool>, i: int)
    requires
        0 <= i <= shorter.len() <= found.len(),
        forall|j: int| 0 <= j < shorter.len() ==> shorter[j] == found[j],
    ensures
        ready_before(shorter, i) == ready_before(found, i),
        ready_before(found, i) <= i,
    decreases i,
{
    if i > 0 {
        lemma_ready_before_prefix(found, shorter, i - 1);
    }
}

/// A scan splits the registrations: as many waiters are resolved as tokens
/// were found ready, and all other registrations stay pending.
pub proof fn lemma_scan_counts<T, W>(before: Seq<(T, W)>, found: Seq<bool>)
    requires
        found.len() == before.len(),
    ensures
        resolved(before, found).len() == ready_before(found, before.len() as int),
        still_pending(before, found).len() + resolved(before, found).len() == before.len(),
    decreases before.len(),
{
    if before.len() > 0 {
        lemma_scan_counts(before.drop_last(), found.drop_last());
        lemma_ready_before_prefix(found, found.drop_last(), before.len() - 1);
    }
}

/// Single resolution: the registration at position `i` goes to exactly one
/// place. Found ready, its waiter is the resolved waiter numbered by the ready
/// observations before it; found not ready, the pair stays pending at the
/// position numbered by the not-ready observations before it. Distinct
/// registrations get distinct places, so no waiter is handed out twice and
/// none is lost.
pub proof fn lemma_single_resolution<T, W>(before: Seq<(T, W)>, found: Seq<bool>, i: int)
    requires
        found.len() == before.len(),
        0 <= i < before.len(),
    ensures
        ready_before(found, i) <= i,
        found[i] ==> {
            &&& ready_before(found, i) < resolved(before, found).len()
            &&& resolved(before, found)[ready_before(found, i) as int] == before[i].1
        },
        !found[i] ==> {
            &&& i - ready_before(found, i) < still_pending(before, found).len()
            &&& still_pending(before, found)[i - ready_before(found, i)] == before[i]
        },
        forall|j: int|
            i < j < before.len() && found[i] ==> ready_before(found, i) < #[trigger] ready_before(
                found,
                j,
            ),
        forall|j: int|
            i < j < before.len() && !found[i] ==> i - ready_before(found, i) < j
                - #[trigger] ready_before(found, j),
    decreases before.len(),
{
    let n = before.len() as int;
    lemma_ready_before_prefix(found, found, i);
    lemma_scan_counts(before.drop_last(), found.drop_last());
    lemma_ready_before_prefix(found, found.drop_last(), n - 1);
    if i < n - 1 {
        lemma_single_resolution(before.drop_last(), found.drop_last(), i);
        lemma_ready_before_prefix(found, found.drop_last(), i);
    }
    assert forall|j: int| i < j < n implies (found[i] ==> ready_before(found, i)
        < #[trigger] ready_before(found, j)) && (!found[i] ==> i - ready_before(found, i) < j
        - ready_before(found, j)) by {
        lemma_ready_before_step(found, i, j);
    }
}

proof fn lemma_ready_before_step(found: Seq<bool>, i: int, j: int)
    requires
        0 <= i < j <= found.len(),
    ensures
        found[i] ==> ready_before(found, i) < ready_before(found, j),
        !found[i] ==> i - ready_before(found, i) < j - ready_before(found, j),
        ready_before(found, i) <= ready_before(found, j),
        i - ready_before(found, i) <= j - ready_before(found, j),
    decreases j - i,
{
    if j > i + 1 {
        lemma_ready_before_step(found, i, j - 1);
    }
}

/// A second wait needs a fresh registration: over two scans in a row with
/// nothing registered in between, at most one waiter per registration is
/// handed out, and what the second scan resolves was left pending by the
/// first.
pub proof fn lemma_no_second_wake<T, W>(before: Seq<(T, W)>, first: Seq<bool>, second: Seq<bool>)
    requires
        first.len() == before.len(),
        second.len() == still_pending(before, first).len(),
    ensures
        resolved(before, first).len() + resolved(still_pending(before, first), second).len()
            <= before.len(),
        still_pending(still_pending(before, first), second).len() + resolved(
            still_pending(before, first),
            second,
        ).len() + resolved(before, first).len() == before.len(),
{
    lemma_scan_counts(before, first);
    lemma_scan_counts(still_pending(before, first), second);
}

/// With a readiness check that answers by a fixed rule `is_ready`, a scan is
/// a filter: the tokens for which the rule holds are resolved, the others
/// stay.
pub proof fn lemma_scan_by_rule<T, W>(
    before: Seq<(T, W)>,
    found: Seq<bool>,
    is_ready: spec_fn(T) -> bool,
)
    requires
        found.len() == before.len(),
        forall|i: int| 0 <= i < before.len() ==> found[i] == is_ready(#[trigger] before[i].0),
    ensures
        still_pending(before, found) == before.filter(|entry: (T, W)| !is_ready(entry.0)),
        resolved(before, found) == before.filter(|entry: (T, W)| is_ready(entry.0)).map_values(
            |entry: (T, W)| entry.1,
        ),
    decreases before.len(),
{
    reveal(Seq::filter);
    let stays = |entry: (T, W)| !is_ready(entry.0);
    let goes = |entry: (T, W)| is_ready(entry.0);
    let waiter = |entry: (T, W)| entry.1;
    if before.len() > 0 {
        lemma_scan_by_rule(before.drop_last(), found.drop_last(), is_ready);
        assert(found.last() == is_ready(before.last().0));
        if found.last() {
            assert(before.filter(goes) == before.drop_last().filter(goes).push(before.last()));
            assert(before.filter(goes).map_values(waiter) =~= before.drop_last().filter(
                goes,
            ).map_values(waiter).push(before.last().1));
        } else {
            assert(before.filter(goes) == before.drop_last().filter(goes));
        }
    } else {
        assert(before.filter(goes).map_values(waiter) =~= Seq::<W>::empty());
    }
}

} // verus!
