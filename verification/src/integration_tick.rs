//! The integration queue: each tick asks the source for the parents that are
//! ready under the workflow's gates, and emits a dispatch request for each parent
//! that is not claimed yet. A claim lasts as long as the source keeps surfacing
//! the parent.
use crate::blocker::RunRef;
use crate::claims;
use crate::claims::ClaimSet;
use crate::integration_request::{IntegrationGates, IntegrationRequestCause};
use crate::logical_queue::{LogicalQueue, QueueTickOutcome};
use crate::queue_tick::QueueTickCadence;
use crate::role::RoleName;
use crate::work_item::WorkItemId;
use vstd::prelude::*;

verus! {

/// A parent that the source reports as ready.
#[derive(Debug, PartialEq, Eq)]
pub struct IntegrationCandidate {
    /// Durable parent id.
    pub parent_id: WorkItemId,
    /// Tracker-facing identifier.
    pub parent_identifier: String,
    /// Parent title.
    pub parent_title: String,
    /// Why the source surfaced the parent.
    pub cause: IntegrationRequestCause,
}

impl Clone for IntegrationCandidate {
    fn clone(&self) -> (copy: Self)
        ensures
            copy == *self,
    {
        IntegrationCandidate {
            parent_id: self.parent_id,
            parent_identifier: self.parent_identifier.clone(),
            parent_title: self.parent_title.clone(),
            cause: self.cause,
        }
    }
}

/// Why a source could not answer.
#[derive(Debug)]
pub enum IntegrationQueueError {
    /// The underlying source failed.
    Source(String),
}

/// Read-only view over the integration queue.
pub trait IntegrationQueueSource: Send + Sync {
    /// Every parent that is ready under `gates`, oldest first.
    fn list_ready(&self, gates: IntegrationGates) -> Result<
        Vec<IntegrationCandidate>,
        IntegrationQueueError,
    >;
}

/// One dispatch emitted by the tick.
#[derive(Debug, PartialEq, Eq)]
pub struct IntegrationDispatchRequest {
    /// Durable parent id; the claim key.
    pub parent_id: WorkItemId,
    /// Tracker-facing identifier.
    pub parent_identifier: String,
    /// Parent title.
    pub parent_title: String,
    /// Why the queue surfaced the parent.
    pub cause: IntegrationRequestCause,
    /// Run row reserved for the dispatch, when there is one.
    pub run_id: Option<RunRef>,
    /// Role key for the concurrency gate, which is bypassed without it.
    pub role: Option<RoleName>,
    /// Agent-profile key for the concurrency gate.
    pub agent_profile: Option<String>,
    /// Repository key for the concurrency gate.
    pub repository: Option<String>,
}

impl Clone for IntegrationDispatchRequest {
    fn clone(&self) -> (copy: Self)
        ensures
            copy == *self,
    {
        IntegrationDispatchRequest {
            parent_id: self.parent_id,
            parent_identifier: self.parent_identifier.clone(),
            parent_title: self.parent_title.clone(),
            cause: self.cause,
            run_id: self.run_id,
            role: self.role.clone(),
            agent_profile: self.agent_profile.clone(),
            repository: self.repository.clone(),
        }
    }
}

/// Pending dispatch requests, oldest first.
#[derive(Debug)]
pub struct IntegrationDispatchQueue {
    pending: Vec<IntegrationDispatchRequest>,
}

impl View for IntegrationDispatchQueue {
    type V = Seq<IntegrationDispatchRequest>;

    closed spec fn view(&self) -> Seq<IntegrationDispatchRequest> {
        self.pending@
    }
}

/// The pending requests after another was appended.
pub open spec fn enqueued(pending: Seq<IntegrationDispatchRequest>, request: IntegrationDispatchRequest) -> Seq<IntegrationDispatchRequest> {
    pending.push(request)
}

/// What draining hands out, and what it leaves pending.
pub open spec fn drained(pending: Seq<IntegrationDispatchRequest>) -> (Seq<IntegrationDispatchRequest>, Seq<IntegrationDispatchRequest>) {
    (pending, Seq::empty())
}

impl Default for IntegrationDispatchQueue {
    fn default() -> (r: Self)
        ensures
            r@.len() == 0,
    {
        IntegrationDispatchQueue::new()
    }
}

impl IntegrationDispatchQueue {
    /// An empty queue.
    pub fn new() -> (r: Self)
        ensures
            r@.len() == 0,
    {
        IntegrationDispatchQueue { pending: Vec::new() }
    }

    /// Number of pending requests.
    pub fn len(&self) -> (n: usize)
        ensures
            n == self@.len(),
    {
        self.pending.len()
    }

    /// True when nothing is pending.
    pub fn is_empty(&self) -> (b: bool)
        ensures
            b == (self@.len() == 0),
    {
        self.pending.len() == 0
    }

    /// A copy of the pending requests.
    pub fn snapshot(&self) -> (requests: Vec<IntegrationDispatchRequest>)
        ensures
            requests@ == self@,
    {
        let requests: Vec<IntegrationDispatchRequest> = self.pending.clone();
        assert(requests@ =~= self.pending@);
        requests
    }

    /// Take every pending request, oldest first.
    pub fn drain(&mut self) -> (requests: Vec<IntegrationDispatchRequest>)
        ensures
            (requests@, final(self)@) == drained(old(self)@),
            requests@ == old(self)@,
            final(self)@.len() == 0,
    {
        let mut requests: Vec<IntegrationDispatchRequest> = Vec::new();
        std::mem::swap(&mut requests, &mut self.pending);
        requests
    }

    /// Append a request.
    pub fn enqueue(&mut self, req: IntegrationDispatchRequest)
        ensures
            final(self)@ == enqueued(old(self)@, req),
            final(self)@ == old(self)@.push(req),
    {
        self.pending.push(req);
    }
}

/// The dispatch that a candidate stands for.
pub open spec fn dispatch_of(c: IntegrationCandidate) -> IntegrationDispatchRequest {
    IntegrationDispatchRequest {
        parent_id: c.parent_id,
        parent_identifier: c.parent_identifier,
        parent_title: c.parent_title,
        cause: c.cause,
        run_id: None,
        role: None,
        agent_profile: None,
        repository: None,
    }
}

/// The claim keys of the candidates.
pub open spec fn keys_of(candidates: Seq<IntegrationCandidate>) -> Seq<i64> {
    candidates.map_values(|c: IntegrationCandidate| c.parent_id.0)
}

/// What a tick emits for these candidates, given the claims before it.
pub open spec fn emitted(claimed: Set<i64>, candidates: Seq<IntegrationCandidate>) -> Seq<
    IntegrationDispatchRequest,
> {
    claims::fresh_positions(claimed, keys_of(candidates)).map_values(
        |p: int| dispatch_of(candidates[p]),
    )
}

/// The integration queue.
pub struct IntegrationQueueTick<S> {
    source: S,
    gates: IntegrationGates,
    queue: IntegrationDispatchQueue,
    cadence: QueueTickCadence,
    claimed: ClaimSet,
}

impl<S> IntegrationQueueTick<S> {
    /// The source.
    pub closed spec fn upstream(&self) -> S {
        self.source
    }

    /// The gates in force.
    pub closed spec fn configured_gates(&self) -> IntegrationGates {
        self.gates
    }

    /// The configured cadence.
    pub closed spec fn configured_cadence(&self) -> QueueTickCadence {
        self.cadence
    }

    /// The pending dispatches.
    pub closed spec fn pending(&self) -> Seq<IntegrationDispatchRequest> {
        self.queue@
    }

    /// The claimed keys.
    pub closed spec fn claims(&self) -> Set<i64> {
        self.claimed@
    }

    /// Nothing but the pending dispatches and the claims differs.
    pub open spec fn same_wiring(&self, other: &Self) -> bool {
        &&& self.upstream() == other.upstream()
        &&& self.configured_gates() == other.configured_gates()
        &&& self.configured_cadence() == other.configured_cadence()
    }

    /// What a tick does with the source's answer: a failure changes nothing; an
    /// answer appends what is emitted, and leaves claimed exactly what was
    /// surfaced.
    pub open spec fn ticks_to(
        &self,
        after: &Self,
        answer: Result<Vec<IntegrationCandidate>, IntegrationQueueError>,
        outcome: QueueTickOutcome,
    ) -> bool {
        &&& after.same_wiring(self)
        &&& match answer {
            Ok(candidates) => {
                let out = emitted(self.claims(), candidates@);
                &&& after.pending() == self.pending() + out
                &&& after.claims() == keys_of(candidates@).to_set()
                &&& outcome == (QueueTickOutcome {
                    queue: LogicalQueue::Integration,
                    considered: candidates@.len() as usize,
                    processed: out.len() as usize,
                    deferred: (candidates@.len() - out.len()) as usize,
                    errors: 0,
                })
            },
            Err(_) => {
                &&& after.pending() == self.pending()
                &&& after.claims() == self.claims()
                &&& outcome == (QueueTickOutcome {
                    queue: LogicalQueue::Integration,
                    considered: 0,
                    processed: 0,
                    deferred: 0,
                    errors: 1,
                })
            },
        }
    }

    /// An integration tick with nothing claimed.
    pub fn new(
        source: S,
        gates: IntegrationGates,
        queue: IntegrationDispatchQueue,
        cadence: QueueTickCadence,
    ) -> (r: Self)
        ensures
            r.upstream() == source,
            r.configured_gates() == gates,
            r.configured_cadence() == cadence,
            r.pending() == queue@,
            r.claims() == Set::<i64>::empty(),
    {
        IntegrationQueueTick { source, gates, queue, cadence, claimed: ClaimSet::new() }
    }

    /// The dispatch queue.
    pub fn dispatch_queue(&self) -> (q: &IntegrationDispatchQueue)
        ensures
            q@ == self.pending(),
    {
        &self.queue
    }

    /// Take every pending dispatch, oldest first.
    pub fn drain_dispatches(&mut self) -> (requests: Vec<IntegrationDispatchRequest>)
        ensures
            (requests@, final(self).pending()) == drained(old(self).pending()),
            requests@ == old(self).pending(),
            final(self).pending().len() == 0,
            final(self).claims() == old(self).claims(),
            final(self).same_wiring(old(self)),
    {
        self.queue.drain()
    }

    /// The gates in force.
    pub fn gates(&self) -> (g: IntegrationGates)
        ensures
            g == self.configured_gates(),
    {
        self.gates
    }

    /// Number of parents emitted and still surfaced.
    pub fn claimed_count(&self) -> (n: usize)
        ensures
            n == self.claims().len(),
            self.claims().finite(),
    {
        self.claimed.len()
    }

    /// The queue that this tick serves.
    pub fn queue(&self) -> (q: LogicalQueue)
        ensures
            q == LogicalQueue::Integration,
    {
        LogicalQueue::Integration
    }

    /// The configured cadence.
    pub fn cadence(&self) -> (c: QueueTickCadence)
        ensures
            c == self.configured_cadence(),
    {
        self.cadence
    }

    /// One tick, given what the source answered.
    pub fn apply(
        &mut self,
        answer: Result<Vec<IntegrationCandidate>, IntegrationQueueError>,
    ) -> (outcome: QueueTickOutcome)
        ensures
            old(self).ticks_to(final(self), answer, outcome),
    {
        let candidates: Vec<IntegrationCandidate> = match answer {
            Ok(c) => c,
            Err(_) => {
                return QueueTickOutcome {
                    queue: LogicalQueue::Integration,
                    considered: 0,
                    processed: 0,
                    deferred: 0,
                    errors: 1,
                };
            },
        };
        let considered: usize = candidates.len();
        let ghost all = candidates@;
        let ghost claimed_before = self.claimed@;
        let ghost pending_before = self.queue@;
        let mut keys: Vec<i64> = Vec::new();
        for i in 0..candidates.len()
            invariant
                keys@ == keys_of(candidates@).take(i as int),
        {
            keys.push(candidates[i].parent_id.0);
            assert(keys_of(candidates@).take(i + 1) =~= keys_of(candidates@).take(i as int).push(
                candidates@[i as int].parent_id.0,
            ));
        }
        assert(keys@ =~= keys_of(all));
        self.claimed.retain(&keys);
        let mut processed: usize = 0;
        let mut deferred: usize = 0;
        let ghost retained = self.claimed@;
        assert(emitted(claimed_before, all.take(0)) =~= Seq::<IntegrationDispatchRequest>::empty());
        assert(retained =~= retained.union(keys@.take(0).to_set()));
        for c in it: candidates
            invariant
                it.seq() == all,
                keys@ == keys_of(all),
                considered == all.len(),
                retained == claimed_before.intersect(keys@.to_set()),
                self.same_wiring(old(self)),
                self.queue@ == pending_before + emitted(claimed_before, all.take(it.index() as int)),
                self.claimed@ == retained.union(keys@.take(it.index() as int).to_set()),
                processed == emitted(claimed_before, all.take(it.index() as int)).len(),
                processed + deferred == it.index(),
        {
            let ghost k = it.index() as int;
            let ghost so_far = all.take(k);
            let ghost with_c = all.take(k + 1);
            proof {
                assert(keys_of(with_c).drop_last() =~= keys_of(so_far));
                assert(keys_of(with_c) =~= keys@.take(k + 1));
                assert(keys_of(with_c).take(k) =~= keys@.take(k));
                assert(keys@.contains(keys@[k]));
                assert(self.claimed@.contains(c.parent_id.0) <==> !claims::fresh(
                    claimed_before,
                    keys_of(with_c),
                    k,
                ));
                let before = claims::fresh_positions(claimed_before, keys_of(so_far));
                claims::fresh_positions_are_new(claimed_before, keys_of(so_far));
                let part = before.map_values(|p: int| dispatch_of(with_c[p]));
                assert(part =~= emitted(claimed_before, so_far));
                assert(emitted(claimed_before, with_c) =~= if claims::fresh(
                    claimed_before,
                    keys_of(with_c),
                    k,
                ) {
                    emitted(claimed_before, so_far).push(dispatch_of(c))
                } else {
                    emitted(claimed_before, so_far)
                });
                assert(keys@.take(k + 1).to_set() =~= keys@.take(k).to_set().insert(keys@[k])) by {
                    assert(keys@.take(k + 1) =~= keys@.take(k).push(keys@[k]));
                    keys@.take(k).lemma_push_to_set_commute(keys@[k]);
                }
            }
            let key: i64 = c.parent_id.0;
            if self.claimed.contains(key) {
                deferred = deferred + 1;
                assert(self.claimed@ =~= retained.union(keys@.take(k + 1).to_set()));
            } else {
                self.queue.enqueue(
                    IntegrationDispatchRequest {
                        parent_id: c.parent_id,
                        parent_identifier: c.parent_identifier,
                        parent_title: c.parent_title,
                        cause: c.cause,
                        run_id: None,
                        role: None,
                        agent_profile: None,
                        repository: None,
                    },
                );
                self.claimed.insert(key);
                processed = processed + 1;
                assert(self.claimed@ =~= retained.union(keys@.take(k + 1).to_set()));
            }
        }
        assert(all.take(all.len() as int) =~= all);
        assert(keys@.take(keys@.len() as int) =~= keys@);
        assert(self.claimed@ =~= keys@.to_set());
        QueueTickOutcome {
            queue: LogicalQueue::Integration,
            considered,
            processed,
            deferred,
            errors: 0,
        }
    }
}

impl<S: IntegrationQueueSource> IntegrationQueueTick<S> {
    /// One tick: ask the source what is ready under the gates, and act on its
    /// answer.
    pub fn tick(&mut self) -> (outcome: QueueTickOutcome)
        ensures
            exists|answer: Result<Vec<IntegrationCandidate>, IntegrationQueueError>|
                call_ensures(
                    S::list_ready,
                    (&old(self).upstream(), old(self).configured_gates()),
                    answer,
                ) && #[trigger] old(self).ticks_to(final(self), answer, outcome),
    {
        let answer = self.source.list_ready(self.gates);
        self.apply(answer)
    }
}

/// A tick that heard from its source considers each candidate once: it is either
/// processed or deferred.
pub proof fn ticks_account_for_every_candidate<S>(
    before: IntegrationQueueTick<S>,
    after: IntegrationQueueTick<S>,
    candidates: Vec<IntegrationCandidate>,
    outcome: QueueTickOutcome,
)
    requires
        before.ticks_to(&after, Ok(candidates), outcome),
    ensures
        outcome.considered == outcome.processed + outcome.deferred,
        outcome.considered == candidates.len(),
        outcome.errors == 0,
{
    claims::fresh_positions_are_new(before.claims(), keys_of(candidates@));
    assert(candidates.len() == candidates@.len());
}

/// A tick never removes or reorders pending dispatches: they stay in front, and the rest
/// is what the tick emitted, as many as it reports.
pub proof fn ticks_append_to_what_is_pending<S>(
    before: IntegrationQueueTick<S>,
    after: IntegrationQueueTick<S>,
    candidates: Vec<IntegrationCandidate>,
    outcome: QueueTickOutcome,
)
    requires
        before.ticks_to(&after, Ok(candidates), outcome),
    ensures
        after.pending().len() == before.pending().len() + outcome.processed,
        forall|i: int|
            0 <= i < before.pending().len() ==> #[trigger] after.pending()[i]
                == before.pending()[i],
{
    claims::fresh_positions_are_new(before.claims(), keys_of(candidates@));
    assert(candidates.len() == candidates@.len());
}

/// What a tick emits, from the candidates alone: in their order, one request for each
/// position `at` whose parent was not claimed and stands at no earlier position. A request
/// carries over every field of its candidate, and has no run, role, profile or repository.
pub proof fn ticks_emit_the_first_unclaimed_candidates<S>(
    before: IntegrationQueueTick<S>,
    after: IntegrationQueueTick<S>,
    candidates: Vec<IntegrationCandidate>,
    outcome: QueueTickOutcome,
) -> (at: Seq<int>)
    requires
        before.ticks_to(&after, Ok(candidates), outcome),
    ensures
        outcome.processed == at.len(),
        after.pending().len() == before.pending().len() + at.len(),
        forall|m: int, n: int| 0 <= m < n < at.len() ==> #[trigger] at[m] < #[trigger] at[n],
        forall|i: int|
            0 <= i < candidates@.len() ==> (#[trigger] at.contains(i) <==> {
                &&& !before.claims().contains(candidates@[i].parent_id.0)
                &&& forall|j: int|
                    0 <= j < i ==> candidates@[j].parent_id.0 != candidates@[i].parent_id.0
            }),
        forall|m: int|
            0 <= m < at.len() ==> 0 <= #[trigger] at[m] < candidates@.len() && {
                let sent = after.pending()[before.pending().len() + m];
                &&& sent.parent_id == candidates@[at[m]].parent_id
                &&& sent.parent_identifier == candidates@[at[m]].parent_identifier
                &&& sent.parent_title == candidates@[at[m]].parent_title
                &&& sent.cause == candidates@[at[m]].cause
                &&& sent.run_id is None
                &&& sent.role is None
                &&& sent.agent_profile is None
                &&& sent.repository is None
            },
{
    let keys = keys_of(candidates@);
    let at = claims::fresh_positions(before.claims(), keys);
    claims::fresh_positions_are_new(before.claims(), keys);
    assert(candidates.len() == candidates@.len());
    assert forall|i: int| 0 <= i < candidates@.len() implies (#[trigger] at.contains(i) <==> {
        &&& !before.claims().contains(candidates@[i].parent_id.0)
        &&& forall|j: int| 0 <= j < i ==> candidates@[j].parent_id.0 != candidates@[i].parent_id.0
    }) by {
        claims::first_unclaimed_positions_are_emitted(before.claims(), keys, i);
        assert(keys[i] == candidates@[i].parent_id.0);
        assert forall|j: int| 0 <= j < i implies keys[j] == candidates@[j].parent_id.0 by {}
        if forall|j: int| 0 <= j < i ==> candidates@[j].parent_id.0 != candidates@[i].parent_id.0 {
            assert forall|j: int| 0 <= j < i implies keys[j] != keys[i] by {
                assert(candidates@[j].parent_id.0 != candidates@[i].parent_id.0);
            }
        }
        if forall|j: int| 0 <= j < i ==> keys[j] != keys[i] {
            assert forall|j: int| 0 <= j < i implies candidates@[j].parent_id.0
                != candidates@[i].parent_id.0 by {
                assert(keys[j] != keys[i]);
            }
        }
    }
    at
}

/// After a tick exactly what the source surfaced is claimed.
pub proof fn ticks_claim_exactly_what_is_surfaced<S>(
    before: IntegrationQueueTick<S>,
    after: IntegrationQueueTick<S>,
    candidates: Vec<IntegrationCandidate>,
    outcome: QueueTickOutcome,
    key: i64,
)
    requires
        before.ticks_to(&after, Ok(candidates), outcome),
    ensures
        after.claims().contains(key) <==> exists|i: int|
            0 <= i < candidates@.len() && (#[trigger] candidates@[i]).parent_id.0 == key,
{
    let keys = keys_of(candidates@);
    if keys.contains(key) {
        let i = choose|i: int| 0 <= i < keys.len() && keys[i] == key;
        assert(candidates@[i].parent_id.0 == key);
    }
    if exists|i: int| 0 <= i < candidates@.len() && (#[trigger] candidates@[i]).parent_id.0 == key {
        let i = choose|i: int|
            0 <= i < candidates@.len() && (#[trigger] candidates@[i]).parent_id.0 == key;
        assert(keys[i] == key);
    }
}

/// A tick whose source failed reports one error and nothing else, and leaves the pending
/// dispatches and the claims alone.
pub proof fn failed_ticks_change_nothing<S>(
    before: IntegrationQueueTick<S>,
    after: IntegrationQueueTick<S>,
    error: IntegrationQueueError,
    outcome: QueueTickOutcome,
)
    requires
        before.ticks_to(&after, Err(error), outcome),
    ensures
        after.pending() == before.pending(),
        after.claims() == before.claims(),
        outcome.errors == 1,
        outcome.considered == 0,
        outcome.processed == 0,
        outcome.deferred == 0,
{
}

/// Whatever the source answers, a tick reports for its own queue and leaves the wiring
/// alone.
pub proof fn ticks_keep_their_wiring<S>(
    before: IntegrationQueueTick<S>,
    after: IntegrationQueueTick<S>,
    answer: Result<Vec<IntegrationCandidate>, IntegrationQueueError>,
    outcome: QueueTickOutcome,
)
    requires
        before.ticks_to(&after, answer, outcome),
    ensures
        outcome.queue == LogicalQueue::Integration,
        after.upstream() == before.upstream(),
        after.configured_gates() == before.configured_gates(),
        after.configured_cadence() == before.configured_cadence(),
{
}

/// A tick emits no parent that was claimed before it, and no parent twice; every
/// surfaced parent that was not claimed is emitted.
pub proof fn ticks_emit_each_new_parent_once(
    claimed: Set<i64>,
    candidates: Seq<IntegrationCandidate>,
)
    ensures
        forall|m: int|
            0 <= m < emitted(claimed, candidates).len() ==> !claimed.contains(
                (#[trigger] emitted(claimed, candidates)[m]).parent_id.0,
            ),
        forall|m: int, n: int|
            0 <= m < n < emitted(claimed, candidates).len() ==> (#[trigger] emitted(
                claimed,
                candidates,
            )[m]).parent_id != (#[trigger] emitted(claimed, candidates)[n]).parent_id,
        forall|i: int|
            0 <= i < candidates.len() && !claimed.contains((#[trigger] candidates[i]).parent_id.0)
                ==> exists|m: int|
                0 <= m < emitted(claimed, candidates).len() && (#[trigger] emitted(
                    claimed,
                    candidates,
                )[m]).parent_id == candidates[i].parent_id,
{
    let keys = keys_of(candidates);
    let positions = claims::fresh_positions(claimed, keys);
    let out = emitted(claimed, candidates);
    claims::fresh_positions_are_new(claimed, keys);
    assert forall|m: int| 0 <= m < out.len() implies !claimed.contains(
        (#[trigger] out[m]).parent_id.0,
    ) by {
        let p = positions[m];
        assert(claims::fresh(claimed, keys, p));
    }
    assert forall|m: int, n: int| 0 <= m < n < out.len() implies (#[trigger] out[m]).parent_id != (
    #[trigger] out[n]).parent_id by {
        let p = positions[m];
        let q = positions[n];
        assert(claims::fresh(claimed, keys, q));
        assert(keys.take(q)[p] == keys[p]);
    }
    assert forall|i: int|
        0 <= i < candidates.len() && !claimed.contains(
            (#[trigger] candidates[i]).parent_id.0,
        ) implies exists|m: int|
        0 <= m < out.len() && (#[trigger] out[m]).parent_id == candidates[i].parent_id by {
        assert(keys[i] == candidates[i].parent_id.0);
        claims::unclaimed_keys_are_emitted(claimed, keys, keys[i]);
        let m = choose|m: int| 0 <= m < positions.len() && keys[#[trigger] positions[m]] == keys[i];
        assert(out[m].parent_id == candidates[i].parent_id);
    }
}

/// Ticking again on the same answer emits nothing: everything surfaced is
/// claimed.
pub proof fn ticking_again_emits_nothing<S>(
    before: IntegrationQueueTick<S>,
    between: IntegrationQueueTick<S>,
    after: IntegrationQueueTick<S>,
    candidates: Vec<IntegrationCandidate>,
    first: QueueTickOutcome,
    second: QueueTickOutcome,
)
    requires
        before.ticks_to(&between, Ok(candidates), first),
        between.ticks_to(&after, Ok(candidates), second),
    ensures
        second.processed == 0,
        second.deferred == candidates.len(),
        after.pending() == between.pending(),
        after.claims() == between.claims(),
{
    let keys = keys_of(candidates@);
    assert forall|i: int| 0 <= i < keys.len() implies between.claims().contains(
        #[trigger] keys[i],
    ) by {
        assert(keys.contains(keys[i]));
    }
    claims::claimed_keys_are_not_emitted(between.claims(), keys);
    assert(between.pending() + emitted(between.claims(), candidates@) =~= between.pending());
}

/// A parent that the source stops surfacing loses its claim, so it is emitted
/// again when it reappears.
pub proof fn reappearing_parents_are_emitted_again<S>(
    before: IntegrationQueueTick<S>,
    between: IntegrationQueueTick<S>,
    absent: Vec<IntegrationCandidate>,
    present: Vec<IntegrationCandidate>,
    outcome: QueueTickOutcome,
    i: int,
)
    requires
        before.ticks_to(&between, Ok(absent), outcome),
        0 <= i < present@.len(),
        !keys_of(absent@).contains(present@[i].parent_id.0),
    ensures
        !between.claims().contains(present@[i].parent_id.0),
        exists|m: int|
            0 <= m < emitted(between.claims(), present@).len() && (#[trigger] emitted(
                between.claims(),
                present@,
            )[m]).parent_id == present@[i].parent_id,
{
    ticks_emit_each_new_parent_once(between.claims(), present@);
    assert(!between.claims().contains(present@[i].parent_id.0));
}

/// The queue hands requests out in the order in which they came, each once: what is
/// appended comes out last, behind everything before it, and nothing stays behind.
pub proof fn queues_are_first_in_first_out(pending: Seq<IntegrationDispatchRequest>, request: IntegrationDispatchRequest)
    ensures
        drained(pending).0.len() == pending.len(),
        forall|i: int| 0 <= i < pending.len() ==> #[trigger] drained(pending).0[i] == pending[i],
        drained(pending).1.len() == 0,
        drained(drained(pending).1).0.len() == 0,
        drained(enqueued(pending, request)).0 == drained(pending).0.push(request),
{
}

} // verus!
