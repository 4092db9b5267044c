//! The orchestrator's poll loop.
//!
//! Each tick reaps the dispatches that ended, asks the tracker for the active issues,
//! cancels the dispatches whose issue is no longer active, and claims issues up to a
//! cap. [`PollLoop`] keeps the books; asking the tracker, running the dispatches and
//! sleeping between ticks is the caller's part.
use crate::events::OrchestratorEvent;
use crate::state_machine::{ClaimState, ReleaseReason, StateMachine};
use crate::text;
use crate::tracker::{Issue, IssueId, TrackerError};
use vstd::prelude::*;

verus! {

/// A claim in the model.
#[verifier::ext_equal]
pub struct Claim {
    /// Stable tracker id of the issue.
    pub id: Seq<char>,
    /// Human-facing identifier.
    pub identifier: Seq<char>,
    /// The reason to record instead of the dispatcher's.
    pub override_reason: Option<ReleaseReason>,
}

/// The end of a claim in the model.
#[verifier::ext_equal]
pub struct Ending {
    /// Stable tracker id of the issue.
    pub id: Seq<char>,
    /// Human-facing identifier.
    pub identifier: Seq<char>,
    /// The recorded reason.
    pub reason: ReleaseReason,
}

/// Whether an issue is claimed.
pub open spec fn holds(claims: Seq<Claim>, id: Seq<char>) -> bool {
    exists|i: int| 0 <= i < claims.len() && (#[trigger] claims[i]).id == id
}

/// Where an issue is claimed.
pub open spec fn place(claims: Seq<Claim>, id: Seq<char>) -> int {
    choose|i: int| 0 <= i < claims.len() && (#[trigger] claims[i]).id == id
}

/// No issue is claimed twice.
pub open spec fn distinct(claims: Seq<Claim>) -> bool {
    forall|i: int, j: int|
        0 <= i < j < claims.len() ==> (#[trigger] claims[i]).id != (#[trigger] claims[j]).id
}

/// The claims after one was released.
pub open spec fn without(claims: Seq<Claim>, id: Seq<char>) -> Seq<Claim> {
    if holds(claims, id) {
        claims.remove(place(claims, id))
    } else {
        claims
    }
}

/// What is recorded when a dispatch ends: the claim's own reason, if it has one, comes
/// before the dispatcher's.
pub open spec fn ending(claims: Seq<Claim>, id: Seq<char>, reason: ReleaseReason) -> Ending {
    if holds(claims, id) {
        let claim = claims[place(claims, id)];
        Ending {
            id,
            identifier: claim.identifier,
            reason: match claim.override_reason {
                Some(cause) => cause,
                None => reason,
            },
        }
    } else {
        Ending { id, identifier: Seq::empty(), reason }
    }
}

/// What reaping ended dispatches, in order, leaves and records. A dispatch without a
/// claim is ignored.
pub open spec fn reap(claims: Seq<Claim>, finished: Seq<(Seq<char>, ReleaseReason)>) -> (
    Seq<Claim>,
    Seq<Ending>,
)
    decreases finished.len(),
{
    if finished.len() == 0 {
        (claims, Seq::empty())
    } else {
        let (left, endings) = reap(claims, finished.drop_last());
        let (id, reason) = finished.last();
        if holds(left, id) {
            (without(left, id), endings.push(ending(left, id, reason)))
        } else {
            (left, endings)
        }
    }
}

/// Whether reconciliation cancels a claim: its issue is no longer active, and it was
/// not cancelled for that before.
pub open spec fn stale(claim: Claim, active: Seq<Seq<char>>) -> bool {
    !active.contains(claim.id) && claim.override_reason is None
}

/// The claims after reconciliation.
pub open spec fn reconcile(claims: Seq<Claim>, active: Seq<Seq<char>>) -> Seq<Claim> {
    claims.map_values(
        |c: Claim|
            if stale(c, active) {
                Claim { override_reason: Some(ReleaseReason::NoLongerActive), ..c }
            } else {
                c
            },
    )
}

/// The issues that reconciliation drops, oldest claim first.
pub open spec fn drops(claims: Seq<Claim>, active: Seq<Seq<char>>) -> Seq<Seq<char>>
    decreases claims.len(),
{
    if claims.len() == 0 {
        Seq::empty()
    } else {
        let before = drops(claims.drop_last(), active);
        if stale(claims.last(), active) {
            before.push(claims.last().id)
        } else {
            before
        }
    }
}

/// The ids of issues.
pub open spec fn ids(active: Seq<Issue>) -> Seq<Seq<char>> {
    active.map_values(|i: Issue| i.id@)
}

/// What claiming active issues, in order, leaves, starts, and puts off: an issue that is
/// claimed is passed over, and with `cap` claims nothing more starts.
pub open spec fn claim_pass(claims: Seq<Claim>, cap: nat, active: Seq<Issue>) -> (
    Seq<Claim>,
    Seq<Issue>,
    nat,
)
    decreases active.len(),
{
    if active.len() == 0 {
        (claims, Seq::empty(), 0)
    } else {
        let (held, started, deferred) = claim_pass(claims, cap, active.drop_last());
        let issue = active.last();
        if holds(held, issue.id@) {
            (held, started, deferred)
        } else if held.len() >= cap {
            (held, started, deferred + 1)
        } else {
            (
                held.push(
                    Claim { id: issue.id@, identifier: issue.identifier@, override_reason: None },
                ),
                started.push(issue),
                deferred,
            )
        }
    }
}

/// How a dispatch task ended while it was forced down.
#[derive(Debug, Clone, PartialEq, Eq)]
pub enum DispatchEnd {
    /// It still gave its result.
    Finished(IssueId, ReleaseReason),
    /// It was aborted; which one is not known.
    Aborted,
    /// It panicked.
    Panicked,
}

/// A forced end in the model.
pub enum EndView {
    /// It still gave its result.
    Finished(Seq<char>, ReleaseReason),
    /// It was aborted.
    Aborted,
    /// It panicked.
    Panicked,
}

impl View for DispatchEnd {
    type V = EndView;

    open spec fn view(&self) -> EndView {
        match self {
            DispatchEnd::Finished(id, reason) => EndView::Finished(id@, *reason),
            DispatchEnd::Aborted => EndView::Aborted,
            DispatchEnd::Panicked => EndView::Panicked,
        }
    }
}

/// The end of a claim that is released as cancelled.
pub open spec fn canceled(claim: Claim) -> Ending {
    Ending { id: claim.id, identifier: claim.identifier, reason: ReleaseReason::Canceled }
}

/// Whether an end gives the result of this issue.
pub open spec fn gives(end: EndView, id: Seq<char>) -> bool {
    end matches EndView::Finished(other, _) && other == id
}

/// Whether one of the ends from `from` on gives the result of this issue.
pub open spec fn finishes(ends: Seq<EndView>, from: int, id: Seq<char>) -> bool {
    exists|j: int| from <= j < ends.len() && #[trigger] gives(ends[j], id)
}

/// Where the oldest claim is that no end from `from` on gives the result of; past all
/// claims where there is none.
pub open spec fn spare(claims: Seq<Claim>, ends: Seq<EndView>, from: int) -> int
    decreases claims.len(),
{
    if claims.len() == 0 {
        0
    } else {
        let earlier = spare(claims.drop_last(), ends, from);
        if earlier < claims.len() - 1 {
            earlier
        } else if !finishes(ends, from, claims.last().id) {
            claims.len() - 1
        } else {
            claims.len() as int
        }
    }
}

/// What the first `n` forced ends, in order, leave and record. An aborted task stands
/// for the oldest claim whose result is not still to come.
pub open spec fn force(claims: Seq<Claim>, ends: Seq<EndView>, n: nat) -> (
    Seq<Claim>,
    Seq<Ending>,
)
    decreases n,
{
    if n == 0 {
        (claims, Seq::empty())
    } else {
        let (left, endings) = force(claims, ends, (n - 1) as nat);
        match ends[n - 1] {
            EndView::Finished(id, reason) => (
                without(left, id),
                endings.push(ending(left, id, reason)),
            ),
            EndView::Aborted => {
                let k = spare(left, ends, n as int);
                if k < left.len() {
                    (left.remove(k), endings.push(canceled(left[k])))
                } else {
                    (left, endings)
                }
            },
            EndView::Panicked => (left, endings),
        }
    }
}

/// What a forced drain records: the ends, and then what they leave as cancelled.
pub open spec fn forced(claims: Seq<Claim>, ends: Seq<EndView>) -> Seq<Ending> {
    let (left, endings) = force(claims, ends, ends.len());
    endings + left.map_values(|c: Claim| canceled(c))
}

/// A claim that ended.
#[derive(Debug, PartialEq, Eq)]
pub struct Release {
    /// Stable tracker id of the issue.
    pub issue: IssueId,
    /// Human-facing identifier; empty when the issue was not claimed.
    pub identifier: String,
    /// The recorded reason.
    pub reason: ReleaseReason,
}

impl View for Release {
    type V = Ending;

    open spec fn view(&self) -> Ending {
        Ending { id: self.issue@, identifier: self.identifier@, reason: self.reason }
    }
}

impl Release {
    /// The event that reports it.
    pub fn event(&self) -> (e: OrchestratorEvent)
        ensures
            e == (OrchestratorEvent::Released {
                issue: self.issue,
                identifier: self.identifier,
                reason: self.reason,
                final_state: None,
            }),
    {
        OrchestratorEvent::Released {
            issue: self.issue.clone(),
            identifier: self.identifier.clone(),
            reason: self.reason,
            final_state: None,
        }
    }
}

/// What one tick did.
#[derive(Debug, Clone, PartialEq, Eq)]
pub struct TickReport {
    /// Issues newly claimed.
    pub claimed: usize,
    /// Dispatches that ended and were released.
    pub released: usize,
    /// Active issues, claimed or not.
    pub observed: usize,
    /// Issues put off because the cap was reached.
    pub deferred_capacity: usize,
    /// Claims that left the active set.
    pub reconciled: usize,
    /// The releases, in reap order.
    pub release_reasons: Vec<(IssueId, ReleaseReason)>,
}

impl Default for TickReport {
    fn default() -> (r: Self)
        ensures
            r.claimed == 0,
            r.released == 0,
            r.observed == 0,
            r.deferred_capacity == 0,
            r.reconciled == 0,
            r.release_reasons@.len() == 0,
    {
        TickReport {
            claimed: 0,
            released: 0,
            observed: 0,
            deferred_capacity: 0,
            reconciled: 0,
            release_reasons: Vec::new(),
        }
    }
}

/// What the caller has to do after a tick.
#[derive(Debug)]
pub struct TickOutcome {
    /// What the tick did.
    pub report: TickReport,
    /// Issues whose dispatches are to be cancelled.
    pub dropped: Vec<IssueId>,
    /// Issues whose dispatches are to be started, in order.
    pub started: Vec<Issue>,
}

/// What is kept about a running dispatch.
#[derive(Debug)]
struct DispatchHandle {
    issue: IssueId,
    identifier: String,
    override_reason: Option<ReleaseReason>,
}

impl View for DispatchHandle {
    type V = Claim;

    closed spec fn view(&self) -> Claim {
        Claim {
            id: self.issue@,
            identifier: self.identifier@,
            override_reason: self.override_reason,
        }
    }
}

/// The ledger and the handles, which name the same issues in the same order.
struct Book {
    state: StateMachine,
    handles: Vec<DispatchHandle>,
}

impl Book {
    spec fn claims(self) -> Seq<Claim> {
        self.handles@.map_values(|h: DispatchHandle| h@)
    }

    spec fn agrees(self) -> bool {
        &&& distinct(self.claims())
        &&& self.state@ == self.claims().map_values(|c: Claim| c.id)
    }

    fn empty() -> (r: Self)
        ensures
            r.agrees(),
            r.claims().len() == 0,
    {
        let r = Book { state: StateMachine::new(), handles: Vec::new() };
        assert(r.state@ =~= r.claims().map_values(|c: Claim| c.id));
        r
    }

    fn position(&self, id: &IssueId) -> (r: Option<usize>)
        ensures
            match r {
                Some(i) => {
                    &&& holds(self.claims(), id@)
                    &&& i < self.handles@.len()
                    &&& self.claims()[i as int].id == id@
                },
                None => !holds(self.claims(), id@),
            },
    {
        let mut i: usize = 0;
        while i < self.handles.len()
            invariant
                i <= self.handles@.len(),
                forall|j: int| 0 <= j < i ==> (#[trigger] self.claims()[j]).id != id@,
            decreases self.handles@.len() - i,
        {
            if text::same_text(self.handles[i].issue.as_str(), id.as_str()) {
                assert(self.claims()[i as int].id == id@);
                return Some(i);
            }
            i = i + 1;
        }
        None
    }

    /// Release a claim; the ledger refuses where there is none.
    fn release(&mut self, id: IssueId, reason: ReleaseReason) -> (r: (Release, bool))
        requires
            old(self).agrees(),
        ensures
            final(self).agrees(),
            r.0@ == ending(old(self).claims(), id@, reason),
            r.1 == holds(old(self).claims(), id@),
            final(self).claims() == without(old(self).claims(), id@),
    {
        let ghost before = self.claims();
        proof {
            lemma_ledger_holds(before, id@);
        }
        match self.position(&id) {
            None => {
                let r = Release { issue: id, identifier: String::new(), reason };
                assert(r@ =~= ending(before, id@, reason));
                (r, false)
            },
            Some(i) => {
                proof {
                    lemma_place(before, i as int);
                }
                let handle: DispatchHandle = self.handles.remove(i);
                assert(handle@ == before[i as int]);
                let released = self.state.release(&id);
                proof {
                    lemma_ledger_place(before, i as int);
                    assert(self.claims() =~= before.remove(i as int));
                    lemma_remove_keeps_distinct(before, i as int);
                    assert(self.state@ =~= self.claims().map_values(|c: Claim| c.id));
                }
                let recorded: ReleaseReason = match handle.override_reason {
                    Some(cause) => cause,
                    None => reason,
                };
                let r = Release { issue: id, identifier: handle.identifier, reason: recorded };
                assert(r@ =~= ending(before, id@, reason));
                (r, true)
            },
        }
    }

    /// Where the oldest claim is that no end from `from` on gives the result of.
    fn spare(&self, ends: &Vec<DispatchEnd>, from: usize) -> (k: usize)
        requires
            from <= ends@.len(),
        ensures
            k == spare(self.claims(), ends@.map_values(|e: DispatchEnd| e@), from as int),
            k <= self.handles@.len(),
    {
        let ghost views = ends@.map_values(|e: DispatchEnd| e@);
        let mut k: usize = 0;
        while k < self.handles.len() && gives_later(ends, from, &self.handles[k].issue)
            invariant
                from <= ends@.len(),
                views == ends@.map_values(|e: DispatchEnd| e@),
                k <= self.handles@.len(),
                forall|j: int|
                    0 <= j < k ==> finishes(
                        views,
                        from as int,
                        (#[trigger] self.claims()[j]).id,
                    ),
            ensures
                k < self.handles@.len() ==> !finishes(
                    views,
                    from as int,
                    self.claims()[k as int].id,
                ),
            decreases self.handles@.len() - k,
        {
            k = k + 1;
        }
        proof {
            lemma_spare(self.claims(), views, from as int, k as int);
        }
        k
    }

    /// Release one claim as cancelled.
    fn cancel(&mut self, k: usize) -> (r: Release)
        requires
            old(self).agrees(),
            k < old(self).claims().len(),
        ensures
            final(self).agrees(),
            r@ == canceled(old(self).claims()[k as int]),
            final(self).claims() == old(self).claims().remove(k as int),
    {
        let ghost before = self.claims();
        let handle: DispatchHandle = self.handles.remove(k);
        assert(handle@ == before[k as int]);
        proof {
            lemma_place(before, k as int);
            lemma_ledger_holds(before, before[k as int].id);
        }
        let released = self.state.release(&handle.issue);
        proof {
            lemma_ledger_place(before, k as int);
            assert(self.claims() =~= before.remove(k as int));
            lemma_remove_keeps_distinct(before, k as int);
            assert(self.state@ =~= self.claims().map_values(|c: Claim| c.id));
        }
        let r = Release {
            issue: handle.issue,
            identifier: handle.identifier,
            reason: ReleaseReason::Canceled,
        };
        assert(r@ =~= canceled(before[k as int]));
        r
    }

    /// Claim an issue that is not claimed.
    fn claim(&mut self, issue: &Issue)
        requires
            old(self).agrees(),
            !holds(old(self).claims(), issue.id@),
        ensures
            final(self).agrees(),
            final(self).claims() == old(self).claims().push(
                Claim { id: issue.id@, identifier: issue.identifier@, override_reason: None },
            ),
    {
        let ghost before = self.claims();
        proof {
            lemma_ledger_holds(before, issue.id@);
        }
        let claimed = self.state.claim(issue.id.clone());
        self.handles.push(
            DispatchHandle {
                issue: issue.id.clone(),
                identifier: issue.identifier.clone(),
                override_reason: None,
            },
        );
        let ghost claim = Claim {
            id: issue.id@,
            identifier: issue.identifier@,
            override_reason: None,
        };
        assert(self.claims() =~= before.push(claim));
        assert(self.state@ =~= self.claims().map_values(|c: Claim| c.id));
        assert(distinct(self.claims())) by {
            assert forall|i: int, j: int| 0 <= i < j < before.push(claim).len() implies (
            #[trigger] before.push(claim)[i]).id != (#[trigger] before.push(claim)[j]).id by {
                if j == before.len() {
                    assert(before[i].id != issue.id@);
                }
            }
        }
    }
}

/// Whether one of the ends from `from` on gives the result of this issue.
fn gives_later(ends: &Vec<DispatchEnd>, from: usize, id: &IssueId) -> (b: bool)
    requires
        from <= ends@.len(),
    ensures
        b == finishes(ends@.map_values(|e: DispatchEnd| e@), from as int, id@),
{
    let ghost views = ends@.map_values(|e: DispatchEnd| e@);
    for j in from..ends.len()
        invariant
            views == ends@.map_values(|e: DispatchEnd| e@),
            forall|m: int| from <= m < j ==> !gives(#[trigger] views[m], id@),
    {
        if let DispatchEnd::Finished(other, _reason) = &ends[j] {
            if text::same_text(other.as_str(), id.as_str()) {
                assert(gives(views[j as int], id@));
                return true;
            }
        }
        assert(!gives(views[j as int], id@));
    }
    false
}

/// The first claim whose result is not to come is where [`spare`] says.
proof fn lemma_spare(claims: Seq<Claim>, ends: Seq<EndView>, from: int, k: int)
    requires
        0 <= k <= claims.len(),
        forall|j: int| 0 <= j < k ==> finishes(ends, from, (#[trigger] claims[j]).id),
        k < claims.len() ==> !finishes(ends, from, claims[k].id),
    ensures
        spare(claims, ends, from) == k,
    decreases claims.len(),
{
    if claims.len() > 0 {
        let front = claims.drop_last();
        assert forall|j: int| 0 <= j < front.len() implies front[j] == claims[j] by {}
        if k < claims.len() {
            lemma_spare(front, ends, from, k);
        } else {
            lemma_spare(front, ends, from, k - 1);
            assert(claims[k - 1] == claims.last());
        }
    }
}

/// What is at the place that [`spare`] gives.
proof fn lemma_spare_is_spare(claims: Seq<Claim>, ends: Seq<EndView>, from: int)
    ensures
        0 <= spare(claims, ends, from) <= claims.len(),
        spare(claims, ends, from) < claims.len() ==> !finishes(
            ends,
            from,
            claims[spare(claims, ends, from)].id,
        ),
    decreases claims.len(),
{
    if claims.len() > 0 {
        lemma_spare_is_spare(claims.drop_last(), ends, from);
    }
}

/// Where a claim is found, given that no issue is claimed twice.
proof fn lemma_place(claims: Seq<Claim>, i: int)
    requires
        distinct(claims),
        0 <= i < claims.len(),
    ensures
        holds(claims, claims[i].id),
        place(claims, claims[i].id) == i,
{
    let p = place(claims, claims[i].id);
    assert(claims[i].id == claims[i].id);
    assert(0 <= p < claims.len() && claims[p].id == claims[i].id);
    if p < i {
        assert(claims[p].id != claims[i].id);
    } else if i < p {
        assert(claims[i].id != claims[p].id);
    }
}

proof fn lemma_ledger_holds(claims: Seq<Claim>, id: Seq<char>)
    ensures
        claims.map_values(|c: Claim| c.id).contains(id) == holds(claims, id),
{
    let ledger = claims.map_values(|c: Claim| c.id);
    if ledger.contains(id) {
        let i = choose|i: int| 0 <= i < ledger.len() && ledger[i] == id;
        assert(claims[i].id == id);
    }
    if holds(claims, id) {
        let i = place(claims, id);
        assert(ledger[i] == id);
    }
}

proof fn lemma_ledger_place(claims: Seq<Claim>, i: int)
    requires
        distinct(claims),
        0 <= i < claims.len(),
    ensures
        claims.map_values(|c: Claim| c.id).index_of(claims[i].id) == i,
{
    let ledger = claims.map_values(|c: Claim| c.id);
    assert(ledger[i] == claims[i].id);
    let p = ledger.index_of(claims[i].id);
    assert(0 <= p < ledger.len() && ledger[p] == claims[i].id);
    assert(claims[p].id == claims[i].id);
    if p < i {
        assert(claims[p].id != claims[i].id);
    } else if i < p {
        assert(claims[i].id != claims[p].id);
    }
}

proof fn lemma_remove_keeps_distinct(claims: Seq<Claim>, i: int)
    requires
        distinct(claims),
        0 <= i < claims.len(),
    ensures
        distinct(claims.remove(i)),
{
    let left = claims.remove(i);
    assert forall|a: int, b: int| 0 <= a < b < left.len() implies (#[trigger] left[a]).id != (
    #[trigger] left[b]).id by {
        let x = if a < i { a } else { a + 1 };
        let y = if b < i { b } else { b + 1 };
        assert(claims[x].id != claims[y].id);
    }
}

/// What the poll loop is in the model.
#[verifier::ext_equal]
pub struct PollState {
    /// How many issues may be claimed at once.
    pub cap: nat,
    /// The claims, oldest first.
    pub claims: Seq<Claim>,
    /// How many ticks have begun, modulo the range of the counter.
    pub tick_seq: u64,
}

/// The tick counter after another tick has begun.
pub open spec fn next_seq(n: u64) -> u64 {
    if n == u64::MAX {
        0
    } else {
        (n + 1) as u64
    }
}

/// What a tick comes to in the model.
pub struct Ticked {
    /// The poll loop after it.
    pub state: PollState,
    /// The issues whose dispatches are cancelled.
    pub dropped: Seq<Seq<char>>,
    /// The issues whose dispatches start.
    pub started: Seq<Issue>,
    /// How many active entries are put off.
    pub deferred: nat,
    /// How many active entries the tracker gave.
    pub observed: nat,
}

/// What a tick does with the active issues: claims are reconciled first, and what is
/// claimed then counts against the cap.
pub open spec fn ticked(was: PollState, active: Seq<Issue>) -> Ticked {
    let kept = reconcile(was.claims, ids(active));
    let (held, started, deferred) = claim_pass(kept, was.cap, active);
    Ticked {
        state: PollState { claims: held, ..was },
        dropped: drops(was.claims, ids(active)),
        started,
        deferred,
        observed: active.len(),
    }
}

/// The claims of a daemon, and its tick counter.
pub struct PollLoop {
    max_concurrent: usize,
    book: Book,
    tick_seq: u64,
}

impl View for PollLoop {
    type V = PollState;

    closed spec fn view(&self) -> PollState {
        PollState {
            cap: self.max_concurrent as nat,
            claims: self.book.claims(),
            tick_seq: self.tick_seq,
        }
    }
}

impl PollLoop {
    #[verifier::type_invariant]
    spec fn well_formed(self) -> bool {
        &&& self.book.agrees()
        &&& self.book.claims().len() <= self.max_concurrent
    }

    /// Nothing is claimed.
    pub fn new(max_concurrent: usize) -> (r: Self)
        ensures
            r@ == (PollState { cap: max_concurrent as nat, claims: Seq::empty(), tick_seq: 0 }),
    {
        PollLoop { max_concurrent, book: Book::empty(), tick_seq: 0 }
    }

    /// The claim ledger: it names the claimed issues, each once, and never more than
    /// the cap.
    pub fn state(&self) -> (s: &StateMachine)
        ensures
            s@ == self@.claims.map_values(|c: Claim| c.id),
            s@.len() <= self@.cap,
            distinct(self@.claims),
    {
        proof {
            use_type_invariant(self);
        }
        &self.book.state
    }

    /// How many ticks have begun, modulo the range of the counter.
    pub fn tick_seq(&self) -> (n: u64)
        ensures
            n == self@.tick_seq,
    {
        self.tick_seq
    }

    /// Begin a tick.
    pub fn begin_tick(&mut self)
        ensures
            final(self)@ == (PollState { tick_seq: next_seq(old(self)@.tick_seq), ..old(self)@ }),
            final(self)@ == (PollState {
                tick_seq: if old(self)@.tick_seq == u64::MAX {
                    0
                } else {
                    (old(self)@.tick_seq + 1) as u64
                },
                ..old(self)@
            }),
    {
        proof {
            use_type_invariant(&*self);
        }
        self.tick_seq = self.tick_seq.wrapping_add(1);
    }

    /// Release the claims of dispatches that ended, in order.
    pub fn reap_finished(&mut self, finished: Vec<(IssueId, ReleaseReason)>) -> (releases: Vec<
        Release,
    >)
        ensures
            final(self)@.cap == old(self)@.cap,
            final(self)@.tick_seq == old(self)@.tick_seq,
            (final(self)@.claims, releases@.map_values(|r: Release| r@)) == reap(
                old(self)@.claims,
                finished@.map_values(|f: (IssueId, ReleaseReason)| (f.0@, f.1)),
            ),
    {
        proof {
            use_type_invariant(&*self);
        }
        let ghost ended = finished@.map_values(|f: (IssueId, ReleaseReason)| (f.0@, f.1));
        let ghost before = self.book.claims();
        let mut book: Book = Book::empty();
        std::mem::swap(&mut book, &mut self.book);
        let mut releases: Vec<Release> = Vec::new();
        let mut i: usize = 0;
        assert(ended.take(0) =~= Seq::empty());
        assert(releases@.map_values(|r: Release| r@) =~= Seq::empty());
        while i < finished.len()
            invariant
                i <= finished@.len(),
                ended == finished@.map_values(|f: (IssueId, ReleaseReason)| (f.0@, f.1)),
                book.agrees(),
                book.claims().len() <= before.len(),
                (book.claims(), releases@.map_values(|r: Release| r@)) == reap(
                    before,
                    ended.take(i as int),
                ),
            decreases finished@.len() - i,
        {
            let ghost left = book.claims();
            let ghost endings = releases@.map_values(|r: Release| r@);
            proof {
                assert(ended.take(i + 1).drop_last() =~= ended.take(i as int));
                assert(ended.take(i + 1).last() == ended[i as int]);
            }
            let (release, held) = book.release(finished[i].0.clone(), finished[i].1);
            if held {
                releases.push(release);
                assert(releases@.map_values(|r: Release| r@) =~= endings.push(release@));
            }
            i = i + 1;
        }
        assert(ended.take(i as int) =~= ended);
        self.book = book;
        releases
    }

    /// Take in what the tracker answered: cancel the dispatches whose issue is no longer
    /// active, then claim active issues up to the cap, in the tracker's order. A failed
    /// answer changes nothing.
    pub fn tick(
        &mut self,
        releases: &Vec<Release>,
        fetched: Result<Vec<Issue>, TrackerError>,
    ) -> (r: Result<TickOutcome, TrackerError>)
        ensures
            match fetched {
                Err(error) => r == Err::<TickOutcome, TrackerError>(error) && final(self)@ == old(
                    self,
                )@,
                Ok(active) => {
                    let was = old(self)@;
                    let kept = reconcile(was.claims, ids(active@));
                    let (held, started, deferred) = claim_pass(kept, was.cap, active@);
                    let done = ticked(was, active@);
                    &&& final(self)@ == (PollState { claims: held, ..was })
                    &&& final(self)@ == done.state
                    &&& r matches Ok(outcome) && {
                        &&& outcome.started@ == done.started
                        &&& outcome.dropped@.map_values(|id: IssueId| id@) == done.dropped
                        &&& outcome.report.deferred_capacity == done.deferred
                        &&& outcome.report.claimed == done.started.len()
                        &&& outcome.report.reconciled == done.dropped.len()
                        &&& outcome.report.observed == done.observed
                        &&& outcome.started@ == started
                        &&& outcome.dropped@.map_values(|id: IssueId| id@) == drops(
                            was.claims,
                            ids(active@),
                        )
                        &&& outcome.report.claimed == started.len()
                        &&& outcome.report.deferred_capacity == deferred
                        &&& outcome.report.observed == active@.len()
                        &&& outcome.report.reconciled == outcome.dropped@.len()
                        &&& outcome.report.released == releases@.len()
                        &&& outcome.report.release_reasons@ == releases@.map_values(
                            |e: Release| (e.issue, e.reason),
                        )
                    }
                },
            },
    {
        let active: Vec<Issue> = match fetched {
            Ok(active) => active,
            Err(error) => {
                return Err(error);
            },
        };
        let dropped: Vec<IssueId> = self.reconcile(&active);
        let observed: usize = active.len();
        let (started, deferred): (Vec<Issue>, usize) = self.claim_active(active);
        let mut release_reasons: Vec<(IssueId, ReleaseReason)> = Vec::new();
        for i in 0..releases.len()
            invariant
                release_reasons@.len() == i,
                forall|j: int|
                    0 <= j < i ==> release_reasons@[j] == (releases@[j].issue, releases@[j].reason),
        {
            release_reasons.push((releases[i].issue.clone(), releases[i].reason));
        }
        assert(release_reasons@ =~= releases@.map_values(|e: Release| (e.issue, e.reason)));
        Ok(
            TickOutcome {
                report: TickReport {
                    claimed: started.len(),
                    released: releases.len(),
                    observed,
                    deferred_capacity: deferred,
                    reconciled: dropped.len(),
                    release_reasons,
                },
                dropped,
                started,
            },
        )
    }

    fn reconcile(&mut self, active: &Vec<Issue>) -> (dropped: Vec<IssueId>)
        ensures
            final(self)@ == (PollState {
                claims: reconcile(old(self)@.claims, ids(active@)),
                ..old(self)@
            }),
            dropped@.map_values(|id: IssueId| id@) == drops(old(self)@.claims, ids(active@)),
    {
        proof {
            use_type_invariant(&*self);
        }
        let ghost before = self.book.claims();
        let ghost live = ids(active@);
        let ghost target = reconcile(before, live);
        let mut book: Book = Book::empty();
        std::mem::swap(&mut book, &mut self.book);
        let mut dropped: Vec<IssueId> = Vec::new();
        let mut i: usize = 0;
        assert(before.take(0) =~= Seq::empty());
        assert(dropped@.map_values(|id: IssueId| id@) =~= Seq::empty());
        while i < book.handles.len()
            invariant
                i <= book.handles@.len(),
                book.handles@.len() == before.len(),
                live == ids(active@),
                target == reconcile(before, live),
                book.state@ == before.map_values(|c: Claim| c.id),
                forall|j: int| 0 <= j < i ==> (#[trigger] book.handles@[j])@ == target[j],
                forall|j: int| i <= j < before.len() ==> (#[trigger] book.handles@[j])@ == before[j],
                dropped@.map_values(|id: IssueId| id@) == drops(before.take(i as int), live),
            decreases book.handles@.len() - i,
        {
            let ghost so_far = dropped@.map_values(|id: IssueId| id@);
            proof {
                assert(before.take(i + 1).drop_last() =~= before.take(i as int));
                assert(before.take(i + 1).last() == before[i as int]);
                assert(book.handles@[i as int]@ == before[i as int]);
            }
            if book.handles[i].override_reason.is_none() && !is_active(
                active,
                &book.handles[i].issue,
            ) {
                let issue: IssueId = book.handles[i].issue.clone();
                let identifier: String = book.handles[i].identifier.clone();
                dropped.push(issue.clone());
                assert(dropped@.map_values(|id: IssueId| id@) =~= so_far.push(issue@));
                let marked = DispatchHandle {
                    issue,
                    identifier,
                    override_reason: Some(ReleaseReason::NoLongerActive),
                };
                assert(marked@ =~= target[i as int]);
                book.handles.set(i, marked);
            }
            i = i + 1;
        }
        proof {
            assert(before.take(i as int) =~= before);
            assert(book.claims() =~= target);
            assert(target.map_values(|c: Claim| c.id) =~= before.map_values(|c: Claim| c.id));
            assert forall|a: int, b: int| 0 <= a < b < target.len() implies (
            #[trigger] target[a]).id != (#[trigger] target[b]).id by {
                assert(before[a].id != before[b].id);
            }
        }
        self.book = book;
        dropped
    }

    fn claim_active(&mut self, active: Vec<Issue>) -> (r: (Vec<Issue>, usize))
        ensures
            ({
                let (held, started, deferred) = claim_pass(
                    old(self)@.claims,
                    old(self)@.cap,
                    active@,
                );
                &&& final(self)@ == (PollState { claims: held, ..old(self)@ })
                &&& r.0@ == started
                &&& r.1 == deferred
            }),
    {
        proof {
            use_type_invariant(&*self);
        }
        let ghost all = active@;
        let ghost before = self.book.claims();
        let cap: usize = self.max_concurrent;
        let mut book: Book = Book::empty();
        std::mem::swap(&mut book, &mut self.book);
        let mut started: Vec<Issue> = Vec::new();
        let mut deferred: usize = 0;
        let mut i: usize = 0;
        assert(all.take(0) =~= Seq::empty());
        while i < active.len()
            invariant
                i <= active@.len(),
                all == active@,
                book.agrees(),
                book.claims().len() <= cap,
                deferred <= i,
                (book.claims(), started@, deferred as nat) == claim_pass(
                    before,
                    cap as nat,
                    all.take(i as int),
                ),
            decreases active@.len() - i,
        {
            proof {
                assert(all.take(i + 1).drop_last() =~= all.take(i as int));
                assert(all.take(i + 1).last() == all[i as int]);
                lemma_ledger_holds(book.claims(), active@[i as int].id@);
            }
            let issue: &Issue = &active[i];
            if book.state.get(&issue.id).is_none() {
                if book.state.running_len() >= cap {
                    deferred = deferred + 1;
                } else {
                    book.claim(issue);
                    started.push(issue.clone());
                }
            }
            i = i + 1;
        }
        assert(all.take(i as int) =~= all);
        self.book = book;
        (started, deferred)
    }

    /// Release one dispatch that ended while the loop drains; it is reported even when
    /// there is no claim.
    pub fn release_drained(&mut self, id: IssueId, reason: ReleaseReason) -> (release: Release)
        ensures
            release@ == ending(old(self)@.claims, id@, reason),
            final(self)@ == (PollState { claims: without(old(self)@.claims, id@), ..old(self)@ }),
    {
        proof {
            use_type_invariant(&*self);
        }
        let mut book: Book = Book::empty();
        std::mem::swap(&mut book, &mut self.book);
        let (release, _held) = book.release(id, reason);
        self.book = book;
        release
    }

    /// Release everything once the remaining dispatch tasks have been forced down. What
    /// no task accounts for is released as cancelled, so no claim is left.
    pub fn force_drain(&mut self, ends: Vec<DispatchEnd>) -> (releases: Vec<Release>)
        ensures
            final(self)@ == (PollState { claims: Seq::empty(), ..old(self)@ }),
            releases@.map_values(|r: Release| r@) == forced(
                old(self)@.claims,
                ends@.map_values(|e: DispatchEnd| e@),
            ),
    {
        proof {
            use_type_invariant(&*self);
        }
        let ghost views = ends@.map_values(|e: DispatchEnd| e@);
        let ghost before = self.book.claims();
        let mut book: Book = Book::empty();
        std::mem::swap(&mut book, &mut self.book);
        let mut releases: Vec<Release> = Vec::new();
        let mut i: usize = 0;
        assert(releases@.map_values(|r: Release| r@) =~= Seq::empty());
        while i < ends.len()
            invariant
                i <= ends@.len(),
                views == ends@.map_values(|e: DispatchEnd| e@),
                book.agrees(),
                (book.claims(), releases@.map_values(|r: Release| r@)) == force(
                    before,
                    views,
                    i as nat,
                ),
            decreases ends@.len() - i,
        {
            let ghost endings = releases@.map_values(|r: Release| r@);
            assert(views[i as int] == ends@[i as int]@);
            match &ends[i] {
                DispatchEnd::Finished(id, reason) => {
                    let (release, _held) = book.release(id.clone(), *reason);
                    releases.push(release);
                    assert(releases@.map_values(|r: Release| r@) =~= endings.push(release@));
                },
                DispatchEnd::Aborted => {
                    let k: usize = book.spare(&ends, i + 1);
                    assert(book.handles@.len() == book.claims().len());
                    if k < book.handles.len() {
                        let release = book.cancel(k);
                        releases.push(release);
                        assert(releases@.map_values(|r: Release| r@) =~= endings.push(release@));
                    }
                },
                DispatchEnd::Panicked => {},
            }
            i = i + 1;
        }
        let ghost endings = releases@.map_values(|r: Release| r@);
        let ghost left = book.claims();
        let ghost mut gone: int = 0;
        assert(left.take(0).map_values(|c: Claim| canceled(c)) =~= Seq::empty());
        assert(endings + left.take(0).map_values(|c: Claim| canceled(c)) =~= endings);
        assert(left.skip(0) =~= left);
        while book.handles.len() > 0
            invariant
                book.agrees(),
                0 <= gone <= left.len(),
                book.claims() == left.skip(gone),
                releases@.map_values(|r: Release| r@) == endings + left.take(gone).map_values(
                    |c: Claim| canceled(c),
                ),
            decreases book.handles@.len(),
        {
            let ghost so_far = releases@.map_values(|r: Release| r@);
            let ghost remaining = book.claims();
            assert(book.handles@.len() == book.claims().len());
            let release = book.cancel(0);
            releases.push(release);
            proof {
                assert(releases@.map_values(|r: Release| r@) =~= so_far.push(release@));
                assert(release@ == canceled(left[gone]));
                assert(so_far.push(canceled(left[gone])) =~= endings + left.take(
                    gone + 1,
                ).map_values(|c: Claim| canceled(c)));
                assert(remaining.remove(0) =~= left.skip(gone + 1));
                assert(book.handles@.len() == book.claims().len());
                gone = gone + 1;
            }
        }
        assert(book.claims().len() == 0);
        assert(left.take(gone) =~= left);
        self.book = Book::empty();
        releases
    }
}

/// Whether an issue is among the active ones.
fn is_active(active: &Vec<Issue>, id: &IssueId) -> (b: bool)
    ensures
        b == ids(active@).contains(id@),
{
    for i in 0..active.len()
        invariant
            forall|j: int| 0 <= j < i ==> ids(active@)[j] != id@,
    {
        if text::same_text(active[i].id.as_str(), id.as_str()) {
            assert(ids(active@)[i as int] == id@);
            return true;
        }
    }
    false
}

/// The event that reports a claim.
pub open spec fn start_event(issue: Issue) -> OrchestratorEvent {
    OrchestratorEvent::StateChanged {
        issue: issue.id,
        identifier: issue.identifier,
        previous: None,
        current: ClaimState::Running,
    }
}

/// Whether these events report a tick: one that names the dropped issues, if there are
/// any, then one for each claim, in order.
pub open spec fn reports(
    events: Seq<OrchestratorEvent>,
    dropped: Seq<IssueId>,
    started: Seq<Issue>,
) -> bool {
    let head: int = if dropped.len() > 0 {
        1
    } else {
        0
    };
    &&& events.len() == head + started.len()
    &&& dropped.len() > 0 ==> (events[0] matches OrchestratorEvent::Reconciled { dropped: named }
        && named@ == dropped)
    &&& forall|k: int|
        head <= k < events.len() ==> #[trigger] events[k] == start_event(started[k - head])
}

impl TickOutcome {
    /// The events of the tick: one that names the dropped issues, if there are any, then
    /// one for each claim, in order.
    pub fn events(&self) -> (events: Vec<OrchestratorEvent>)
        ensures
            reports(events@, self.dropped@, self.started@),
            self.dropped@.len() == 0 ==> events@ == self.started@.map_values(
                |i: Issue| start_event(i),
            ),
            self.dropped@.len() > 0 ==> {
                &&& events@.len() > 0
                &&& events@[0] matches OrchestratorEvent::Reconciled { dropped }
                &&& dropped@ == self.dropped@
                &&& events@.skip(1) == self.started@.map_values(|i: Issue| start_event(i))
            },
    {
        let mut events: Vec<OrchestratorEvent> = Vec::new();
        if self.dropped.len() > 0 {
            let mut dropped: Vec<IssueId> = Vec::new();
            for i in 0..self.dropped.len()
                invariant
                    dropped@ == self.dropped@.take(i as int),
            {
                dropped.push(self.dropped[i].clone());
                assert(dropped@ =~= self.dropped@.take(i + 1));
            }
            assert(dropped@ =~= self.dropped@);
            events.push(OrchestratorEvent::Reconciled { dropped });
        }
        let ghost head = events@;
        let ghost starts = self.started@.map_values(|i: Issue| start_event(i));
        assert(head + starts.take(0) =~= head);
        for i in 0..self.started.len()
            invariant
                starts == self.started@.map_values(|i: Issue| start_event(i)),
                events@ == head + starts.take(i as int),
        {
            events.push(
                OrchestratorEvent::StateChanged {
                    issue: self.started[i].id.clone(),
                    identifier: self.started[i].identifier.clone(),
                    previous: None,
                    current: ClaimState::Running,
                },
            );
            assert(events@ =~= head + starts.take(i + 1));
        }
        proof {
            assert(starts.take(starts.len() as int) =~= starts);
            if head.len() == 0 {
                assert(events@ =~= starts);
            } else {
                assert(events@[0] == head[0]);
                assert(events@.skip(1) =~= starts);
            }
        }
        events
    }
}

/// Reaping a dispatch that reconciliation cancelled records that its issue left the
/// active states, whatever the dispatcher gave as its reason.
pub proof fn reconciled_dispatches_end_as_no_longer_active(
    claims: Seq<Claim>,
    active: Seq<Seq<char>>,
    id: Seq<char>,
    reason: ReleaseReason,
)
    requires
        distinct(claims),
        drops(claims, active).contains(id),
    ensures
        ending(reconcile(claims, active), id, reason).reason == ReleaseReason::NoLongerActive,
{
    lemma_drops(claims, active, id);
    let kept = reconcile(claims, active);
    let i = choose|i: int|
        0 <= i < claims.len() && (#[trigger] claims[i]).id == id && stale(claims[i], active);
    lemma_reconcile_keeps_distinct(claims, active);
    assert(kept[i].id == id);
    lemma_place(kept, i);
}

/// An issue that stays active keeps the dispatcher's reason, unless its dispatch was
/// cancelled before.
pub proof fn active_dispatches_keep_their_reason(
    claims: Seq<Claim>,
    active: Seq<Seq<char>>,
    id: Seq<char>,
    reason: ReleaseReason,
)
    requires
        distinct(claims),
        active.contains(id),
    ensures
        ending(reconcile(claims, active), id, reason) == ending(claims, id, reason),
{
    let kept = reconcile(claims, active);
    lemma_reconcile_keeps_distinct(claims, active);
    if holds(claims, id) {
        let i = place(claims, id);
        assert(kept[i].id == id);
        lemma_place(kept, i);
    }
    if holds(kept, id) {
        let i = place(kept, id);
        assert(claims[i].id == id);
    }
}

/// Reconciling again against the same active set changes nothing and drops nothing.
pub proof fn reconciling_again_changes_nothing(claims: Seq<Claim>, active: Seq<Seq<char>>)
    ensures
        reconcile(reconcile(claims, active), active) == reconcile(claims, active),
        drops(reconcile(claims, active), active).len() == 0,
{
    let kept = reconcile(claims, active);
    assert(reconcile(kept, active) =~= kept);
    lemma_nothing_drops(kept, active);
}

/// A claim pass never exceeds the cap, never claims an issue twice, and keeps every claim
/// that it found.
pub proof fn claim_passes_respect_the_cap(claims: Seq<Claim>, cap: nat, active: Seq<Issue>)
    requires
        distinct(claims),
        claims.len() <= cap,
    ensures
        ({
            let (held, started, deferred) = claim_pass(claims, cap, active);
            &&& distinct(held)
            &&& held.len() <= cap
            &&& held.len() == claims.len() + started.len()
            &&& held.take(claims.len() as int) == claims
            &&& forall|i: int|
                0 <= i < started.len() ==> !holds(claims, (#[trigger] started[i]).id@)
        }),
    decreases active.len(),
{
    if active.len() == 0 {
        assert(claims.take(claims.len() as int) =~= claims);
    } else {
        let issue = active.last();
        claim_passes_respect_the_cap(claims, cap, active.drop_last());
        let (held, started, deferred) = claim_pass(claims, cap, active.drop_last());
        let claim = Claim {
            id: issue.id@,
            identifier: issue.identifier@,
            override_reason: None,
        };
        let (after, begun, late) = claim_pass(claims, cap, active);
        if !holds(held, issue.id@) && held.len() < cap {
            assert(after == held.push(claim));
            assert forall|i: int, j: int| 0 <= i < j < after.len() implies (
            #[trigger] after[i]).id != (#[trigger] after[j]).id by {
                if j == held.len() {
                    assert(held[i].id != issue.id@);
                }
            }
            assert(after.take(claims.len() as int) =~= held.take(claims.len() as int));
            assert forall|i: int| 0 <= i < begun.len() implies !holds(
                claims,
                (#[trigger] begun[i]).id@,
            ) by {
                if i == started.len() && holds(claims, issue.id@) {
                    let p = place(claims, issue.id@);
                    assert(held.take(claims.len() as int)[p] == held[p]);
                    assert(held[p].id == issue.id@);
                }
            }
        }
    }
}

/// After a claim pass every active issue is claimed, or the cap is reached; so a second
/// pass over the same issues starts nothing.
pub proof fn claiming_again_starts_nothing(claims: Seq<Claim>, cap: nat, active: Seq<Issue>)
    requires
        distinct(claims),
        claims.len() <= cap,
    ensures
        ({
            let (held, started, deferred) = claim_pass(claims, cap, active);
            let (again, restarted, postponed) = claim_pass(held, cap, active);
            &&& again == held
            &&& restarted.len() == 0
            &&& held.len() == cap || deferred == 0
        }),
{
    let (held, started, deferred) = claim_pass(claims, cap, active);
    claim_passes_respect_the_cap(claims, cap, active);
    lemma_pass_claims_or_is_full(claims, cap, active);
    lemma_settled_pass(held, cap, active);
}

/// What a claim pass starts, from the active issues alone: at the positions `at`, in the
/// tracker's order, issues that were not claimed and stand at no earlier position. Each
/// is started once, and its start and the claim it adds name the same issue. Such an
/// issue is left out only where the cap was reached before it.
pub proof fn claim_passes_start_what_they_claim(
    claims: Seq<Claim>,
    cap: nat,
    active: Seq<Issue>,
) -> (at:
    Seq<int>)
    requires
        distinct(claims),
        claims.len() <= cap,
    ensures
        ({
            let (held, started, deferred) = claim_pass(claims, cap, active);
            &&& started.len() == at.len()
            &&& held.len() == claims.len() + started.len()
            &&& held.len() <= cap
            &&& forall|i: int| 0 <= i < claims.len() ==> #[trigger] held[i] == claims[i]
            &&& forall|m: int|
                0 <= m < at.len() ==> 0 <= #[trigger] at[m] < active.len() && {
                    let added = held[claims.len() + m];
                    &&& started[m] == active[at[m]]
                    &&& added.id == active[at[m]].id@
                    &&& added.identifier == active[at[m]].identifier@
                    &&& added.override_reason is None
                }
            &&& forall|m: int, n: int| 0 <= m < n < at.len() ==> #[trigger] at[m] < #[trigger] at[n]
            &&& forall|m: int, i: int|
                0 <= m < at.len() && 0 <= i < claims.len() ==> (#[trigger] claims[i]).id
                    != active[#[trigger] at[m]].id@
            &&& forall|m: int, j: int|
                0 <= m < at.len() && 0 <= j < at[m] ==> (#[trigger] active[j]).id@
                    != active[#[trigger] at[m]].id@
            &&& forall|j: int|
                0 <= j < active.len() ==> at.contains(j) || held.len() == cap || exists|k: int|
                    0 <= k < held.len() && (#[trigger] held[k]).id == (#[trigger] active[j]).id@
            &&& held.len() == cap && at.len() > 0 ==> forall|j: int|
                0 <= j < at.last() ==> exists|k: int|
                    0 <= k < held.len() && (#[trigger] held[k]).id == (#[trigger] active[j]).id@
        }),
    decreases active.len(),
{
    if active.len() == 0 {
        Seq::empty()
    } else {
        let init = active.drop_last();
        let issue = active[active.len() - 1];
        let last = active.len() - 1;
        let before = claim_passes_start_what_they_claim(claims, cap, init);
        claim_passes_respect_the_cap(claims, cap, init);
        let (held, started, deferred) = claim_pass(claims, cap, init);
        let (after, begun, late) = claim_pass(claims, cap, active);
        assert forall|j: int| 0 <= j < init.len() implies #[trigger] active[j] == init[j] by {}
        assert forall|j: int| 0 <= j < held.len() implies #[trigger] after[j] == held[j] by {}
        let starts = !holds(held, issue.id@) && held.len() < cap;
        let at = if starts {
            before.push(last)
        } else {
            before
        };
        assert forall|m: int| 0 <= m < before.len() implies #[trigger] at[m] == before[m] by {}
        if starts {
            assert forall|i: int| 0 <= i < claims.len() implies (#[trigger] claims[i]).id
                != issue.id@ by {
                assert(held[i] == claims[i]);
            }
            assert forall|j: int| 0 <= j < last implies (#[trigger] active[j]).id@ != issue.id@ by {
                assert(init[j] == active[j]);
                if before.contains(j) {
                    let m = choose|m: int| 0 <= m < before.len() && before[m] == j;
                    assert(held[claims.len() + m].id == init[before[m]].id@);
                } else {
                    let k = choose|k: int|
                        0 <= k < held.len() && (#[trigger] held[k]).id == init[j].id@;
                    assert(held[k].id != issue.id@);
                }
            }
        }
        assert forall|m: int| 0 <= m < at.len() implies 0 <= #[trigger] at[m] < active.len() && {
            let added = after[claims.len() + m];
            &&& begun[m] == active[at[m]]
            &&& added.id == active[at[m]].id@
            &&& added.identifier == active[at[m]].identifier@
            &&& added.override_reason is None
        } by {
            if m < before.len() {
                assert(before[m] < init.len());
                assert(after[claims.len() + m] == held[claims.len() + m]);
                assert(begun[m] == started[m]);
            }
        }
        assert forall|m: int, i: int| 0 <= m < at.len() && 0 <= i < claims.len() implies (
        #[trigger] claims[i]).id != active[#[trigger] at[m]].id@ by {
            if m < before.len() {
                assert(claims[i].id != init[before[m]].id@);
            }
        }
        assert forall|m: int, j: int| 0 <= m < at.len() && 0 <= j < at[m] implies (
        #[trigger] active[j]).id@ != active[#[trigger] at[m]].id@ by {
            if m < before.len() {
                assert(init[j].id@ != init[before[m]].id@);
            }
        }
        assert forall|j: int| 0 <= j < active.len() implies at.contains(j) || after.len() == cap
            || exists|k: int|
            0 <= k < after.len() && (#[trigger] after[k]).id == (#[trigger] active[j]).id@ by {
            if j == last {
                if starts {
                    assert(at[before.len() as int] == last);
                } else if held.len() < cap {
                    let k = place(held, issue.id@);
                    assert(after[k].id == active[j].id@);
                }
            } else if before.contains(j) {
                let m = choose|m: int| 0 <= m < before.len() && before[m] == j;
                assert(at[m] == j);
            } else if held.len() < cap {
                assert(init[j] == active[j]);
                let k = choose|k: int|
                    0 <= k < held.len() && (#[trigger] held[k]).id == init[j].id@;
                assert(after[k].id == active[j].id@);
            }
        }
        if after.len() == cap && at.len() > 0 {
            assert forall|j: int| 0 <= j < at.last() implies exists|k: int|
                0 <= k < after.len() && (#[trigger] after[k]).id == (#[trigger] active[j]).id@ by {
                assert(init[j] == active[j]);
                if starts {
                    if before.contains(j) {
                        let m = choose|m: int| 0 <= m < before.len() && before[m] == j;
                        assert(held[claims.len() + m].id == init[before[m]].id@);
                        assert(after[claims.len() + m].id == active[j].id@);
                    } else {
                        let k = choose|k: int|
                            0 <= k < held.len() && (#[trigger] held[k]).id == init[j].id@;
                        assert(after[k].id == active[j].id@);
                    }
                } else {
                    assert(at.last() == before.last());
                    let k = choose|k: int|
                        0 <= k < held.len() && (#[trigger] held[k]).id == init[j].id@;
                    assert(after[k].id == active[j].id@);
                }
            }
        }
        at
    }
}

/// What a claim pass puts off: the active entries that are not claimed when it is over.
pub proof fn claim_passes_put_off_what_is_left_unclaimed(
    claims: Seq<Claim>,
    cap: nat,
    active: Seq<Issue>,
)
    requires
        distinct(claims),
        claims.len() <= cap,
    ensures
        ({
            let (held, started, deferred) = claim_pass(claims, cap, active);
            deferred == active.filter(
                |issue: Issue|
                    forall|k: int| 0 <= k < held.len() ==> (#[trigger] held[k]).id != issue.id@,
            ).len()
        }),
    decreases active.len(),
{
    let (after, begun, late) = claim_pass(claims, cap, active);
    let left_out = |issue: Issue|
        forall|k: int| 0 <= k < after.len() ==> (#[trigger] after[k]).id != issue.id@;
    reveal(Seq::filter);
    if active.len() > 0 {
        let init = active.drop_last();
        let issue = active.last();
        let (held, started, deferred) = claim_pass(claims, cap, init);
        let missed = |issue: Issue|
            forall|k: int| 0 <= k < held.len() ==> (#[trigger] held[k]).id != issue.id@;
        claim_passes_put_off_what_is_left_unclaimed(claims, cap, init);
        lemma_pass_claims_or_is_full(claims, cap, init);
        if !holds(held, issue.id@) && held.len() < cap {
            assert forall|i: int| 0 <= i < init.len() implies missed(#[trigger] init[i])
                == left_out(init[i]) by {
                assert(holds(held, init[i].id@));
                let p = place(held, init[i].id@);
                assert(held[p].id == init[i].id@);
                assert(after[p].id == init[i].id@);
            }
            assert(after[held.len() as int].id == issue.id@);
            assert(!left_out(issue));
        } else {
            assert(after == held);
            assert(left_out(issue) == !holds(held, issue.id@)) by {
                if holds(held, issue.id@) {
                    let p = place(held, issue.id@);
                    assert(after[p].id == issue.id@);
                }
            }
        }
        lemma_same_filter(init, missed, left_out);
    }
}

proof fn lemma_same_filter(s: Seq<Issue>, f: spec_fn(Issue) -> bool, g: spec_fn(Issue) -> bool)
    requires
        forall|i: int| 0 <= i < s.len() ==> f(#[trigger] s[i]) == g(s[i]),
    ensures
        s.filter(f) == s.filter(g),
    decreases s.len(),
{
    reveal(Seq::filter);
    if s.len() > 0 {
        let init = s.drop_last();
        assert forall|i: int| 0 <= i < init.len() implies f(#[trigger] init[i]) == g(init[i]) by {
            assert(init[i] == s[i]);
        }
        lemma_same_filter(init, f, g);
        assert(f(s[s.len() - 1]) == g(s[s.len() - 1]));
    }
}

/// Reconciliation marks exactly the claims that were not marked and whose issue is no
/// longer active; every claim stays, under its id and identifier, and a claim that has a
/// reason keeps it.
pub proof fn reconciling_marks_the_inactive_claims(
    claims: Seq<Claim>,
    active: Seq<Seq<char>>,
    i: int,
)
    requires
        0 <= i < claims.len(),
    ensures
        reconcile(claims, active).len() == claims.len(),
        ({
            let was = claims[i];
            let now = reconcile(claims, active)[i];
            &&& now.id == was.id
            &&& now.identifier == was.identifier
            &&& was.override_reason is Some ==> now.override_reason == was.override_reason
            &&& was.override_reason is None && active.contains(was.id)
                ==> now.override_reason is None
            &&& was.override_reason is None && !active.contains(was.id) ==> now.override_reason
                == Some(ReleaseReason::NoLongerActive)
        }),
{
}

/// Reconciliation drops exactly the issues whose claim it marks, oldest claim first.
pub proof fn reconciling_drops_what_it_marks(claims: Seq<Claim>, active: Seq<Seq<char>>)
    ensures
        drops(claims, active) == claims.filter(
            |c: Claim| c.override_reason is None && !active.contains(c.id),
        ).map_values(|c: Claim| c.id),
    decreases claims.len(),
{
    let marked = |c: Claim| c.override_reason is None && !active.contains(c.id);
    reveal(Seq::filter);
    if claims.len() == 0 {
        assert(claims.filter(marked).map_values(|c: Claim| c.id) =~= drops(claims, active));
    } else {
        let init = claims.drop_last();
        reconciling_drops_what_it_marks(init, active);
        assert(init.filter(marked).push(claims.last()).map_values(|c: Claim| c.id)
            =~= init.filter(marked).map_values(|c: Claim| c.id).push(claims.last().id));
    }
}

/// The ids of active issues are theirs, one for one.
pub proof fn ids_are_the_issues_ids(active: Seq<Issue>)
    ensures
        ids(active).len() == active.len(),
        forall|i: int| 0 <= i < active.len() ==> #[trigger] ids(active)[i] == active[i].id@,
{
}

/// Releasing a claim takes off that claim and no other, and records its identifier, with
/// the reason it was marked with, or else the one given.
pub proof fn releases_take_off_their_own_claim(claims: Seq<Claim>, i: int, reason: ReleaseReason)
    requires
        distinct(claims),
        0 <= i < claims.len(),
    ensures
        ({
            let left = without(claims, claims[i].id);
            let end = ending(claims, claims[i].id, reason);
            &&& left.len() + 1 == claims.len()
            &&& forall|j: int| 0 <= j < i ==> #[trigger] left[j] == claims[j]
            &&& forall|j: int| i <= j < left.len() ==> #[trigger] left[j] == claims[j + 1]
            &&& end.id == claims[i].id
            &&& end.identifier == claims[i].identifier
            &&& claims[i].override_reason matches Some(cause) ==> end.reason == cause
            &&& claims[i].override_reason is None ==> end.reason == reason
        }),
{
    lemma_place(claims, i);
}

/// Releasing what is not claimed changes nothing, and records the issue without an
/// identifier, with the reason given.
pub proof fn unclaimed_releases_change_nothing(
    claims: Seq<Claim>,
    id: Seq<char>,
    reason: ReleaseReason,
)
    requires
        forall|i: int| 0 <= i < claims.len() ==> (#[trigger] claims[i]).id != id,
    ensures
        without(claims, id) == claims,
        ending(claims, id, reason).id == id,
        ending(claims, id, reason).identifier.len() == 0,
        ending(claims, id, reason).reason == reason,
{
}

/// What reaping leaves: the claims whose dispatch did not end, in their order.
pub proof fn reaping_leaves_what_did_not_end(
    claims: Seq<Claim>,
    finished: Seq<(Seq<char>, ReleaseReason)>,
)
    requires
        distinct(claims),
    ensures
        reap(claims, finished).0 == claims.filter(
            |c: Claim|
                forall|j: int| 0 <= j < finished.len() ==> (#[trigger] finished[j]).0 != c.id,
        ),
    decreases finished.len(),
{
    let stays = |c: Claim|
        forall|j: int| 0 <= j < finished.len() ==> (#[trigger] finished[j]).0 != c.id;
    if finished.len() == 0 {
        lemma_claims_filter_all(claims, stays);
    } else {
        let init = finished.drop_last();
        let id = finished.last().0;
        let stayed = |c: Claim|
            forall|j: int| 0 <= j < init.len() ==> (#[trigger] init[j]).0 != c.id;
        reaping_leaves_what_did_not_end(claims, init);
        let left = reap(claims, init).0;
        lemma_filter_keeps_distinct(claims, stayed);
        assert forall|c: Claim| #[trigger] stays(c) == (stayed(c) && c.id != id) by {
            if stays(c) {
                assert(finished[finished.len() - 1].0 != c.id);
                assert forall|j: int| 0 <= j < init.len() implies (#[trigger] init[j]).0
                    != c.id by {
                    assert(finished[j].0 != c.id);
                }
            }
            if stayed(c) && c.id != id {
                assert forall|j: int| 0 <= j < finished.len() implies (#[trigger] finished[j]).0
                    != c.id by {
                    if j < init.len() {
                        assert(init[j].0 != c.id);
                    }
                }
            }
        }
        lemma_without_is_filter(left, id);
        lemma_filter_twice(claims, stayed, |c: Claim| c.id != id, stays);
    }
}

proof fn lemma_claims_filter_all(claims: Seq<Claim>, f: spec_fn(Claim) -> bool)
    requires
        forall|i: int| 0 <= i < claims.len() ==> f(#[trigger] claims[i]),
    ensures
        claims.filter(f) == claims,
    decreases claims.len(),
{
    reveal(Seq::filter);
    if claims.len() > 0 {
        let init = claims.drop_last();
        assert forall|i: int| 0 <= i < init.len() implies f(#[trigger] init[i]) by {
            assert(f(claims[i]));
        }
        lemma_claims_filter_all(init, f);
        assert(f(claims[claims.len() - 1]));
        assert(init.push(claims.last()) =~= claims);
    } else {
        assert(claims.filter(f) =~= claims);
    }
}

proof fn lemma_filter_twice(
    claims: Seq<Claim>,
    f: spec_fn(Claim) -> bool,
    g: spec_fn(Claim) -> bool,
    both: spec_fn(Claim) -> bool,
)
    requires
        forall|c: Claim| #[trigger] both(c) == (f(c) && g(c)),
    ensures
        claims.filter(f).filter(g) == claims.filter(both),
    decreases claims.len(),
{
    reveal(Seq::filter);
    if claims.len() > 0 {
        let init = claims.drop_last();
        let last = claims.last();
        lemma_filter_twice(init, f, g, both);
        assert(both(last) == (f(last) && g(last)));
        if f(last) {
            assert(init.filter(f).push(last).drop_last() =~= init.filter(f));
        }
    }
}

proof fn lemma_filter_keeps_distinct(claims: Seq<Claim>, f: spec_fn(Claim) -> bool)
    requires
        distinct(claims),
    ensures
        distinct(claims.filter(f)),
        forall|i: int|
            0 <= i < claims.filter(f).len() ==> claims.contains(#[trigger] claims.filter(f)[i]),
    decreases claims.len(),
{
    reveal(Seq::filter);
    if claims.len() > 0 {
        let init = claims.drop_last();
        let last = claims.last();
        assert(distinct(init)) by {
            assert forall|i: int, j: int| 0 <= i < j < init.len() implies (#[trigger] init[i]).id
                != (#[trigger] init[j]).id by {
                assert(claims[i].id != claims[j].id);
            }
        }
        lemma_filter_keeps_distinct(init, f);
        let kept = init.filter(f);
        assert forall|i: int| 0 <= i < kept.len() implies claims.contains(#[trigger] kept[i])
            && kept[i].id != last.id by {
            let k = choose|k: int| 0 <= k < init.len() && init[k] == kept[i];
            assert(claims[k] == kept[i]);
            assert(claims[k].id != claims[claims.len() - 1].id);
        }
        if f(last) {
            assert(claims[claims.len() - 1] == last);
        }
    }
}

proof fn lemma_without_is_filter(claims: Seq<Claim>, id: Seq<char>)
    requires
        distinct(claims),
    ensures
        without(claims, id) == claims.filter(|c: Claim| c.id != id),
{
    let others = |c: Claim| c.id != id;
    if holds(claims, id) {
        let p = place(claims, id);
        let front = claims.take(p);
        let back = claims.skip(p + 1);
        let own = seq![claims[p]];
        assert(claims =~= front + (own + back));
        assert forall|i: int| 0 <= i < front.len() implies others(#[trigger] front[i]) by {
            assert(claims[i].id != claims[p].id);
        }
        assert forall|i: int| 0 <= i < back.len() implies others(#[trigger] back[i]) by {
            assert(claims[p].id != claims[p + 1 + i].id);
        }
        lemma_claims_filter_all(front, others);
        lemma_claims_filter_all(back, others);
        Seq::filter_distributes_over_add(front, own + back, others);
        Seq::filter_distributes_over_add(own, back, others);
        reveal(Seq::filter);
        assert(own.drop_last() =~= Seq::empty());
        assert(own.drop_last().filter(others) =~= Seq::empty());
        assert(own.filter(others) =~= Seq::empty());
        assert(claims.remove(p) =~= front + (Seq::<Claim>::empty() + back));
    } else {
        assert forall|i: int| 0 <= i < claims.len() implies others(#[trigger] claims[i]) by {
            assert(claims[i].id != id);
        }
        lemma_claims_filter_all(claims, others);
    }
}

/// What reaping records, from what ended alone: at the positions `at`, in order, the first
/// end of each claimed issue, with the identifier of its claim, and with the reason that
/// the claim was marked with, or else the one given.
pub proof fn reaping_records_the_first_end_of_each_claim(
    claims: Seq<Claim>,
    finished: Seq<(Seq<char>, ReleaseReason)>,
) -> (at: Seq<int>)
    requires
        distinct(claims),
    ensures
        ({
            let endings = reap(claims, finished).1;
            &&& endings.len() == at.len()
            &&& forall|m: int, n: int| 0 <= m < n < at.len() ==> #[trigger] at[m] < #[trigger] at[n]
            &&& forall|j: int|
                0 <= j < finished.len() ==> (#[trigger] at.contains(j) <==> {
                    &&& exists|i: int|
                        0 <= i < claims.len() && (#[trigger] claims[i]).id == finished[j].0
                    &&& forall|k: int| 0 <= k < j ==> (#[trigger] finished[k]).0 != finished[j].0
                })
            &&& forall|m: int, i: int|
                0 <= m < at.len() && 0 <= i < claims.len() && (#[trigger] claims[i]).id
                    == finished[at[m]].0 ==> {
                    let end = #[trigger] endings[m];
                    &&& end.id == claims[i].id
                    &&& end.identifier == claims[i].identifier
                    &&& end.reason == (match claims[i].override_reason {
                        Some(cause) => cause,
                        None => finished[at[m]].1,
                    })
                }
            &&& forall|m: int| 0 <= m < at.len() ==> 0 <= #[trigger] at[m] < finished.len()
        }),
    decreases finished.len(),
{
    if finished.len() == 0 {
        Seq::empty()
    } else {
        let init = finished.drop_last();
        let last = finished.len() - 1;
        let (id, reason) = finished[last];
        let before = reaping_records_the_first_end_of_each_claim(claims, init);
        let (left, endings) = reap(claims, init);
        let recorded = reap(claims, finished).1;
        let stays = |c: Claim|
            forall|j: int| 0 <= j < init.len() ==> (#[trigger] init[j]).0 != c.id;
        reaping_leaves_what_did_not_end(claims, init);
        lemma_filter_keeps_distinct(claims, stays);
        lemma_filter_holds(claims, stays, id);
        assert forall|j: int| 0 <= j < init.len() implies #[trigger] finished[j] == init[j] by {}
        let at = if holds(left, id) {
            before.push(last)
        } else {
            before
        };
        assert forall|m: int| 0 <= m < before.len() implies #[trigger] at[m] == before[m] by {}
        assert forall|j: int| 0 <= j < finished.len() implies (#[trigger] at.contains(j) <==> {
            &&& exists|i: int| 0 <= i < claims.len() && (#[trigger] claims[i]).id == finished[j].0
            &&& forall|k: int| 0 <= k < j ==> (#[trigger] finished[k]).0 != finished[j].0
        }) by {
            if j < last {
                assert(finished[j] == init[j]);
                if at.contains(j) {
                    let m = choose|m: int| 0 <= m < at.len() && at[m] == j;
                    assert(before[m] == j);
                }
                if before.contains(j) {
                    let m = choose|m: int| 0 <= m < before.len() && before[m] == j;
                    assert(at[m] == j);
                }
                assert(at.contains(j) == before.contains(j));
                if forall|k: int| 0 <= k < j ==> (#[trigger] init[k]).0 != init[j].0 {
                    assert forall|k: int| 0 <= k < j implies (#[trigger] finished[k]).0
                        != finished[j].0 by {
                        assert(init[k].0 != init[j].0);
                    }
                }
                if forall|k: int| 0 <= k < j ==> (#[trigger] finished[k]).0 != finished[j].0 {
                    assert forall|k: int| 0 <= k < j implies (#[trigger] init[k]).0
                        != init[j].0 by {
                        assert(finished[k].0 != finished[j].0);
                    }
                }
            } else {
                if holds(left, id) {
                    assert(at[before.len() as int] == last);
                    let q = place(claims, id);
                    assert(claims[q].id == finished[j].0);
                    assert(stays(claims[q]));
                    assert forall|k: int| 0 <= k < j implies (#[trigger] finished[k]).0
                        != finished[j].0 by {
                        assert(init[k].0 != id);
                    }
                } else {
                    assert(!at.contains(j)) by {
                        if at.contains(j) {
                            let m = choose|m: int| 0 <= m < at.len() && at[m] == j;
                            assert(before[m] < init.len());
                        }
                    }
                    if exists|i: int|
                        0 <= i < claims.len() && (#[trigger] claims[i]).id == finished[j].0 {
                        assert(holds(claims, id));
                        let q = place(claims, id);
                        assert(!stays(claims[q]));
                        let k = choose|k: int| 0 <= k < init.len() && (#[trigger] init[k]).0 == id;
                        assert(finished[k].0 == finished[j].0);
                    }
                }
            }
        }
        assert forall|m: int, i: int|
            0 <= m < at.len() && 0 <= i < claims.len() && (#[trigger] claims[i]).id
                == finished[at[m]].0 implies {
            let end = #[trigger] recorded[m];
            &&& end.id == claims[i].id
            &&& end.identifier == claims[i].identifier
            &&& end.reason == (match claims[i].override_reason {
                Some(cause) => cause,
                None => finished[at[m]].1,
            })
        } by {
            if m < before.len() {
                assert(recorded[m] == endings[m]);
                assert(finished[at[m]] == init[before[m]]);
            } else {
                assert(holds(left, id));
                let p = place(left, id);
                assert(claims.contains(left[p]));
                let q = choose|q: int| 0 <= q < claims.len() && claims[q] == left[p];
                if q < i {
                    assert(claims[q].id != claims[i].id);
                } else if i < q {
                    assert(claims[i].id != claims[q].id);
                }
            }
        }
        at
    }
}

proof fn lemma_filter_holds(claims: Seq<Claim>, f: spec_fn(Claim) -> bool, id: Seq<char>)
    requires
        forall|c: Claim, d: Claim| c.id == d.id ==> #[trigger] f(c) == #[trigger] f(d),
    ensures
        holds(claims.filter(f), id) ==> holds(claims, id) && forall|c: Claim|
            c.id == id ==> #[trigger] f(c),
        holds(claims, id) && !holds(claims.filter(f), id) ==> forall|c: Claim|
            c.id == id ==> !#[trigger] f(c),
    decreases claims.len(),
{
    reveal(Seq::filter);
    if claims.len() > 0 {
        let init = claims.drop_last();
        let last = claims.last();
        let kept = init.filter(f);
        let all = claims.filter(f);
        lemma_filter_holds(init, f, id);
        assert(claims[claims.len() - 1] == last);
        if holds(init, id) {
            let i = place(init, id);
            assert(claims[i].id == id);
        }
        if holds(kept, id) {
            let i = place(kept, id);
            assert(all[i].id == id);
        }
        if holds(all, id) && !holds(kept, id) {
            let i = place(all, id);
            if i < kept.len() {
                assert(kept[i].id == id);
            }
            assert(last.id == id && f(last));
            assert forall|c: Claim| c.id == id implies #[trigger] f(c) by {
                assert(f(c) == f(last));
            }
        }
        if holds(claims, id) && !holds(all, id) {
            if last.id == id {
                if f(last) {
                    assert(all[kept.len() as int].id == id);
                }
                assert forall|c: Claim| c.id == id implies !#[trigger] f(c) by {
                    assert(f(c) == f(last));
                }
            } else {
                let i = place(claims, id);
                assert(init[i].id == id);
            }
        }
    }
}

/// A tick keeps the cap, the counter and every claim that it found, under its id and
/// identifier and in its place; what it adds stands behind them, one claim for each
/// dispatch that starts.
pub proof fn ticks_keep_every_claim(was: PollState, active: Seq<Issue>)
    requires
        distinct(was.claims),
        was.claims.len() <= was.cap,
    ensures
        ({
            let done = ticked(was, active);
            let now = done.state.claims;
            &&& done.state.cap == was.cap
            &&& done.state.tick_seq == was.tick_seq
            &&& distinct(now)
            &&& now.len() <= was.cap
            &&& now.len() == was.claims.len() + done.started.len()
            &&& forall|i: int|
                0 <= i < was.claims.len() ==> (#[trigger] now[i]).id == was.claims[i].id
                    && now[i].identifier == was.claims[i].identifier
            &&& forall|m: int|
                0 <= m < done.started.len() ==> now[was.claims.len() + m].id == (
                #[trigger] done.started[m]).id@
        }),
{
    let kept = reconcile(was.claims, ids(active));
    lemma_reconcile_keeps_distinct(was.claims, ids(active));
    let at = claim_passes_start_what_they_claim(kept, was.cap, active);
    claim_passes_respect_the_cap(kept, was.cap, active);
    let done = ticked(was, active);
    assert forall|m: int| 0 <= m < done.started.len() implies done.state.claims[was.claims.len()
        + m].id == (#[trigger] done.started[m]).id@ by {
        assert(at[m] < active.len());
    }
}

/// After a tick every claim is of an active issue, or is marked to end for another
/// reason; what the tick dropped is marked, and nothing that it dropped is active or
/// starts.
pub proof fn after_a_tick_inactive_claims_are_marked(was: PollState, active: Seq<Issue>)
    requires
        distinct(was.claims),
        was.claims.len() <= was.cap,
    ensures
        ({
            let done = ticked(was, active);
            &&& forall|k: int|
                0 <= k < done.state.claims.len() ==> {
                    let claim = #[trigger] done.state.claims[k];
                    claim.override_reason is Some || exists|j: int|
                        0 <= j < active.len() && (#[trigger] active[j]).id@ == claim.id
                }
            &&& forall|d: int, j: int|
                0 <= d < done.dropped.len() && 0 <= j < active.len() ==> #[trigger] done.dropped[d]
                    != (#[trigger] active[j]).id@
            &&& forall|m: int|
                0 <= m < done.started.len() ==> exists|j: int|
                    0 <= j < active.len() && #[trigger] active[j] == #[trigger] done.started[m]
        }),
{
    let live = ids(active);
    let kept = reconcile(was.claims, live);
    let done = ticked(was, active);
    lemma_reconcile_keeps_distinct(was.claims, live);
    let at = claim_passes_start_what_they_claim(kept, was.cap, active);
    assert forall|k: int| 0 <= k < done.state.claims.len() implies {
        let claim = #[trigger] done.state.claims[k];
        claim.override_reason is Some || exists|j: int|
            0 <= j < active.len() && (#[trigger] active[j]).id@ == claim.id
    } by {
        if k < kept.len() {
            assert(done.state.claims[k] == kept[k]);
            if live.contains(kept[k].id) {
                let j = choose|j: int| 0 <= j < live.len() && live[j] == kept[k].id;
                assert(active[j].id@ == kept[k].id);
            }
        } else {
            let m = k - kept.len();
            assert(at[m] < active.len());
            assert(active[at[m]].id@ == done.state.claims[kept.len() + m].id);
        }
    }
    assert forall|d: int, j: int| 0 <= d < done.dropped.len() && 0 <= j < active.len() implies
        #[trigger] done.dropped[d] != (#[trigger] active[j]).id@ by {
        assert(done.dropped.contains(done.dropped[d]));
        lemma_drops(was.claims, live, done.dropped[d]);
        assert(live[j] == active[j].id@);
    }
    assert forall|m: int| 0 <= m < done.started.len() implies exists|j: int|
        0 <= j < active.len() && #[trigger] active[j] == #[trigger] done.started[m] by {
        assert(at[m] < active.len());
        assert(active[at[m]] == done.started[m]);
    }
}

/// The events of a tick: dropped issues are named once, all together and first, and only
/// if there are any; each start is announced once, in order, and nothing else is.
pub proof fn ticks_announce_every_start_once(
    events: Seq<OrchestratorEvent>,
    dropped: Seq<IssueId>,
    started: Seq<Issue>,
    k: int,
)
    requires
        reports(events, dropped, started),
        0 <= k < events.len(),
    ensures
        events.len() == started.len() + (if dropped.len() > 0 { 1int } else { 0int }),
        events[k] is Reconciled <==> k == 0 && dropped.len() > 0,
        events[k] matches OrchestratorEvent::Reconciled { dropped: named } ==> named@ == dropped,
        !(events[k] is Reconciled) ==> {
            let issue = started[if dropped.len() > 0 { k - 1 } else { k }];
            events[k] matches OrchestratorEvent::StateChanged {
                issue: id,
                identifier,
                previous,
                current,
            } && id == issue.id && identifier == issue.identifier && previous is None && current
                == ClaimState::Running
        },
{
}

/// The counter goes up by one with each tick, and starts over at the end of its range.
pub proof fn tick_counters_go_up(n: u64)
    ensures
        n < u64::MAX ==> next_seq(n) == n + 1,
        n == u64::MAX ==> next_seq(n) == 0,
{
}

/// A tick accounts for every active entry: it was claimed before, or starts, or stands
/// behind one that does under the same id, or is put off.
pub proof fn ticks_account_for_every_active_entry(was: PollState, active: Seq<Issue>)
    requires
        distinct(was.claims),
        was.claims.len() <= was.cap,
    ensures
        ({
            let done = ticked(was, active);
            &&& done.observed == active.len()
            &&& done.deferred == active.filter(
                |issue: Issue|
                    forall|k: int|
                        0 <= k < done.state.claims.len() ==> (
                        #[trigger] done.state.claims[k]).id != issue.id@,
            ).len()
            &&& done.deferred > 0 ==> done.state.claims.len() == was.cap
        }),
{
    let kept = reconcile(was.claims, ids(active));
    lemma_reconcile_keeps_distinct(was.claims, ids(active));
    claim_passes_put_off_what_is_left_unclaimed(kept, was.cap, active);
    lemma_pass_claims_or_is_full(kept, was.cap, active);
}

/// The event of a start names the issue, as newly running.
pub proof fn start_events_name_their_issue(issue: Issue)
    ensures
        start_event(issue) matches OrchestratorEvent::StateChanged {
            issue: id,
            identifier,
            previous,
            current,
        } && id == issue.id && identifier == issue.identifier && previous is None && current
            == ClaimState::Running,
{
}

/// Draining by force records an end for every claim.
pub proof fn forced_drains_end_every_claim(claims: Seq<Claim>, ends: Seq<EndView>, claim: Claim)
    requires
        distinct(claims),
        claims.contains(claim),
    ensures
        exists|i: int|
            0 <= i < forced(claims, ends).len() && (#[trigger] forced(claims, ends)[i]).id
                == claim.id && forced(claims, ends)[i].identifier == claim.identifier,
{
    let (left, endings) = force(claims, ends, ends.len());
    let tail = left.map_values(|c: Claim| canceled(c));
    let recorded = forced(claims, ends);
    lemma_forced(claims, ends, ends.len(), claim);
    if left.contains(claim) {
        let i = choose|i: int| 0 <= i < left.len() && left[i] == claim;
        assert(recorded[endings.len() + i] == tail[i]);
    } else {
        let i = choose|i: int|
            0 <= i < endings.len() && (#[trigger] endings[i]).id == claim.id
                && endings[i].identifier == claim.identifier;
        assert(recorded[i] == endings[i]);
    }
}

/// Whether no issue has its result given twice.
pub open spec fn results_once(ends: Seq<EndView>) -> bool {
    forall|i: int, j: int, id: Seq<char>|
        #![trigger gives(ends[i], id), gives(ends[j], id)]
        0 <= i < j < ends.len() && gives(ends[i], id) ==> !gives(ends[j], id)
}

/// Draining by force ends no issue twice, given that each task gives its result at most
/// once.
pub proof fn forced_drains_end_no_issue_twice(
    claims: Seq<Claim>,
    ends: Seq<EndView>,
    i: int,
    j: int,
)
    requires
        distinct(claims),
        results_once(ends),
        0 <= i < j < forced(claims, ends).len(),
    ensures
        forced(claims, ends)[i].id != forced(claims, ends)[j].id,
{
    let (left, endings) = force(claims, ends, ends.len());
    lemma_forced_once(claims, ends, ends.len());
    if j >= endings.len() {
        assert(forced(claims, ends)[j].id == left[j - endings.len()].id);
        if i < endings.len() {
            assert(!holds(left, endings[i].id));
        } else {
            assert(left[i - endings.len()].id != left[j - endings.len()].id);
        }
    }
}

/// A claim whose task still gave its result ends with that result, or with the reason it
/// was marked with; a claim whose task did not ends as cancelled. Either way its
/// identifier is recorded.
pub proof fn forced_drains_record_the_results(
    claims: Seq<Claim>,
    ends: Seq<EndView>,
    i: int,
) -> (k: int)
    requires
        distinct(claims),
        results_once(ends),
        0 <= i < claims.len(),
    ensures
        0 <= k < forced(claims, ends).len(),
        forced(claims, ends)[k].id == claims[i].id,
        forced(claims, ends)[k].identifier == claims[i].identifier,
        forall|j: int|
            0 <= j < ends.len() ==> (#[trigger] ends[j] matches EndView::Finished(id, reason)
                ==> id == claims[i].id ==> forced(claims, ends)[k].reason == (
            match claims[i].override_reason {
                Some(cause) => cause,
                None => reason,
            })),
        (forall|j: int|
            0 <= j < ends.len() ==> !(#[trigger] ends[j] matches EndView::Finished(id, _) && id
                == claims[i].id)) ==> forced(claims, ends)[k].reason == ReleaseReason::Canceled,
{
    let claim = claims[i];
    let (left, endings) = force(claims, ends, ends.len());
    lemma_forced_result(claims, ends, ends.len(), i);
    let k = if left.contains(claim) {
        let p = choose|p: int| 0 <= p < left.len() && left[p] == claim;
        endings.len() + p
    } else {
        choose|k: int|
            0 <= k < endings.len() && #[trigger] ends_as(endings[k], claim, ends, ends.len() as int)
    };
    if left.contains(claim) {
        assert(forced(claims, ends)[k] == canceled(claim));
        assert forall|j: int| 0 <= j < ends.len() implies !gives(#[trigger] ends[j], claim.id) by {}
    } else {
        assert(forced(claims, ends)[k] == endings[k]);
        if forall|j: int|
            0 <= j < ends.len() ==> !(#[trigger] ends[j] matches EndView::Finished(id, _) && id
                == claim.id) {
            assert forall|j: int| 0 <= j < ends.len() implies !gives(
                #[trigger] ends[j],
                claim.id,
            ) by {}
        }
    }
    k
}

spec fn ends_as(end: Ending, claim: Claim, ends: Seq<EndView>, n: int) -> bool {
    &&& end.id == claim.id
    &&& end.identifier == claim.identifier
    &&& forall|j: int|
        0 <= j < n && gives(#[trigger] ends[j], claim.id) ==> end.reason == (
        match claim.override_reason {
            Some(cause) => cause,
            None => ends[j]->Finished_1,
        })
    &&& (forall|j: int| 0 <= j < n ==> !gives(#[trigger] ends[j], claim.id)) ==> end.reason
        == ReleaseReason::Canceled && !finishes(ends, n, claim.id)
}

proof fn lemma_forced_result(claims: Seq<Claim>, ends: Seq<EndView>, n: nat, i: int)
    requires
        distinct(claims),
        results_once(ends),
        n <= ends.len(),
        0 <= i < claims.len(),
    ensures
        ({
            let (left, endings) = force(claims, ends, n);
            &&& left.contains(claims[i]) ==> forall|j: int|
                0 <= j < n ==> !gives(#[trigger] ends[j], claims[i].id)
            &&& !left.contains(claims[i]) ==> exists|k: int|
                0 <= k < endings.len() && #[trigger] ends_as(endings[k], claims[i], ends, n as int)
        }),
    decreases n,
{
    let claim = claims[i];
    if n == 0 {
        assert(claims[i] == claim);
    } else {
        let m = (n - 1) as nat;
        let (before, recorded) = force(claims, ends, m);
        let (left, endings) = force(claims, ends, n);
        lemma_forced_result(claims, ends, m, i);
        lemma_forced(claims, ends, m, claim);
        lemma_forced(claims, ends, n, claim);
        lemma_spare_is_spare(before, ends, n as int);
        assert forall|k: int| 0 <= k < recorded.len() implies endings[k] == recorded[k] by {}
        let end = ends[m as int];
        if before.contains(claim) {
            let p = choose|p: int| 0 <= p < before.len() && before[p] == claim;
            lemma_place(before, p);
            let q = recorded.len() as int;
            if gives(end, claim.id) {
                lemma_removed_is_not_held(before, p);
                if left.contains(claim) {
                    let x = choose|x: int| 0 <= x < left.len() && left[x] == claim;
                    assert(left[x].id == claim.id);
                }
                assert(ends_as(endings[q], claim, ends, n as int)) by {
                    assert forall|j: int| 0 <= j < n
                        && gives(#[trigger] ends[j], claim.id) implies j
                        == m by {}
                    assert(gives(ends[m as int], claim.id));
                }
            } else {
                match end {
                    EndView::Finished(other, _) => {
                        if holds(before, other) {
                            let r = place(before, other);
                            assert(r != p);
                            assert(left[if p < r { p } else { p - 1 }] == claim);
                        }
                    },
                    EndView::Aborted => {
                        let r = spare(before, ends, n as int);
                        if r == p {
                            lemma_removed_is_not_held(before, p);
                            if left.contains(claim) {
                                let x = choose|x: int| 0 <= x < left.len() && left[x] == claim;
                                assert(left[x].id == claim.id);
                            }
                            assert(endings[q] == canceled(claim));
                            assert(ends_as(endings[q], claim, ends, n as int));
                        } else if r < before.len() {
                            assert(left[if p < r { p } else { p - 1 }] == claim);
                        }
                    },
                    EndView::Panicked => {},
                }
            }
        } else {
            let k = choose|k: int|
                0 <= k < recorded.len() && #[trigger] ends_as(
                    recorded[k],
                    claim,
                    ends,
                    m as int,
                );
            lemma_left_is_part(claims, ends, n);
            lemma_left_shrinks(claims, ends, m, claim);
            assert(endings[k] == recorded[k]);
            assert(ends_as(endings[k], claim, ends, n as int)) by {
                if gives(end, claim.id) {
                    if forall|j: int| 0 <= j < m ==> !gives(#[trigger] ends[j], claim.id) {
                        assert(finishes(ends, m as int, claim.id));
                    } else {
                        let j = choose|j: int| 0 <= j < m && gives(#[trigger] ends[j], claim.id);
                        assert(!gives(ends[m as int], claim.id));
                    }
                }
                if forall|j: int| 0 <= j < n ==> !gives(#[trigger] ends[j], claim.id) {
                    assert forall|j: int| 0 <= j < m implies !gives(
                        #[trigger] ends[j],
                        claim.id,
                    ) by {}
                    if finishes(ends, n as int, claim.id) {
                        let j = choose|j: int|
                            n <= j < ends.len() && #[trigger] gives(ends[j], claim.id);
                        assert(m <= j && gives(ends[j], claim.id));
                        assert(finishes(ends, m as int, claim.id));
                    }
                }
            }
        }
    }
}

proof fn lemma_left_shrinks(claims: Seq<Claim>, ends: Seq<EndView>, m: nat, claim: Claim)
    requires
        m < ends.len(),
        !force(claims, ends, m).0.contains(claim),
    ensures
        !force(claims, ends, m + 1).0.contains(claim),
{
    let before = force(claims, ends, m).0;
    let left = force(claims, ends, m + 1).0;
    lemma_spare_is_spare(before, ends, (m + 1) as int);
    if left.contains(claim) {
        let x = choose|x: int| 0 <= x < left.len() && left[x] == claim;
        let gone: int = match ends[m as int] {
            EndView::Finished(id, _) => if holds(before, id) {
                place(before, id)
            } else {
                before.len() as int
            },
            EndView::Aborted => spare(before, ends, (m + 1) as int),
            EndView::Panicked => before.len() as int,
        };
        assert(before[if x < gone { x } else { x + 1 }] == claim);
    }
}

proof fn lemma_left_is_part(claims: Seq<Claim>, ends: Seq<EndView>, n: nat)
    requires
        n <= ends.len(),
    ensures
        forall|i: int|
            0 <= i < force(claims, ends, n).0.len() ==> claims.contains(
                #[trigger] force(claims, ends, n).0[i],
            ),
    decreases n,
{
    let left = force(claims, ends, n).0;
    if n == 0 {
        assert forall|i: int| 0 <= i < left.len() implies claims.contains(#[trigger] left[i]) by {
            assert(claims[i] == left[i]);
        }
    } else {
        let m = (n - 1) as nat;
        let before = force(claims, ends, m).0;
        lemma_left_is_part(claims, ends, m);
        assert forall|i: int| 0 <= i < left.len() implies claims.contains(#[trigger] left[i]) by {
            if !before.contains(left[i]) {
                lemma_left_shrinks(claims, ends, m, left[i]);
            }
            let x = choose|x: int| 0 <= x < before.len() && before[x] == left[i];
            assert(claims.contains(before[x]));
        }
    }
}

/// A forced drain records each result that a task gave, in the order in which they came,
/// also where nothing is claimed for it: then without an identifier and with the reason
/// given.
pub proof fn forced_drains_record_results_in_order(
    claims: Seq<Claim>,
    ends: Seq<EndView>,
    i: int,
    j: int,
) -> (at: (int, int))
    requires
        0 <= i < j < ends.len(),
        ends[i] is Finished,
        ends[j] is Finished,
    ensures
        0 <= at.0 < at.1 < forced(claims, ends).len(),
        forced(claims, ends)[at.0].id == ends[i]->Finished_0,
        forced(claims, ends)[at.1].id == ends[j]->Finished_0,
        ({
            let end = forced(claims, ends)[at.1];
            (forall|k: int| 0 <= k < claims.len() ==> (#[trigger] claims[k]).id != end.id)
                ==> end.identifier.len() == 0 && end.reason == ends[j]->Finished_1
        }),
{
    let a = force(claims, ends, i as nat).1.len() as int;
    let b = force(claims, ends, j as nat).1.len() as int;
    lemma_endings_grow(claims, ends, (i + 1) as nat, j as nat);
    lemma_endings_grow(claims, ends, (i + 1) as nat, ends.len());
    lemma_endings_grow(claims, ends, (j + 1) as nat, ends.len());
    let left = force(claims, ends, j as nat).0;
    let id = ends[j]->Finished_0;
    lemma_left_is_part(claims, ends, j as nat);
    if forall|k: int| 0 <= k < claims.len() ==> (#[trigger] claims[k]).id != id {
        assert forall|k: int| 0 <= k < left.len() implies (#[trigger] left[k]).id != id by {
            let x = choose|x: int| 0 <= x < claims.len() && claims[x] == left[k];
            assert(claims[x].id != id);
        }
    }
    (a, b)
}

proof fn lemma_endings_grow(claims: Seq<Claim>, ends: Seq<EndView>, m: nat, n: nat)
    requires
        m <= n <= ends.len(),
    ensures
        force(claims, ends, m).1.len() <= force(claims, ends, n).1.len(),
        forall|k: int|
            0 <= k < force(claims, ends, m).1.len() ==> #[trigger] force(claims, ends, n).1[k]
                == force(claims, ends, m).1[k],
    decreases n,
{
    if m < n {
        lemma_endings_grow(claims, ends, m, (n - 1) as nat);
        let before = force(claims, ends, (n - 1) as nat).1;
        let after = force(claims, ends, n).1;
        assert forall|k: int| 0 <= k < before.len() implies after[k] == before[k] by {}
    }
}

/// A forced drain records nothing else: every end it records is of a claimed issue, or of
/// one whose task gave a result.
pub proof fn forced_drains_record_nothing_else(claims: Seq<Claim>, ends: Seq<EndView>, k: int)
    requires
        0 <= k < forced(claims, ends).len(),
    ensures
        (exists|i: int|
            0 <= i < claims.len() && (#[trigger] claims[i]).id == forced(claims, ends)[k].id) || (
        exists|j: int|
            0 <= j < ends.len() && (#[trigger] ends[j] matches EndView::Finished(id, _) && id
                == forced(claims, ends)[k].id)),
{
    let (left, endings) = force(claims, ends, ends.len());
    lemma_left_is_part(claims, ends, ends.len());
    if k < endings.len() {
        lemma_endings_known(claims, ends, ends.len(), k);
    } else {
        let c = left[k - endings.len()];
        let i = choose|i: int| 0 <= i < claims.len() && claims[i] == c;
        assert(claims[i].id == forced(claims, ends)[k].id);
    }
}

proof fn lemma_endings_known(claims: Seq<Claim>, ends: Seq<EndView>, n: nat, k: int)
    requires
        n <= ends.len(),
        0 <= k < force(claims, ends, n).1.len(),
    ensures
        (exists|i: int|
            0 <= i < claims.len() && (#[trigger] claims[i]).id == force(claims, ends, n).1[k].id)
            || (exists|j: int|
            0 <= j < ends.len() && (#[trigger] ends[j] matches EndView::Finished(id, _) && id
                == force(claims, ends, n).1[k].id)),
    decreases n,
{
    if n > 0 {
        let m = (n - 1) as nat;
        let (before, recorded) = force(claims, ends, m);
        let endings = force(claims, ends, n).1;
        if k < recorded.len() {
            lemma_endings_known(claims, ends, m, k);
            assert(endings[k] == recorded[k]);
        } else {
            lemma_left_is_part(claims, ends, m);
            match ends[m as int] {
                EndView::Finished(id, _) => {
                    assert(ends[m as int] matches EndView::Finished(id, _) && id == endings[k].id);
                },
                EndView::Aborted => {
                    lemma_spare_is_spare(before, ends, n as int);
                    let c = before[spare(before, ends, n as int)];
                    let i = choose|i: int| 0 <= i < claims.len() && claims[i] == c;
                    assert(claims[i].id == endings[k].id);
                },
                EndView::Panicked => {},
            }
        }
    }
}

proof fn lemma_drops(claims: Seq<Claim>, active: Seq<Seq<char>>, id: Seq<char>)
    requires
        drops(claims, active).contains(id),
    ensures
        exists|i: int|
            0 <= i < claims.len() && (#[trigger] claims[i]).id == id && stale(claims[i], active),
    decreases claims.len(),
{
    if claims.len() > 0 {
        let init = claims.drop_last();
        let before = drops(init, active);
        let last = claims[claims.len() - 1];
        if stale(last, active) && last.id == id {
            assert(claims[claims.len() - 1].id == id);
        } else {
            let k = choose|k: int|
                0 <= k < drops(claims, active).len() && drops(claims, active)[k] == id;
            assert(before[k] == id);
            lemma_drops(init, active, id);
            let i = choose|i: int|
                0 <= i < init.len() && (#[trigger] init[i]).id == id && stale(init[i], active);
            assert(claims[i].id == id && stale(claims[i], active));
        }
    }
}

proof fn lemma_nothing_drops(claims: Seq<Claim>, active: Seq<Seq<char>>)
    requires
        forall|i: int| 0 <= i < claims.len() ==> !stale(#[trigger] claims[i], active),
    ensures
        drops(claims, active).len() == 0,
    decreases claims.len(),
{
    if claims.len() > 0 {
        assert(!stale(claims[claims.len() - 1], active));
        assert forall|i: int| 0 <= i < claims.drop_last().len() implies !stale(
            #[trigger] claims.drop_last()[i],
            active,
        ) by {
            assert(!stale(claims[i], active));
        }
        lemma_nothing_drops(claims.drop_last(), active);
    }
}

proof fn lemma_reconcile_keeps_distinct(claims: Seq<Claim>, active: Seq<Seq<char>>)
    requires
        distinct(claims),
    ensures
        distinct(reconcile(claims, active)),
{
    let kept = reconcile(claims, active);
    assert forall|i: int, j: int| 0 <= i < j < kept.len() implies (#[trigger] kept[i]).id != (
    #[trigger] kept[j]).id by {
        assert(claims[i].id != claims[j].id);
    }
}

proof fn lemma_pass_claims_or_is_full(claims: Seq<Claim>, cap: nat, active: Seq<Issue>)
    requires
        distinct(claims),
        claims.len() <= cap,
    ensures
        ({
            let (held, started, deferred) = claim_pass(claims, cap, active);
            &&& deferred > 0 ==> held.len() == cap
            &&& held.len() == cap || forall|i: int|
                0 <= i < active.len() ==> holds(held, (#[trigger] active[i]).id@)
        }),
    decreases active.len(),
{
    if active.len() > 0 {
        let init = active.drop_last();
        lemma_pass_claims_or_is_full(claims, cap, init);
        claim_passes_respect_the_cap(claims, cap, init);
        claim_passes_respect_the_cap(claims, cap, active);
        let (before, begun, late) = claim_pass(claims, cap, init);
        let (held, started, deferred) = claim_pass(claims, cap, active);
        if held.len() < cap {
            assert forall|i: int| 0 <= i < active.len() implies holds(
                held,
                (#[trigger] active[i]).id@,
            ) by {
                if i < init.len() {
                    assert(holds(before, init[i].id@));
                    let p = place(before, init[i].id@);
                    assert(held[p].id == active[i].id@);
                } else if !holds(before, active[i].id@) {
                    assert(held[before.len() as int].id == active[i].id@);
                }
            }
        }
    }
}

proof fn lemma_settled_pass(claims: Seq<Claim>, cap: nat, active: Seq<Issue>)
    requires
        claims.len() >= cap || forall|i: int|
            0 <= i < active.len() ==> holds(claims, (#[trigger] active[i]).id@),
    ensures
        claim_pass(claims, cap, active).0 == claims,
        claim_pass(claims, cap, active).1.len() == 0,
    decreases active.len(),
{
    if active.len() > 0 {
        let init = active.drop_last();
        if claims.len() < cap {
            assert forall|i: int| 0 <= i < init.len() implies holds(
                claims,
                (#[trigger] init[i]).id@,
            ) by {
                assert(holds(claims, active[i].id@));
            }
            assert(holds(claims, active[active.len() - 1].id@));
        }
        lemma_settled_pass(claims, cap, init);
    }
}

proof fn lemma_forced(claims: Seq<Claim>, ends: Seq<EndView>, n: nat, claim: Claim)
    requires
        distinct(claims),
        claims.contains(claim),
        n <= ends.len(),
    ensures
        ({
            let (left, endings) = force(claims, ends, n);
            &&& distinct(left)
            &&& left.contains(claim) || exists|i: int|
                0 <= i < endings.len() && (#[trigger] endings[i]).id == claim.id
                    && endings[i].identifier == claim.identifier
        }),
    decreases n,
{
    if n > 0 {
        let (before, recorded) = force(claims, ends, (n - 1) as nat);
        let (left, endings) = force(claims, ends, n);
        lemma_forced(claims, ends, (n - 1) as nat, claim);
        assert forall|k: int| 0 <= k < recorded.len() implies endings[k] == recorded[k] by {}
        let gone: int = match ends[n - 1] {
            EndView::Finished(id, _) => if holds(before, id) {
                place(before, id)
            } else {
                before.len() as int
            },
            EndView::Aborted => spare(before, ends, n as int),
            EndView::Panicked => before.len() as int,
        };
        lemma_spare_is_spare(before, ends, n as int);
        if gone < before.len() {
            lemma_remove_keeps_distinct(before, gone);
        }
        if before.contains(claim) {
            let i = choose|i: int| 0 <= i < before.len() && before[i] == claim;
            if i == gone {
                assert(endings[recorded.len() as int].id == claim.id);
            } else if gone < before.len() {
                assert(left[if i < gone { i } else { i - 1 }] == claim);
            }
        } else {
            let k = choose|k: int|
                0 <= k < recorded.len() && (#[trigger] recorded[k]).id == claim.id
                    && recorded[k].identifier == claim.identifier;
            assert(endings[k] == recorded[k]);
        }
    }
}

proof fn lemma_forced_once(claims: Seq<Claim>, ends: Seq<EndView>, n: nat)
    requires
        distinct(claims),
        results_once(ends),
        n <= ends.len(),
    ensures
        ({
            let (left, endings) = force(claims, ends, n);
            &&& distinct(left)
            &&& forall|i: int|
                0 <= i < endings.len() ==> !holds(left, (#[trigger] endings[i]).id) && !finishes(
                    ends,
                    n as int,
                    endings[i].id,
                )
            &&& forall|i: int, j: int|
                0 <= i < j < endings.len() ==> (#[trigger] endings[i]).id != (
                #[trigger] endings[j]).id
        }),
    decreases n,
{
    if n > 0 {
        let (before, recorded) = force(claims, ends, (n - 1) as nat);
        let (left, endings) = force(claims, ends, n);
        lemma_forced_once(claims, ends, (n - 1) as nat);
        lemma_spare_is_spare(before, ends, n as int);
        assert forall|id: Seq<char>| finishes(ends, n as int, id) implies finishes(
            ends,
            n - 1,
            id,
        ) by {
            let m = choose|m: int| n <= m < ends.len() && #[trigger] gives(ends[m], id);
            assert(n - 1 <= m && gives(ends[m], id));
        }
        match ends[n - 1] {
            EndView::Finished(id, _) => {
                assert(gives(ends[n - 1], id));
                assert(finishes(ends, n - 1, id));
                assert(!finishes(ends, n as int, id));
                if holds(before, id) {
                    lemma_removed_is_not_held(before, place(before, id));
                }
            },
            EndView::Aborted => {
                let k = spare(before, ends, n as int);
                if k < before.len() {
                    lemma_removed_is_not_held(before, k);
                    assert(holds(before, before[k].id));
                }
            },
            EndView::Panicked => {},
        }
        assert forall|i: int| 0 <= i < endings.len() implies !holds(
            left,
            (#[trigger] endings[i]).id,
        ) && !finishes(ends, n as int, endings[i].id) by {
            if i < recorded.len() {
                assert(endings[i] == recorded[i]);
            }
        }
        assert forall|i: int, j: int| 0 <= i < j < endings.len() implies (#[trigger] endings[i]).id
            != (#[trigger] endings[j]).id by {
            assert(endings[i] == recorded[i]);
            if j < recorded.len() {
                assert(endings[j] == recorded[j]);
            }
        }
    }
}

proof fn lemma_removed_is_not_held(claims: Seq<Claim>, p: int)
    requires
        distinct(claims),
        0 <= p < claims.len(),
    ensures
        distinct(claims.remove(p)),
        !holds(claims.remove(p), claims[p].id),
        forall|id: Seq<char>| holds(claims.remove(p), id) ==> holds(claims, id),
{
    let left = claims.remove(p);
    lemma_remove_keeps_distinct(claims, p);
    assert forall|i: int| 0 <= i < left.len() implies (#[trigger] left[i]).id != claims[p].id by {
        let x = if i < p { i } else { i + 1 };
        assert(left[i] == claims[x]);
        assert(claims[x].id != claims[p].id);
    }
    assert forall|id: Seq<char>| holds(left, id) implies holds(claims, id) by {
        let i = place(left, id);
        let x = if i < p { i } else { i + 1 };
        assert(claims[x] == left[i]);
    }
}

} // verus!
