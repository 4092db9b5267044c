//! The integration dispatch runner.
//!
//! A pass walks the parked requests and then the newly drained ones. Each request
//! needs a free permit, room in every concurrency scope and, where leasing is
//! wired, its lease; what is refused is parked for a later pass, except a request
//! whose run row is missing, which is dropped. A refused request gives its permit
//! back at once, so that another request can use it in the same pass.
//!
//! [`IntegrationDispatchRunner`] and [`IntegrationPass`] decide, and
//! [`crate::integration_admission`] says whom to ask about a request that holds a permit;
//! asking the scopes and the lease store, and running the dispatches, is the caller's
//! part.
use crate::blocker::RunRef;
use crate::concurrency_gate::{ContentionSubject, Scope, ScopeContended, ScopeFields, ScopeKind};
use crate::integration_tick::IntegrationDispatchRequest;
use crate::run_lease::{HeartbeatPulseObservation, LeaseAttempt};
use crate::runner_core;
use crate::runner_core::{PassCore, PassOffer, RunnerCore, Settlement};
use crate::work_item::WorkItemId;
use vstd::prelude::*;

verus! {

/// How one dispatch ended.
#[derive(Debug, Clone, Copy, PartialEq, Eq, Structural)]
pub enum IntegrationDispatchReason {
    /// Integration finished cleanly.
    Completed,
    /// Integration was blocked.
    Blocked,
    /// Cancelled cooperatively.
    Canceled,
    /// Failed for another reason.
    Failed,
}

/// What a finished dispatch reports.
#[derive(Debug, Clone, PartialEq, Eq)]
pub struct IntegrationDispatchOutcome {
    /// Durable parent id.
    pub parent_id: WorkItemId,
    /// Tracker-facing identifier.
    pub parent_identifier: String,
    /// How the dispatch ended.
    pub reason: IntegrationDispatchReason,
}

/// A dispatch that found a scope at its cap.
#[derive(Debug, Clone, PartialEq, Eq)]
pub struct ScopeContendedObservation {
    /// Tracker-facing identifier of the parked request.
    pub identifier: String,
    /// Run row reserved for the dispatch, when there is one.
    pub run_id: Option<RunRef>,
    /// Kind of the scope.
    pub scope_kind: ScopeKind,
    /// Label of the scope.
    pub scope_key: String,
    /// Permits in flight on the scope.
    pub in_flight: u32,
    /// Cap of the scope.
    pub cap: u32,
}

impl ScopeContendedObservation {
    /// Whether this is what a contended scope says of a request.
    pub open spec fn records(
        self,
        request: IntegrationDispatchRequest,
        contended: ScopeContended,
    ) -> bool {
        &&& self.identifier == request.parent_identifier
        &&& self.run_id == request.run_id
        &&& self.scope_kind == contended.scope.kind_of()
        &&& self.scope_key@ == contended.scope.key_of()
        &&& self.in_flight == contended.in_flight
        &&& self.cap == contended.cap
    }

    /// Record a contended scope.
    pub fn from_contention(
        identifier: String,
        run_id: Option<RunRef>,
        contended: &ScopeContended,
    ) -> (r: Self)
        ensures
            r.identifier == identifier,
            r.run_id == run_id,
            r.scope_kind == contended.scope.kind_of(),
            r.scope_key@ == contended.scope.key_of(),
            r.in_flight == contended.in_flight,
            r.cap == contended.cap,
    {
        ScopeContendedObservation {
            identifier,
            run_id,
            scope_kind: contended.scope.kind(),
            scope_key: contended.scope.key(),
            in_flight: contended.in_flight,
            cap: contended.cap,
        }
    }

    /// The run when there is one, else the identifier.
    pub fn subject(&self) -> (s: ContentionSubject)
        ensures
            s == (match self.run_id {
                Some(run) => ContentionSubject::Run(run.0),
                None => ContentionSubject::Identifier(self.identifier),
            }),
    {
        match self.run_id {
            Some(run) => ContentionSubject::Run(run.get()),
            None => ContentionSubject::Identifier(self.identifier.clone()),
        }
    }

    /// The recorded facts of the scope.
    pub fn fields(&self) -> (f: ScopeFields)
        ensures
            f == (ScopeFields {
                scope_kind: self.scope_kind,
                scope_key: self.scope_key,
                in_flight: self.in_flight,
                cap: self.cap,
            }),
    {
        ScopeFields {
            scope_kind: self.scope_kind,
            scope_key: self.scope_key.clone(),
            in_flight: self.in_flight,
            cap: self.cap,
        }
    }
}

/// What one pass did.
#[derive(Debug, Clone, PartialEq, Eq)]
pub struct IntegrationRunReport {
    /// Requests whose dispatch was started.
    pub spawned: usize,
    /// Requests parked because no permit was free.
    pub deferred_capacity: usize,
    /// Requests parked because another owner held the lease.
    pub deferred_lease_contention: usize,
    /// Requests dropped because their run row is missing.
    pub missing_run: usize,
    /// Requests parked because the lease store failed.
    pub lease_backend_error: usize,
    /// Requests parked because a scope was at its cap.
    pub deferred_scope_contention: usize,
    /// One observation per request of the previous count, in walk order.
    pub scope_contentions: Vec<ScopeContendedObservation>,
}

impl Default for IntegrationRunReport {
    fn default() -> (r: Self)
        ensures
            r.idle(),
    {
        IntegrationRunReport {
            spawned: 0,
            deferred_capacity: 0,
            deferred_lease_contention: 0,
            missing_run: 0,
            lease_backend_error: 0,
            deferred_scope_contention: 0,
            scope_contentions: Vec::new(),
        }
    }
}

impl IntegrationRunReport {
    /// Nothing happened.
    pub open spec fn idle(self) -> bool {
        &&& self.spawned == 0
        &&& self.deferred_capacity == 0
        &&& self.deferred_lease_contention == 0
        &&& self.missing_run == 0
        &&& self.lease_backend_error == 0
        &&& self.deferred_scope_contention == 0
        &&& self.scope_contentions@.len() == 0
    }

    /// How many requests the report counts as parked.
    pub open spec fn parked(self) -> nat {
        (self.deferred_capacity + self.deferred_lease_contention + self.lease_backend_error
            + self.deferred_scope_contention) as nat
    }

    /// How many requests the report counts.
    pub open spec fn total(self) -> nat {
        (self.parked() + self.spawned + self.missing_run) as nat
    }

    /// True when the pass did nothing at all.
    pub fn is_idle(&self) -> (b: bool)
        ensures
            b == self.idle(),
    {
        self.spawned == 0 && self.deferred_capacity == 0 && self.deferred_lease_contention == 0
            && self.missing_run == 0 && self.lease_backend_error == 0
            && self.deferred_scope_contention == 0 && self.scope_contentions.len() == 0
    }

    /// What to record about the contended scopes of the pass, in walk order.
    pub fn observations(&self) -> (out: Vec<(ContentionSubject, ScopeFields)>)
        ensures
            out@.len() == self.scope_contentions@.len(),
            forall|i: int|
                0 <= i < out@.len() ==> {
                    let seen = self.scope_contentions@[i];
                    &&& (#[trigger] out@[i]).0 == (match seen.run_id {
                        Some(run) => ContentionSubject::Run(run.0),
                        None => ContentionSubject::Identifier(seen.identifier),
                    })
                    &&& out@[i].1 == (ScopeFields {
                        scope_kind: seen.scope_kind,
                        scope_key: seen.scope_key,
                        in_flight: seen.in_flight,
                        cap: seen.cap,
                    })
                },
    {
        let mut out: Vec<(ContentionSubject, ScopeFields)> = Vec::new();
        for i in 0..self.scope_contentions.len()
            invariant
                out@.len() == i,
                forall|j: int|
                    0 <= j < i ==> {
                        let seen = self.scope_contentions@[j];
                        &&& (#[trigger] out@[j]).0 == (match seen.run_id {
                            Some(run) => ContentionSubject::Run(run.0),
                            None => ContentionSubject::Identifier(seen.identifier),
                        })
                        &&& out@[j].1 == (ScopeFields {
                            scope_kind: seen.scope_kind,
                            scope_key: seen.scope_key,
                            in_flight: seen.in_flight,
                            cap: seen.cap,
                        })
                    },
        {
            let seen: &ScopeContendedObservation = &self.scope_contentions[i];
            out.push((seen.subject(), seen.fields()));
        }
        out
    }
}

/// What came of renewing the lease of a running dispatch.
#[derive(Debug, Clone, PartialEq, Eq)]
pub struct RunnerHeartbeatObservation {
    /// Run row whose lease was renewed.
    pub run_id: RunRef,
    /// Tracker-facing identifier of the parent.
    pub identifier: String,
    /// What came of it.
    pub observation: HeartbeatPulseObservation,
}

/// What the caller learnt about a request that holds a permit.
#[derive(Debug, Clone, PartialEq, Eq)]
pub enum IntegrationAdmission {
    /// A scope was at its cap.
    ScopeContended(ScopeContended),
    /// The scopes had room; this came of the lease.
    Lease(LeaseAttempt),
}

impl IntegrationAdmission {
    /// What is to become of the request: a contended scope or lease and a failing
    /// store park it, a missing run row drops it.
    pub open spec fn settlement(self) -> Settlement {
        match self {
            IntegrationAdmission::ScopeContended(_) => Settlement::Park,
            IntegrationAdmission::Lease(LeaseAttempt::Contended) => Settlement::Park,
            IntegrationAdmission::Lease(LeaseAttempt::BackendError) => Settlement::Park,
            IntegrationAdmission::Lease(LeaseAttempt::NotFound) => Settlement::Drop,
            IntegrationAdmission::Lease(LeaseAttempt::Acquired) => Settlement::Start,
        }
    }
}

/// One pass in progress.
pub struct IntegrationPass {
    core: PassCore<IntegrationDispatchRequest>,
    report: IntegrationRunReport,
}

/// The report counts one more request as parked for want of a permit.
pub open spec fn counts_full(before: IntegrationRunReport, after: IntegrationRunReport) -> bool {
    &&& after.deferred_capacity == before.deferred_capacity + 1
    &&& after.spawned == before.spawned
    &&& after.deferred_lease_contention == before.deferred_lease_contention
    &&& after.missing_run == before.missing_run
    &&& after.lease_backend_error == before.lease_backend_error
    &&& after.deferred_scope_contention == before.deferred_scope_contention
    &&& after.scope_contentions@ == before.scope_contentions@
}

/// The report counts one more request, with this admission.
pub open spec fn counts_admission(
    before: IntegrationRunReport,
    after: IntegrationRunReport,
    request: IntegrationDispatchRequest,
    admission: IntegrationAdmission,
) -> bool {
    let started = admission == IntegrationAdmission::Lease(LeaseAttempt::Acquired);
    let contended = admission == IntegrationAdmission::Lease(LeaseAttempt::Contended);
    let missing = admission == IntegrationAdmission::Lease(LeaseAttempt::NotFound);
    let failed = admission == IntegrationAdmission::Lease(LeaseAttempt::BackendError);
    &&& after.deferred_capacity == before.deferred_capacity
    &&& after.spawned == before.spawned + (if started { 1int } else { 0int })
    &&& after.deferred_lease_contention == before.deferred_lease_contention + (if contended {
        1int
    } else {
        0int
    })
    &&& after.missing_run == before.missing_run + (if missing { 1int } else { 0int })
    &&& after.lease_backend_error == before.lease_backend_error + (if failed { 1int } else { 0int })
    &&& match admission {
        IntegrationAdmission::ScopeContended(scope) => {
            &&& after.deferred_scope_contention == before.deferred_scope_contention + 1
            &&& after.scope_contentions@.len() == before.scope_contentions@.len() + 1
            &&& after.scope_contentions@.drop_last() == before.scope_contentions@
            &&& after.scope_contentions@.last().records(request, scope)
        },
        IntegrationAdmission::Lease(_) => {
            &&& after.deferred_scope_contention == before.deferred_scope_contention
            &&& after.scope_contentions@ == before.scope_contentions@
        },
    }
}

impl View for IntegrationPass {
    type V = runner_core::PassState<IntegrationDispatchRequest>;

    closed spec fn view(&self) -> runner_core::PassState<IntegrationDispatchRequest> {
        self.core@
    }
}

impl IntegrationPass {
    #[verifier::type_invariant]
    spec fn well_formed(self) -> bool {
        &&& self.core@.work.len() <= usize::MAX
        &&& self.report.total() + self.core@.remaining.len() == self.core@.work.len()
        &&& self.report.parked() == self.core@.parked.len()
        &&& self.report.deferred_scope_contention == self.report.scope_contentions@.len()
    }

    /// What the pass has done so far.
    pub closed spec fn so_far(&self) -> IntegrationRunReport {
        self.report
    }

    /// The current request, if any is left.
    pub fn current(&self) -> (r: Option<&IntegrationDispatchRequest>)
        ensures
            match r {
                Some(c) => self@.remaining.len() > 0 && *c == self@.remaining[0],
                None => self@.remaining.len() == 0,
            },
    {
        self.core.current()
    }
}

/// Bounded-concurrency consumer of integration dispatches.
pub struct IntegrationDispatchRunner {
    core: RunnerCore<IntegrationDispatchRequest>,
}

impl View for IntegrationDispatchRunner {
    type V = runner_core::RunnerState<IntegrationDispatchRequest>;

    closed spec fn view(&self) -> runner_core::RunnerState<IntegrationDispatchRequest> {
        self.core@
    }
}

impl IntegrationDispatchRunner {
    /// A runner with capacity `max_concurrent`; a capacity of zero disables
    /// dispatch.
    pub fn new(max_concurrent: usize) -> (r: Self)
        ensures
            r@.capacity == max_concurrent,
            r@.in_use == 0,
            r@.deferred.len() == 0,
    {
        IntegrationDispatchRunner { core: RunnerCore::new(max_concurrent) }
    }

    /// Configured capacity.
    pub fn max_concurrent(&self) -> (n: usize)
        ensures
            n == self@.capacity,
    {
        self.core.max_concurrent()
    }

    /// Permits taken; never more than the capacity.
    pub fn permits_in_use(&self) -> (n: usize)
        ensures
            n == self@.in_use,
            n <= self@.capacity,
    {
        self.core.permits_in_use()
    }

    /// Requests parked for a later pass.
    pub fn deferred_count(&self) -> (n: usize)
        ensures
            n == self@.deferred.len(),
    {
        self.core.parked().len()
    }

    /// The parked requests, oldest first.
    pub fn deferred_requests(&self) -> (v: &Vec<IntegrationDispatchRequest>)
        ensures
            v@ == self@.deferred,
    {
        self.core.parked()
    }

    /// Start a pass over the parked requests and the drained ones, in that order.
    pub fn begin_pass(&mut self, drained: Vec<IntegrationDispatchRequest>) -> (pass:
        IntegrationPass)
        ensures
            (final(self)@, pass@) == runner_core::begin_step(old(self)@, drained@),
            pass@ == runner_core::PassState::over(old(self)@.deferred + drained@),
            pass.so_far().idle(),
            final(self)@ == (runner_core::RunnerState { deferred: Seq::empty(), ..old(self)@ }),
    {
        let core = self.core.begin_pass(drained);
        IntegrationPass { core, report: IntegrationRunReport::default() }
    }

    /// Try to get a permit for the current request; without one it is parked.
    pub fn offer(&mut self, pass: IntegrationPass) -> (r: (IntegrationPass, PassOffer))
        ensures
            (final(self)@, r.0@, r.1) == runner_core::offer_step(old(self)@, pass@),
            if r.1 == PassOffer::Parked {
                counts_full(pass.so_far(), r.0.so_far())
            } else {
                r.0.so_far() == pass.so_far()
            },
    {
        proof {
            use_type_invariant(&pass);
        }
        let IntegrationPass { core, report } = pass;
        let mut report: IntegrationRunReport = report;
        let (core, offer) = self.core.offer(core);
        match offer {
            PassOffer::Parked => {
                report.deferred_capacity = report.deferred_capacity + 1;
            },
            PassOffer::Granted => {},
            PassOffer::Finished => {},
        }
        (IntegrationPass { core, report }, offer)
    }

    /// Settle the current request, if it holds a permit, by what the caller learnt
    /// about it. A request whose dispatch is to start is handed out and keeps its
    /// permit; otherwise the permit is given back.
    pub fn settle(&mut self, pass: IntegrationPass, admission: IntegrationAdmission) -> (r: (
        IntegrationPass,
        Option<IntegrationDispatchRequest>,
    ))
        ensures
            (final(self)@, r.0@) == runner_core::settle_step(
                old(self)@,
                pass@,
                admission.settlement(),
            ),
            r.1 == runner_core::handed_out(pass@, admission.settlement()),
            r.1 == (if pass@.granted && admission.settlement() == Settlement::Start {
                Some(pass@.remaining[0])
            } else {
                None
            }),
            if pass@.granted {
                counts_admission(pass.so_far(), r.0.so_far(), pass@.remaining[0], admission)
            } else {
                r.0.so_far() == pass.so_far()
            },
    {
        proof {
            use_type_invariant(&pass);
        }
        if !pass.core.is_granted() {
            return (pass, None);
        }
        let ghost before = pass.report;
        let IntegrationPass { core, report } = pass;
        let mut report: IntegrationRunReport = report;
        let settlement: Settlement = match admission {
            IntegrationAdmission::ScopeContended(contended) => {
                let (identifier, run_id): (String, Option<RunRef>) = match core.current() {
                    Some(request) => (request.parent_identifier.clone(), request.run_id),
                    None => (String::new(), None),
                };
                report.scope_contentions.push(
                    ScopeContendedObservation::from_contention(identifier, run_id, &contended),
                );
                assert(report.scope_contentions@.drop_last() =~= before.scope_contentions@);
                report.deferred_scope_contention = report.deferred_scope_contention + 1;
                Settlement::Park
            },
            IntegrationAdmission::Lease(LeaseAttempt::Contended) => {
                report.deferred_lease_contention = report.deferred_lease_contention + 1;
                Settlement::Park
            },
            IntegrationAdmission::Lease(LeaseAttempt::NotFound) => {
                report.missing_run = report.missing_run + 1;
                Settlement::Drop
            },
            IntegrationAdmission::Lease(LeaseAttempt::BackendError) => {
                report.lease_backend_error = report.lease_backend_error + 1;
                Settlement::Park
            },
            IntegrationAdmission::Lease(LeaseAttempt::Acquired) => {
                report.spawned = report.spawned + 1;
                Settlement::Start
            },
        };
        let (core, request) = self.core.settle(core, settlement);
        (IntegrationPass { core, report }, request)
    }

    /// A dispatch has ended: its permit is free again.
    pub fn finish_dispatch(&mut self)
        ensures
            final(self)@ == old(self)@.refunded(),
    {
        self.core.release();
    }

    /// End a pass: what it parked waits for the next one, in age order, before
    /// anything parked since. The report counts every settled request once, has one
    /// observation for each contended scope, and is idle only after an empty pass.
    pub fn end_pass(&mut self, pass: IntegrationPass) -> (report: IntegrationRunReport)
        ensures
            report == pass.so_far(),
            final(self)@ == runner_core::end_step(old(self)@, pass@),
            runner_core::in_order_within(pass@.parked + pass@.remaining, pass@.work),
            report.total() + pass@.remaining.len() == pass@.work.len(),
            report.parked() == pass@.parked.len(),
            report.deferred_scope_contention == report.scope_contentions@.len(),
            pass@.remaining.len() == 0 ==> (report.idle() <==> pass@.work.len() == 0),
    {
        proof {
            use_type_invariant(&pass);
        }
        let IntegrationPass { core, report } = pass;
        self.core.end_pass(core);
        report
    }
}

/// Only a request whose lease is held, or needs none, starts; only a missing run row
/// drops one; whatever else holds a request back leaves it waiting.
pub proof fn only_held_leases_start_a_request(admission: IntegrationAdmission)
    ensures
        admission.settlement() == Settlement::Start <==> admission == IntegrationAdmission::Lease(
            LeaseAttempt::Acquired,
        ),
        admission.settlement() == Settlement::Drop <==> (admission == IntegrationAdmission::Lease(
            LeaseAttempt::NotFound,
        )),
        admission is ScopeContended ==> admission.settlement() == Settlement::Park,
        admission == IntegrationAdmission::Lease(LeaseAttempt::Contended)
            || admission == IntegrationAdmission::Lease(
            LeaseAttempt::BackendError,
        ) ==> admission.settlement() == Settlement::Park,
{
}

/// A report moves one counter for each settled request, the one that names what became of
/// it, and no other.
pub proof fn reports_move_one_counter(
    before: IntegrationRunReport,
    after: IntegrationRunReport,
    request: IntegrationDispatchRequest,
    admission: IntegrationAdmission,
)
    requires
        counts_admission(before, after, request, admission),
    ensures
        after.spawned
                + after.deferred_capacity
                + after.deferred_lease_contention
                + after.missing_run
                + after.lease_backend_error
                + after.deferred_scope_contention
            == 1 + before.spawned
                + before.deferred_capacity
                + before.deferred_lease_contention
                + before.missing_run
                + before.lease_backend_error
                + before.deferred_scope_contention,
        after.deferred_capacity == before.deferred_capacity,
        (after.spawned > before.spawned) == (admission
            == IntegrationAdmission::Lease(LeaseAttempt::Acquired)),
        (after.deferred_lease_contention > before.deferred_lease_contention) == (admission
            == IntegrationAdmission::Lease(LeaseAttempt::Contended)),
        (after.missing_run > before.missing_run) == (admission == IntegrationAdmission::Lease(
            LeaseAttempt::NotFound,
        )),
        (after.lease_backend_error > before.lease_backend_error) == (admission
            == IntegrationAdmission::Lease(LeaseAttempt::BackendError)),
        (after.deferred_scope_contention > before.deferred_scope_contention)
            == (admission is ScopeContended),
        admission.settlement() == Settlement::Park <==> after.parked() == before.parked() + 1,
        after.total() == before.total() + 1,
{
}

/// A contended scope leaves one more observation, which names the request and gives the
/// scope's kind, label, load and cap; anything else leaves none.
pub proof fn contended_scopes_are_observed(
    before: IntegrationRunReport,
    after: IntegrationRunReport,
    request: IntegrationDispatchRequest,
    admission: IntegrationAdmission,
)
    requires
        counts_admission(before, after, request, admission),
    ensures
        !(admission is ScopeContended) ==> after.scope_contentions@ == before.scope_contentions@,
        admission matches IntegrationAdmission::ScopeContended(contended) ==> {
            let known = before.scope_contentions@.len() as int;
            let seen = after.scope_contentions@[known];
            &&& after.scope_contentions@.len() == known + 1
            &&& after.scope_contentions@.take(known) == before.scope_contentions@
            &&& seen.identifier == request.parent_identifier
            &&& seen.run_id == request.run_id
            &&& seen.in_flight == contended.in_flight
            &&& seen.cap == contended.cap
            &&& match contended.scope {
                Scope::Global => seen.scope_kind == ScopeKind::Global && seen.scope_key@.len() == 0,
                Scope::Role(key) => seen.scope_kind == ScopeKind::Role && seen.scope_key@ == key@,
                Scope::AgentProfile(key) => seen.scope_kind == ScopeKind::AgentProfile
                    && seen.scope_key@ == key@,
                Scope::Repository(key) => seen.scope_kind == ScopeKind::Repository
                    && seen.scope_key@ == key@,
            }
        },
{
    if admission is ScopeContended {
        assert(after.scope_contentions@.take(before.scope_contentions@.len() as int)
            =~= after.scope_contentions@.drop_last());
    }
}

/// A request that finds no permit free moves the capacity counter by one, and nothing
/// else.
pub proof fn full_runners_move_the_capacity_counter(
    before: IntegrationRunReport,
    after: IntegrationRunReport,
)
    requires
        counts_full(before, after),
    ensures
        after.deferred_capacity == before.deferred_capacity + 1,
        after.spawned
                + after.deferred_capacity
                + after.deferred_lease_contention
                + after.missing_run
                + after.lease_backend_error
                + after.deferred_scope_contention
            == 1 + before.spawned
                + before.deferred_capacity
                + before.deferred_lease_contention
                + before.missing_run
                + before.lease_backend_error
                + before.deferred_scope_contention,
        after.spawned >= before.spawned,
        after.deferred_lease_contention >= before.deferred_lease_contention,
        after.missing_run >= before.missing_run,
        after.lease_backend_error >= before.lease_backend_error,
        after.deferred_scope_contention >= before.deferred_scope_contention,
        after.parked() == before.parked() + 1,
        after.total() == before.total() + 1,
        after.scope_contentions@ == before.scope_contentions@,
{
}

/// A report is idle exactly when it counts nothing and observed nothing.
pub proof fn idle_reports_count_nothing(report: IntegrationRunReport)
    ensures
        report.idle() <==> {
            &&& report.spawned + report.deferred_capacity + report.deferred_lease_contention
                + report.missing_run + report.lease_backend_error
                + report.deferred_scope_contention == 0
            &&& report.scope_contentions@.len() == 0
        },
        report.idle() ==> report.total() == 0 && report.parked() == 0,
        report.total() == report.parked() + report.spawned + report.missing_run,
{
}

/// A failing lease store loses no request: a walk in which no run row is missing starts
/// or parks every request.
pub proof fn failing_stores_lose_nothing(
    runner: runner_core::RunnerState<IntegrationDispatchRequest>,
    work: Seq<IntegrationDispatchRequest>,
    answers: spec_fn(IntegrationDispatchRequest) -> IntegrationAdmission,
)
    requires
        forall|r: IntegrationDispatchRequest|
            #[trigger] answers(r) != IntegrationAdmission::Lease(LeaseAttempt::NotFound),
    ensures
        ({
            let (end, done, started) = runner_core::walk(
                runner,
                runner_core::PassState::over(work),
                |r: IntegrationDispatchRequest| answers(r).settlement(),
            );
            forall|r: IntegrationDispatchRequest| #[trigger]
                work.contains(r) ==> started.contains(r) || done.parked.contains(r)
        }),
{
    let settles = |r: IntegrationDispatchRequest| answers(r).settlement();
    runner_core::walks_lose_nothing(runner, runner_core::PassState::over(work), settles);
    assert forall|r: IntegrationDispatchRequest| #[trigger] settles(r) != Settlement::Drop by {
        assert(answers(r) != IntegrationAdmission::Lease(LeaseAttempt::NotFound));
    }
    assert forall|r: IntegrationDispatchRequest| #[trigger] work.contains(r) implies {
        let (end, done, started) = runner_core::walk(
            runner,
            runner_core::PassState::over(work),
            settles,
        );
        started.contains(r) || done.parked.contains(r)
    } by {
        assert(runner_core::PassState::over(work).remaining.contains(r));
        assert(settles(r) != Settlement::Drop);
    }
}

} // verus!
