//! The follow-up approval runner.
//!
//! A pass walks the parked requests and then the newly drained ones. Each request
//! needs a free permit, room in every concurrency scope, no pending cancellation and,
//! where leasing is wired, its lease; what is refused is parked for a later pass,
//! except a request that is cancelled or whose run row is missing, which is dropped. A
//! refused request gives its permit back at once, so that another request can use it in
//! the same pass.
//!
//! [`FollowupApprovalRunner`] and [`FollowupApprovalPass`] decide, and
//! [`crate::followup_approval_admission`] says whom to ask about a request that holds a
//! permit; asking the scopes, the cancellation queue and the lease store, and running the
//! dispatches, is the caller's part.
use crate::blocker::RunRef;
use crate::cancellation::CancelRequest;
use crate::concurrency_gate::{ContentionSubject, Scope, ScopeContended, ScopeFields, ScopeKind};
use crate::followup::FollowupId;
use crate::followup_approval_tick::FollowupApprovalDispatchRequest;
use crate::run_lease::{HeartbeatPulseObservation, LeaseAttempt};
use crate::runner_core;
use crate::runner_core::{PassCore, PassOffer, RunnerCore, Settlement};
use crate::text;
use crate::work_item::WorkItemId;
use vstd::prelude::*;

verus! {

/// How one approval session ended.
#[derive(Debug, Clone, Copy, PartialEq, Eq, Structural)]
pub enum FollowupApprovalDispatchReason {
    /// The proposal was accepted.
    Approved,
    /// The proposal was rejected.
    Rejected,
    /// No decision yet; the proposal stays proposed.
    Deferred,
    /// Cancelled cooperatively.
    Canceled,
    /// Failed for another reason.
    Failed,
}

/// What a finished approval session reports.
#[derive(Debug, Clone, PartialEq, Eq)]
pub struct FollowupApprovalDispatchOutcome {
    /// Durable follow-up id.
    pub followup_id: FollowupId,
    /// How the session ended.
    pub reason: FollowupApprovalDispatchReason,
}

/// A dispatch that a pending cancellation stopped before its lease.
#[derive(Debug, Clone, PartialEq, Eq)]
pub struct FollowupApprovalCancellationObserved {
    /// Durable follow-up id.
    pub followup_id: FollowupId,
    /// Work item that spawned the proposal.
    pub source_work_item: WorkItemId,
    /// Run row reserved for the dispatch, when there is one. Only then is a run to be
    /// marked cancelled and its queue entry to be drained; a cancellation of the work
    /// item stays pending.
    pub run_id: Option<RunRef>,
    /// The cancellation as it was pending.
    pub request: CancelRequest,
}

/// A dispatch that found a scope at its cap.
#[derive(Debug, Clone, PartialEq, Eq)]
pub struct ScopeContendedObservation {
    /// Follow-up id of the parked request.
    pub followup_id: FollowupId,
    /// Kind of the scope.
    pub scope_kind: ScopeKind,
    /// Label of the scope.
    pub scope_key: String,
    /// Permits in flight on the scope.
    pub in_flight: u32,
    /// Cap of the scope.
    pub cap: u32,
}

impl ScopeContendedObservation {
    /// Whether this is what a contended scope says of a request.
    pub open spec fn records(
        self,
        request: FollowupApprovalDispatchRequest,
        contended: ScopeContended,
    ) -> bool {
        &&& self.followup_id == request.followup_id
        &&& self.scope_kind == contended.scope.kind_of()
        &&& self.scope_key@ == contended.scope.key_of()
        &&& self.in_flight == contended.in_flight
        &&& self.cap == contended.cap
    }

    /// Record a contended scope.
    pub fn from_contention(followup_id: FollowupId, contended: &ScopeContended) -> (r: Self)
        ensures
            r.followup_id == followup_id,
            r.scope_kind == contended.scope.kind_of(),
            r.scope_key@ == contended.scope.key_of(),
            r.in_flight == contended.in_flight,
            r.cap == contended.cap,
    {
        ScopeContendedObservation {
            followup_id,
            scope_kind: contended.scope.kind(),
            scope_key: contended.scope.key(),
            in_flight: contended.in_flight,
            cap: contended.cap,
        }
    }

    /// The recorded facts of the scope.
    pub fn fields(&self) -> (f: ScopeFields)
        ensures
            f == (ScopeFields {
                scope_kind: self.scope_kind,
                scope_key: self.scope_key,
                in_flight: self.in_flight,
                cap: self.cap,
            }),
    {
        ScopeFields {
            scope_kind: self.scope_kind,
            scope_key: self.scope_key.clone(),
            in_flight: self.in_flight,
            cap: self.cap,
        }
    }
}

/// Whether a subject is the decimal numeral of a follow-up id.
pub open spec fn names_followup(subject: ContentionSubject, followup: FollowupId) -> bool {
    subject matches ContentionSubject::Identifier(name) && name@ == text::signed_decimal(
        followup.0 as int,
    )
}

/// What one pass did.
#[derive(Debug, Clone, PartialEq, Eq)]
pub struct FollowupApprovalRunReport {
    /// Requests whose dispatch was started.
    pub spawned: usize,
    /// Requests parked because no permit was free.
    pub deferred_capacity: usize,
    /// Requests parked because another owner held the lease.
    pub deferred_lease_contention: usize,
    /// Requests dropped because their run row is missing.
    pub missing_run: usize,
    /// Requests parked because the lease store failed.
    pub lease_backend_error: usize,
    /// Requests parked because a scope was at its cap.
    pub deferred_scope_contention: usize,
    /// One observation per request of the previous count, in walk order.
    pub scope_contentions: Vec<ScopeContendedObservation>,
    /// Requests dropped because a cancellation was pending.
    pub cancelled_before_lease: usize,
    /// One observation per request of the previous count, in walk order.
    pub cancellations: Vec<FollowupApprovalCancellationObserved>,
}

impl Default for FollowupApprovalRunReport {
    fn default() -> (r: Self)
        ensures
            r.idle(),
    {
        FollowupApprovalRunReport {
            spawned: 0,
            deferred_capacity: 0,
            deferred_lease_contention: 0,
            missing_run: 0,
            lease_backend_error: 0,
            deferred_scope_contention: 0,
            scope_contentions: Vec::new(),
            cancelled_before_lease: 0,
            cancellations: Vec::new(),
        }
    }
}

impl FollowupApprovalRunReport {
    /// Nothing happened.
    pub open spec fn idle(self) -> bool {
        &&& self.spawned == 0
        &&& self.deferred_capacity == 0
        &&& self.deferred_lease_contention == 0
        &&& self.missing_run == 0
        &&& self.lease_backend_error == 0
        &&& self.deferred_scope_contention == 0
        &&& self.scope_contentions@.len() == 0
        &&& self.cancelled_before_lease == 0
        &&& self.cancellations@.len() == 0
    }

    /// How many requests the report counts as parked.
    pub open spec fn parked(self) -> nat {
        (self.deferred_capacity + self.deferred_lease_contention + self.lease_backend_error
            + self.deferred_scope_contention) as nat
    }

    /// How many requests the report counts.
    pub open spec fn total(self) -> nat {
        (self.parked() + self.spawned + self.missing_run + self.cancelled_before_lease) as nat
    }

    /// True when the pass did nothing at all.
    pub fn is_idle(&self) -> (b: bool)
        ensures
            b == self.idle(),
    {
        self.spawned == 0 && self.deferred_capacity == 0 && self.deferred_lease_contention == 0
            && self.missing_run == 0 && self.lease_backend_error == 0
            && self.deferred_scope_contention == 0 && self.scope_contentions.len() == 0
            && self.cancelled_before_lease == 0 && self.cancellations.len() == 0
    }

    /// What to record about the contended scopes of the pass, in walk order, each under
    /// the decimal numeral of its follow-up id.
    pub fn observations(&self) -> (out: Vec<(ContentionSubject, ScopeFields)>)
        ensures
            out@.len() == self.scope_contentions@.len(),
            forall|i: int|
                0 <= i < out@.len() ==> {
                    let seen = self.scope_contentions@[i];
                    &&& names_followup((#[trigger] out@[i]).0, seen.followup_id)
                    &&& out@[i].1 == (ScopeFields {
                        scope_kind: seen.scope_kind,
                        scope_key: seen.scope_key,
                        in_flight: seen.in_flight,
                        cap: seen.cap,
                    })
                },
    {
        let mut out: Vec<(ContentionSubject, ScopeFields)> = Vec::new();
        for i in 0..self.scope_contentions.len()
            invariant
                out@.len() == i,
                forall|j: int|
                    0 <= j < i ==> {
                        let seen = self.scope_contentions@[j];
                        &&& names_followup((#[trigger] out@[j]).0, seen.followup_id)
                        &&& out@[j].1 == (ScopeFields {
                            scope_kind: seen.scope_kind,
                            scope_key: seen.scope_key,
                            in_flight: seen.in_flight,
                            cap: seen.cap,
                        })
                    },
        {
            let seen: &ScopeContendedObservation = &self.scope_contentions[i];
            out.push((ContentionSubject::Identifier(seen.followup_id.to_string()), seen.fields()));
        }
        out
    }
}

/// What came of renewing the lease of a running dispatch.
#[derive(Debug, Clone, PartialEq, Eq)]
pub struct RunnerHeartbeatObservation {
    /// Run row whose lease was renewed.
    pub run_id: RunRef,
    /// Follow-up id of the dispatch.
    pub followup_id: FollowupId,
    /// What came of it.
    pub observation: HeartbeatPulseObservation,
}

/// What the caller learnt about a request that holds a permit.
#[derive(Debug, Clone, PartialEq, Eq)]
pub enum FollowupApprovalAdmission {
    /// A scope was at its cap.
    ScopeContended(ScopeContended),
    /// The scopes had room, but this cancellation is pending.
    Cancelled(CancelRequest),
    /// Neither held it back; this came of the lease.
    Lease(LeaseAttempt),
}

impl FollowupApprovalAdmission {
    /// What is to become of the request: a contended scope or lease and a failing
    /// store park it, a pending cancellation and a missing run row drop it.
    pub open spec fn settlement(self) -> Settlement {
        match self {
            FollowupApprovalAdmission::ScopeContended(_) => Settlement::Park,
            FollowupApprovalAdmission::Cancelled(_) => Settlement::Drop,
            FollowupApprovalAdmission::Lease(LeaseAttempt::Contended) => Settlement::Park,
            FollowupApprovalAdmission::Lease(LeaseAttempt::BackendError) => Settlement::Park,
            FollowupApprovalAdmission::Lease(LeaseAttempt::NotFound) => Settlement::Drop,
            FollowupApprovalAdmission::Lease(LeaseAttempt::Acquired) => Settlement::Start,
        }
    }
}

/// One pass in progress.
pub struct FollowupApprovalPass {
    core: PassCore<FollowupApprovalDispatchRequest>,
    report: FollowupApprovalRunReport,
}

/// The report counts one more request as parked for want of a permit.
pub open spec fn counts_full(before: FollowupApprovalRunReport, after: FollowupApprovalRunReport) -> bool {
    &&& after.deferred_capacity == before.deferred_capacity + 1
    &&& after.spawned == before.spawned
    &&& after.deferred_lease_contention == before.deferred_lease_contention
    &&& after.missing_run == before.missing_run
    &&& after.lease_backend_error == before.lease_backend_error
    &&& after.deferred_scope_contention == before.deferred_scope_contention
    &&& after.scope_contentions@ == before.scope_contentions@
    &&& after.cancelled_before_lease == before.cancelled_before_lease
    &&& after.cancellations@ == before.cancellations@
}

/// The report counts one more request, with this admission.
pub open spec fn counts_admission(
    before: FollowupApprovalRunReport,
    after: FollowupApprovalRunReport,
    request: FollowupApprovalDispatchRequest,
    admission: FollowupApprovalAdmission,
) -> bool {
    let started = admission == FollowupApprovalAdmission::Lease(LeaseAttempt::Acquired);
    let contended = admission == FollowupApprovalAdmission::Lease(LeaseAttempt::Contended);
    let missing = admission == FollowupApprovalAdmission::Lease(LeaseAttempt::NotFound);
    let failed = admission == FollowupApprovalAdmission::Lease(LeaseAttempt::BackendError);
    &&& after.deferred_capacity == before.deferred_capacity
    &&& after.spawned == before.spawned + (if started { 1int } else { 0int })
    &&& after.deferred_lease_contention == before.deferred_lease_contention + (if contended {
        1int
    } else {
        0int
    })
    &&& after.missing_run == before.missing_run + (if missing { 1int } else { 0int })
    &&& after.lease_backend_error == before.lease_backend_error + (if failed { 1int } else { 0int })
    &&& match admission {
        FollowupApprovalAdmission::ScopeContended(scope) => {
            &&& after.deferred_scope_contention == before.deferred_scope_contention + 1
            &&& after.scope_contentions@.len() == before.scope_contentions@.len() + 1
            &&& after.scope_contentions@.drop_last() == before.scope_contentions@
            &&& after.scope_contentions@.last().records(request, scope)
            &&& after.cancelled_before_lease == before.cancelled_before_lease
            &&& after.cancellations@ == before.cancellations@
        },
        FollowupApprovalAdmission::Cancelled(cancel) => {
            &&& after.deferred_scope_contention == before.deferred_scope_contention
            &&& after.scope_contentions@ == before.scope_contentions@
            &&& after.cancelled_before_lease == before.cancelled_before_lease + 1
            &&& after.cancellations@ == before.cancellations@.push(
                FollowupApprovalCancellationObserved {
                    followup_id: request.followup_id,
                    source_work_item: request.source_work_item,
                    run_id: request.run_id,
                    request: cancel,
                },
            )
        },
        FollowupApprovalAdmission::Lease(_) => {
            &&& after.deferred_scope_contention == before.deferred_scope_contention
            &&& after.scope_contentions@ == before.scope_contentions@
            &&& after.cancelled_before_lease == before.cancelled_before_lease
            &&& after.cancellations@ == before.cancellations@
        },
    }
}

impl View for FollowupApprovalPass {
    type V = runner_core::PassState<FollowupApprovalDispatchRequest>;

    closed spec fn view(&self) -> runner_core::PassState<FollowupApprovalDispatchRequest> {
        self.core@
    }
}

impl FollowupApprovalPass {
    #[verifier::type_invariant]
    spec fn well_formed(self) -> bool {
        &&& self.core@.work.len() <= usize::MAX
        &&& self.report.total() + self.core@.remaining.len() == self.core@.work.len()
        &&& self.report.parked() == self.core@.parked.len()
        &&& self.report.deferred_scope_contention == self.report.scope_contentions@.len()
        &&& self.report.cancelled_before_lease == self.report.cancellations@.len()
    }

    /// What the pass has done so far.
    pub closed spec fn so_far(&self) -> FollowupApprovalRunReport {
        self.report
    }

    /// The current request, if any is left.
    pub fn current(&self) -> (r: Option<&FollowupApprovalDispatchRequest>)
        ensures
            match r {
                Some(c) => self@.remaining.len() > 0 && *c == self@.remaining[0],
                None => self@.remaining.len() == 0,
            },
    {
        self.core.current()
    }
}

/// Bounded-concurrency consumer of follow-up approval dispatches.
pub struct FollowupApprovalRunner {
    core: RunnerCore<FollowupApprovalDispatchRequest>,
}

impl View for FollowupApprovalRunner {
    type V = runner_core::RunnerState<FollowupApprovalDispatchRequest>;

    closed spec fn view(&self) -> runner_core::RunnerState<FollowupApprovalDispatchRequest> {
        self.core@
    }
}

impl FollowupApprovalRunner {
    /// A runner with capacity `max_concurrent`; a capacity of zero disables
    /// dispatch.
    pub fn new(max_concurrent: usize) -> (r: Self)
        ensures
            r@.capacity == max_concurrent,
            r@.in_use == 0,
            r@.deferred.len() == 0,
    {
        FollowupApprovalRunner { core: RunnerCore::new(max_concurrent) }
    }

    /// Configured capacity.
    pub fn max_concurrent(&self) -> (n: usize)
        ensures
            n == self@.capacity,
    {
        self.core.max_concurrent()
    }

    /// Permits taken; never more than the capacity.
    pub fn permits_in_use(&self) -> (n: usize)
        ensures
            n == self@.in_use,
            n <= self@.capacity,
    {
        self.core.permits_in_use()
    }

    /// Requests parked for a later pass.
    pub fn deferred_count(&self) -> (n: usize)
        ensures
            n == self@.deferred.len(),
    {
        self.core.parked().len()
    }

    /// The parked requests, oldest first.
    pub fn deferred_requests(&self) -> (v: &Vec<FollowupApprovalDispatchRequest>)
        ensures
            v@ == self@.deferred,
    {
        self.core.parked()
    }

    /// Start a pass over the parked requests and the drained ones, in that order.
    pub fn begin_pass(&mut self, drained: Vec<FollowupApprovalDispatchRequest>) -> (pass:
        FollowupApprovalPass)
        ensures
            (final(self)@, pass@) == runner_core::begin_step(old(self)@, drained@),
            pass@ == runner_core::PassState::over(old(self)@.deferred + drained@),
            pass.so_far().idle(),
            final(self)@ == (runner_core::RunnerState { deferred: Seq::empty(), ..old(self)@ }),
    {
        let core = self.core.begin_pass(drained);
        FollowupApprovalPass { core, report: FollowupApprovalRunReport::default() }
    }

    /// Try to get a permit for the current request; without one it is parked.
    pub fn offer(&mut self, pass: FollowupApprovalPass) -> (r: (FollowupApprovalPass, PassOffer))
        ensures
            (final(self)@, r.0@, r.1) == runner_core::offer_step(old(self)@, pass@),
            if r.1 == PassOffer::Parked {
                counts_full(pass.so_far(), r.0.so_far())
            } else {
                r.0.so_far() == pass.so_far()
            },
    {
        proof {
            use_type_invariant(&pass);
        }
        let FollowupApprovalPass { core, report } = pass;
        let mut report: FollowupApprovalRunReport = report;
        let (core, offer) = self.core.offer(core);
        match offer {
            PassOffer::Parked => {
                report.deferred_capacity = report.deferred_capacity + 1;
            },
            PassOffer::Granted => {},
            PassOffer::Finished => {},
        }
        (FollowupApprovalPass { core, report }, offer)
    }

    /// Settle the current request, if it holds a permit, by what the caller learnt
    /// about it. A request whose dispatch is to start is handed out and keeps its
    /// permit; otherwise the permit is given back.
    pub fn settle(&mut self, pass: FollowupApprovalPass, admission: FollowupApprovalAdmission) -> (r: (
        FollowupApprovalPass,
        Option<FollowupApprovalDispatchRequest>,
    ))
        ensures
            (final(self)@, r.0@) == runner_core::settle_step(
                old(self)@,
                pass@,
                admission.settlement(),
            ),
            r.1 == runner_core::handed_out(pass@, admission.settlement()),
            r.1 == (if pass@.granted && admission.settlement() == Settlement::Start {
                Some(pass@.remaining[0])
            } else {
                None
            }),
            if pass@.granted {
                counts_admission(pass.so_far(), r.0.so_far(), pass@.remaining[0], admission)
            } else {
                r.0.so_far() == pass.so_far()
            },
    {
        proof {
            use_type_invariant(&pass);
        }
        if !pass.core.is_granted() {
            return (pass, None);
        }
        let ghost before = pass.report;
        let FollowupApprovalPass { core, report } = pass;
        let mut report: FollowupApprovalRunReport = report;
        let settlement: Settlement = match admission {
            FollowupApprovalAdmission::ScopeContended(contended) => {
                let followup_id: FollowupId = match core.current() {
                    Some(request) => request.followup_id,
                    None => FollowupId::new(0),
                };
                report.scope_contentions.push(
                    ScopeContendedObservation::from_contention(followup_id, &contended),
                );
                assert(report.scope_contentions@.drop_last() =~= before.scope_contentions@);
                report.deferred_scope_contention = report.deferred_scope_contention + 1;
                Settlement::Park
            },
            FollowupApprovalAdmission::Cancelled(cancel) => {
                match core.current() {
                    Some(request) => {
                        report.cancellations.push(
                            FollowupApprovalCancellationObserved {
                                followup_id: request.followup_id,
                                source_work_item: request.source_work_item,
                                run_id: request.run_id,
                                request: cancel,
                            },
                        );
                    },
                    None => {},
                }
                report.cancelled_before_lease = report.cancelled_before_lease + 1;
                Settlement::Drop
            },
            FollowupApprovalAdmission::Lease(LeaseAttempt::Contended) => {
                report.deferred_lease_contention = report.deferred_lease_contention + 1;
                Settlement::Park
            },
            FollowupApprovalAdmission::Lease(LeaseAttempt::NotFound) => {
                report.missing_run = report.missing_run + 1;
                Settlement::Drop
            },
            FollowupApprovalAdmission::Lease(LeaseAttempt::BackendError) => {
                report.lease_backend_error = report.lease_backend_error + 1;
                Settlement::Park
            },
            FollowupApprovalAdmission::Lease(LeaseAttempt::Acquired) => {
                report.spawned = report.spawned + 1;
                Settlement::Start
            },
        };
        let (core, request) = self.core.settle(core, settlement);
        (FollowupApprovalPass { core, report }, request)
    }

    /// A dispatch has ended: its permit is free again.
    pub fn finish_dispatch(&mut self)
        ensures
            final(self)@ == old(self)@.refunded(),
    {
        self.core.release();
    }

    /// End a pass: what it parked waits for the next one, in age order, before
    /// anything parked since. The report counts every settled request once, has one
    /// observation for each contended scope and each cancellation, and is idle only after an empty pass.
    pub fn end_pass(&mut self, pass: FollowupApprovalPass) -> (report: FollowupApprovalRunReport)
        ensures
            report == pass.so_far(),
            final(self)@ == runner_core::end_step(old(self)@, pass@),
            runner_core::in_order_within(pass@.parked + pass@.remaining, pass@.work),
            report.total() + pass@.remaining.len() == pass@.work.len(),
            report.parked() == pass@.parked.len(),
            report.deferred_scope_contention == report.scope_contentions@.len(),
            report.cancelled_before_lease == report.cancellations@.len(),
            pass@.remaining.len() == 0 ==> (report.idle() <==> pass@.work.len() == 0),
    {
        proof {
            use_type_invariant(&pass);
        }
        let FollowupApprovalPass { core, report } = pass;
        self.core.end_pass(core);
        report
    }
}

/// Only a request whose lease is held, or needs none, starts; only a pending cancellation or a missing run row
/// drops one; whatever else holds a request back leaves it waiting.
pub proof fn only_held_leases_start_a_request(admission: FollowupApprovalAdmission)
    ensures
        admission.settlement() == Settlement::Start
            <==> admission == FollowupApprovalAdmission::Lease(
            LeaseAttempt::Acquired,
        ),
        admission.settlement() == Settlement::Drop
            <==> (admission == FollowupApprovalAdmission::Lease(
            LeaseAttempt::NotFound,
        ) || admission is Cancelled),
        admission is ScopeContended ==> admission.settlement() == Settlement::Park,
        admission == FollowupApprovalAdmission::Lease(LeaseAttempt::Contended)
            || admission == FollowupApprovalAdmission::Lease(
            LeaseAttempt::BackendError,
        ) ==> admission.settlement() == Settlement::Park,
{
}

/// A report moves one counter for each settled request, the one that names what became of
/// it, and no other.
pub proof fn reports_move_one_counter(
    before: FollowupApprovalRunReport,
    after: FollowupApprovalRunReport,
    request: FollowupApprovalDispatchRequest,
    admission: FollowupApprovalAdmission,
)
    requires
        counts_admission(before, after, request, admission),
    ensures
        after.spawned
                + after.deferred_capacity
                + after.deferred_lease_contention
                + after.missing_run
                + after.lease_backend_error
                + after.deferred_scope_contention
                + after.cancelled_before_lease
            == 1 + before.spawned
                + before.deferred_capacity
                + before.deferred_lease_contention
                + before.missing_run
                + before.lease_backend_error
                + before.deferred_scope_contention
                + before.cancelled_before_lease,
        after.deferred_capacity == before.deferred_capacity,
        (after.spawned > before.spawned) == (admission
            == FollowupApprovalAdmission::Lease(LeaseAttempt::Acquired)),
        (after.deferred_lease_contention > before.deferred_lease_contention) == (admission
            == FollowupApprovalAdmission::Lease(LeaseAttempt::Contended)),
        (after.missing_run > before.missing_run) == (admission == FollowupApprovalAdmission::Lease(
            LeaseAttempt::NotFound,
        )),
        (after.lease_backend_error > before.lease_backend_error) == (admission
            == FollowupApprovalAdmission::Lease(LeaseAttempt::BackendError)),
        (after.deferred_scope_contention > before.deferred_scope_contention)
            == (admission is ScopeContended),
        (after.cancelled_before_lease > before.cancelled_before_lease) == (admission is Cancelled),
        admission matches FollowupApprovalAdmission::Cancelled(cancel) ==> {
            let seen = after.cancellations@[before.cancellations@.len() as int];
            &&& after.cancellations@.len() == before.cancellations@.len() + 1
            &&& after.cancellations@.take(before.cancellations@.len() as int)
                == before.cancellations@
            &&& seen.followup_id == request.followup_id
            &&& seen.source_work_item == request.source_work_item
            &&& seen.run_id == request.run_id
            &&& seen.request == cancel
        },
        !(admission is Cancelled) ==> after.cancellations@ == before.cancellations@,
        admission.settlement() == Settlement::Park <==> after.parked() == before.parked() + 1,
        after.total() == before.total() + 1,
{
    if admission is Cancelled {
        assert(after.cancellations@.take(before.cancellations@.len() as int)
            =~= before.cancellations@);
    }
}

/// A contended scope leaves one more observation, which names the request and gives the
/// scope's kind, label, load and cap; anything else leaves none.
pub proof fn contended_scopes_are_observed(
    before: FollowupApprovalRunReport,
    after: FollowupApprovalRunReport,
    request: FollowupApprovalDispatchRequest,
    admission: FollowupApprovalAdmission,
)
    requires
        counts_admission(before, after, request, admission),
    ensures
        !(admission is ScopeContended) ==> after.scope_contentions@ == before.scope_contentions@,
        admission matches FollowupApprovalAdmission::ScopeContended(contended) ==> {
            let known = before.scope_contentions@.len() as int;
            let seen = after.scope_contentions@[known];
            &&& after.scope_contentions@.len() == known + 1
            &&& after.scope_contentions@.take(known) == before.scope_contentions@
            &&& seen.followup_id == request.followup_id
            &&& seen.in_flight == contended.in_flight
            &&& seen.cap == contended.cap
            &&& match contended.scope {
                Scope::Global => seen.scope_kind == ScopeKind::Global && seen.scope_key@.len() == 0,
                Scope::Role(key) => seen.scope_kind == ScopeKind::Role && seen.scope_key@ == key@,
                Scope::AgentProfile(key) => seen.scope_kind == ScopeKind::AgentProfile
                    && seen.scope_key@ == key@,
                Scope::Repository(key) => seen.scope_kind == ScopeKind::Repository
                    && seen.scope_key@ == key@,
            }
        },
{
    if admission is ScopeContended {
        assert(after.scope_contentions@.take(before.scope_contentions@.len() as int)
            =~= after.scope_contentions@.drop_last());
    }
}

/// A request that finds no permit free moves the capacity counter by one, and nothing
/// else.
pub proof fn full_runners_move_the_capacity_counter(
    before: FollowupApprovalRunReport,
    after: FollowupApprovalRunReport,
)
    requires
        counts_full(before, after),
    ensures
        after.deferred_capacity == before.deferred_capacity + 1,
        after.spawned
                + after.deferred_capacity
                + after.deferred_lease_contention
                + after.missing_run
                + after.lease_backend_error
                + after.deferred_scope_contention
                + after.cancelled_before_lease
            == 1 + before.spawned
                + before.deferred_capacity
                + before.deferred_lease_contention
                + before.missing_run
                + before.lease_backend_error
                + before.deferred_scope_contention
                + before.cancelled_before_lease,
        after.spawned >= before.spawned,
        after.deferred_lease_contention >= before.deferred_lease_contention,
        after.missing_run >= before.missing_run,
        after.lease_backend_error >= before.lease_backend_error,
        after.deferred_scope_contention >= before.deferred_scope_contention,
        after.parked() == before.parked() + 1,
        after.total() == before.total() + 1,
        after.scope_contentions@ == before.scope_contentions@,
        after.cancellations@ == before.cancellations@,
{
}

/// A report is idle exactly when it counts nothing and observed nothing.
pub proof fn idle_reports_count_nothing(report: FollowupApprovalRunReport)
    ensures
        report.idle() <==> {
            &&& report.spawned + report.deferred_capacity + report.deferred_lease_contention
                + report.missing_run + report.lease_backend_error
                + report.deferred_scope_contention + report.cancelled_before_lease == 0
            &&& report.scope_contentions@.len() == 0
            &&& report.cancellations@.len() == 0
        },
        report.idle() ==> report.total() == 0 && report.parked() == 0,
        report.total() == report.parked() + report.spawned + report.missing_run
            + report.cancelled_before_lease,
{
}

/// A failing lease store loses no request: a walk in which nothing is cancelled and no run
/// row is missing starts or parks every request.
pub proof fn failing_stores_lose_nothing(
    runner: runner_core::RunnerState<FollowupApprovalDispatchRequest>,
    work: Seq<FollowupApprovalDispatchRequest>,
    answers: spec_fn(FollowupApprovalDispatchRequest) -> FollowupApprovalAdmission,
)
    requires
        forall|r: FollowupApprovalDispatchRequest|
            #[trigger] answers(r) != FollowupApprovalAdmission::Lease(LeaseAttempt::NotFound)
                && !(answers(r) is Cancelled),
    ensures
        ({
            let (end, done, started) = runner_core::walk(
                runner,
                runner_core::PassState::over(work),
                |r: FollowupApprovalDispatchRequest| answers(r).settlement(),
            );
            forall|r: FollowupApprovalDispatchRequest| #[trigger]
                work.contains(r) ==> started.contains(r) || done.parked.contains(r)
        }),
{
    let settles = |r: FollowupApprovalDispatchRequest| answers(r).settlement();
    runner_core::walks_lose_nothing(runner, runner_core::PassState::over(work), settles);
    assert forall|r: FollowupApprovalDispatchRequest| #[trigger] settles(r) != Settlement::Drop by {
        assert(answers(r) != FollowupApprovalAdmission::Lease(LeaseAttempt::NotFound));
    }
    assert forall|r: FollowupApprovalDispatchRequest| #[trigger] work.contains(r) implies {
        let (end, done, started) = runner_core::walk(
            runner,
            runner_core::PassState::over(work),
            settles,
        );
        started.contains(r) || done.parked.contains(r)
    } by {
        assert(runner_core::PassState::over(work).remaining.contains(r));
        assert(settles(r) != Settlement::Drop);
    }
}

/// A subject names at most one follow-up: its numeral, with a minus sign where the id is
/// negative.
pub proof fn subjects_name_one_followup(subject: ContentionSubject, a: FollowupId, b: FollowupId)
    ensures
        names_followup(subject, a) && names_followup(subject, b) ==> a == b,
        names_followup(subject, a) ==> subject is Identifier && (subject->Identifier_0@[0] == '-'
            <==> a.0 < 0),
{
    text::signed_decimals_tell_numbers_apart(a.0 as int, b.0 as int);
    if a.0 >= 0 {
        text::lemma_decimal_reads_back(a.0 as nat);
        assert(text::is_digit(text::decimal(a.0 as nat)[0]));
    }
}

} // verus!
