//! How a follow-up approval request that holds a permit is let in.
//!
//! Three services have a say, in this order: the concurrency scopes, the cancellation
//! queue and the lease store. [`next_step`] says which to ask next, or how the matter
//! is decided; asking is the caller's part. A contended scope or a pending
//! cancellation decides the matter before any lease is asked for.
use crate::blocker::RunRef;
use crate::cancellation::{observed_cancellation, CancelRequest};
use crate::concurrency_gate::{gated_keys, DispatchKeys, DispatchTriple, ScopeContended};
use crate::followup_approval_runner::FollowupApprovalAdmission;
use crate::followup_approval_tick::FollowupApprovalDispatchRequest;
use crate::run_lease;
use crate::run_lease::{classify_lease, lease_plan, LeaseAcquireOutcome, LeaseAttempt, LeasePlan};
use crate::runner_core::Settlement;
use crate::work_item::WorkItemId;
use vstd::prelude::*;

verus! {

/// Which services are wired to the runner.
#[derive(Debug, Clone, Copy, PartialEq, Eq, Structural)]
pub struct Wiring {
    /// The concurrency scopes.
    pub gate: bool,
    /// The cancellation queue.
    pub cancellation: bool,
    /// The lease store.
    pub leasing: bool,
}

/// What happened last.
#[derive(Debug, PartialEq, Eq)]
pub enum AdmissionEvent {
    /// The request was granted its permit.
    Begin,
    /// The scopes answered.
    Scopes(Result<(), ScopeContended>),
    /// The cancellation queue answered.
    Cancellations {
        /// What is pending for the run of the request.
        for_run: Option<CancelRequest>,
        /// What is pending for the work item behind the request.
        for_work_item: Option<CancelRequest>,
    },
    /// The lease store answered.
    Lease(Result<LeaseAcquireOutcome, String>),
}

/// What to do next.
#[derive(Debug, Clone, PartialEq, Eq)]
pub enum AdmissionStep {
    /// Ask for room in the scopes with these keys.
    AskScopes(DispatchTriple),
    /// Ask which cancellations are pending.
    AskCancellations {
        /// For this run, when the request reserved one.
        run: Option<RunRef>,
        /// And for this work item.
        work_item: WorkItemId,
    },
    /// Ask for the lease of this run.
    AskLease(RunRef),
    /// The matter is decided.
    Decided {
        /// How.
        admission: FollowupApprovalAdmission,
        /// The run that has to be marked cancelled and whose queue entry has to be
        /// drained, if one has to be.
        mark_and_drain: Option<RunRef>,
        /// The run whose lease the request holds now, and which has to be renewed while
        /// the dispatch runs, if there is one.
        leased: Option<RunRef>,
    },
}

/// An [`AdmissionStep`], the role key by its label.
pub enum StepView {
    /// Ask for room in the scopes with these keys.
    AskScopes(DispatchKeys),
    /// Ask which cancellations are pending.
    AskCancellations {
        /// For this run, when the request reserved one.
        run: Option<RunRef>,
        /// And for this work item.
        work_item: WorkItemId,
    },
    /// Ask for the lease of this run.
    AskLease(RunRef),
    /// The matter is decided.
    Decided {
        /// How.
        admission: FollowupApprovalAdmission,
        /// The run to mark cancelled and to drain.
        mark_and_drain: Option<RunRef>,
        /// The run whose lease is held.
        leased: Option<RunRef>,
    },
}

impl View for AdmissionStep {
    type V = StepView;

    open spec fn view(&self) -> StepView {
        match *self {
            AdmissionStep::AskScopes(keys) => StepView::AskScopes(keys@),
            AdmissionStep::AskCancellations { run, work_item } => StepView::AskCancellations {
                run,
                work_item,
            },
            AdmissionStep::AskLease(run) => StepView::AskLease(run),
            AdmissionStep::Decided { admission, mark_and_drain, leased } => StepView::Decided {
                admission,
                mark_and_drain,
                leased,
            },
        }
    }
}

/// The lease is asked for where leasing is wired and the request reserved a run;
/// without one, the request may go ahead.
pub open spec fn after_cancellation(
    w: Wiring,
    request: FollowupApprovalDispatchRequest,
) -> StepView {
    match run_lease::plan_of(w.leasing, request.run_id) {
        LeasePlan::Acquire(run) => StepView::AskLease(run),
        _ => StepView::Decided {
            admission: FollowupApprovalAdmission::Lease(LeaseAttempt::Acquired),
            mark_and_drain: None,
            leased: None,
        },
    }
}

/// The cancellation queue is asked where it is wired.
pub open spec fn after_scopes(w: Wiring, request: FollowupApprovalDispatchRequest) -> StepView {
    if w.cancellation {
        StepView::AskCancellations { run: request.run_id, work_item: request.source_work_item }
    } else {
        after_cancellation(w, request)
    }
}

/// Whether the scopes are asked about the request: where they are wired and it names a
/// role.
pub open spec fn is_gated(w: Wiring, request: FollowupApprovalDispatchRequest) -> bool {
    w.gate && request.role is Some
}

/// The keys of a request that names a role.
pub open spec fn keys_of(request: FollowupApprovalDispatchRequest) -> DispatchKeys {
    DispatchKeys {
        role: request.role->0@,
        agent_profile: request.agent_profile,
        repository: request.repository,
    }
}

/// The step after `e`.
pub open spec fn step_after(
    w: Wiring,
    request: FollowupApprovalDispatchRequest,
    e: AdmissionEvent,
) -> StepView {
    match e {
        AdmissionEvent::Begin => if is_gated(w, request) {
            StepView::AskScopes(keys_of(request))
        } else {
            after_scopes(w, request)
        },
        AdmissionEvent::Scopes(Err(contended)) => StepView::Decided {
            admission: FollowupApprovalAdmission::ScopeContended(contended),
            mark_and_drain: None,
            leased: None,
        },
        AdmissionEvent::Scopes(Ok(_)) => after_scopes(w, request),
        AdmissionEvent::Cancellations { for_run: Some(cancel), .. } => StepView::Decided {
            admission: FollowupApprovalAdmission::Cancelled(cancel),
            mark_and_drain: request.run_id,
            leased: None,
        },
        AdmissionEvent::Cancellations { for_run: None, for_work_item: Some(cancel) } => {
            StepView::Decided {
                admission: FollowupApprovalAdmission::Cancelled(cancel),
                mark_and_drain: request.run_id,
                leased: None,
            }
        },
        AdmissionEvent::Cancellations { for_run: None, for_work_item: None } => {
            after_cancellation(w, request)
        },
        AdmissionEvent::Lease(answer) => StepView::Decided {
            admission: FollowupApprovalAdmission::Lease(run_lease::attempt_of(answer)),
            mark_and_drain: None,
            leased: if run_lease::attempt_of(answer) == LeaseAttempt::Acquired {
                request.run_id
            } else {
                None
            },
        },
    }
}

fn lease_step(w: Wiring, request: &FollowupApprovalDispatchRequest) -> (s: AdmissionStep)
    ensures
        s@ == after_cancellation(w, *request),
{
    match lease_plan(w.leasing, request.run_id) {
        LeasePlan::Acquire(run) => AdmissionStep::AskLease(run),
        LeasePlan::Unwired | LeasePlan::Skipped => AdmissionStep::Decided {
            admission: FollowupApprovalAdmission::Lease(LeaseAttempt::Acquired),
            mark_and_drain: None,
            leased: None,
        },
    }
}

fn cancellation_step(w: Wiring, request: &FollowupApprovalDispatchRequest) -> (s: AdmissionStep)
    ensures
        s@ == after_scopes(w, *request),
{
    if w.cancellation {
        AdmissionStep::AskCancellations {
            run: request.run_id,
            work_item: request.source_work_item,
        }
    } else {
        lease_step(w, request)
    }
}

/// What to do next about a request that holds a permit.
pub fn next_step(
    w: Wiring,
    request: &FollowupApprovalDispatchRequest,
    e: AdmissionEvent,
) -> (s: AdmissionStep)
    ensures
        s@ == step_after(w, *request, e),
{
    match e {
        AdmissionEvent::Begin => match gated_keys(
            w.gate,
            &request.role,
            &request.agent_profile,
            &request.repository,
        ) {
            Some(keys) => AdmissionStep::AskScopes(keys),
            None => cancellation_step(w, request),
        },
        AdmissionEvent::Scopes(Err(contended)) => AdmissionStep::Decided {
            admission: FollowupApprovalAdmission::ScopeContended(contended),
            mark_and_drain: None,
            leased: None,
        },
        AdmissionEvent::Scopes(Ok(_)) => cancellation_step(w, request),
        AdmissionEvent::Cancellations { for_run, for_work_item } => match observed_cancellation(
            for_run,
            for_work_item,
        ) {
            Some(cancel) => AdmissionStep::Decided {
                admission: FollowupApprovalAdmission::Cancelled(cancel),
                mark_and_drain: request.run_id,
                leased: None,
            },
            None => lease_step(w, request),
        },
        AdmissionEvent::Lease(answer) => {
            let attempt = classify_lease(&answer);
            let leased: Option<RunRef> = match attempt {
                LeaseAttempt::Acquired => request.run_id,
                _ => None,
            };
            AdmissionStep::Decided {
                admission: FollowupApprovalAdmission::Lease(attempt),
                mark_and_drain: None,
                leased,
            }
        },
    }
}

/// What the services would answer, each if it were asked.
pub struct Answers {
    /// The scopes.
    pub scopes: Result<(), ScopeContended>,
    /// The cancellation queue, about the run of the request.
    pub for_run: Option<CancelRequest>,
    /// The cancellation queue, about the work item behind the request.
    pub for_work_item: Option<CancelRequest>,
    /// The lease store.
    pub lease: Result<LeaseAcquireOutcome, String>,
}

impl Answers {
    /// The event that carries the answer to `s`.
    pub open spec fn reply(self, s: StepView) -> AdmissionEvent {
        match s {
            StepView::AskScopes(_) => AdmissionEvent::Scopes(self.scopes),
            StepView::AskCancellations { run, .. } => AdmissionEvent::Cancellations {
                for_run: if run is Some {
                    self.for_run
                } else {
                    None
                },
                for_work_item: self.for_work_item,
            },
            StepView::AskLease(_) => AdmissionEvent::Lease(self.lease),
            StepView::Decided { .. } => AdmissionEvent::Begin,
        }
    }

    /// Whether the scopes stop the request.
    pub open spec fn contended(self, w: Wiring, request: FollowupApprovalDispatchRequest) -> bool {
        is_gated(w, request) && self.scopes is Err
    }

    /// Whether a cancellation is there to be observed.
    pub open spec fn cancelled(self, w: Wiring, request: FollowupApprovalDispatchRequest) -> bool {
        w.cancellation && (self.for_work_item is Some || (request.run_id is Some
            && self.for_run is Some))
    }
}

/// How far a step is from a decision.
pub open spec fn rank(s: StepView) -> nat {
    match s {
        StepView::AskScopes(_) => 3,
        StepView::AskCancellations { .. } => 2,
        StepView::AskLease(_) => 1,
        StepView::Decided { .. } => 0,
    }
}

/// The steps from `s` on, each answered as `a` says.
pub open spec fn walk_from(
    w: Wiring,
    request: FollowupApprovalDispatchRequest,
    a: Answers,
    s: StepView,
) -> Seq<StepView>
    decreases rank(s),
{
    match s {
        StepView::Decided { .. } => seq![s],
        _ => seq![s] + walk_from(w, request, a, step_after(w, request, a.reply(s))),
    }
}

/// The steps of a request, from its permit to the decision.
pub open spec fn walk(
    w: Wiring,
    request: FollowupApprovalDispatchRequest,
    a: Answers,
) -> Seq<StepView> {
    walk_from(w, request, a, step_after(w, request, AdmissionEvent::Begin))
}

proof fn lemma_walk_descends(
    w: Wiring,
    request: FollowupApprovalDispatchRequest,
    a: Answers,
    s: StepView,
)
    ensures
        walk_from(w, request, a, s).len() > 0,
        walk_from(w, request, a, s).first() == s,
        walk_from(w, request, a, s).last() is Decided,
        forall|i: int, j: int|
            #![trigger walk_from(w, request, a, s)[i], walk_from(w, request, a, s)[j]]
            0 <= i < j < walk_from(w, request, a, s).len() ==> rank(
                walk_from(w, request, a, s)[i],
            ) > rank(walk_from(w, request, a, s)[j]),
    decreases rank(s),
{
    if !(s is Decided) {
        let next = step_after(w, request, a.reply(s));
        let rest = walk_from(w, request, a, next);
        let steps = walk_from(w, request, a, s);
        lemma_walk_descends(w, request, a, next);
        assert forall|i: int, j: int|
            #![trigger steps[i], steps[j]]
            0 <= i < j < steps.len() implies rank(steps[i]) > rank(steps[j]) by {
            assert(steps[j] == rest[j - 1]);
            assert(rest[0] == next);
            if i > 0 {
                assert(steps[i] == rest[i - 1]);
            }
        }
    }
}

/// Every walk ends in a decision, and asks each service at most once: the scopes before
/// the cancellation queue, and that before the lease store.
pub proof fn services_are_asked_in_order(
    w: Wiring,
    request: FollowupApprovalDispatchRequest,
    a: Answers,
)
    ensures
        walk(w, request, a).len() > 0,
        walk(w, request, a).last() is Decided,
        forall|i: int, j: int|
            #![trigger walk(w, request, a)[i], walk(w, request, a)[j]]
            0 <= i < j < walk(w, request, a).len() ==> rank(walk(w, request, a)[i]) > rank(
                walk(w, request, a)[j],
            ),
{
    lemma_walk_descends(w, request, a, step_after(w, request, AdmissionEvent::Begin));
}

/// A contended scope ends the walk at once: nothing else is asked for, no run is marked
/// and no lease is held.
pub proof fn contended_scopes_end_the_walk(
    w: Wiring,
    request: FollowupApprovalDispatchRequest,
    a: Answers,
)
    requires
        a.contended(w, request),
    ensures
        walk(w, request, a) == seq![
            StepView::AskScopes(keys_of(request)),
            StepView::Decided {
                admission: FollowupApprovalAdmission::ScopeContended(a.scopes->Err_0),
                mark_and_drain: None,
                leased: None,
            },
        ],
{
    reveal_with_fuel(walk_from, 2);
}

/// A pending cancellation ends the walk before any lease is asked for. One for the run
/// comes before one for the work item; the run is to be marked and drained exactly where
/// the request reserved one.
pub proof fn observed_cancellations_end_the_walk(
    w: Wiring,
    request: FollowupApprovalDispatchRequest,
    a: Answers,
)
    requires
        !a.contended(w, request),
        a.cancelled(w, request),
    ensures
        walk(w, request, a).last() == (StepView::Decided {
            admission: FollowupApprovalAdmission::Cancelled(
                if request.run_id is Some && a.for_run is Some {
                    a.for_run->0
                } else {
                    a.for_work_item->0
                },
            ),
            mark_and_drain: request.run_id,
            leased: None,
        }),
        forall|i: int|
            0 <= i < walk(w, request, a).len() ==> !(#[trigger] walk(w, request, a)[i] is AskLease),
{
    reveal_with_fuel(walk_from, 3);
}

/// No walk asks for a lease after a contended scope or an observed cancellation: the
/// lease is asked for only where neither holds the request back.
pub proof fn leases_are_asked_for_last(
    w: Wiring,
    request: FollowupApprovalDispatchRequest,
    a: Answers,
    i: int,
)
    requires
        0 <= i < walk(w, request, a).len(),
        walk(w, request, a)[i] is AskLease,
    ensures
        !a.contended(w, request),
        !a.cancelled(w, request),
        w.leasing,
        request.run_id == Some(walk(w, request, a)[i]->AskLease_0),
{
    if a.contended(w, request) {
        contended_scopes_end_the_walk(w, request, a);
    } else if a.cancelled(w, request) {
        observed_cancellations_end_the_walk(w, request, a);
    }
    reveal_with_fuel(walk_from, 4);
}

/// A request that nothing holds back is let in: the walk ends with what came of the lease,
/// or with leave to go ahead where no lease is needed.
pub proof fn unhindered_requests_are_let_in(
    w: Wiring,
    request: FollowupApprovalDispatchRequest,
    a: Answers,
)
    requires
        !a.contended(w, request),
        !a.cancelled(w, request),
    ensures
        walk(w, request, a).last() == (if w.leasing && request.run_id is Some {
            step_after(w, request, AdmissionEvent::Lease(a.lease))
        } else {
            StepView::Decided {
                admission: FollowupApprovalAdmission::Lease(LeaseAttempt::Acquired),
                mark_and_drain: None,
                leased: None,
            }
        }),
{
    reveal_with_fuel(walk_from, 4);
}

/// Only a request that starts holds a lease, its own: one that is parked or dropped
/// holds none.
pub proof fn only_started_requests_hold_a_lease(
    w: Wiring,
    request: FollowupApprovalDispatchRequest,
    e: AdmissionEvent,
)
    ensures
        step_after(w, request, e) matches StepView::Decided { admission, leased, .. } ==> {
            &&& leased is Some ==> leased == request.run_id
            &&& leased is Some ==> admission.settlement() == Settlement::Start
            &&& admission.settlement() != Settlement::Start ==> leased is None
        },
{
}

/// Only a cancelled request has a run marked and drained, and only its own. Where it
/// reserved none, nothing is drained, and the cancellation of its work item stays
/// pending.
pub proof fn only_the_own_run_is_drained(
    w: Wiring,
    request: FollowupApprovalDispatchRequest,
    e: AdmissionEvent,
)
    ensures
        step_after(w, request, e) matches StepView::Decided { admission, mark_and_drain, .. } ==> {
            mark_and_drain == (if admission is Cancelled {
                request.run_id
            } else {
                None
            })
        },
{
}

/// A service is asked only where it is wired, and about the request itself: the scopes under
/// the request's own role, profile and repository, the cancellation queue about its own run
/// and work item, and the lease store about its own run.
pub proof fn services_are_asked_about_the_request(
    w: Wiring,
    request: FollowupApprovalDispatchRequest,
    a: Answers,
    i: int,
)
    requires
        0 <= i < walk(w, request, a).len(),
    ensures
        walk(w, request, a)[i] matches StepView::AskScopes(keys) ==> {
            &&& w.gate
            &&& request.role matches Some(role) && keys.role == role@
            &&& keys.agent_profile == request.agent_profile
            &&& keys.repository == request.repository
        },
        walk(w, request, a)[i] matches StepView::AskCancellations { run, work_item } ==> {
            &&& w.cancellation
            &&& run == request.run_id
            &&& work_item == request.source_work_item
        },
        walk(w, request, a)[i] matches StepView::AskLease(run) ==> w.leasing
            && request.run_id == Some(
            run,
        ),
{
    reveal_with_fuel(walk_from, 4);
}

/// Every wired service that can hold the request back is asked, unless one before it did:
/// the scopes where the request names a role, then the cancellation queue, then the lease
/// store where it reserved a run.
pub proof fn wired_services_are_asked(
    w: Wiring,
    request: FollowupApprovalDispatchRequest,
    a: Answers,
)
    ensures
        ({
            let steps = walk(w, request, a);
            let scoped = w.gate && request.role is Some;
            let contended = scoped && a.scopes is Err;
            &&& steps[0] is AskScopes <==> scoped
            &&& w.cancellation && !contended ==> steps[if scoped { 1int } else { 0int }]
                is AskCancellations
            &&& !contended && !(w.cancellation && (a.for_work_item is Some
                || (request.run_id is Some
                && a.for_run is Some))) && w.leasing && request.run_id is Some ==> steps[steps.len()
                - 2] is AskLease
        }),
{
    reveal_with_fuel(walk_from, 4);
}

/// What a decision hangs on: a contended scope, a pending cancellation or what came of the lease,
/// as it was answered.
pub proof fn decisions_follow_the_answers(
    w: Wiring,
    request: FollowupApprovalDispatchRequest,
    contended: ScopeContended,
    answer: Result<LeaseAcquireOutcome, String>,
)
    ensures
        step_after(w, request, AdmissionEvent::Scopes(Err(contended))) matches StepView::Decided {
            admission,
            ..
        } && admission == FollowupApprovalAdmission::ScopeContended(contended),
        step_after(w, request, AdmissionEvent::Lease(answer)) matches StepView::Decided {
            admission,
            leased,
            ..
        } && {
            &&& admission == FollowupApprovalAdmission::Lease(run_lease::attempt_of(answer))
            &&& (answer == Ok::<LeaseAcquireOutcome, String>(LeaseAcquireOutcome::Acquired))
                ==> leased
                == request.run_id
            &&& (answer != Ok::<LeaseAcquireOutcome, String>(LeaseAcquireOutcome::Acquired))
                ==> leased
                is None
        },
{
}

} // verus!
