//! How an integration request that holds a permit is let in.
//!
//! The concurrency scopes have a say first, and then the lease store. [`next_step`] says
//! which to ask next, or how the matter is decided; asking is the caller's part. A
//! contended scope decides the matter before any lease is asked for.
use crate::blocker::RunRef;
use crate::concurrency_gate::{gated_keys, DispatchKeys, DispatchTriple, ScopeContended};
use crate::integration_runner::IntegrationAdmission;
use crate::integration_tick::IntegrationDispatchRequest;
use crate::run_lease;
use crate::run_lease::{classify_lease, lease_plan, LeaseAcquireOutcome, LeaseAttempt, LeasePlan};
use crate::runner_core::Settlement;
use vstd::prelude::*;

verus! {

/// Which services are wired to the runner.
#[derive(Debug, Clone, Copy, PartialEq, Eq, Structural)]
pub struct Wiring {
    /// The concurrency scopes.
    pub gate: bool,
    /// The lease store.
    pub leasing: bool,
}

/// What happened last.
#[derive(Debug, PartialEq, Eq)]
pub enum AdmissionEvent {
    /// The request was granted its permit.
    Begin,
    /// The scopes answered.
    Scopes(Result<(), ScopeContended>),
    /// The lease store answered.
    Lease(Result<LeaseAcquireOutcome, String>),
}

/// What to do next.
#[derive(Debug, Clone, PartialEq, Eq)]
pub enum AdmissionStep {
    /// Ask for room in the scopes with these keys.
    AskScopes(DispatchTriple),
    /// Ask for the lease of this run.
    AskLease(RunRef),
    /// The matter is decided.
    Decided {
        /// How.
        admission: IntegrationAdmission,
        /// The run whose lease the request holds now, and which has to be renewed while
        /// the dispatch runs, if there is one.
        leased: Option<RunRef>,
    },
}

/// An [`AdmissionStep`], the role key by its label.
pub enum StepView {
    /// Ask for room in the scopes with these keys.
    AskScopes(DispatchKeys),
    /// Ask for the lease of this run.
    AskLease(RunRef),
    /// The matter is decided.
    Decided {
        /// How.
        admission: IntegrationAdmission,
        /// The run whose lease is held.
        leased: Option<RunRef>,
    },
}

impl View for AdmissionStep {
    type V = StepView;

    open spec fn view(&self) -> StepView {
        match *self {
            AdmissionStep::AskScopes(keys) => StepView::AskScopes(keys@),
            AdmissionStep::AskLease(run) => StepView::AskLease(run),
            AdmissionStep::Decided { admission, leased } => StepView::Decided {
                admission,
                leased,
            },
        }
    }
}

/// The lease is asked for where leasing is wired and the request reserved a run;
/// without one, the request may go ahead.
pub open spec fn after_scopes(w: Wiring, request: IntegrationDispatchRequest) -> StepView {
    match run_lease::plan_of(w.leasing, request.run_id) {
        LeasePlan::Acquire(run) => StepView::AskLease(run),
        _ => StepView::Decided {
            admission: IntegrationAdmission::Lease(LeaseAttempt::Acquired),
            leased: None,
        },
    }
}

/// Whether the scopes are asked about the request: where they are wired and it names a
/// role.
pub open spec fn is_gated(w: Wiring, request: IntegrationDispatchRequest) -> bool {
    w.gate && request.role is Some
}

/// The keys of a request that names a role.
pub open spec fn keys_of(request: IntegrationDispatchRequest) -> DispatchKeys {
    DispatchKeys {
        role: request.role->0@,
        agent_profile: request.agent_profile,
        repository: request.repository,
    }
}

/// The step after `e`.
pub open spec fn step_after(
    w: Wiring,
    request: IntegrationDispatchRequest,
    e: AdmissionEvent,
) -> StepView {
    match e {
        AdmissionEvent::Begin => if is_gated(w, request) {
            StepView::AskScopes(keys_of(request))
        } else {
            after_scopes(w, request)
        },
        AdmissionEvent::Scopes(Err(contended)) => StepView::Decided {
            admission: IntegrationAdmission::ScopeContended(contended),
            leased: None,
        },
        AdmissionEvent::Scopes(Ok(_)) => after_scopes(w, request),
        AdmissionEvent::Lease(answer) => StepView::Decided {
            admission: IntegrationAdmission::Lease(run_lease::attempt_of(answer)),
            leased: if run_lease::attempt_of(answer) == LeaseAttempt::Acquired {
                request.run_id
            } else {
                None
            },
        },
    }
}

fn lease_step(w: Wiring, request: &IntegrationDispatchRequest) -> (s: AdmissionStep)
    ensures
        s@ == after_scopes(w, *request),
{
    match lease_plan(w.leasing, request.run_id) {
        LeasePlan::Acquire(run) => AdmissionStep::AskLease(run),
        LeasePlan::Unwired | LeasePlan::Skipped => AdmissionStep::Decided {
            admission: IntegrationAdmission::Lease(LeaseAttempt::Acquired),
            leased: None,
        },
    }
}

/// What to do next about a request that holds a permit.
pub fn next_step(
    w: Wiring,
    request: &IntegrationDispatchRequest,
    e: AdmissionEvent,
) -> (s: AdmissionStep)
    ensures
        s@ == step_after(w, *request, e),
{
    match e {
        AdmissionEvent::Begin => match gated_keys(
            w.gate,
            &request.role,
            &request.agent_profile,
            &request.repository,
        ) {
            Some(keys) => AdmissionStep::AskScopes(keys),
            None => lease_step(w, request),
        },
        AdmissionEvent::Scopes(Err(contended)) => AdmissionStep::Decided {
            admission: IntegrationAdmission::ScopeContended(contended),
            leased: None,
        },
        AdmissionEvent::Scopes(Ok(_)) => lease_step(w, request),
        AdmissionEvent::Lease(answer) => {
            let attempt = classify_lease(&answer);
            let leased: Option<RunRef> = match attempt {
                LeaseAttempt::Acquired => request.run_id,
                _ => None,
            };
            AdmissionStep::Decided { admission: IntegrationAdmission::Lease(attempt), leased }
        },
    }
}

/// What the services would answer, each if it were asked.
pub struct Answers {
    /// The scopes.
    pub scopes: Result<(), ScopeContended>,
    /// The lease store.
    pub lease: Result<LeaseAcquireOutcome, String>,
}

impl Answers {
    /// The event that carries the answer to `s`.
    pub open spec fn reply(self, s: StepView) -> AdmissionEvent {
        match s {
            StepView::AskScopes(_) => AdmissionEvent::Scopes(self.scopes),
            StepView::AskLease(_) => AdmissionEvent::Lease(self.lease),
            StepView::Decided { .. } => AdmissionEvent::Begin,
        }
    }

    /// Whether the scopes stop the request.
    pub open spec fn contended(self, w: Wiring, request: IntegrationDispatchRequest) -> bool {
        is_gated(w, request) && self.scopes is Err
    }
}

/// How far a step is from a decision.
pub open spec fn rank(s: StepView) -> nat {
    match s {
        StepView::AskScopes(_) => 2,
        StepView::AskLease(_) => 1,
        StepView::Decided { .. } => 0,
    }
}

/// The steps from `s` on, each answered as `a` says.
pub open spec fn walk_from(
    w: Wiring,
    request: IntegrationDispatchRequest,
    a: Answers,
    s: StepView,
) -> Seq<StepView>
    decreases rank(s),
{
    match s {
        StepView::Decided { .. } => seq![s],
        _ => seq![s] + walk_from(w, request, a, step_after(w, request, a.reply(s))),
    }
}

/// The steps of a request, from its permit to the decision.
pub open spec fn walk(
    w: Wiring,
    request: IntegrationDispatchRequest,
    a: Answers,
) -> Seq<StepView> {
    walk_from(w, request, a, step_after(w, request, AdmissionEvent::Begin))
}

/// Every walk ends in a decision, and asks each service at most once: the scopes before
/// the lease store.
pub proof fn services_are_asked_in_order(
    w: Wiring,
    request: IntegrationDispatchRequest,
    a: Answers,
)
    ensures
        walk(w, request, a).len() > 0,
        walk(w, request, a).last() is Decided,
        forall|i: int, j: int|
            #![trigger walk(w, request, a)[i], walk(w, request, a)[j]]
            0 <= i < j < walk(w, request, a).len() ==> rank(walk(w, request, a)[i]) > rank(
                walk(w, request, a)[j],
            ),
{
    reveal_with_fuel(walk_from, 3);
}

/// A contended scope ends the walk at once: no lease is asked for, and none is held.
pub proof fn contended_scopes_end_the_walk(
    w: Wiring,
    request: IntegrationDispatchRequest,
    a: Answers,
)
    requires
        a.contended(w, request),
    ensures
        walk(w, request, a) == seq![
            StepView::AskScopes(keys_of(request)),
            StepView::Decided {
                admission: IntegrationAdmission::ScopeContended(a.scopes->Err_0),
                leased: None,
            },
        ],
{
    reveal_with_fuel(walk_from, 2);
}

/// No walk asks for a lease after a contended scope: the lease is asked for only where
/// the scopes do not hold the request back.
pub proof fn leases_are_asked_for_last(
    w: Wiring,
    request: IntegrationDispatchRequest,
    a: Answers,
    i: int,
)
    requires
        0 <= i < walk(w, request, a).len(),
        walk(w, request, a)[i] is AskLease,
    ensures
        !a.contended(w, request),
        w.leasing,
        request.run_id == Some(walk(w, request, a)[i]->AskLease_0),
{
    if a.contended(w, request) {
        contended_scopes_end_the_walk(w, request, a);
    }
    reveal_with_fuel(walk_from, 3);
}

/// A request that the scopes do not hold back is let in: the walk ends with what came of
/// the lease, or with leave to go ahead where no lease is needed.
pub proof fn unhindered_requests_are_let_in(
    w: Wiring,
    request: IntegrationDispatchRequest,
    a: Answers,
)
    requires
        !a.contended(w, request),
    ensures
        walk(w, request, a).last() == (if w.leasing && request.run_id is Some {
            step_after(w, request, AdmissionEvent::Lease(a.lease))
        } else {
            StepView::Decided {
                admission: IntegrationAdmission::Lease(LeaseAttempt::Acquired),
                leased: None,
            }
        }),
{
    reveal_with_fuel(walk_from, 3);
}

/// Only a request that starts holds a lease, its own: one that is parked or dropped
/// holds none.
pub proof fn only_started_requests_hold_a_lease(
    w: Wiring,
    request: IntegrationDispatchRequest,
    e: AdmissionEvent,
)
    ensures
        step_after(w, request, e) matches StepView::Decided { admission, leased } ==> {
            &&& leased is Some ==> leased == request.run_id
            &&& leased is Some ==> admission.settlement() == Settlement::Start
            &&& admission.settlement() != Settlement::Start ==> leased is None
        },
{
}

/// A service is asked only where it is wired, and about the request itself: the scopes under
/// the request's own role, profile and repository and the lease store about its own
/// run.
pub proof fn services_are_asked_about_the_request(
    w: Wiring,
    request: IntegrationDispatchRequest,
    a: Answers,
    i: int,
)
    requires
        0 <= i < walk(w, request, a).len(),
    ensures
        walk(w, request, a)[i] matches StepView::AskScopes(keys) ==> {
            &&& w.gate
            &&& request.role matches Some(role) && keys.role == role@
            &&& keys.agent_profile == request.agent_profile
            &&& keys.repository == request.repository
        },
        walk(w, request, a)[i] matches StepView::AskLease(run) ==> w.leasing
            && request.run_id == Some(
            run,
        ),
{
    reveal_with_fuel(walk_from, 3);
}

/// Every wired service that can hold the request back is asked, unless one before it did:
/// the scopes where the request names a role, then the lease
/// store where it reserved a run.
pub proof fn wired_services_are_asked(w: Wiring, request: IntegrationDispatchRequest, a: Answers)
    ensures
        ({
            let steps = walk(w, request, a);
            let scoped = w.gate && request.role is Some;
            let contended = scoped && a.scopes is Err;
            &&& steps[0] is AskScopes <==> scoped
            &&& !contended && w.leasing && request.run_id is Some ==> steps[if scoped {
                1int
            } else {
                0int
            }] is AskLease
        }),
{
    reveal_with_fuel(walk_from, 3);
}

/// What a decision hangs on: a contended scope or what came of the lease,
/// as it was answered.
pub proof fn decisions_follow_the_answers(
    w: Wiring,
    request: IntegrationDispatchRequest,
    contended: ScopeContended,
    answer: Result<LeaseAcquireOutcome, String>,
)
    ensures
        step_after(w, request, AdmissionEvent::Scopes(Err(contended))) matches StepView::Decided {
            admission,
            ..
        } && admission == IntegrationAdmission::ScopeContended(contended),
        step_after(w, request, AdmissionEvent::Lease(answer)) matches StepView::Decided {
            admission,
            leased,
            ..
        } && {
            &&& admission == IntegrationAdmission::Lease(run_lease::attempt_of(answer))
            &&& (answer == Ok::<LeaseAcquireOutcome, String>(LeaseAcquireOutcome::Acquired))
                ==> leased
                == request.run_id
            &&& (answer != Ok::<LeaseAcquireOutcome, String>(LeaseAcquireOutcome::Acquired))
                ==> leased
                is None
        },
{
}

} // verus!
