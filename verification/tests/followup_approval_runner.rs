use symphony_core::blocker::RunRef;
use symphony_core::cancellation::{observed_cancellation, CancelRequest, CancelSubject};
use symphony_core::concurrency_gate::{
    ContentionSubject, DispatchTriple, Scope, ScopeContended, ScopeFields, ScopeKind,
};
use symphony_core::followup::FollowupId;
use symphony_core::followup_approval_admission::{
    next_step, AdmissionEvent, AdmissionStep, Wiring,
};
use symphony_core::heartbeat::{due_observations, HeartbeatRegistry};
use symphony_core::followup_approval_runner::{
    FollowupApprovalAdmission, FollowupApprovalDispatchOutcome, FollowupApprovalDispatchReason,
    FollowupApprovalRunner, FollowupApprovalRunReport, RunnerHeartbeatObservation,
};
use symphony_core::followup_approval_tick::{FollowupApprovalDispatchQueue, FollowupApprovalDispatchRequest};
use symphony_core::role::RoleName;
use symphony_core::run_lease::{HeartbeatPulseObservation, LeaseAcquireOutcome, LeaseAttempt};
use symphony_core::runner_core::PassOffer;
use symphony_core::work_item::WorkItemId;

fn req(id: i64, source: i64, title: &str, blocking: bool) -> FollowupApprovalDispatchRequest {
    FollowupApprovalDispatchRequest {
        followup_id: FollowupId::new(id),
        source_work_item: WorkItemId::new(source),
        title: title.into(),
        blocking,
        approval_role: RoleName::new("platform_lead"),
        run_id: None,
        role: None,
        agent_profile: None,
        repository: None,
    }
}

fn req_with_run(
    id: i64,
    source: i64,
    title: &str,
    blocking: bool,
    run_id: i64,
) -> FollowupApprovalDispatchRequest {
    FollowupApprovalDispatchRequest {
        run_id: Some(RunRef::new(run_id)),
        ..req(id, source, title, blocking)
    }
}

fn req_full(
    id: i64,
    source: i64,
    title: &str,
    role: &str,
    agent_profile: Option<&str>,
    repository: Option<&str>,
) -> FollowupApprovalDispatchRequest {
    FollowupApprovalDispatchRequest {
        role: Some(RoleName::new(role)),
        agent_profile: agent_profile.map(str::to_owned),
        repository: repository.map(str::to_owned),
        ..req(id, source, title, false)
    }
}

#[derive(Default)]
struct Gate {
    caps: Vec<(Scope, u32)>,
    held: Vec<Scope>,
}

impl Gate {
    fn set_cap(&mut self, scope: Scope, cap: u32) {
        self.caps.push((scope, cap));
    }

    fn scopes(keys: &DispatchTriple) -> Vec<Scope> {
        let mut scopes = vec![Scope::Global, Scope::Role(keys.role.clone())];
        scopes.extend(keys.agent_profile.clone().map(Scope::AgentProfile));
        scopes.extend(keys.repository.clone().map(Scope::Repository));
        scopes
    }

    fn try_acquire(&mut self, keys: &DispatchTriple) -> Result<(), ScopeContended> {
        for scope in Self::scopes(keys) {
            let in_flight = self.held.iter().filter(|s| **s == scope).count();
            for (capped, cap) in &self.caps {
                if *capped == scope && in_flight >= usize::try_from(*cap).unwrap() {
                    return Err(ScopeContended {
                        scope,
                        in_flight: u32::try_from(in_flight).unwrap(),
                        cap: *cap,
                    });
                }
            }
        }
        self.held.extend(Self::scopes(keys));
        Ok(())
    }

    fn release(&mut self, keys: &DispatchTriple) {
        for scope in Self::scopes(keys) {
            let at = self.held.iter().position(|s| *s == scope).unwrap();
            self.held.remove(at);
        }
    }
}

#[derive(Default)]
struct Store {
    runs: Vec<(RunRef, Option<String>)>,
    fail_next: Option<String>,
}

impl Store {
    fn acquire(&mut self, run: RunRef) -> Result<LeaseAcquireOutcome, String> {
        if let Some(message) = self.fail_next.take() {
            return Err(message);
        }
        match self.runs.iter_mut().find(|(r, _)| *r == run) {
            None => Ok(LeaseAcquireOutcome::NotFound),
            Some((_, Some(holder))) => Ok(LeaseAcquireOutcome::Contended {
                holder: holder.clone(),
                expires_at: "later".into(),
            }),
            Some((_, free)) => {
                *free = Some("me".into());
                Ok(LeaseAcquireOutcome::Acquired)
            }
        }
    }
}

struct Running {
    request: FollowupApprovalDispatchRequest,
    keys: Option<DispatchTriple>,
}

struct Harness {
    runner: FollowupApprovalRunner,
    queue: FollowupApprovalDispatchQueue,
    gate: Option<Gate>,
    store: Option<Store>,
    running: Vec<Running>,
    calls: Vec<i64>,
    heartbeats: Option<HeartbeatRegistry<FollowupId>>,
    cancels: Option<Vec<CancelRequest>>,
    marked: Vec<RunRef>,
    steps: Vec<AdmissionStep>,
}

impl Harness {
    fn new(max_concurrent: usize) -> Self {
        Self {
            runner: FollowupApprovalRunner::new(max_concurrent),
            queue: FollowupApprovalDispatchQueue::new(),
            gate: None,
            store: None,
            running: Vec::new(),
            calls: Vec::new(),
            heartbeats: Some(HeartbeatRegistry::new()),
            cancels: None,
            marked: Vec::new(),
            steps: Vec::new(),
        }
    }

    fn wiring(&self) -> Wiring {
        Wiring {
            gate: self.gate.is_some(),
            cancellation: self.cancels.is_some(),
            leasing: self.store.is_some(),
        }
    }

    fn pending(&self, subject: CancelSubject) -> Option<CancelRequest> {
        let cancels = self.cancels.as_ref().unwrap();
        cancels.iter().find(|c| c.subject == subject).cloned()
    }

    fn ask(
        &mut self,
        request: &FollowupApprovalDispatchRequest,
    ) -> (FollowupApprovalAdmission, Option<DispatchTriple>, Option<RunRef>) {
        let mut held: Option<DispatchTriple> = None;
        let mut event = AdmissionEvent::Begin;
        loop {
            let step = next_step(self.wiring(), request, event);
            self.steps.push(step.clone());
            event = match step {
                AdmissionStep::AskScopes(keys) => {
                    let answer = self.gate.as_mut().unwrap().try_acquire(&keys);
                    if answer.is_ok() {
                        held = Some(keys);
                    }
                    AdmissionEvent::Scopes(answer)
                }
                AdmissionStep::AskCancellations { run, work_item } => {
                    AdmissionEvent::Cancellations {
                        for_run: run.and_then(|run| self.pending(CancelSubject::Run(run))),
                        for_work_item: self.pending(CancelSubject::WorkItem(work_item)),
                    }
                }
                AdmissionStep::AskLease(run) => {
                    AdmissionEvent::Lease(self.store.as_mut().unwrap().acquire(run))
                }
                AdmissionStep::Decided {
                    admission,
                    mark_and_drain,
                    leased,
                } => {
                    if let Some(run) = mark_and_drain {
                        self.marked.push(run);
                        let cancels = self.cancels.as_mut().unwrap();
                        cancels.retain(|c| c.subject != CancelSubject::Run(run));
                    }
                    return (admission, held, leased);
                }
            };
        }
    }

    fn run_pending(&mut self) -> FollowupApprovalRunReport {
        let mut pass = self.runner.begin_pass(self.queue.drain());
        loop {
            let (next, offer) = self.runner.offer(pass);
            pass = next;
            match offer {
                PassOffer::Finished => break,
                PassOffer::Parked => {}
                PassOffer::Granted => {
                    let request = pass.current().unwrap().clone();
                    let (admission, keys, leased) = self.ask(&request);
                    let (next, started) = self.runner.settle(pass, admission);
                    pass = next;
                    if let Some(request) = started {
                        self.calls.push(request.followup_id.get());
                        if let Some(run) = leased {
                            let heartbeats = self.heartbeats.take().unwrap();
                            self.heartbeats = Some(heartbeats.register(run, request.followup_id));
                        }
                        self.running.push(Running { request, keys });
                    } else if let (Some(gate), Some(keys)) = (self.gate.as_mut(), keys.as_ref()) {
                        gate.release(keys);
                    }
                }
            }
        }
        self.runner.end_pass(pass)
    }

    fn finish(
        &mut self,
        id: i64,
        reason: FollowupApprovalDispatchReason,
    ) -> FollowupApprovalDispatchOutcome {
        let at = self
            .running
            .iter()
            .position(|r| r.request.followup_id == FollowupId::new(id))
            .unwrap();
        let done = self.running.remove(at);
        if let (Some(gate), Some(keys)) = (self.gate.as_mut(), done.keys.as_ref()) {
            gate.release(keys);
        }
        if let Some(run) = done.request.run_id {
            let heartbeats = self.heartbeats.take().unwrap();
            self.heartbeats = Some(heartbeats.forget(run));
        }
        self.runner.finish_dispatch();
        FollowupApprovalDispatchOutcome {
            followup_id: done.request.followup_id,
            reason,
        }
    }

    fn pulse(
        &self,
        mut look: impl FnMut(RunRef) -> Option<HeartbeatPulseObservation>,
    ) -> Vec<RunnerHeartbeatObservation> {
        let looks = self
            .heartbeats
            .as_ref()
            .unwrap()
            .entries()
            .iter()
            .map(|(run, followup)| (*run, *followup, look(*run)))
            .collect();
        due_observations(self.store.is_some(), looks)
            .into_iter()
            .map(|(run_id, followup_id, observation)| RunnerHeartbeatObservation {
                run_id,
                followup_id,
                observation,
            })
            .collect()
    }

    fn heartbeat_count(&self) -> usize {
        self.heartbeats.as_ref().unwrap().len()
    }
}

fn leasing_harness(max_concurrent: usize, runs: &[i64]) -> Harness {
    let mut h = Harness::new(max_concurrent);
    h.store = Some(Store {
        runs: runs.iter().map(|r| (RunRef::new(*r), None)).collect(),
        fail_next: None,
    });
    h
}

#[test]
fn followup_approval_runner_run_pending_is_noop_when_queue_empty() {
    let mut h = Harness::new(4);
    let report = h.run_pending();
    assert!(report.is_idle(), "expected idle, got {report:?}");
    assert_eq!(h.runner.permits_in_use(), 0);
    assert!(h.calls.is_empty());
}

#[test]
fn approved_request_dispatches_and_reaps() {
    let mut h = Harness::new(4);
    h.queue.enqueue(req(1, 100, "rate limit", false));
    let report = h.run_pending();
    assert_eq!(report.spawned, 1);
    assert_eq!(report.deferred_capacity, 0);
    let outcome = h.finish(1, FollowupApprovalDispatchReason::Approved);
    assert_eq!(outcome.followup_id, FollowupId::new(1));
    assert_eq!(outcome.reason, FollowupApprovalDispatchReason::Approved);
    assert_eq!(h.calls, vec![1]);
}

#[test]
fn rejected_request_surfaces_rejected_reason() {
    let mut h = Harness::new(4);
    h.queue.enqueue(req(2, 100, "out of scope", false));
    assert_eq!(h.run_pending().spawned, 1);
    let outcome = h.finish(2, FollowupApprovalDispatchReason::Rejected);
    assert_eq!(outcome.reason, FollowupApprovalDispatchReason::Rejected);
}

#[test]
fn deferred_decision_surfaces_deferred_reason() {
    let mut h = Harness::new(4);
    h.queue.enqueue(req(3, 100, "needs owner", false));
    assert_eq!(h.run_pending().spawned, 1);
    let outcome = h.finish(3, FollowupApprovalDispatchReason::Deferred);
    assert_eq!(outcome.reason, FollowupApprovalDispatchReason::Deferred);
}

#[test]
fn mixed_decisions_dispatch_independently() {
    let mut h = Harness::new(4);
    h.queue.enqueue(req(1, 100, "approve me", false));
    h.queue.enqueue(req(2, 100, "reject me", false));
    h.queue.enqueue(req(3, 100, "defer me", true));
    assert_eq!(h.run_pending().spawned, 3);
    let outcomes = vec![
        h.finish(1, FollowupApprovalDispatchReason::Approved),
        h.finish(2, FollowupApprovalDispatchReason::Rejected),
        h.finish(3, FollowupApprovalDispatchReason::Deferred),
    ];
    let by_id: Vec<(i64, FollowupApprovalDispatchReason)> = outcomes
        .into_iter()
        .map(|o| (o.followup_id.get(), o.reason))
        .collect();
    assert_eq!(
        by_id,
        vec![
            (1, FollowupApprovalDispatchReason::Approved),
            (2, FollowupApprovalDispatchReason::Rejected),
            (3, FollowupApprovalDispatchReason::Deferred),
        ]
    );
}

#[test]
fn followup_approval_runner_run_pending_defers_when_capacity_saturated() {
    let mut h = Harness::new(1);
    h.queue.enqueue(req(1, 100, "a", false));
    h.queue.enqueue(req(2, 100, "b", false));
    h.queue.enqueue(req(3, 100, "c", false));

    let report = h.run_pending();
    assert_eq!(report.spawned, 1, "report = {report:?}");
    assert_eq!(report.deferred_capacity, 2);
    assert_eq!(h.runner.deferred_count(), 2);

    h.finish(1, FollowupApprovalDispatchReason::Approved);
    let report = h.run_pending();
    assert_eq!(report.spawned, 1, "report = {report:?}");
    assert_eq!(report.deferred_capacity, 1);
    h.finish(2, FollowupApprovalDispatchReason::Approved);

    let report = h.run_pending();
    assert_eq!(report.spawned, 1);
    assert_eq!(report.deferred_capacity, 0);
    assert_eq!(h.calls, vec![1, 2, 3]);
}

#[test]
fn followup_approval_runner_deferred_requests_keep_age_order_across_passes() {
    let mut h = Harness::new(0);
    h.queue.enqueue(req(1, 100, "a", false));
    h.queue.enqueue(req(2, 100, "b", false));
    let r1 = h.run_pending();
    assert_eq!(r1.deferred_capacity, 2);

    h.queue.enqueue(req(3, 100, "c", false));
    let r2 = h.run_pending();
    assert_eq!(r2.deferred_capacity, 3);

    let parked: Vec<i64> = h
        .runner
        .deferred_requests()
        .iter()
        .map(|r| r.followup_id.get())
        .collect();
    assert_eq!(parked, vec![1, 2, 3]);
}

#[test]
fn followup_approval_runner_capacity_zero_defers_everything() {
    let mut h = Harness::new(0);
    assert_eq!(h.runner.max_concurrent(), 0);
    h.queue.enqueue(req(1, 100, "a", false));
    let report = h.run_pending();
    assert_eq!(report.spawned, 0);
    assert_eq!(report.deferred_capacity, 1);
    assert!(h.calls.is_empty());
}

#[test]
fn followup_approval_runner_reap_returns_outcomes_for_every_completed_dispatch() {
    let mut h = Harness::new(4);
    h.queue.enqueue(req(1, 100, "a", false));
    h.queue.enqueue(req(2, 100, "b", false));
    assert_eq!(h.run_pending().spawned, 2);
    let ids = vec![
        h.finish(1, FollowupApprovalDispatchReason::Approved)
            .followup_id
            .get(),
        h.finish(2, FollowupApprovalDispatchReason::Approved)
            .followup_id
            .get(),
    ];
    assert_eq!(ids, vec![1, 2]);
    assert_eq!(h.runner.permits_in_use(), 0);
}

#[test]
fn followup_approval_runner_contended_lease_parks_request_and_does_not_consume_capacity() {
    let mut h = leasing_harness(2, &[1, 2]);
    h.store.as_mut().unwrap().runs[0].1 = Some("other".into());
    h.queue.enqueue(req_with_run(1, 100, "blocked", false, 1));
    h.queue.enqueue(req_with_run(2, 100, "free", false, 2));

    let report = h.run_pending();
    assert_eq!(report.spawned, 1);
    assert_eq!(report.deferred_lease_contention, 1);
    assert_eq!(h.runner.deferred_count(), 1);
    assert_eq!(h.runner.permits_in_use(), 1);
}

#[test]
fn followup_approval_runner_missing_run_drops_request_without_dispatch() {
    let mut h = leasing_harness(4, &[]);
    h.queue.enqueue(req_with_run(1, 100, "no-run", false, 404));
    let report = h.run_pending();
    assert_eq!(report.spawned, 0);
    assert_eq!(report.missing_run, 1);
    assert!(h.calls.is_empty());
}

#[test]
fn followup_approval_runner_request_without_run_id_dispatches_without_lease_acquisition() {
    let mut h = leasing_harness(4, &[]);
    h.queue.enqueue(req(1, 100, "no-lease", false));
    assert_eq!(h.run_pending().spawned, 1);
    assert_eq!(h.heartbeat_count(), 0);
    let outcome = h.finish(1, FollowupApprovalDispatchReason::Approved);
    assert_eq!(outcome.reason, FollowupApprovalDispatchReason::Approved);
}

#[test]
fn followup_approval_runner_backend_error_parks_request_for_retry() {
    let mut h = leasing_harness(4, &[1]);
    h.store.as_mut().unwrap().fail_next = Some("disk full".into());
    h.queue.enqueue(req_with_run(1, 100, "io-blip", false, 1));
    let report = h.run_pending();
    assert_eq!(report.spawned, 0);
    assert_eq!(report.lease_backend_error, 1);
    assert_eq!(h.runner.deferred_count(), 1);
    assert!(h.calls.is_empty());
}

#[test]
fn due_approval_heartbeats_are_reported() {
    let mut h = leasing_harness(4, &[42]);
    h.queue.enqueue(req_with_run(1, 100, "rate limit", false, 42));
    assert_eq!(h.run_pending().spawned, 1);
    assert_eq!(h.heartbeat_count(), 1);
    let observations = h.pulse(|_| Some(HeartbeatPulseObservation::NotFound));
    assert_eq!(observations.len(), 1);
    assert_eq!(observations[0].run_id, RunRef::new(42));
    assert_eq!(observations[0].followup_id, FollowupId::new(1));
    assert_eq!(
        observations[0].observation,
        HeartbeatPulseObservation::NotFound
    );
    h.finish(1, FollowupApprovalDispatchReason::Approved);
    assert_eq!(h.heartbeat_count(), 0);
}

#[test]
fn followup_approval_runner_pulse_heartbeats_is_noop_without_lease_wiring() {
    let h = Harness::new(4);
    assert!(h
        .pulse(|_| Some(HeartbeatPulseObservation::Renewed))
        .is_empty());
    assert_eq!(h.heartbeat_count(), 0);
}

#[test]
fn approval_role_cap_serializes_dispatch_independent_of_qa_cap() {
    let mut h = Harness::new(4);
    let mut gate = Gate::default();
    gate.set_cap(Scope::Role("platform_lead".into()), 1);
    gate.set_cap(Scope::Role("qa".into()), 99);
    h.gate = Some(gate);

    h.queue
        .enqueue(req_full(1, 100, "a", "platform_lead", None, None));
    h.queue
        .enqueue(req_full(2, 100, "b", "platform_lead", None, None));
    h.queue
        .enqueue(req_full(3, 100, "c", "platform_lead", None, None));

    let report = h.run_pending();
    assert_eq!(report.spawned, 1, "report = {report:?}");
    assert_eq!(report.deferred_scope_contention, 2);
    assert_eq!(report.scope_contentions.len(), 2);
    for obs in &report.scope_contentions {
        assert_eq!(obs.scope_kind, ScopeKind::Role);
        assert_eq!(obs.scope_key, "platform_lead");
        assert_eq!(obs.cap, 1);
        assert_eq!(obs.in_flight, 1);
    }
    let parked: Vec<i64> = report
        .scope_contentions
        .iter()
        .map(|o| o.followup_id.get())
        .collect();
    assert_eq!(parked, vec![2, 3]);
    assert_eq!(h.runner.permits_in_use(), 1);
    assert_eq!(h.runner.deferred_count(), 2);

    h.finish(1, FollowupApprovalDispatchReason::Approved);
    let report = h.run_pending();
    assert_eq!(report.spawned, 1, "report = {report:?}");
    assert_eq!(report.deferred_scope_contention, 1);
}

#[test]
fn approval_repository_cap_parks_without_consuming_capacity() {
    let mut h = Harness::new(2);
    let mut gate = Gate::default();
    gate.set_cap(Scope::Repository("acme/widgets".into()), 1);
    h.gate = Some(gate);

    h.queue.enqueue(req_full(
        1,
        100,
        "a",
        "platform_lead",
        None,
        Some("acme/widgets"),
    ));
    h.queue.enqueue(req_full(
        2,
        100,
        "b",
        "platform_lead",
        None,
        Some("acme/widgets"),
    ));
    h.queue.enqueue(req_full(
        3,
        100,
        "c",
        "platform_lead",
        None,
        Some("acme/other"),
    ));

    let report = h.run_pending();
    assert_eq!(report.spawned, 2, "report = {report:?}");
    assert_eq!(report.deferred_scope_contention, 1);
    let obs = &report.scope_contentions[0];
    assert_eq!(obs.scope_kind, ScopeKind::Repository);
    assert_eq!(obs.scope_key, "acme/widgets");
    assert_eq!(obs.followup_id, FollowupId::new(2));
}

#[test]
fn approval_no_concurrency_gate_means_no_scope_observations() {
    let mut h = Harness::new(4);
    h.queue.enqueue(req_full(
        1,
        100,
        "a",
        "platform_lead",
        Some("profile-a"),
        Some("acme/widgets"),
    ));
    let report = h.run_pending();
    assert_eq!(report.spawned, 1);
    assert!(report.scope_contentions.is_empty());
    assert_eq!(report.deferred_scope_contention, 0);
}

#[test]
fn approval_dispatch_without_role_bypasses_concurrency_gate() {
    let mut h = Harness::new(4);
    let mut gate = Gate::default();
    gate.set_cap(Scope::Global, 0);
    h.gate = Some(gate);
    h.queue.enqueue(req(1, 100, "a", false));
    let report = h.run_pending();
    assert_eq!(report.spawned, 1, "report = {report:?}");
    assert!(report.scope_contentions.is_empty());
}

#[test]
fn contended_approvals_are_recorded_under_the_decimal_followup_id() {
    let mut h = Harness::new(4);
    let mut gate = Gate::default();
    gate.set_cap(Scope::Role("platform_lead".into()), 0);
    h.gate = Some(gate);
    h.queue
        .enqueue(req_full(12, 100, "a", "platform_lead", None, None));
    let report = h.run_pending();
    assert_eq!(
        report.observations(),
        vec![(
            ContentionSubject::Identifier("12".into()),
            ScopeFields {
                scope_kind: ScopeKind::Role,
                scope_key: "platform_lead".into(),
                in_flight: 0,
                cap: 0,
            }
        )]
    );
}

#[test]
fn cancellation_observed_for_run_aborts_followup_dispatch() {
    let mut h = Harness::new(4);
    h.cancels = Some(vec![CancelRequest::for_run(
        RunRef::new(42),
        "operator cancel",
        "tester",
        "2026-05-09T00:00:00Z",
    )]);
    h.queue.enqueue(req_with_run(1, 7, "fix", false, 42));

    let report = h.run_pending();
    assert_eq!(report.spawned, 0);
    assert_eq!(report.cancelled_before_lease, 1);
    assert_eq!(report.cancellations[0].followup_id, FollowupId::new(1));
    assert_eq!(report.cancellations[0].source_work_item, WorkItemId::new(7));
    assert_eq!(report.cancellations[0].run_id, Some(RunRef::new(42)));
    assert_eq!(report.cancellations[0].request.reason, "operator cancel");

    assert!(h.calls.is_empty());
    assert_eq!(h.marked, vec![RunRef::new(42)]);
    assert!(h.cancels.unwrap().is_empty());
    assert_eq!(h.runner.permits_in_use(), 0);
}

#[test]
fn cancellation_observed_via_source_work_item_aborts_followup_but_leaves_entry() {
    let mut h = Harness::new(4);
    h.cancels = Some(vec![CancelRequest::for_work_item(
        WorkItemId::new(7),
        "source cancel",
        "tester",
        "2026-05-09T00:00:00Z",
    )]);
    h.queue.enqueue(req_with_run(1, 7, "fix", false, 99));

    let report = h.run_pending();
    assert_eq!(report.cancelled_before_lease, 1);
    assert_eq!(report.cancellations[0].request.reason, "source cancel");
    assert_eq!(h.marked, vec![RunRef::new(99)]);
    assert_eq!(h.cancels.unwrap().len(), 1);
}

#[test]
fn cancellation_without_run_reservation_skips_followup_sink_and_drain() {
    let mut h = Harness::new(4);
    h.cancels = Some(vec![CancelRequest::for_work_item(
        WorkItemId::new(7),
        "source cancel",
        "tester",
        "2026-05-09T00:00:00Z",
    )]);
    h.queue.enqueue(req(1, 7, "fix", false));

    let report = h.run_pending();
    assert_eq!(report.cancelled_before_lease, 1);
    assert!(h.calls.is_empty());
    assert!(h.marked.is_empty());
    assert_eq!(h.cancels.unwrap().len(), 1);
}

#[test]
fn a_cancellation_of_the_run_comes_before_one_of_the_work_item() {
    let run = CancelRequest::for_run(RunRef::new(1), "run", "tester", "now");
    let item = CancelRequest::for_work_item(WorkItemId::new(2), "item", "tester", "now");
    assert_eq!(
        observed_cancellation(Some(run.clone()), Some(item.clone())),
        Some(run)
    );
    assert_eq!(observed_cancellation(None, Some(item.clone())), Some(item));
    assert_eq!(observed_cancellation(None, None), None);
}

#[test]
fn followup_approval_runner_pulse_heartbeats_surfaces_contended_observation() {
    let mut h = leasing_harness(4, &[42]);
    h.queue.enqueue(req_with_run(1, 100, "rate limit", false, 42));
    assert_eq!(h.run_pending().spawned, 1);
    assert_eq!(h.heartbeat_count(), 1);
    let seen = HeartbeatPulseObservation::Contended {
        holder: "other-host/scheduler-test/worker-9".into(),
        expires_at: "Z9999+999999999999ms".into(),
    };
    let observations = h.pulse(|_| Some(seen.clone()));
    assert_eq!(observations.len(), 1);
    assert_eq!(observations[0].observation, seen);
    assert_eq!(observations[0].run_id, RunRef::new(42));
    assert_eq!(observations[0].followup_id, FollowupId::new(1));
}

#[test]
fn followup_approval_runner_pulse_heartbeats_surfaces_not_found_observation() {
    let mut h = leasing_harness(4, &[42]);
    h.queue.enqueue(req_with_run(1, 100, "rate limit", false, 42));
    assert_eq!(h.run_pending().spawned, 1);
    assert_eq!(h.heartbeat_count(), 1);
    let seen = HeartbeatPulseObservation::NotFound;
    let observations = h.pulse(|_| Some(seen.clone()));
    assert_eq!(observations.len(), 1);
    assert_eq!(observations[0].observation, seen);
    assert_eq!(observations[0].run_id, RunRef::new(42));
    assert_eq!(observations[0].followup_id, FollowupId::new(1));
}

#[test]
fn followup_approval_runner_pulse_heartbeats_surfaces_backend_error_observation() {
    let mut h = leasing_harness(4, &[42]);
    h.queue.enqueue(req_with_run(1, 100, "rate limit", false, 42));
    assert_eq!(h.run_pending().spawned, 1);
    assert_eq!(h.heartbeat_count(), 1);
    let seen = HeartbeatPulseObservation::BackendError {
        message: "disk full".to_string(),
    };
    let observations = h.pulse(|_| Some(seen.clone()));
    assert_eq!(observations.len(), 1);
    assert_eq!(observations[0].observation, seen);
    assert_eq!(observations[0].run_id, RunRef::new(42));
    assert_eq!(observations[0].followup_id, FollowupId::new(1));
}

#[test]
fn services_are_asked_in_order_until_the_lease_is_held() {
    let mut h = leasing_harness(4, &[42]);
    h.gate = Some(Gate::default());
    h.cancels = Some(Vec::new());
    let request = FollowupApprovalDispatchRequest {
        run_id: Some(RunRef::new(42)),
        ..req_full(1, 7, "fix", "platform_lead", Some("profile-a"), Some("acme/widgets"))
    };
    h.queue.enqueue(request);
    assert_eq!(h.run_pending().spawned, 1);
    assert_eq!(
        h.steps,
        vec![
            AdmissionStep::AskScopes(DispatchTriple {
                role: "platform_lead".into(),
                agent_profile: Some("profile-a".into()),
                repository: Some("acme/widgets".into()),
            }),
            AdmissionStep::AskCancellations {
                run: Some(RunRef::new(42)),
                work_item: WorkItemId::new(7),
            },
            AdmissionStep::AskLease(RunRef::new(42)),
            AdmissionStep::Decided {
                admission: FollowupApprovalAdmission::Lease(LeaseAttempt::Acquired),
                mark_and_drain: None,
                leased: Some(RunRef::new(42)),
            },
        ]
    );
}

#[test]
fn a_contended_scope_ends_the_walk_before_cancellation_and_lease() {
    let mut h = leasing_harness(4, &[42]);
    let mut gate = Gate::default();
    gate.set_cap(Scope::Global, 0);
    h.gate = Some(gate);
    h.cancels = Some(vec![CancelRequest::for_run(RunRef::new(42), "stop", "tester", "now")]);
    h.queue.enqueue(FollowupApprovalDispatchRequest {
        run_id: Some(RunRef::new(42)),
        ..req_full(1, 7, "fix", "platform_lead", None, None)
    });
    let report = h.run_pending();
    assert_eq!(report.deferred_scope_contention, 1);
    assert_eq!(report.cancelled_before_lease, 0);
    assert_eq!(h.steps.len(), 2);
    assert!(matches!(h.steps[0], AdmissionStep::AskScopes(_)));
    assert_eq!(
        h.steps[1],
        AdmissionStep::Decided {
            admission: FollowupApprovalAdmission::ScopeContended(ScopeContended {
                scope: Scope::Global,
                in_flight: 0,
                cap: 0,
            }),
            mark_and_drain: None,
            leased: None,
        }
    );
    assert!(h.marked.is_empty());
    assert_eq!(h.cancels.unwrap().len(), 1);
    assert_eq!(h.store.unwrap().runs, vec![(RunRef::new(42), None)]);
}

#[test]
fn an_observed_cancellation_ends_the_walk_before_the_lease() {
    let mut h = leasing_harness(4, &[42]);
    let cancel = CancelRequest::for_work_item(WorkItemId::new(7), "stop", "tester", "now");
    h.cancels = Some(vec![cancel.clone()]);
    h.queue.enqueue(req_with_run(1, 7, "fix", false, 42));
    assert_eq!(h.run_pending().cancelled_before_lease, 1);
    assert_eq!(
        h.steps,
        vec![
            AdmissionStep::AskCancellations {
                run: Some(RunRef::new(42)),
                work_item: WorkItemId::new(7),
            },
            AdmissionStep::Decided {
                admission: FollowupApprovalAdmission::Cancelled(cancel),
                mark_and_drain: Some(RunRef::new(42)),
                leased: None,
            },
        ]
    );
    assert_eq!(h.store.unwrap().runs, vec![(RunRef::new(42), None)]);
}

#[test]
fn a_refused_lease_is_not_held() {
    let wiring = Wiring {
        gate: false,
        cancellation: false,
        leasing: true,
    };
    let request = req_with_run(1, 7, "fix", false, 42);
    assert_eq!(
        next_step(wiring, &request, AdmissionEvent::Begin),
        AdmissionStep::AskLease(RunRef::new(42))
    );
    let contended = LeaseAcquireOutcome::Contended {
        holder: "other".into(),
        expires_at: "later".into(),
    };
    for (answer, attempt) in [
        (Ok(contended), LeaseAttempt::Contended),
        (Ok(LeaseAcquireOutcome::NotFound), LeaseAttempt::NotFound),
        (Err("down".to_owned()), LeaseAttempt::BackendError),
    ] {
        assert_eq!(
            next_step(wiring, &request, AdmissionEvent::Lease(answer)),
            AdmissionStep::Decided {
                admission: FollowupApprovalAdmission::Lease(attempt),
                mark_and_drain: None,
                leased: None,
            }
        );
    }
}

#[test]
fn an_approval_without_services_goes_ahead() {
    let request = req_full(1, 7, "fix", "platform_lead", None, None);
    let go_ahead = AdmissionStep::Decided {
        admission: FollowupApprovalAdmission::Lease(LeaseAttempt::Acquired),
        mark_and_drain: None,
        leased: None,
    };
    let unwired = Wiring {
        gate: false,
        cancellation: false,
        leasing: false,
    };
    assert_eq!(next_step(unwired, &request, AdmissionEvent::Begin), go_ahead);
    let leasing = Wiring {
        leasing: true,
        ..unwired
    };
    assert_eq!(next_step(leasing, &request, AdmissionEvent::Begin), go_ahead);
    let gated = Wiring {
        gate: true,
        ..unwired
    };
    assert_eq!(next_step(gated, &req(1, 7, "fix", false), AdmissionEvent::Begin), go_ahead);
}

#[test]
fn a_default_approval_queue_is_empty() {
    assert_eq!(FollowupApprovalDispatchQueue::default().drain(), Vec::new());
}
