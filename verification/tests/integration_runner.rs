use symphony_core::blocker::RunRef;
use symphony_core::concurrency_gate::{
    ContentionSubject, DispatchTriple, Scope, ScopeContended, ScopeFields, ScopeKind,
};
use symphony_core::heartbeat::{due_observations, HeartbeatRegistry};
use symphony_core::integration_admission::{next_step, AdmissionEvent, AdmissionStep, Wiring};
use symphony_core::integration_request::IntegrationRequestCause;
use symphony_core::integration_runner::{
    IntegrationAdmission, IntegrationDispatchOutcome, IntegrationDispatchReason,
    IntegrationDispatchRunner, IntegrationRunReport, RunnerHeartbeatObservation,
};
use symphony_core::integration_tick::{IntegrationDispatchQueue, IntegrationDispatchRequest};
use symphony_core::role::RoleName;
use symphony_core::run_lease::{HeartbeatPulseObservation, LeaseAcquireOutcome, LeaseAttempt};
use symphony_core::runner_core::PassOffer;
use symphony_core::work_item::WorkItemId;

fn req(id: i64, identifier: &str) -> IntegrationDispatchRequest {
    IntegrationDispatchRequest {
        parent_id: WorkItemId::new(id),
        parent_identifier: identifier.into(),
        parent_title: format!("title {identifier}"),
        cause: IntegrationRequestCause::DirectIntegrationRequest,
        run_id: None,
        role: None,
        agent_profile: None,
        repository: None,
    }
}

fn req_with_run(id: i64, identifier: &str, run_id: i64) -> IntegrationDispatchRequest {
    IntegrationDispatchRequest {
        run_id: Some(RunRef::new(run_id)),
        ..req(id, identifier)
    }
}

fn req_full(
    id: i64,
    identifier: &str,
    role: &str,
    agent_profile: Option<&str>,
    repository: Option<&str>,
) -> IntegrationDispatchRequest {
    IntegrationDispatchRequest {
        role: Some(RoleName::new(role)),
        agent_profile: agent_profile.map(str::to_owned),
        repository: repository.map(str::to_owned),
        ..req(id, identifier)
    }
}

#[derive(Default)]
struct Gate {
    caps: Vec<(Scope, u32)>,
    held: Vec<Scope>,
}

impl Gate {
    fn set_cap(&mut self, scope: Scope, cap: u32) {
        self.caps.push((scope, cap));
    }

    fn scopes(keys: &DispatchTriple) -> Vec<Scope> {
        let mut scopes = vec![Scope::Global, Scope::Role(keys.role.clone())];
        scopes.extend(keys.agent_profile.clone().map(Scope::AgentProfile));
        scopes.extend(keys.repository.clone().map(Scope::Repository));
        scopes
    }

    fn try_acquire(&mut self, keys: &DispatchTriple) -> Result<(), ScopeContended> {
        for scope in Self::scopes(keys) {
            let in_flight = self.held.iter().filter(|s| **s == scope).count();
            for (capped, cap) in &self.caps {
                if *capped == scope && in_flight >= usize::try_from(*cap).unwrap() {
                    return Err(ScopeContended {
                        scope,
                        in_flight: u32::try_from(in_flight).unwrap(),
                        cap: *cap,
                    });
                }
            }
        }
        self.held.extend(Self::scopes(keys));
        Ok(())
    }

    fn release(&mut self, keys: &DispatchTriple) {
        for scope in Self::scopes(keys) {
            let at = self.held.iter().position(|s| *s == scope).unwrap();
            self.held.remove(at);
        }
    }
}

#[derive(Default)]
struct Store {
    runs: Vec<(RunRef, Option<String>)>,
    fail_next: Option<String>,
}

impl Store {
    fn acquire(&mut self, run: RunRef) -> Result<LeaseAcquireOutcome, String> {
        if let Some(message) = self.fail_next.take() {
            return Err(message);
        }
        match self.runs.iter_mut().find(|(r, _)| *r == run) {
            None => Ok(LeaseAcquireOutcome::NotFound),
            Some((_, Some(holder))) => Ok(LeaseAcquireOutcome::Contended {
                holder: holder.clone(),
                expires_at: "later".into(),
            }),
            Some((_, free)) => {
                *free = Some("me".into());
                Ok(LeaseAcquireOutcome::Acquired)
            }
        }
    }
}

struct Running {
    request: IntegrationDispatchRequest,
    keys: Option<DispatchTriple>,
}

struct Harness {
    runner: IntegrationDispatchRunner,
    queue: IntegrationDispatchQueue,
    gate: Option<Gate>,
    store: Option<Store>,
    running: Vec<Running>,
    calls: Vec<String>,
    heartbeats: Option<HeartbeatRegistry<String>>,
    steps: Vec<AdmissionStep>,
}

impl Harness {
    fn new(max_concurrent: usize) -> Self {
        Self {
            runner: IntegrationDispatchRunner::new(max_concurrent),
            queue: IntegrationDispatchQueue::new(),
            gate: None,
            store: None,
            running: Vec::new(),
            calls: Vec::new(),
            heartbeats: Some(HeartbeatRegistry::new()),
            steps: Vec::new(),
        }
    }

    fn wiring(&self) -> Wiring {
        Wiring {
            gate: self.gate.is_some(),
            leasing: self.store.is_some(),
        }
    }

    fn ask(
        &mut self,
        request: &IntegrationDispatchRequest,
    ) -> (IntegrationAdmission, Option<DispatchTriple>, Option<RunRef>) {
        let mut held: Option<DispatchTriple> = None;
        let mut event = AdmissionEvent::Begin;
        loop {
            let step = next_step(self.wiring(), request, event);
            self.steps.push(step.clone());
            event = match step {
                AdmissionStep::AskScopes(keys) => {
                    let answer = self.gate.as_mut().unwrap().try_acquire(&keys);
                    if answer.is_ok() {
                        held = Some(keys);
                    }
                    AdmissionEvent::Scopes(answer)
                }
                AdmissionStep::AskLease(run) => {
                    AdmissionEvent::Lease(self.store.as_mut().unwrap().acquire(run))
                }
                AdmissionStep::Decided { admission, leased } => return (admission, held, leased),
            };
        }
    }

    fn run_pending(&mut self) -> IntegrationRunReport {
        let mut pass = self.runner.begin_pass(self.queue.drain());
        loop {
            let (next, offer) = self.runner.offer(pass);
            pass = next;
            match offer {
                PassOffer::Finished => break,
                PassOffer::Parked => {}
                PassOffer::Granted => {
                    let request = pass.current().unwrap().clone();
                    let (admission, keys, leased) = self.ask(&request);
                    let (next, started) = self.runner.settle(pass, admission);
                    pass = next;
                    if let Some(request) = started {
                        self.calls.push(request.parent_identifier.clone());
                        if let Some(run) = leased {
                            let heartbeats = self.heartbeats.take().unwrap();
                            self.heartbeats =
                                Some(heartbeats.register(run, request.parent_identifier.clone()));
                        }
                        self.running.push(Running { request, keys });
                    } else if let (Some(gate), Some(keys)) = (self.gate.as_mut(), keys.as_ref()) {
                        gate.release(keys);
                    }
                }
            }
        }
        self.runner.end_pass(pass)
    }

    fn finish(
        &mut self,
        identifier: &str,
        reason: IntegrationDispatchReason,
    ) -> IntegrationDispatchOutcome {
        let at = self
            .running
            .iter()
            .position(|r| r.request.parent_identifier == identifier)
            .unwrap();
        let done = self.running.remove(at);
        if let (Some(gate), Some(keys)) = (self.gate.as_mut(), done.keys.as_ref()) {
            gate.release(keys);
        }
        if let Some(run) = done.request.run_id {
            let heartbeats = self.heartbeats.take().unwrap();
            self.heartbeats = Some(heartbeats.forget(run));
        }
        self.runner.finish_dispatch();
        IntegrationDispatchOutcome {
            parent_id: done.request.parent_id,
            parent_identifier: done.request.parent_identifier,
            reason,
        }
    }

    fn pulse(
        &self,
        mut look: impl FnMut(RunRef) -> Option<HeartbeatPulseObservation>,
    ) -> Vec<RunnerHeartbeatObservation> {
        let looks = self
            .heartbeats
            .as_ref()
            .unwrap()
            .entries()
            .iter()
            .map(|(run, identifier)| (*run, identifier.clone(), look(*run)))
            .collect();
        due_observations(self.store.is_some(), looks)
            .into_iter()
            .map(|(run_id, identifier, observation)| RunnerHeartbeatObservation {
                run_id,
                identifier,
                observation,
            })
            .collect()
    }

    fn heartbeat_count(&self) -> usize {
        self.heartbeats.as_ref().unwrap().len()
    }
}

fn leasing_harness(max_concurrent: usize, runs: &[i64]) -> Harness {
    let mut h = Harness::new(max_concurrent);
    h.store = Some(Store {
        runs: runs.iter().map(|r| (RunRef::new(*r), None)).collect(),
        fail_next: None,
    });
    h
}

#[test]
fn integration_runner_run_pending_is_noop_when_queue_empty() {
    let mut h = Harness::new(4);
    let report = h.run_pending();
    assert!(report.is_idle(), "expected idle, got {report:?}");
    assert_eq!(h.runner.permits_in_use(), 0);
    assert!(h.calls.is_empty());
}

#[test]
fn ready_candidate_is_dispatched_to_completion() {
    let mut h = Harness::new(4);
    h.queue.enqueue(req(1, "PROJ-1"));

    let report = h.run_pending();
    assert_eq!(report.spawned, 1);
    assert_eq!(report.deferred_capacity, 0);

    let outcome = h.finish("PROJ-1", IntegrationDispatchReason::Completed);
    assert_eq!(outcome.parent_id, WorkItemId::new(1));
    assert_eq!(outcome.parent_identifier, "PROJ-1");
    assert_eq!(outcome.reason, IntegrationDispatchReason::Completed);
    assert_eq!(h.calls, vec!["PROJ-1"]);
}

#[test]
fn blocked_candidate_surfaces_blocked_reason() {
    let mut h = Harness::new(4);
    h.queue.enqueue(req(2, "PROJ-2"));
    let report = h.run_pending();
    assert_eq!(report.spawned, 1);

    let outcome = h.finish("PROJ-2", IntegrationDispatchReason::Blocked);
    assert_eq!(outcome.reason, IntegrationDispatchReason::Blocked);
    assert_eq!(h.calls, vec!["PROJ-2"]);
}

#[test]
fn mixed_ready_and_blocked_candidates_dispatch_independently() {
    let mut h = Harness::new(4);
    h.queue.enqueue(req(1, "PROJ-1"));
    h.queue.enqueue(req(2, "PROJ-2"));
    h.queue.enqueue(req(3, "PROJ-3"));

    let report = h.run_pending();
    assert_eq!(report.spawned, 3);

    let outcomes = vec![
        h.finish("PROJ-1", IntegrationDispatchReason::Completed),
        h.finish("PROJ-2", IntegrationDispatchReason::Blocked),
        h.finish("PROJ-3", IntegrationDispatchReason::Failed),
    ];
    let by_id: Vec<(String, IntegrationDispatchReason)> = outcomes
        .into_iter()
        .map(|o| (o.parent_identifier, o.reason))
        .collect();
    assert_eq!(
        by_id,
        vec![
            ("PROJ-1".to_string(), IntegrationDispatchReason::Completed),
            ("PROJ-2".to_string(), IntegrationDispatchReason::Blocked),
            ("PROJ-3".to_string(), IntegrationDispatchReason::Failed),
        ]
    );
}

#[test]
fn integration_runner_run_pending_defers_when_capacity_saturated() {
    let mut h = Harness::new(1);
    h.queue.enqueue(req(1, "PROJ-1"));
    h.queue.enqueue(req(2, "PROJ-2"));
    h.queue.enqueue(req(3, "PROJ-3"));

    let report = h.run_pending();
    assert_eq!(report.spawned, 1, "report = {report:?}");
    assert_eq!(report.deferred_capacity, 2);
    assert_eq!(h.runner.deferred_count(), 2);

    h.finish("PROJ-1", IntegrationDispatchReason::Completed);
    let report = h.run_pending();
    assert_eq!(report.spawned, 1, "report = {report:?}");
    assert_eq!(report.deferred_capacity, 1);
    h.finish("PROJ-2", IntegrationDispatchReason::Completed);

    let report = h.run_pending();
    assert_eq!(report.spawned, 1);
    assert_eq!(report.deferred_capacity, 0);
    h.finish("PROJ-3", IntegrationDispatchReason::Completed);

    let mut all = h.calls.clone();
    all.sort();
    assert_eq!(all, vec!["PROJ-1", "PROJ-2", "PROJ-3"]);
}

#[test]
fn integration_runner_deferred_requests_keep_age_order_across_passes() {
    let mut h = Harness::new(0);
    h.queue.enqueue(req(1, "PROJ-1"));
    h.queue.enqueue(req(2, "PROJ-2"));
    let r1 = h.run_pending();
    assert_eq!(r1.deferred_capacity, 2);

    h.queue.enqueue(req(3, "PROJ-3"));
    let r2 = h.run_pending();
    assert_eq!(r2.deferred_capacity, 3);
    assert_eq!(h.runner.deferred_count(), 3);

    let parked_ids: Vec<&str> = h
        .runner
        .deferred_requests()
        .iter()
        .map(|r| r.parent_identifier.as_str())
        .collect();
    assert_eq!(
        parked_ids,
        vec!["PROJ-1", "PROJ-2", "PROJ-3"],
        "deferreds must keep age-order: prior parks first, fresh request last",
    );
}

#[test]
fn integration_runner_capacity_zero_defers_everything() {
    let mut h = Harness::new(0);
    assert_eq!(h.runner.max_concurrent(), 0);
    h.queue.enqueue(req(1, "PROJ-1"));

    let report = h.run_pending();
    assert_eq!(report.spawned, 0);
    assert_eq!(report.deferred_capacity, 1);
    assert!(h.calls.is_empty());
}

#[test]
fn integration_runner_reap_returns_outcomes_for_every_completed_dispatch() {
    let mut h = Harness::new(4);
    h.queue.enqueue(req(1, "PROJ-1"));
    h.queue.enqueue(req(2, "PROJ-2"));
    let report = h.run_pending();
    assert_eq!(report.spawned, 2);

    let ids = vec![
        h.finish("PROJ-1", IntegrationDispatchReason::Completed)
            .parent_id
            .get(),
        h.finish("PROJ-2", IntegrationDispatchReason::Completed)
            .parent_id
            .get(),
    ];
    assert_eq!(ids, vec![1, 2]);
    assert_eq!(h.runner.permits_in_use(), 0);
}

#[test]
fn integration_runner_contended_lease_parks_request_and_does_not_consume_capacity() {
    let mut h = leasing_harness(2, &[1, 2]);
    h.store.as_mut().unwrap().runs[0].1 = Some("other".into());
    h.queue.enqueue(req_with_run(1, "PROJ-1", 1));
    h.queue.enqueue(req_with_run(2, "PROJ-2", 2));

    let report = h.run_pending();
    assert_eq!(report.spawned, 1);
    assert_eq!(report.deferred_lease_contention, 1);
    assert_eq!(h.runner.deferred_count(), 1);
    assert_eq!(h.runner.permits_in_use(), 1);
}

#[test]
fn integration_runner_missing_run_drops_request_without_dispatch() {
    let mut h = leasing_harness(4, &[]);
    h.queue.enqueue(req_with_run(1, "PROJ-1", 404));

    let report = h.run_pending();
    assert_eq!(report.spawned, 0);
    assert_eq!(report.missing_run, 1);
    assert!(h.calls.is_empty());
    assert_eq!(h.runner.deferred_count(), 0);
}

#[test]
fn integration_runner_request_without_run_id_dispatches_without_lease_acquisition() {
    let mut h = leasing_harness(4, &[]);
    h.queue.enqueue(req(1, "PROJ-1"));

    let report = h.run_pending();
    assert_eq!(report.spawned, 1);
    assert_eq!(h.heartbeat_count(), 0);
    let outcome = h.finish("PROJ-1", IntegrationDispatchReason::Completed);
    assert_eq!(outcome.reason, IntegrationDispatchReason::Completed);
}

#[test]
fn integration_runner_backend_error_parks_request_for_retry() {
    let mut h = leasing_harness(4, &[1]);
    h.store.as_mut().unwrap().fail_next = Some("disk full".into());
    h.queue.enqueue(req_with_run(1, "PROJ-1", 1));

    let report = h.run_pending();
    assert_eq!(report.spawned, 0);
    assert_eq!(report.lease_backend_error, 1);
    assert_eq!(h.runner.deferred_count(), 1);
    assert!(h.calls.is_empty());

    let report = h.run_pending();
    assert_eq!(report.spawned, 1);
    assert_eq!(h.runner.deferred_count(), 0);
}

#[test]
fn only_due_heartbeats_are_reported_and_ended_dispatches_are_forgotten() {
    let mut h = leasing_harness(4, &[42, 43]);
    h.queue.enqueue(req_with_run(1, "PROJ-1", 42));
    h.queue.enqueue(req_with_run(2, "PROJ-2", 43));
    assert_eq!(h.run_pending().spawned, 2);
    assert_eq!(h.heartbeat_count(), 2);

    assert!(h.pulse(|_| None).is_empty());
    let observations = h.pulse(|run| {
        if run == RunRef::new(43) {
            Some(HeartbeatPulseObservation::Renewed)
        } else {
            None
        }
    });
    assert_eq!(observations.len(), 1);
    assert_eq!(observations[0].run_id, RunRef::new(43));
    assert_eq!(observations[0].identifier, "PROJ-2");
    assert_eq!(
        observations[0].observation,
        HeartbeatPulseObservation::Renewed
    );

    h.finish("PROJ-2", IntegrationDispatchReason::Completed);
    assert_eq!(h.heartbeat_count(), 1);
    h.finish("PROJ-1", IntegrationDispatchReason::Completed);
    assert_eq!(h.heartbeat_count(), 0);
}

#[test]
fn integration_runner_pulse_heartbeats_is_noop_without_lease_wiring() {
    let mut h = Harness::new(4);
    h.queue.enqueue(req_with_run(1, "PROJ-1", 42));
    assert_eq!(h.run_pending().spawned, 1);
    let observations = h.pulse(|_| Some(HeartbeatPulseObservation::Renewed));
    assert!(observations.is_empty());
    assert_eq!(h.heartbeat_count(), 0);
}

#[test]
fn unwired_leasing_drops_every_observation() {
    let looks = vec![(
        RunRef::new(1),
        "PROJ-1".to_string(),
        Some(HeartbeatPulseObservation::NotFound),
    )];
    assert!(due_observations(false, looks.clone()).is_empty());
    assert_eq!(due_observations(true, looks).len(), 1);
}

#[test]
fn scope_role_cap_serializes_integration_under_global_capacity() {
    let mut h = Harness::new(4);
    let mut gate = Gate::default();
    gate.set_cap(Scope::Role("platform_lead".into()), 1);
    h.gate = Some(gate);

    h.queue
        .enqueue(req_full(1, "PROJ-1", "platform_lead", None, None));
    h.queue
        .enqueue(req_full(2, "PROJ-2", "platform_lead", None, None));
    h.queue
        .enqueue(req_full(3, "PROJ-3", "platform_lead", None, None));

    let report = h.run_pending();
    assert_eq!(report.spawned, 1, "report = {report:?}");
    assert_eq!(report.deferred_scope_contention, 2);
    assert_eq!(report.scope_contentions.len(), 2);
    for obs in &report.scope_contentions {
        assert_eq!(obs.scope_kind, ScopeKind::Role);
        assert_eq!(obs.scope_key, "platform_lead");
        assert_eq!(obs.cap, 1);
        assert_eq!(obs.in_flight, 1);
    }
    let parked: Vec<&str> = report
        .scope_contentions
        .iter()
        .map(|o| o.identifier.as_str())
        .collect();
    assert_eq!(parked, vec!["PROJ-2", "PROJ-3"]);

    assert_eq!(h.runner.permits_in_use(), 1);
    assert_eq!(h.runner.deferred_count(), 2);

    h.finish("PROJ-1", IntegrationDispatchReason::Completed);
    let report = h.run_pending();
    assert_eq!(report.spawned, 1, "report = {report:?}");
    assert_eq!(report.deferred_scope_contention, 1);
    assert_eq!(report.scope_contentions[0].scope_kind, ScopeKind::Role);
}

#[test]
fn scope_repository_cap_defers_concurrent_dispatch_against_same_repo() {
    let mut h = Harness::new(4);
    let mut gate = Gate::default();
    gate.set_cap(Scope::Repository("acme/widgets".into()), 1);
    h.gate = Some(gate);

    h.queue.enqueue(req_full(
        1,
        "PROJ-1",
        "platform_lead",
        None,
        Some("acme/widgets"),
    ));
    h.queue.enqueue(req_full(
        2,
        "PROJ-2",
        "platform_lead",
        None,
        Some("acme/widgets"),
    ));

    let report = h.run_pending();
    assert_eq!(report.spawned, 1);
    assert_eq!(report.deferred_scope_contention, 1);
    let obs = &report.scope_contentions[0];
    assert_eq!(obs.scope_kind, ScopeKind::Repository);
    assert_eq!(obs.scope_key, "acme/widgets");
    assert_eq!(obs.identifier, "PROJ-2");
}

#[test]
fn scope_contention_does_not_consume_local_capacity() {
    let mut h = Harness::new(1);
    let mut gate = Gate::default();
    gate.set_cap(Scope::Role("frozen".into()), 0);
    h.gate = Some(gate);

    h.queue
        .enqueue(req_full(1, "PROJ-1", "frozen", None, None));
    h.queue
        .enqueue(req_full(2, "PROJ-2", "platform_lead", None, None));

    let report = h.run_pending();
    assert_eq!(report.spawned, 1, "report = {report:?}");
    assert_eq!(report.deferred_scope_contention, 1);
    assert_eq!(report.scope_contentions[0].identifier, "PROJ-1");
    assert_eq!(report.scope_contentions[0].scope_kind, ScopeKind::Role);
    assert_eq!(report.scope_contentions[0].scope_key, "frozen");
    assert_eq!(report.scope_contentions[0].cap, 0);
    assert_eq!(h.calls, vec!["PROJ-2"]);
}

#[test]
fn no_concurrency_gate_means_no_scope_observations() {
    let mut h = Harness::new(4);
    h.queue.enqueue(req_full(
        1,
        "PROJ-1",
        "platform_lead",
        Some("profile-a"),
        Some("acme/widgets"),
    ));
    let report = h.run_pending();
    assert_eq!(report.spawned, 1);
    assert!(report.scope_contentions.is_empty());
    assert_eq!(report.deferred_scope_contention, 0);
}

#[test]
fn dispatch_without_role_bypasses_concurrency_gate() {
    let mut h = Harness::new(4);
    let mut gate = Gate::default();
    gate.set_cap(Scope::Global, 0);
    h.gate = Some(gate);

    h.queue.enqueue(req(1, "PROJ-1"));
    let report = h.run_pending();
    assert_eq!(report.spawned, 1, "report = {report:?}");
    assert!(report.scope_contentions.is_empty());
}

#[test]
fn contended_scopes_are_recorded_under_the_run_or_else_the_identifier() {
    let mut h = Harness::new(4);
    let mut gate = Gate::default();
    gate.set_cap(Scope::Global, 0);
    h.gate = Some(gate);
    h.queue.enqueue(IntegrationDispatchRequest {
        run_id: Some(RunRef::new(22)),
        ..req_full(1, "PROJ-1", "platform_lead", None, None)
    });
    h.queue
        .enqueue(req_full(2, "PROJ-2", "platform_lead", None, None));

    let report = h.run_pending();
    let fields = ScopeFields {
        scope_kind: ScopeKind::Global,
        scope_key: String::new(),
        in_flight: 0,
        cap: 0,
    };
    assert_eq!(
        report.observations(),
        vec![
            (ContentionSubject::Run(22), fields.clone()),
            (ContentionSubject::Identifier("PROJ-2".into()), fields),
        ]
    );
    assert!(h.calls.is_empty());
}

#[test]
fn an_idle_pass_has_nothing_to_record() {
    let mut h = Harness::new(4);
    assert!(h.run_pending().observations().is_empty());
}

#[test]
fn integration_runner_pulse_heartbeats_surfaces_contended_observation() {
    let mut h = leasing_harness(4, &[42]);
    h.queue.enqueue(req_with_run(1, "PROJ-1", 42));
    assert_eq!(h.run_pending().spawned, 1);
    assert_eq!(h.heartbeat_count(), 1);
    let seen = HeartbeatPulseObservation::Contended {
        holder: "other-host/scheduler-test/worker-9".into(),
        expires_at: "Z9999+999999999999ms".into(),
    };
    let observations = h.pulse(|_| Some(seen.clone()));
    assert_eq!(observations.len(), 1);
    assert_eq!(observations[0].observation, seen);
    assert_eq!(observations[0].run_id, RunRef::new(42));
    assert_eq!(observations[0].identifier, "PROJ-1");
}

#[test]
fn integration_runner_pulse_heartbeats_surfaces_not_found_observation() {
    let mut h = leasing_harness(4, &[42]);
    h.queue.enqueue(req_with_run(1, "PROJ-1", 42));
    assert_eq!(h.run_pending().spawned, 1);
    assert_eq!(h.heartbeat_count(), 1);
    let seen = HeartbeatPulseObservation::NotFound;
    let observations = h.pulse(|_| Some(seen.clone()));
    assert_eq!(observations.len(), 1);
    assert_eq!(observations[0].observation, seen);
    assert_eq!(observations[0].run_id, RunRef::new(42));
    assert_eq!(observations[0].identifier, "PROJ-1");
}

#[test]
fn integration_runner_pulse_heartbeats_surfaces_backend_error_observation() {
    let mut h = leasing_harness(4, &[42]);
    h.queue.enqueue(req_with_run(1, "PROJ-1", 42));
    assert_eq!(h.run_pending().spawned, 1);
    assert_eq!(h.heartbeat_count(), 1);
    let seen = HeartbeatPulseObservation::BackendError {
        message: "disk full".to_string(),
    };
    let observations = h.pulse(|_| Some(seen.clone()));
    assert_eq!(observations.len(), 1);
    assert_eq!(observations[0].observation, seen);
    assert_eq!(observations[0].run_id, RunRef::new(42));
    assert_eq!(observations[0].identifier, "PROJ-1");
}

#[test]
fn the_scopes_are_asked_before_the_lease() {
    let mut h = Harness::new(4);
    h.gate = Some(Gate::default());
    h.store = Some(Store {
        runs: vec![(RunRef::new(42), None)],
        fail_next: None,
    });
    h.queue.enqueue(IntegrationDispatchRequest {
        run_id: Some(RunRef::new(42)),
        ..req_full(1, "ENG-1", "integration_owner", None, Some("acme/widgets"))
    });
    assert_eq!(h.run_pending().spawned, 1);
    assert_eq!(
        h.steps,
        vec![
            AdmissionStep::AskScopes(DispatchTriple {
                role: "integration_owner".into(),
                agent_profile: None,
                repository: Some("acme/widgets".into()),
            }),
            AdmissionStep::AskLease(RunRef::new(42)),
            AdmissionStep::Decided {
                admission: IntegrationAdmission::Lease(LeaseAttempt::Acquired),
                leased: Some(RunRef::new(42)),
            },
        ]
    );
}

#[test]
fn a_contended_scope_ends_the_walk_before_the_lease() {
    let mut h = Harness::new(4);
    let mut gate = Gate::default();
    gate.set_cap(Scope::Global, 0);
    h.gate = Some(gate);
    h.store = Some(Store {
        runs: vec![(RunRef::new(42), None)],
        fail_next: None,
    });
    h.queue.enqueue(IntegrationDispatchRequest {
        run_id: Some(RunRef::new(42)),
        ..req_full(1, "ENG-1", "integration_owner", None, None)
    });
    assert_eq!(h.run_pending().deferred_scope_contention, 1);
    assert_eq!(h.steps.len(), 2);
    assert!(matches!(h.steps[0], AdmissionStep::AskScopes(_)));
    assert!(matches!(
        h.steps[1],
        AdmissionStep::Decided {
            admission: IntegrationAdmission::ScopeContended(_),
            leased: None,
        }
    ));
    assert_eq!(h.store.unwrap().runs, vec![(RunRef::new(42), None)]);
}

#[test]
fn a_refused_integration_lease_is_not_held() {
    let wiring = Wiring {
        gate: true,
        leasing: true,
    };
    let request = req_with_run(1, "ENG-1", 42);
    assert_eq!(
        next_step(wiring, &request, AdmissionEvent::Begin),
        AdmissionStep::AskLease(RunRef::new(42))
    );
    assert_eq!(
        next_step(wiring, &request, AdmissionEvent::Lease(Err("down".into()))),
        AdmissionStep::Decided {
            admission: IntegrationAdmission::Lease(LeaseAttempt::BackendError),
            leased: None,
        }
    );
    assert_eq!(
        next_step(wiring, &req(1, "ENG-1"), AdmissionEvent::Begin),
        AdmissionStep::Decided {
            admission: IntegrationAdmission::Lease(LeaseAttempt::Acquired),
            leased: None,
        }
    );
}

#[test]
fn a_default_integration_queue_is_empty() {
    assert_eq!(IntegrationDispatchQueue::default().drain(), Vec::new());
}
