use symphony_core::integration_request::{IntegrationGates, IntegrationRequestCause};
use symphony_core::integration_tick::{IntegrationCandidate, IntegrationDispatchQueue, IntegrationDispatchRequest, IntegrationQueueError, IntegrationQueueSource, IntegrationQueueTick};
use symphony_core::logical_queue::{LogicalQueue, QueueTickOutcome};
use symphony_core::queue_tick::QueueTickCadence;
use symphony_core::work_item::WorkItemId;
use std::sync::{Arc, Mutex};

type GateKey = (bool, bool);

type GateMap = Vec<(GateKey, Vec<IntegrationCandidate>)>;

#[derive(Clone, Default)]
struct FakeSource {
    by_gates: Arc<Mutex<GateMap>>,
    fail_next: Arc<Mutex<bool>>,
}

impl FakeSource {
    fn new() -> Self {
        Self::default()
    }

    fn set(&self, gates: IntegrationGates, candidates: Vec<IntegrationCandidate>) {
        let key = (
            gates.require_all_children_terminal,
            gates.require_no_open_blockers,
        );
        let mut by = self.by_gates.lock().unwrap();
        by.retain(|(k, _)| *k != key);
        by.push((key, candidates));
    }

    fn arm_failure(&self) {
        *self.fail_next.lock().unwrap() = true;
    }

    fn clear(&self) {
        self.by_gates.lock().unwrap().clear();
    }
}

impl IntegrationQueueSource for FakeSource {
    fn list_ready(
        &self,
        gates: IntegrationGates,
    ) -> Result<Vec<IntegrationCandidate>, IntegrationQueueError> {
        let mut fail = self.fail_next.lock().unwrap();
        if *fail {
            *fail = false;
            return Err(IntegrationQueueError::Source("scripted failure".into()));
        }
        let key = (
            gates.require_all_children_terminal,
            gates.require_no_open_blockers,
        );
        let by = self.by_gates.lock().unwrap();
        Ok(by
            .iter()
            .find(|(k, _)| *k == key)
            .map(|(_, v)| v.clone())
            .unwrap_or_default())
    }
}

fn cadence() -> QueueTickCadence {
    QueueTickCadence::fixed(1)
}

fn candidate(
    id: i64,
    identifier: &str,
    cause: IntegrationRequestCause,
) -> IntegrationCandidate {
    IntegrationCandidate {
        parent_id: WorkItemId::new(id),
        parent_identifier: identifier.into(),
        parent_title: format!("title {identifier}"),
        cause,
    }
}

fn build_tick(source: &FakeSource, gates: IntegrationGates) -> IntegrationQueueTick<FakeSource> {
    IntegrationQueueTick::new(
        source.clone(),
        gates,
        IntegrationDispatchQueue::new(),
        cadence(),
    )
}

#[test]
fn ready_candidates_are_emitted_under_default_gates() {
    let source = FakeSource::new();
    source.set(
        IntegrationGates::default(),
        vec![
            candidate(
                1,
                "PROJ-1",
                IntegrationRequestCause::DirectIntegrationRequest,
            ),
            candidate(2, "PROJ-2", IntegrationRequestCause::AllChildrenTerminal),
        ],
    );
    let mut t = build_tick(&source, IntegrationGates::default());

    let outcome = t.tick();
    assert_eq!(outcome.queue, LogicalQueue::Integration);
    assert_eq!(outcome.considered, 2);
    assert_eq!(outcome.processed, 2);
    assert_eq!(outcome.deferred, 0);
    assert_eq!(outcome.errors, 0);

    let drained = t.drain_dispatches();
    assert_eq!(drained.len(), 2);
    assert_eq!(drained[0].parent_id, WorkItemId::new(1));
    assert_eq!(
        drained[0].cause,
        IntegrationRequestCause::DirectIntegrationRequest
    );
    assert_eq!(drained[1].parent_id, WorkItemId::new(2));
    assert_eq!(
        drained[1].cause,
        IntegrationRequestCause::AllChildrenTerminal
    );
}

#[test]
fn blocked_subtree_yields_empty_emission_under_default_gates() {
    let source = FakeSource::new();
    source.set(IntegrationGates::default(), Vec::new());
    let mut t = build_tick(&source, IntegrationGates::default());

    let outcome = t.tick();
    assert_eq!(outcome.queue, LogicalQueue::Integration);
    assert_eq!(outcome.considered, 0);
    assert_eq!(outcome.processed, 0);
    assert_eq!(outcome.deferred, 0);
    assert!(t.dispatch_queue().is_empty());
    assert!(outcome.is_idle());
}

#[test]
fn waived_blocker_gate_surfaces_previously_blocked_parent() {
    let source = FakeSource::new();
    let waived = IntegrationGates {
        require_all_children_terminal: true,
        require_no_open_blockers: false,
    };
    source.set(IntegrationGates::default(), Vec::new());
    source.set(
        waived,
        vec![candidate(
            7,
            "PROJ-7",
            IntegrationRequestCause::DirectIntegrationRequest,
        )],
    );

    let mut t_default = build_tick(&source, IntegrationGates::default());
    let o = t_default.tick();
    assert_eq!(o.processed, 0);
    assert!(t_default.dispatch_queue().is_empty());

    let mut t_waived = build_tick(&source, waived);
    let o = t_waived.tick();
    assert_eq!(o.processed, 1);
    let drained = t_waived.drain_dispatches();
    assert_eq!(drained.len(), 1);
    assert_eq!(drained[0].parent_id, WorkItemId::new(7));
}

#[test]
fn waived_children_terminal_gate_surfaces_decomposed_parent() {
    let source = FakeSource::new();
    let waived = IntegrationGates {
        require_all_children_terminal: false,
        require_no_open_blockers: true,
    };
    source.set(IntegrationGates::default(), Vec::new());
    source.set(
        waived,
        vec![candidate(
            3,
            "PROJ-3",
            IntegrationRequestCause::AllChildrenTerminal,
        )],
    );
    let mut t = build_tick(&source, waived);
    let outcome = t.tick();
    assert_eq!(outcome.processed, 1);
    let drained = t.drain_dispatches();
    assert_eq!(drained[0].parent_id, WorkItemId::new(3));
    assert_eq!(
        drained[0].cause,
        IntegrationRequestCause::AllChildrenTerminal
    );
}

#[test]
fn already_claimed_parent_is_not_re_emitted() {
    let source = FakeSource::new();
    source.set(
        IntegrationGates::default(),
        vec![candidate(
            1,
            "PROJ-1",
            IntegrationRequestCause::DirectIntegrationRequest,
        )],
    );
    let mut t = build_tick(&source, IntegrationGates::default());

    let o1 = t.tick();
    assert_eq!(o1.processed, 1);
    assert_eq!(t.drain_dispatches().len(), 1);

    let o2 = t.tick();
    assert_eq!(o2.considered, 1);
    assert_eq!(o2.processed, 0);
    assert_eq!(o2.deferred, 1);
    assert!(t.dispatch_queue().is_empty());
    assert_eq!(t.claimed_count(), 1);
}

#[test]
fn claim_pruned_when_parent_leaves_source() {
    let source = FakeSource::new();
    source.set(
        IntegrationGates::default(),
        vec![candidate(
            1,
            "PROJ-1",
            IntegrationRequestCause::DirectIntegrationRequest,
        )],
    );
    let mut t = build_tick(&source, IntegrationGates::default());

    t.tick();
    assert_eq!(t.claimed_count(), 1);
    let _ = t.drain_dispatches();

    source.clear();
    source.set(IntegrationGates::default(), Vec::new());
    let o = t.tick();
    assert_eq!(o.considered, 0);
    assert_eq!(t.claimed_count(), 0);

    source.clear();
    source.set(
        IntegrationGates::default(),
        vec![candidate(
            1,
            "PROJ-1",
            IntegrationRequestCause::DirectIntegrationRequest,
        )],
    );
    let o = t.tick();
    assert_eq!(o.processed, 1);
    let drained = t.drain_dispatches();
    assert_eq!(drained.len(), 1);
    assert_eq!(drained[0].parent_id, WorkItemId::new(1));
}

#[test]
fn integration_tick_source_error_increments_errors_and_emits_nothing() {
    let source = FakeSource::new();
    source.set(
        IntegrationGates::default(),
        vec![candidate(
            1,
            "PROJ-1",
            IntegrationRequestCause::DirectIntegrationRequest,
        )],
    );
    let mut t = build_tick(&source, IntegrationGates::default());

    source.arm_failure();
    let o = t.tick();
    assert_eq!(o.queue, LogicalQueue::Integration);
    assert_eq!(o.errors, 1);
    assert_eq!(o.processed, 0);
    assert_eq!(o.considered, 0);
    assert!(t.dispatch_queue().is_empty());
    assert_eq!(t.claimed_count(), 0);
}

#[test]
fn fifo_emission_order_matches_source_order() {
    let source = FakeSource::new();
    source.set(
        IntegrationGates::default(),
        vec![
            candidate(
                5,
                "PROJ-5",
                IntegrationRequestCause::DirectIntegrationRequest,
            ),
            candidate(2, "PROJ-2", IntegrationRequestCause::AllChildrenTerminal),
            candidate(
                9,
                "PROJ-9",
                IntegrationRequestCause::DirectIntegrationRequest,
            ),
        ],
    );
    let mut t = build_tick(&source, IntegrationGates::default());

    t.tick();
    let drained = t.drain_dispatches();
    let ids: Vec<i64> = drained.iter().map(|d| d.parent_id.get()).collect();
    assert_eq!(ids, vec![5, 2, 9]);
}

#[test]
fn tick_reports_integration_queue_and_configured_cadence() {
    let source = FakeSource::new();
    let q = IntegrationDispatchQueue::new();
    let cad = QueueTickCadence::from_millis(2_500, 100);
    let t = IntegrationQueueTick::new(
        source,
        IntegrationGates::default(),
        q,
        cad,
    );
    assert_eq!(t.queue(), LogicalQueue::Integration);
    assert_eq!(t.cadence(), cad);
    assert_eq!(t.gates(), IntegrationGates::default());
}

#[test]
fn integration_tick_drives_through_dyn_queue_tick_trait_object() {
    let source = FakeSource::new();
    source.set(
        IntegrationGates::default(),
        vec![candidate(
            1,
            "PROJ-1",
            IntegrationRequestCause::DirectIntegrationRequest,
        )],
    );
    let mut t = build_tick(&source, IntegrationGates::default());
    let outcomes: Vec<QueueTickOutcome> = (0..3).map(|_| t.tick()).collect();
    assert_eq!(outcomes.len(), 3);
    for o in &outcomes {
        assert_eq!(o.queue, LogicalQueue::Integration);
    }
    assert_eq!(outcomes[0].processed, 1);
    assert_eq!(outcomes[1].processed, 0);
    assert_eq!(outcomes[1].deferred, 1);
    assert_eq!(outcomes[2].processed, 0);
    assert_eq!(outcomes[2].deferred, 1);
    assert_eq!(t.dispatch_queue().len(), 1);
}

#[test]
fn dispatch_queue_drain_returns_fifo_and_empties_queue() {
    let mut q = IntegrationDispatchQueue::new();
    q.enqueue(IntegrationDispatchRequest {
        parent_id: WorkItemId::new(1),
        parent_identifier: "PROJ-1".into(),
        parent_title: "first".into(),
        cause: IntegrationRequestCause::DirectIntegrationRequest,
        run_id: None,
        role: None,
        agent_profile: None,
        repository: None,
    });
    q.enqueue(IntegrationDispatchRequest {
        parent_id: WorkItemId::new(2),
        parent_identifier: "PROJ-2".into(),
        parent_title: "second".into(),
        cause: IntegrationRequestCause::AllChildrenTerminal,
        run_id: None,
        role: None,
        agent_profile: None,
        repository: None,
    });
    assert_eq!(q.len(), 2);
    let drained = q.drain();
    assert_eq!(drained.len(), 2);
    assert_eq!(drained[0].parent_id, WorkItemId::new(1));
    assert_eq!(drained[1].parent_id, WorkItemId::new(2));
    assert!(q.is_empty());
}
