use symphony_core::events::OrchestratorEvent;
use symphony_core::poll_loop::{DispatchEnd, PollLoop, TickReport};
use symphony_core::state_machine::{ClaimState, LedgerError, ReleaseReason, StateMachine};
use symphony_core::tracker::{Issue, IssueId, TrackerError};

struct Harness {
    poll: PollLoop,
    active: Vec<Issue>,
    finished: Vec<(IssueId, ReleaseReason)>,
    cancelled: Vec<IssueId>,
    started: Vec<Issue>,
    events: Vec<OrchestratorEvent>,
}

impl Harness {
    fn new(active: Vec<Issue>, max_concurrent: usize) -> Self {
        Self {
            poll: PollLoop::new(max_concurrent),
            active,
            finished: Vec::new(),
            cancelled: Vec::new(),
            started: Vec::new(),
            events: Vec::new(),
        }
    }

    fn finish(&mut self, id: &str, reason: ReleaseReason) {
        self.finished.push((IssueId::new(id), reason));
    }

    fn tick(&mut self) -> TickReport {
        let active = self.active.clone();
        self.tick_with(Ok(active)).unwrap()
    }

    fn tick_with(
        &mut self,
        fetched: Result<Vec<Issue>, TrackerError>,
    ) -> Result<TickReport, TrackerError> {
        self.poll.begin_tick();
        let finished = std::mem::take(&mut self.finished);
        let releases = self.poll.reap_finished(finished);
        for release in &releases {
            self.events.push(release.event());
        }
        let outcome = self.poll.tick(&releases, fetched)?;
        self.events.extend(outcome.events());
        self.cancelled.extend(outcome.dropped);
        self.started.extend(outcome.started);
        Ok(outcome.report)
    }
}

fn issues(n: usize) -> Vec<Issue> {
    (0..n)
        .map(|i| Issue::minimal(&format!("id-{i}"), &format!("ENG-{i}"), "title", "Todo"))
        .collect()
}

#[test]
fn tick_claims_up_to_concurrency_cap() {
    let mut h = Harness::new(issues(5), 2);

    let report = h.tick();
    assert_eq!(report.observed, 5);
    assert_eq!(report.claimed, 2);
    assert_eq!(report.deferred_capacity, 3);
    assert_eq!(h.poll.state().running_len(), 2);

    h.finish("id-0", ReleaseReason::Completed);
    let report = h.tick();
    assert_eq!(report.released, 1);
    assert_eq!(report.claimed, 1);
    assert_eq!(h.poll.state().running_len(), 2);
}

#[test]
fn tick_skips_already_claimed() {
    let mut h = Harness::new(issues(2), 10);

    let r1 = h.tick();
    assert_eq!(r1.claimed, 2);
    let r2 = h.tick();
    assert_eq!(r2.claimed, 0);
    assert_eq!(r2.observed, 2);
}

#[test]
fn tick_propagates_tracker_errors_without_panicking() {
    let mut h = Harness::new(Vec::new(), 10);
    let err = h
        .tick_with(Err(TrackerError::Transport("nope".into())))
        .unwrap_err();
    assert!(matches!(err, TrackerError::Transport(_)));
    assert_eq!(h.poll.state().running_len(), 0);
}

#[test]
fn reconciliation_cancels_runs_that_left_active_set() {
    let mut h = Harness::new(issues(3), 10);

    let r1 = h.tick();
    assert_eq!(r1.claimed, 3);
    assert_eq!(r1.reconciled, 0);
    assert_eq!(h.poll.state().running_len(), 3);
    assert_eq!(h.started.len(), 3);

    h.active = issues(2);
    let r2 = h.tick();
    assert_eq!(r2.observed, 2);
    assert_eq!(r2.reconciled, 1);
    assert_eq!(h.cancelled, vec![IssueId::new("id-2")]);

    h.finish("id-2", ReleaseReason::Canceled);
    let r3 = h.tick();
    assert_eq!(r3.released, 1);
    assert_eq!(
        r3.release_reasons,
        vec![(IssueId::new("id-2"), ReleaseReason::NoLongerActive)]
    );
    assert_eq!(h.poll.state().running_len(), 2);
    assert!(h.poll.state().get(&IssueId::new("id-2")).is_none());
}

#[test]
fn reconciliation_is_idempotent_across_ticks() {
    let mut h = Harness::new(issues(2), 10);
    h.tick();

    h.active = Vec::new();
    let r2 = h.tick();
    assert_eq!(r2.reconciled, 2);

    let r3 = h.tick();
    assert_eq!(r3.reconciled, 0);
    assert_eq!(h.cancelled.len(), 2);
}

#[test]
fn claim_emits_state_changed_event() {
    let mut h = Harness::new(issues(1), 1);
    h.tick();
    h.finish("id-0", ReleaseReason::Completed);
    h.tick();

    let kinds: Vec<&str> = h.events.iter().map(|e| e.kind()).collect();
    assert!(
        kinds.contains(&"state_changed"),
        "expected state_changed in {kinds:?}"
    );
    assert!(
        kinds.contains(&"released"),
        "expected released in {kinds:?}"
    );

    let claimed = h
        .events
        .iter()
        .find(|e| matches!(e, OrchestratorEvent::StateChanged { .. }))
        .expect("StateChanged event");
    if let OrchestratorEvent::StateChanged {
        previous, current, ..
    } = claimed
    {
        assert!(previous.is_none(), "initial claim has no previous state");
        assert_eq!(*current, ClaimState::Running);
    }
}

#[test]
fn reconciliation_emits_a_single_reconciled_summary() {
    let mut h = Harness::new(issues(2), 10);
    h.tick();
    h.active = Vec::new();
    h.tick();

    let reconciled: Vec<&OrchestratorEvent> = h
        .events
        .iter()
        .filter(|e| matches!(e, OrchestratorEvent::Reconciled { .. }))
        .collect();
    assert_eq!(
        reconciled.len(),
        1,
        "expected exactly one Reconciled summary, got {:?}",
        h.events
    );
    if let OrchestratorEvent::Reconciled { dropped } = reconciled[0] {
        assert_eq!(dropped.len(), 2);
    }
}

#[test]
fn no_op_tick_emits_no_reconciled_event() {
    let mut h = Harness::new(issues(1), 5);
    h.tick();
    h.tick();
    assert!(
        !h.events
            .iter()
            .any(|e| matches!(e, OrchestratorEvent::Reconciled { .. })),
        "expected no Reconciled events on steady state, got {:?}",
        h.events
    );
}

#[test]
fn released_event_carries_identifier_and_reason() {
    let mut h = Harness::new(issues(1), 1);
    h.tick();
    h.finish("id-0", ReleaseReason::Completed);
    h.tick();

    let released = h
        .events
        .iter()
        .find_map(|e| {
            if let OrchestratorEvent::Released {
                identifier, reason, ..
            } = e
            {
                Some((identifier.clone(), *reason))
            } else {
                None
            }
        })
        .expect("Released event present");
    assert_eq!(released.0, "ENG-0", "identifier carried through reap");
    assert_eq!(released.1, ReleaseReason::Completed);
}

#[test]
fn a_failed_fetch_keeps_what_was_reaped_and_claimed() {
    let mut h = Harness::new(issues(2), 10);
    h.tick();
    h.finish("id-1", ReleaseReason::Completed);
    assert!(h
        .tick_with(Err(TrackerError::Transport("down".into())))
        .is_err());
    assert_eq!(h.poll.state().running_len(), 1);
    assert!(h.poll.state().get(&IssueId::new("id-0")).is_some());
    assert!(h.cancelled.is_empty());
}

#[test]
fn a_dispatch_without_a_claim_is_reaped_silently() {
    let mut h = Harness::new(issues(1), 1);
    h.tick();
    h.finish("id-9", ReleaseReason::Completed);
    let report = h.tick();
    assert_eq!(report.released, 0);
    assert!(report.release_reasons.is_empty());
    assert_eq!(h.poll.state().running_len(), 1);
}

#[test]
fn an_issue_listed_twice_is_claimed_once() {
    let mut active = issues(2);
    active.push(active[0].clone());
    let mut h = Harness::new(active, 10);
    let report = h.tick();
    assert_eq!(report.observed, 3);
    assert_eq!(report.claimed, 2);
    assert_eq!(report.deferred_capacity, 0);
}

#[test]
fn an_issue_that_comes_back_keeps_its_cause() {
    let mut h = Harness::new(issues(1), 1);
    h.tick();
    h.active = Vec::new();
    h.tick();
    h.active = issues(1);
    assert_eq!(h.tick().claimed, 0);
    h.finish("id-0", ReleaseReason::Completed);
    let report = h.tick();
    assert_eq!(
        report.release_reasons,
        vec![(IssueId::new("id-0"), ReleaseReason::NoLongerActive)]
    );
    assert_eq!(report.claimed, 1);
}

#[test]
fn draining_reports_every_dispatch() {
    let mut h = Harness::new(issues(2), 2);
    h.tick();
    let r = h
        .poll
        .release_drained(IssueId::new("id-1"), ReleaseReason::Canceled);
    assert_eq!(r.identifier, "ENG-1");
    assert_eq!(r.reason, ReleaseReason::Canceled);
    assert_eq!(h.poll.state().running_len(), 1);

    let r = h
        .poll
        .release_drained(IssueId::new("id-1"), ReleaseReason::Completed);
    assert_eq!(r.identifier, "");
    assert_eq!(r.reason, ReleaseReason::Completed);
    assert_eq!(h.poll.state().running_len(), 1);
}

#[test]
fn a_forced_drain_leaves_no_claim() {
    let mut h = Harness::new(issues(4), 4);
    h.tick();
    h.active = issues(3);
    h.tick();
    let releases = h.poll.force_drain(vec![
        DispatchEnd::Aborted,
        DispatchEnd::Finished(IssueId::new("id-3"), ReleaseReason::Completed),
        DispatchEnd::Panicked,
        DispatchEnd::Finished(IssueId::new("id-0"), ReleaseReason::Completed),
    ]);
    let seen: Vec<(&str, &str, ReleaseReason)> = releases
        .iter()
        .map(|r| (r.issue.as_str(), r.identifier.as_str(), r.reason))
        .collect();
    assert_eq!(
        seen,
        vec![
            ("id-1", "ENG-1", ReleaseReason::Canceled),
            ("id-3", "ENG-3", ReleaseReason::NoLongerActive),
            ("id-0", "ENG-0", ReleaseReason::Completed),
            ("id-2", "ENG-2", ReleaseReason::Canceled),
        ]
    );
    assert_eq!(h.poll.state().running_len(), 0);
}

#[test]
fn ticks_are_counted() {
    let mut h = Harness::new(Vec::new(), 1);
    assert_eq!(h.poll.tick_seq(), 0);
    h.tick();
    h.tick();
    assert_eq!(h.poll.tick_seq(), 2);
}

#[test]
fn the_ledger_refuses_double_claims_and_absent_releases() {
    let mut ledger = StateMachine::new();
    let id = IssueId::new("id-0");
    assert_eq!(ledger.claim(id.clone()), Ok(()));
    assert_eq!(ledger.claim(id.clone()), Err(LedgerError::AlreadyClaimed));
    assert_eq!(ledger.get(&id), Some(ClaimState::Running));
    assert_eq!(ledger.running_len(), 1);
    assert_eq!(ledger.release(&id), Ok(()));
    assert_eq!(ledger.release(&id), Err(LedgerError::NotClaimed));
    assert_eq!(ledger.get(&id), None);
}

#[test]
fn a_default_report_is_empty() {
    let report = TickReport::default();
    assert_eq!(report.claimed, 0);
    assert_eq!(report.released, 0);
    assert_eq!(report.observed, 0);
    assert_eq!(report.deferred_capacity, 0);
    assert_eq!(report.reconciled, 0);
    assert!(report.release_reasons.is_empty());
}
