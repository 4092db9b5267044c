use symphony_core::intake_tick::{ActiveSetStore, IntakeQueueTick};
use symphony_core::logical_queue::{LogicalQueue, QueueTickOutcome};
use symphony_core::poll_loop::{PollLoop, TickReport};
use symphony_core::queue_tick::QueueTickCadence;
use symphony_core::tracker::{Issue, TrackerError};

struct StaticTracker {
    active: Vec<Issue>,
    fail_next: bool,
}

impl StaticTracker {
    fn new(active: Vec<Issue>) -> Self {
        Self {
            active,
            fail_next: false,
        }
    }

    fn replace(&mut self, active: Vec<Issue>) {
        self.active = active;
    }

    fn arm_failure(&mut self) {
        self.fail_next = true;
    }

    fn fetch_active(&mut self) -> Result<Vec<Issue>, TrackerError> {
        if self.fail_next {
            self.fail_next = false;
            return Err(TrackerError::Transport("scripted failure".into()));
        }
        Ok(self.active.clone())
    }
}

fn issues(n: usize) -> Vec<Issue> {
    (0..n)
        .map(|i| Issue::minimal(&format!("id-{i}"), &format!("ENG-{i}"), "title", "Todo"))
        .collect()
}

fn cadence() -> QueueTickCadence {
    QueueTickCadence::fixed(1)
}

fn intake() -> IntakeQueueTick {
    IntakeQueueTick::new(ActiveSetStore::new(), cadence())
}

fn poll_tick(poll: &mut PollLoop, tracker: &mut StaticTracker) -> TickReport {
    poll.begin_tick();
    let releases = poll.reap_finished(Vec::new());
    poll.tick(&releases, tracker.fetch_active()).unwrap().report
}

#[test]
fn tick_publishes_active_snapshot_into_store() {
    let mut tracker = StaticTracker::new(issues(3));
    let mut intake = intake();

    let outcome = intake.tick(tracker.fetch_active());
    assert_eq!(outcome.queue, LogicalQueue::Intake);
    assert_eq!(outcome.considered, 3);
    assert_eq!(outcome.processed, 3);
    assert_eq!(outcome.deferred, 0);
    assert_eq!(outcome.errors, 0);
    assert_eq!(intake.active_set().len(), 3);
    assert_eq!(
        intake
            .active_set()
            .snapshot()
            .iter()
            .map(|i| i.identifier.clone())
            .collect::<Vec<_>>(),
        vec!["ENG-0", "ENG-1", "ENG-2"],
    );
}

#[test]
fn tick_idle_when_active_set_is_empty() {
    let mut tracker = StaticTracker::new(Vec::new());
    let mut intake = intake();

    let outcome = intake.tick(tracker.fetch_active());
    assert!(outcome.is_idle());
    assert_eq!(outcome.queue, LogicalQueue::Intake);
    assert!(intake.active_set().is_empty());
}

#[test]
fn tick_replaces_previous_snapshot_each_call() {
    let mut tracker = StaticTracker::new(issues(2));
    let mut intake = intake();

    intake.tick(tracker.fetch_active());
    assert_eq!(intake.active_set().len(), 2);

    tracker.replace(issues(1));
    intake.tick(tracker.fetch_active());
    let snap = intake.active_set().snapshot();
    assert_eq!(snap.len(), 1);
    assert_eq!(snap[0].identifier, "ENG-0");
}

#[test]
fn tick_error_path_increments_errors_and_preserves_store() {
    let mut tracker = StaticTracker::new(issues(2));
    let mut intake = intake();

    intake.tick(tracker.fetch_active());
    assert_eq!(intake.active_set().len(), 2);

    tracker.arm_failure();
    let outcome = intake.tick(tracker.fetch_active());
    assert_eq!(outcome.queue, LogicalQueue::Intake);
    assert_eq!(outcome.errors, 1);
    assert_eq!(outcome.considered, 0);
    assert_eq!(outcome.processed, 0);
    assert_eq!(
        intake.active_set().len(),
        2,
        "store must keep last good snapshot on error"
    );
}

#[test]
fn tick_reports_intake_queue_and_configured_cadence() {
    let cad = QueueTickCadence::from_millis(2_500, 100);
    let intake = IntakeQueueTick::new(ActiveSetStore::new(), cad);
    assert_eq!(intake.queue(), LogicalQueue::Intake);
    assert_eq!(intake.cadence(), cad);
}

#[test]
fn run_queue_tick_n_drives_intake_through_trait_object() {
    let mut tracker = StaticTracker::new(issues(2));
    let mut intake = intake();

    let outcomes: Vec<QueueTickOutcome> = (0..3)
        .map(|_| intake.tick(tracker.fetch_active()))
        .collect();
    assert_eq!(outcomes.len(), 3);
    for o in &outcomes {
        assert_eq!(o.queue, LogicalQueue::Intake);
        assert_eq!(o.considered, 2);
        assert_eq!(o.processed, 2);
    }
    assert_eq!(intake.active_set().len(), 2);
}

#[test]
fn parity_intake_tick_matches_poll_loop_observed_count() {
    let active = issues(4);
    let mut tracker_a = StaticTracker::new(active.clone());
    let mut tracker_b = StaticTracker::new(active.clone());

    let mut poll = PollLoop::new(0);
    let report = poll_tick(&mut poll, &mut tracker_a);

    let mut intake = intake();
    let outcome = intake.tick(tracker_b.fetch_active());

    assert_eq!(report.observed, outcome.considered);
    assert_eq!(report.observed, outcome.processed);
    assert_eq!(report.observed, active.len());
    let snap_ids: Vec<_> = intake
        .active_set()
        .snapshot()
        .iter()
        .map(|i| i.id.clone())
        .collect();
    let active_ids: Vec<_> = active.iter().map(|i| i.id.clone()).collect();
    assert_eq!(snap_ids, active_ids);
}

#[test]
fn parity_intake_tick_tracks_active_set_changes_like_poll_loop() {
    let mut tracker_a = StaticTracker::new(issues(3));
    let mut tracker_b = StaticTracker::new(issues(3));

    let mut poll = PollLoop::new(0);
    let mut intake = intake();

    let r1 = poll_tick(&mut poll, &mut tracker_a);
    let o1 = intake.tick(tracker_b.fetch_active());
    assert_eq!(r1.observed, 3);
    assert_eq!(o1.considered, 3);
    assert_eq!(intake.active_set().len(), 3);

    tracker_a.replace(issues(1));
    tracker_b.replace(issues(1));
    let r2 = poll_tick(&mut poll, &mut tracker_a);
    let o2 = intake.tick(tracker_b.fetch_active());
    assert_eq!(r2.observed, 1);
    assert_eq!(o2.considered, 1);
    assert_eq!(intake.active_set().len(), 1);

    tracker_a.replace(Vec::new());
    tracker_b.replace(Vec::new());
    let r3 = poll_tick(&mut poll, &mut tracker_a);
    let o3 = intake.tick(tracker_b.fetch_active());
    assert_eq!(r3.observed, 0);
    assert!(o3.is_idle());
    assert!(intake.active_set().is_empty());
}

#[test]
fn a_default_active_set_is_empty() {
    assert!(ActiveSetStore::default().snapshot().is_empty());
}
