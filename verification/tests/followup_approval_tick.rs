use symphony_core::blocker::{BlockerOrigin, RunRef};
use symphony_core::followup::{FollowupId, FollowupIssueRequest, FollowupPolicy, FollowupStatus};
use symphony_core::followup_approval_tick::{FollowupApprovalCandidate, FollowupApprovalDispatchQueue, FollowupApprovalDispatchRequest, FollowupApprovalQueueError, FollowupApprovalQueueSource, FollowupApprovalQueueTick};
use symphony_core::logical_queue::{LogicalQueue, QueueTickOutcome};
use symphony_core::queue_tick::QueueTickCadence;
use symphony_core::role::RoleName;
use symphony_core::work_item::WorkItemId;
use std::sync::{Arc, Mutex};

#[derive(Clone)]
struct FakeSource {
    records: Arc<Mutex<Vec<FollowupIssueRequest>>>,
    approval_role: RoleName,
    fail_next: Arc<Mutex<bool>>,
}

impl FakeSource {
    fn new(approval_role: RoleName) -> Self {
        Self {
            records: Arc::new(Mutex::new(Vec::new())),
            approval_role,
            fail_next: Arc::new(Mutex::new(false)),
        }
    }

    fn insert(&self, record: FollowupIssueRequest) {
        self.records.lock().unwrap().push(record);
    }

    fn arm_failure(&self) {
        *self.fail_next.lock().unwrap() = true;
    }

    fn approve(&self, id: FollowupId, note: &str) {
        let mut recs = self.records.lock().unwrap();
        let r = recs.iter_mut().find(|r| r.id == id).expect("missing");
        r.approve(self.approval_role.clone(), note).unwrap();
    }

    fn reject(&self, id: FollowupId, note: &str) {
        let mut recs = self.records.lock().unwrap();
        let r = recs.iter_mut().find(|r| r.id == id).expect("missing");
        r.reject(self.approval_role.clone(), note).unwrap();
    }
}

impl FollowupApprovalQueueSource for FakeSource {
    fn list_pending(
        &self,
    ) -> Result<Vec<FollowupApprovalCandidate>, FollowupApprovalQueueError> {
        let mut fail = self.fail_next.lock().unwrap();
        if *fail {
            *fail = false;
            return Err(FollowupApprovalQueueError::Source(
                "scripted failure".into(),
            ));
        }
        let recs = self.records.lock().unwrap();
        Ok(recs
            .iter()
            .filter(|r| {
                r.policy == FollowupPolicy::ProposeForApproval
                    && r.status == FollowupStatus::Proposed
            })
            .map(|r| FollowupApprovalCandidate {
                followup_id: r.id,
                source_work_item: r.source_work_item,
                title: r.title.clone(),
                blocking: r.blocking,
                approval_role: self.approval_role.clone(),
            })
            .collect())
    }
}

fn cadence() -> QueueTickCadence {
    QueueTickCadence::fixed(1)
}

fn proposed(id: i64, source: i64, title: &str, blocking: bool) -> FollowupIssueRequest {
    FollowupIssueRequest::try_new(
        FollowupId::new(id),
        WorkItemId::new(source),
        title.into(),
        "tighten retries".into(),
        "scoped to adapter".into(),
        vec!["criterion".into()],
        blocking,
        FollowupPolicy::ProposeForApproval,
        BlockerOrigin::Run {
            run_id: RunRef::new(7),
            role: Some(RoleName::new("backend")),
        },
        true,
    )
    .unwrap()
}

fn direct(id: i64, source: i64, title: &str) -> FollowupIssueRequest {
    FollowupIssueRequest::try_new(
        FollowupId::new(id),
        WorkItemId::new(source),
        title.into(),
        "missing log".into(),
        "core poll loop".into(),
        vec!["log emitted".into()],
        false,
        FollowupPolicy::CreateDirectly,
        BlockerOrigin::Run {
            run_id: RunRef::new(7),
            role: Some(RoleName::new("backend")),
        },
        true,
    )
    .unwrap()
}

fn build_tick(source: &FakeSource) -> FollowupApprovalQueueTick<FakeSource> {
    FollowupApprovalQueueTick::new(
        source.clone(),
        FollowupApprovalDispatchQueue::new(),
        cadence(),
    )
}

#[test]
fn pending_proposals_are_emitted_in_fifo_order() {
    let role = RoleName::new("platform_lead");
    let src = FakeSource::new(role.clone());
    src.insert(proposed(1, 100, "rate limit", false));
    src.insert(proposed(2, 100, "logs", true));
    let mut t = build_tick(&src);

    let outcome = t.tick();
    assert_eq!(outcome.queue, LogicalQueue::FollowupApproval);
    assert_eq!(outcome.considered, 2);
    assert_eq!(outcome.processed, 2);
    assert_eq!(outcome.deferred, 0);
    assert_eq!(outcome.errors, 0);

    let drained = t.drain_dispatches();
    assert_eq!(drained.len(), 2);
    assert_eq!(drained[0].followup_id, FollowupId::new(1));
    assert_eq!(drained[0].approval_role, role);
    assert!(!drained[0].blocking);
    assert_eq!(drained[1].followup_id, FollowupId::new(2));
    assert!(drained[1].blocking);
}

#[test]
fn create_directly_followups_are_excluded_from_the_queue() {
    let role = RoleName::new("platform_lead");
    let src = FakeSource::new(role);
    src.insert(direct(1, 100, "direct one"));
    src.insert(proposed(2, 100, "proposal", false));
    let mut t = build_tick(&src);

    let outcome = t.tick();
    assert_eq!(outcome.considered, 1);
    assert_eq!(outcome.processed, 1);
    let drained = t.drain_dispatches();
    assert_eq!(drained.len(), 1);
    assert_eq!(drained[0].followup_id, FollowupId::new(2));
}

#[test]
fn approve_path_drops_proposal_and_prunes_claim() {
    let role = RoleName::new("platform_lead");
    let src = FakeSource::new(role);
    src.insert(proposed(1, 100, "rate limit", false));
    let mut t = build_tick(&src);

    let o1 = t.tick();
    assert_eq!(o1.processed, 1);
    let drained = t.drain_dispatches();
    assert_eq!(drained.len(), 1);
    assert_eq!(drained[0].followup_id, FollowupId::new(1));
    assert_eq!(t.claimed_count(), 1);

    src.approve(FollowupId::new(1), "looks good");
    let o2 = t.tick();
    assert_eq!(o2.considered, 0);
    assert_eq!(o2.processed, 0);
    assert_eq!(o2.deferred, 0);
    assert_eq!(t.claimed_count(), 0);
    assert!(t.dispatch_queue().is_empty());
}

#[test]
fn reject_path_drops_proposal_and_prunes_claim() {
    let role = RoleName::new("platform_lead");
    let src = FakeSource::new(role);
    src.insert(proposed(7, 100, "out of scope", false));
    let mut t = build_tick(&src);

    let o1 = t.tick();
    assert_eq!(o1.processed, 1);
    assert_eq!(t.drain_dispatches().len(), 1);
    assert_eq!(t.claimed_count(), 1);

    src.reject(FollowupId::new(7), "out of scope");
    let o2 = t.tick();
    assert_eq!(o2.considered, 0);
    assert_eq!(o2.processed, 0);
    assert_eq!(t.claimed_count(), 0);
    assert!(t.dispatch_queue().is_empty());
}

#[test]
fn already_claimed_proposal_is_not_re_emitted() {
    let role = RoleName::new("platform_lead");
    let src = FakeSource::new(role);
    src.insert(proposed(1, 100, "rate limit", false));
    let mut t = build_tick(&src);

    let o1 = t.tick();
    assert_eq!(o1.processed, 1);
    assert_eq!(t.drain_dispatches().len(), 1);

    let o2 = t.tick();
    assert_eq!(o2.considered, 1);
    assert_eq!(o2.processed, 0);
    assert_eq!(o2.deferred, 1);
    assert!(t.dispatch_queue().is_empty());
    assert_eq!(t.claimed_count(), 1);
}

#[test]
fn empty_queue_is_idle() {
    let role = RoleName::new("platform_lead");
    let src = FakeSource::new(role);
    let mut t = build_tick(&src);

    let outcome = t.tick();
    assert!(outcome.is_idle());
    assert_eq!(outcome.queue, LogicalQueue::FollowupApproval);
    assert!(t.dispatch_queue().is_empty());
    assert_eq!(t.claimed_count(), 0);
}

#[test]
fn followup_approval_tick_source_error_increments_errors_and_emits_nothing() {
    let role = RoleName::new("platform_lead");
    let src = FakeSource::new(role);
    src.insert(proposed(1, 100, "rate limit", false));
    let mut t = build_tick(&src);

    src.arm_failure();
    let o = t.tick();
    assert_eq!(o.queue, LogicalQueue::FollowupApproval);
    assert_eq!(o.errors, 1);
    assert_eq!(o.processed, 0);
    assert_eq!(o.considered, 0);
    assert!(t.dispatch_queue().is_empty());
    assert_eq!(t.claimed_count(), 0);
}

#[test]
fn followup_approval_tick_drives_through_dyn_queue_tick_trait_object() {
    let role = RoleName::new("platform_lead");
    let src = FakeSource::new(role);
    src.insert(proposed(1, 100, "rate limit", false));
    let mut t = build_tick(&src);
    let outcomes: Vec<QueueTickOutcome> = (0..3).map(|_| t.tick()).collect();
    assert_eq!(outcomes.len(), 3);
    for o in &outcomes {
        assert_eq!(o.queue, LogicalQueue::FollowupApproval);
    }
    assert_eq!(outcomes[0].processed, 1);
    assert_eq!(outcomes[1].processed, 0);
    assert_eq!(outcomes[1].deferred, 1);
    assert_eq!(outcomes[2].deferred, 1);
    assert_eq!(t.dispatch_queue().len(), 1);
}

#[test]
fn tick_reports_queue_and_configured_cadence() {
    let role = RoleName::new("platform_lead");
    let src = FakeSource::new(role);
    let q = FollowupApprovalDispatchQueue::new();
    let cad = QueueTickCadence::from_millis(2_500, 100);
    let t = FollowupApprovalQueueTick::new(src, q, cad);
    assert_eq!(t.queue(), LogicalQueue::FollowupApproval);
    assert_eq!(t.cadence(), cad);
}

#[test]
fn dispatch_queue_drain_is_fifo_and_empties() {
    let mut q = FollowupApprovalDispatchQueue::new();
    let role = RoleName::new("platform_lead");
    q.enqueue(FollowupApprovalDispatchRequest {
        followup_id: FollowupId::new(1),
        source_work_item: WorkItemId::new(100),
        title: "first".into(),
        blocking: false,
        approval_role: role.clone(),
        run_id: None,
        role: None,
        agent_profile: None,
        repository: None,
    });
    q.enqueue(FollowupApprovalDispatchRequest {
        followup_id: FollowupId::new(2),
        source_work_item: WorkItemId::new(100),
        title: "second".into(),
        blocking: true,
        approval_role: role,
        run_id: None,
        role: None,
        agent_profile: None,
        repository: None,
    });
    assert_eq!(q.len(), 2);
    let drained = q.drain();
    assert_eq!(drained.len(), 2);
    assert_eq!(drained[0].followup_id, FollowupId::new(1));
    assert_eq!(drained[1].followup_id, FollowupId::new(2));
    assert!(q.is_empty());
}
