use symphony_core::blocker::{BlockerId, BlockerOrigin, BlockerSeverity, RunRef};
use symphony_core::handoff::HandoffBlockerRequest;
use symphony_core::qa_blocker::{QaBlockerError, derive_qa_blockers};
use symphony_core::role::RoleName;
use symphony_core::work_item::WorkItemId;

fn req(
    blocking: Option<i64>,
    reason: &str,
    severity: BlockerSeverity,
) -> HandoffBlockerRequest {
    HandoffBlockerRequest {
        blocking_id: blocking.map(WorkItemId::new),
        reason: reason.into(),
        severity,
    }
}

fn qa_role() -> RoleName {
    RoleName::new("qa")
}

#[test]
fn derives_one_spec_per_request_with_qa_origin() {
    let requests = vec![
        req(Some(101), "tests fail", BlockerSeverity::High),
        req(Some(102), "ui regression", BlockerSeverity::Critical),
    ];
    let specs =
        derive_qa_blockers(WorkItemId::new(50), RunRef::new(7), &qa_role(), &requests).unwrap();
    assert_eq!(specs.len(), 2);
    assert_eq!(specs[0].blocking_id, WorkItemId::new(101));
    assert_eq!(specs[0].blocked_id, WorkItemId::new(50));
    assert_eq!(specs[0].reason, "tests fail");
    assert_eq!(specs[0].severity, BlockerSeverity::High);
    match &specs[0].origin {
        BlockerOrigin::Run { run_id, role } => {
            assert_eq!(*run_id, RunRef::new(7));
            assert_eq!(role.as_ref().unwrap().as_str(), "qa");
        }
        other => panic!("unexpected origin: {other:?}"),
    }
    assert_eq!(specs[1].severity, BlockerSeverity::Critical);
}

#[test]
fn empty_input_yields_empty_specs() {
    let specs =
        derive_qa_blockers(WorkItemId::new(50), RunRef::new(7), &qa_role(), &[]).unwrap();
    assert!(specs.is_empty());
}

#[test]
fn missing_blocking_id_is_rejected_with_index() {
    let requests = vec![
        req(Some(101), "tests fail", BlockerSeverity::Medium),
        req(None, "tbd", BlockerSeverity::Medium),
    ];
    let err = derive_qa_blockers(WorkItemId::new(50), RunRef::new(7), &qa_role(), &requests)
        .unwrap_err();
    assert_eq!(err, QaBlockerError::MissingBlockingId { index: 1 });
}

#[test]
fn empty_reason_is_rejected_with_index() {
    let requests = vec![
        req(Some(101), "tests fail", BlockerSeverity::Medium),
        req(Some(102), "   ", BlockerSeverity::Medium),
    ];
    let err = derive_qa_blockers(WorkItemId::new(50), RunRef::new(7), &qa_role(), &requests)
        .unwrap_err();
    assert_eq!(err, QaBlockerError::EmptyReason { index: 1 });
}

#[test]
fn self_block_is_rejected() {
    let requests = vec![req(Some(50), "self", BlockerSeverity::Medium)];
    let err = derive_qa_blockers(WorkItemId::new(50), RunRef::new(7), &qa_role(), &requests)
        .unwrap_err();
    assert_eq!(
        err,
        QaBlockerError::SelfBlock {
            index: 0,
            work_item: WorkItemId::new(50),
        }
    );
}

#[test]
fn spec_into_blocker_round_trips_invariants() {
    let requests = vec![req(Some(101), "tests fail", BlockerSeverity::High)];
    let mut specs =
        derive_qa_blockers(WorkItemId::new(50), RunRef::new(7), &qa_role(), &requests).unwrap();
    let spec = specs.remove(0);
    let blocker = spec.into_blocker(BlockerId::new(999)).unwrap();
    assert_eq!(blocker.id, BlockerId::new(999));
    assert!(blocker.is_blocking());
    assert_eq!(blocker.blocking_id, WorkItemId::new(101));
    assert_eq!(blocker.blocked_id, WorkItemId::new(50));
    assert_eq!(blocker.severity, BlockerSeverity::High);
}

#[test]
fn severity_default_is_preserved_through_derivation() {
    let requests = vec![HandoffBlockerRequest {
        blocking_id: Some(WorkItemId::new(101)),
        reason: "default sev".into(),
        severity: BlockerSeverity::default(),
    }];
    let specs =
        derive_qa_blockers(WorkItemId::new(50), RunRef::new(7), &qa_role(), &requests).unwrap();
    assert_eq!(specs[0].severity, BlockerSeverity::Medium);
}

#[test]
fn each_request_gets_independent_origin_with_same_run_and_role() {
    let requests = vec![
        req(Some(101), "a", BlockerSeverity::Medium),
        req(Some(102), "b", BlockerSeverity::Medium),
    ];
    let specs = derive_qa_blockers(
        WorkItemId::new(50),
        RunRef::new(42),
        &RoleName::new("quality"),
        &requests,
    )
    .unwrap();
    for spec in &specs {
        match &spec.origin {
            BlockerOrigin::Run { run_id, role } => {
                assert_eq!(*run_id, RunRef::new(42));
                assert_eq!(role.as_ref().unwrap().as_str(), "quality");
            }
            other => panic!("unexpected origin: {other:?}"),
        }
    }
}
