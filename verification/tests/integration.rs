use symphony_core::blocker::{BlockerId, RunRef};
use symphony_core::integration::{IntegrationConflict, IntegrationError, IntegrationId, IntegrationMergeStrategy, IntegrationRecord, IntegrationStatus};
use symphony_core::role::RoleName;
use symphony_core::work_item::WorkItemId;

fn role() -> RoleName {
    RoleName::new("platform_lead")
}

fn succeeded(id: i64, parent: WorkItemId) -> IntegrationRecord {
    IntegrationRecord::try_new(
        IntegrationId::new(id),
        parent,
        role(),
        Some(RunRef::new(7)),
        IntegrationStatus::Succeeded,
        IntegrationMergeStrategy::SequentialCherryPick,
        Some("symphony/integration/PROJ-42".into()),
        Some("main".into()),
        Some("deadbeef".into()),
        Some("../proj-integration".into()),
        vec![WorkItemId::new(11), WorkItemId::new(12)],
        Some("Consolidated 2 children, all tests green.".into()),
        vec![],
        vec![],
    )
    .expect("succeeded record should construct")
}

#[test]
fn succeeded_requires_summary_and_branch() {
    let err = IntegrationRecord::try_new(
        IntegrationId::new(1),
        WorkItemId::new(10),
        role(),
        Some(RunRef::new(7)),
        IntegrationStatus::Succeeded,
        IntegrationMergeStrategy::SequentialCherryPick,
        Some("symphony/integration/x".into()),
        None,
        None,
        None,
        vec![],
        None,
        vec![],
        vec![],
    )
    .unwrap_err();
    assert_eq!(
        err,
        IntegrationError::MissingSummary(IntegrationStatus::Succeeded)
    );

    let err = IntegrationRecord::try_new(
        IntegrationId::new(1),
        WorkItemId::new(10),
        role(),
        Some(RunRef::new(7)),
        IntegrationStatus::Succeeded,
        IntegrationMergeStrategy::SequentialCherryPick,
        None,
        None,
        None,
        None,
        vec![],
        Some("ok".into()),
        vec![],
        vec![],
    )
    .unwrap_err();
    assert_eq!(err, IntegrationError::MissingIntegrationBranch);

    let err = IntegrationRecord::try_new(
        IntegrationId::new(1),
        WorkItemId::new(10),
        role(),
        Some(RunRef::new(7)),
        IntegrationStatus::Succeeded,
        IntegrationMergeStrategy::SequentialCherryPick,
        Some("   ".into()),
        None,
        None,
        None,
        vec![],
        Some("ok".into()),
        vec![],
        vec![],
    )
    .unwrap_err();
    assert_eq!(err, IntegrationError::MissingIntegrationBranch);
}

#[test]
fn empty_branch_string_is_rejected() {
    let err = IntegrationRecord::try_new(
        IntegrationId::new(1),
        WorkItemId::new(10),
        role(),
        None,
        IntegrationStatus::Pending,
        IntegrationMergeStrategy::SharedBranch,
        Some(String::new()),
        None,
        None,
        None,
        vec![],
        None,
        vec![],
        vec![],
    )
    .unwrap_err();
    assert_eq!(err, IntegrationError::EmptyBranch);
}

#[test]
fn a_branch_of_spaces_is_rejected_while_pending() {
    let err = IntegrationRecord::try_new(
        IntegrationId::new(1),
        WorkItemId::new(10),
        role(),
        None,
        IntegrationStatus::Pending,
        IntegrationMergeStrategy::SharedBranch,
        Some("   ".into()),
        None,
        None,
        None,
        vec![],
        None,
        vec![],
        vec![],
    )
    .unwrap_err();
    assert_eq!(err, IntegrationError::EmptyBranch);
}

#[test]
fn failed_requires_conflict_evidence() {
    let err = IntegrationRecord::try_new(
        IntegrationId::new(1),
        WorkItemId::new(10),
        role(),
        Some(RunRef::new(7)),
        IntegrationStatus::Failed,
        IntegrationMergeStrategy::SequentialCherryPick,
        Some("symphony/integration/x".into()),
        None,
        None,
        None,
        vec![],
        Some("partial".into()),
        vec![],
        vec![],
    )
    .unwrap_err();
    assert_eq!(err, IntegrationError::MissingConflictEvidence);

    IntegrationRecord::try_new(
        IntegrationId::new(1),
        WorkItemId::new(10),
        role(),
        Some(RunRef::new(7)),
        IntegrationStatus::Failed,
        IntegrationMergeStrategy::SequentialCherryPick,
        Some("symphony/integration/x".into()),
        None,
        None,
        None,
        vec![],
        None,
        vec![IntegrationConflict {
            child_id: Some(WorkItemId::new(11)),
            child_branch: Some("feat/a".into()),
            files: vec!["src/lib.rs".into()],
            message: "merge conflict in src/lib.rs".into(),
        }],
        vec![],
    )
    .expect("failed with conflicts should construct");
}

#[test]
fn empty_conflict_message_is_rejected() {
    let err = IntegrationRecord::try_new(
        IntegrationId::new(1),
        WorkItemId::new(10),
        role(),
        Some(RunRef::new(7)),
        IntegrationStatus::Failed,
        IntegrationMergeStrategy::SequentialCherryPick,
        Some("symphony/integration/x".into()),
        None,
        None,
        None,
        vec![],
        None,
        vec![IntegrationConflict {
            child_id: None,
            child_branch: None,
            files: vec![],
            message: "   ".into(),
        }],
        vec![],
    )
    .unwrap_err();
    assert_eq!(err, IntegrationError::EmptyConflictMessage);
}

#[test]
fn duplicate_child_consolidation_is_rejected() {
    let err = IntegrationRecord::try_new(
        IntegrationId::new(1),
        WorkItemId::new(10),
        role(),
        Some(RunRef::new(7)),
        IntegrationStatus::InProgress,
        IntegrationMergeStrategy::MergeCommits,
        None,
        None,
        None,
        None,
        vec![WorkItemId::new(11), WorkItemId::new(11)],
        None,
        vec![],
        vec![],
    )
    .unwrap_err();
    assert_eq!(err, IntegrationError::DuplicateChild(WorkItemId::new(11)));
}

#[test]
fn parent_in_consolidated_children_is_rejected() {
    let err = IntegrationRecord::try_new(
        IntegrationId::new(1),
        WorkItemId::new(10),
        role(),
        Some(RunRef::new(7)),
        IntegrationStatus::InProgress,
        IntegrationMergeStrategy::MergeCommits,
        None,
        None,
        None,
        None,
        vec![WorkItemId::new(10)],
        None,
        vec![],
        vec![],
    )
    .unwrap_err();
    assert_eq!(
        err,
        IntegrationError::SelfConsolidation(WorkItemId::new(10))
    );
}

#[test]
fn non_pending_status_requires_run_reference() {
    for status in [
        IntegrationStatus::InProgress,
        IntegrationStatus::Succeeded,
        IntegrationStatus::Failed,
        IntegrationStatus::Blocked,
        IntegrationStatus::Cancelled,
    ] {
        let err = IntegrationRecord::try_new(
            IntegrationId::new(1),
            WorkItemId::new(10),
            role(),
            None,
            status,
            IntegrationMergeStrategy::SharedBranch,
            Some("symphony/integration/x".into()),
            None,
            None,
            None,
            vec![],
            Some("ok".into()),
            vec![IntegrationConflict {
                child_id: None,
                child_branch: None,
                files: vec![],
                message: "x".into(),
            }],
            vec![],
        )
        .unwrap_err();
        assert_eq!(err, IntegrationError::MissingRun(status));
    }
}

#[test]
fn pending_record_does_not_require_run_or_evidence() {
    IntegrationRecord::try_new(
        IntegrationId::new(1),
        WorkItemId::new(10),
        role(),
        None,
        IntegrationStatus::Pending,
        IntegrationMergeStrategy::SequentialCherryPick,
        None,
        None,
        None,
        None,
        vec![],
        None,
        vec![],
        vec![],
    )
    .expect("pending records may be queued before any run");
}

#[test]
fn blocked_status_allows_no_conflicts_with_blockers() {
    let record = IntegrationRecord::try_new(
        IntegrationId::new(1),
        WorkItemId::new(10),
        role(),
        Some(RunRef::new(7)),
        IntegrationStatus::Blocked,
        IntegrationMergeStrategy::SharedBranch,
        None,
        None,
        None,
        None,
        vec![],
        None,
        vec![],
        vec![BlockerId::new(99)],
    )
    .expect("blocked record may carry blockers without conflicts");
    assert!(!record.is_pass());
    assert_eq!(record.blockers_filed, vec![BlockerId::new(99)]);
}
