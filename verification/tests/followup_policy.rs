use symphony_core::blocker::{BlockerOrigin, RunRef};
use symphony_core::followup::{FollowupId, FollowupIssueRequest, FollowupPolicy, FollowupStatus};
use symphony_core::followup_policy::{BlockingFollowupGateError, BlockingFollowupSnapshot, check_blocking_followups_at_parent_close};
use symphony_core::role::RoleName;
use symphony_core::work_item::WorkItemId;

fn run_origin() -> BlockerOrigin {
    BlockerOrigin::Run {
        run_id: RunRef::new(7),
        role: Some(RoleName::new("backend")),
    }
}

fn followup(blocking: bool, policy: FollowupPolicy) -> FollowupIssueRequest {
    FollowupIssueRequest::try_new(
        FollowupId::new(1),
        WorkItemId::new(42),
        "title".into(),
        "reason".into(),
        "scope".into(),
        vec!["ac".into()],
        blocking,
        policy,
        run_origin(),
        true,
    )
    .unwrap()
}

fn snap(id: i64, source: i64, title: &str, status: FollowupStatus) -> BlockingFollowupSnapshot {
    BlockingFollowupSnapshot {
        followup_id: FollowupId::new(id),
        source_work_item: WorkItemId::new(source),
        title: title.into(),
        status,
        origin_role: Some(RoleName::new("qa")),
    }
}

#[test]
fn from_followup_skips_non_blocking_followups() {
    let f = followup(false, FollowupPolicy::CreateDirectly);
    assert!(BlockingFollowupSnapshot::from_followup(&f).is_none());
}

#[test]
fn from_followup_skips_terminal_dismissals() {
    let mut rejected = followup(true, FollowupPolicy::ProposeForApproval);
    rejected
        .reject(RoleName::new("platform_lead"), "duplicate")
        .unwrap();
    assert!(BlockingFollowupSnapshot::from_followup(&rejected).is_none());

    let mut cancelled = followup(true, FollowupPolicy::ProposeForApproval);
    cancelled.cancel(Some("folded into source".into())).unwrap();
    assert!(BlockingFollowupSnapshot::from_followup(&cancelled).is_none());
}

#[test]
fn from_followup_captures_blocking_proposed_followup_with_origin_role() {
    let f = followup(true, FollowupPolicy::ProposeForApproval);
    let snap = BlockingFollowupSnapshot::from_followup(&f).expect("blocking proposed gates");
    assert_eq!(snap.followup_id, FollowupId::new(1));
    assert_eq!(snap.source_work_item, WorkItemId::new(42));
    assert_eq!(snap.title, "title");
    assert_eq!(snap.status, FollowupStatus::Proposed);
    assert_eq!(snap.origin_role.as_ref().unwrap().as_str(), "backend");
}

#[test]
fn from_followup_captures_blocking_created_followup_until_subtree_finishes() {
    let mut f = followup(true, FollowupPolicy::CreateDirectly);
    f.mark_created(WorkItemId::new(99)).unwrap();
    let snap = BlockingFollowupSnapshot::from_followup(&f)
        .expect("blocking + Created still gates parent close");
    assert_eq!(snap.status, FollowupStatus::Created);
}

#[test]
fn empty_snapshot_list_passes_for_any_parent() {
    check_blocking_followups_at_parent_close(WorkItemId::new(1), &[]).unwrap();
}

#[test]
fn any_blocking_followup_rejects_close() {
    let open = [snap(1, 42, "rate-limit cleanup", FollowupStatus::Proposed)];
    let err = check_blocking_followups_at_parent_close(WorkItemId::new(42), &open).unwrap_err();
    match err {
        BlockingFollowupGateError::BlockingFollowupsOpen { parent, open } => {
            assert_eq!(parent, WorkItemId::new(42));
            assert_eq!(open.len(), 1);
            assert_eq!(open[0].title, "rate-limit cleanup");
        }
    }
}

#[test]
fn open_blocking_followups_reported_in_input_order() {
    let open = [
        snap(1, 42, "first", FollowupStatus::Proposed),
        snap(2, 42, "second", FollowupStatus::Approved),
        snap(3, 42, "third", FollowupStatus::Created),
    ];
    let err = check_blocking_followups_at_parent_close(WorkItemId::new(42), &open).unwrap_err();
    let BlockingFollowupGateError::BlockingFollowupsOpen { open, .. } = err;
    let titles: Vec<_> = open.iter().map(|f| f.title.as_str()).collect();
    assert_eq!(titles, vec!["first", "second", "third"]);
}

#[test]
fn error_message_names_count_and_parent() {
    let open = [
        snap(1, 42, "a", FollowupStatus::Proposed),
        snap(2, 42, "b", FollowupStatus::Approved),
    ];
    let err = check_blocking_followups_at_parent_close(WorkItemId::new(7), &open).unwrap_err();
    let msg = err.to_string();
    assert!(msg.contains("2"), "msg should include count: {msg}");
    assert!(msg.contains("7"), "msg should name parent: {msg}");
}
