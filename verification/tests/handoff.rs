use symphony_core::blocker::BlockerSeverity;
use symphony_core::handoff::{BranchOrWorkspace, Handoff, HandoffBlockerRequest, HandoffError, HandoffFollowupRequest, ReadyFor};
use symphony_core::role::RoleName;
use symphony_core::work_item::WorkItemId;

fn minimal_branch() -> BranchOrWorkspace {
    BranchOrWorkspace {
        branch: Some("feat/foo".into()),
        workspace_path: None,
        base_ref: Some("main".into()),
    }
}

fn minimal_handoff() -> Handoff {
    Handoff {
        summary: "did the thing".into(),
        changed_files: vec!["src/foo.rs".into()],
        tests_run: vec!["cargo test --workspace".into()],
        verification_evidence: vec![],
        known_risks: vec![],
        blockers_created: vec![],
        followups_created_or_proposed: vec![],
        branch_or_workspace: minimal_branch(),
        ready_for: ReadyFor::Qa,
        block_reason: None,
        reporting_role: Some(RoleName::new("backend")),
    }
}

#[test]
fn ready_for_block_evidence_is_only_required_for_blocked() {
    for r in ReadyFor::ALL {
        assert_eq!(r.requires_block_evidence(), matches!(r, ReadyFor::Blocked));
    }
}

#[test]
fn branch_or_workspace_is_empty_only_when_both_branch_and_path_are_missing() {
    assert!(BranchOrWorkspace::default().is_empty());
    assert!(
        !BranchOrWorkspace {
            branch: Some("x".into()),
            ..Default::default()
        }
        .is_empty()
    );
    assert!(
        !BranchOrWorkspace {
            workspace_path: Some("/tmp/wt".into()),
            ..Default::default()
        }
        .is_empty()
    );
    assert!(
        BranchOrWorkspace {
            branch: Some("".into()),
            workspace_path: Some("".into()),
            ..Default::default()
        }
        .is_empty()
    );
}

#[test]
fn validate_accepts_minimal_handoff() {
    minimal_handoff().validate().unwrap();
}

#[test]
fn validate_rejects_empty_summary() {
    let mut h = minimal_handoff();
    for s in ["", "   ", "\t\n"] {
        h.summary = s.into();
        assert_eq!(h.validate().unwrap_err(), HandoffError::EmptySummary);
    }
}

#[test]
fn validate_rejects_empty_branch_or_workspace() {
    let mut h = minimal_handoff();
    h.branch_or_workspace = BranchOrWorkspace::default();
    assert_eq!(
        h.validate().unwrap_err(),
        HandoffError::EmptyBranchOrWorkspace
    );
}

#[test]
fn validate_rejects_empty_changed_file_entry() {
    let mut h = minimal_handoff();
    h.changed_files.push("   ".into());
    assert_eq!(h.validate().unwrap_err(), HandoffError::EmptyChangedFile);
}

#[test]
fn validate_rejects_blocker_request_with_empty_reason() {
    let mut h = minimal_handoff();
    h.blockers_created.push(HandoffBlockerRequest {
        blocking_id: Some(WorkItemId::new(7)),
        reason: "  ".into(),
        severity: BlockerSeverity::Medium,
    });
    assert_eq!(h.validate().unwrap_err(), HandoffError::EmptyBlockerReason);
}

#[test]
fn validate_rejects_followup_with_empty_title() {
    let mut h = minimal_handoff();
    h.followups_created_or_proposed
        .push(HandoffFollowupRequest {
            title: "".into(),
            summary: "x".into(),
            blocking: false,
            propose_only: true,
        });
    assert_eq!(h.validate().unwrap_err(), HandoffError::EmptyFollowupTitle);
}

#[test]
fn validate_rejects_blocked_without_evidence() {
    let mut h = minimal_handoff();
    h.ready_for = ReadyFor::Blocked;
    assert_eq!(
        h.validate().unwrap_err(),
        HandoffError::BlockedWithoutEvidence
    );
}

#[test]
fn validate_accepts_blocked_with_block_reason() {
    let mut h = minimal_handoff();
    h.ready_for = ReadyFor::Blocked;
    h.block_reason = Some("waiting on vendor".into());
    h.validate().unwrap();
}

#[test]
fn validate_accepts_blocked_with_blocker_request() {
    let mut h = minimal_handoff();
    h.ready_for = ReadyFor::Blocked;
    h.blockers_created.push(HandoffBlockerRequest {
        blocking_id: Some(WorkItemId::new(11)),
        reason: "needs schema sign-off".into(),
        severity: BlockerSeverity::High,
    });
    h.validate().unwrap();
}

#[test]
fn validate_rejects_block_reason_when_ready_for_is_not_blocked() {
    let mut h = minimal_handoff();
    h.ready_for = ReadyFor::Qa;
    h.block_reason = Some("stuck".into());
    assert_eq!(
        h.validate().unwrap_err(),
        HandoffError::NonBlockedBlockReason(ReadyFor::Qa)
    );
}

#[test]
fn validate_treats_whitespace_block_reason_as_missing() {
    let mut h = minimal_handoff();
    h.ready_for = ReadyFor::Blocked;
    h.block_reason = Some("   ".into());
    assert_eq!(
        h.validate().unwrap_err(),
        HandoffError::BlockedWithoutEvidence
    );
}

#[test]
fn defers_to_gate_only_for_intermediate_ready_for_variants() {
    for r in ReadyFor::ALL {
        let mut h = minimal_handoff();
        h.ready_for = r;
        if r == ReadyFor::Blocked {
            h.block_reason = Some("waiting".into());
        }
        assert_eq!(
            h.defers_to_gate(),
            matches!(
                r,
                ReadyFor::Integration | ReadyFor::Qa | ReadyFor::HumanReview
            )
        );
    }
}
