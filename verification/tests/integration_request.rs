use symphony_core::handoff::{BranchOrWorkspace, Handoff, ReadyFor};
use symphony_core::integration::IntegrationMergeStrategy;
use symphony_core::integration_request::{IntegrationChild, IntegrationGates, IntegrationRequestCause, IntegrationRequestError, IntegrationRunRequest, IntegrationWorkspace};
use symphony_core::role::RoleName;
use symphony_core::work_item::{WorkItemId, WorkItemStatusClass};

fn role() -> RoleName {
    RoleName::new("platform_lead")
}

fn workspace() -> IntegrationWorkspace {
    IntegrationWorkspace {
        path: "/tmp/proj-integration".into(),
        strategy: "git_worktree".into(),
        branch: Some("symphony/integration/PROJ-42".into()),
        base_ref: Some("main".into()),
    }
}

fn child(id: i64, identifier: &str, status: WorkItemStatusClass) -> IntegrationChild {
    IntegrationChild {
        child_id: WorkItemId::new(id),
        identifier: identifier.into(),
        title: format!("child {identifier}"),
        status_class: status,
        branch: Some(format!("symphony/{identifier}")),
        latest_handoff: None,
    }
}

fn valid_handoff() -> Handoff {
    Handoff {
        summary: "implemented widget".into(),
        changed_files: vec!["src/widget.rs".into()],
        tests_run: vec!["cargo test --package widget".into()],
        verification_evidence: vec![],
        known_risks: vec![],
        blockers_created: vec![],
        followups_created_or_proposed: vec![],
        branch_or_workspace: BranchOrWorkspace {
            branch: Some("symphony/ENG-2".into()),
            workspace_path: Some("/tmp/proj-eng-2".into()),
            base_ref: Some("main".into()),
        },
        ready_for: ReadyFor::Integration,
        block_reason: None,
        reporting_role: None,
    }
}

fn ok_request() -> IntegrationRunRequest {
    IntegrationRunRequest::try_new(
        WorkItemId::new(1),
        "PROJ-42".into(),
        "consolidate widget work".into(),
        role(),
        IntegrationMergeStrategy::SequentialCherryPick,
        workspace(),
        vec![
            child(2, "ENG-2", WorkItemStatusClass::Done),
            child(3, "ENG-3", WorkItemStatusClass::Done),
        ],
        IntegrationGates::default(),
        0,
        IntegrationRequestCause::AllChildrenTerminal,
    )
    .expect("valid request should construct")
}

#[test]
fn empty_owner_role_is_rejected() {
    let err = IntegrationRunRequest::try_new(
        WorkItemId::new(1),
        "PROJ-42".into(),
        "title".into(),
        RoleName::new("   "),
        IntegrationMergeStrategy::MergeCommits,
        workspace(),
        vec![child(2, "ENG-2", WorkItemStatusClass::Done)],
        IntegrationGates::default(),
        0,
        IntegrationRequestCause::AllChildrenTerminal,
    )
    .unwrap_err();
    assert_eq!(err, IntegrationRequestError::EmptyOwnerRole);
}

#[test]
fn empty_parent_identifier_or_title_is_rejected() {
    let err = IntegrationRunRequest::try_new(
        WorkItemId::new(1),
        "  ".into(),
        "title".into(),
        role(),
        IntegrationMergeStrategy::MergeCommits,
        workspace(),
        vec![child(2, "ENG-2", WorkItemStatusClass::Done)],
        IntegrationGates::default(),
        0,
        IntegrationRequestCause::AllChildrenTerminal,
    )
    .unwrap_err();
    assert_eq!(err, IntegrationRequestError::EmptyParentIdentifier);

    let err = IntegrationRunRequest::try_new(
        WorkItemId::new(1),
        "PROJ-42".into(),
        "".into(),
        role(),
        IntegrationMergeStrategy::MergeCommits,
        workspace(),
        vec![child(2, "ENG-2", WorkItemStatusClass::Done)],
        IntegrationGates::default(),
        0,
        IntegrationRequestCause::AllChildrenTerminal,
    )
    .unwrap_err();
    assert_eq!(err, IntegrationRequestError::EmptyParentTitle);
}

#[test]
fn integration_request_empty_workspace_path_or_strategy_is_rejected() {
    let mut ws = workspace();
    ws.path = String::new();
    let err = IntegrationRunRequest::try_new(
        WorkItemId::new(1),
        "PROJ-42".into(),
        "title".into(),
        role(),
        IntegrationMergeStrategy::MergeCommits,
        ws,
        vec![child(2, "ENG-2", WorkItemStatusClass::Done)],
        IntegrationGates::default(),
        0,
        IntegrationRequestCause::AllChildrenTerminal,
    )
    .unwrap_err();
    assert_eq!(err, IntegrationRequestError::EmptyWorkspacePath);

    let mut ws = workspace();
    ws.strategy = "  ".into();
    let err = IntegrationRunRequest::try_new(
        WorkItemId::new(1),
        "PROJ-42".into(),
        "title".into(),
        role(),
        IntegrationMergeStrategy::MergeCommits,
        ws,
        vec![child(2, "ENG-2", WorkItemStatusClass::Done)],
        IntegrationGates::default(),
        0,
        IntegrationRequestCause::AllChildrenTerminal,
    )
    .unwrap_err();
    assert_eq!(err, IntegrationRequestError::EmptyWorkspaceStrategy);
}

#[test]
fn duplicate_or_self_child_is_rejected() {
    let err = IntegrationRunRequest::try_new(
        WorkItemId::new(1),
        "PROJ-42".into(),
        "title".into(),
        role(),
        IntegrationMergeStrategy::MergeCommits,
        workspace(),
        vec![
            child(2, "ENG-2", WorkItemStatusClass::Done),
            child(2, "ENG-2", WorkItemStatusClass::Done),
        ],
        IntegrationGates::default(),
        0,
        IntegrationRequestCause::AllChildrenTerminal,
    )
    .unwrap_err();
    assert_eq!(
        err,
        IntegrationRequestError::DuplicateChild(WorkItemId::new(2))
    );

    let err = IntegrationRunRequest::try_new(
        WorkItemId::new(1),
        "PROJ-42".into(),
        "title".into(),
        role(),
        IntegrationMergeStrategy::MergeCommits,
        workspace(),
        vec![child(1, "ENG-1", WorkItemStatusClass::Done)],
        IntegrationGates::default(),
        0,
        IntegrationRequestCause::AllChildrenTerminal,
    )
    .unwrap_err();
    assert_eq!(
        err,
        IntegrationRequestError::SelfConsolidation(WorkItemId::new(1))
    );
}

#[test]
fn empty_child_identifier_is_rejected() {
    let err = IntegrationRunRequest::try_new(
        WorkItemId::new(1),
        "PROJ-42".into(),
        "title".into(),
        role(),
        IntegrationMergeStrategy::MergeCommits,
        workspace(),
        vec![child(2, "  ", WorkItemStatusClass::Done)],
        IntegrationGates::default(),
        0,
        IntegrationRequestCause::AllChildrenTerminal,
    )
    .unwrap_err();
    assert_eq!(
        err,
        IntegrationRequestError::EmptyChildIdentifier(WorkItemId::new(2))
    );
}

#[test]
fn non_terminal_child_rejected_under_decomposed_cause() {
    let err = IntegrationRunRequest::try_new(
        WorkItemId::new(1),
        "PROJ-42".into(),
        "title".into(),
        role(),
        IntegrationMergeStrategy::MergeCommits,
        workspace(),
        vec![
            child(2, "ENG-2", WorkItemStatusClass::Done),
            child(3, "ENG-3", WorkItemStatusClass::Running),
        ],
        IntegrationGates::default(),
        0,
        IntegrationRequestCause::AllChildrenTerminal,
    )
    .unwrap_err();
    assert_eq!(
        err,
        IntegrationRequestError::ChildNotTerminal {
            child_id: WorkItemId::new(3),
            status_class: WorkItemStatusClass::Running,
        }
    );
}

#[test]
fn non_terminal_child_allowed_when_gate_disabled() {
    let req = IntegrationRunRequest::try_new(
        WorkItemId::new(1),
        "PROJ-42".into(),
        "title".into(),
        role(),
        IntegrationMergeStrategy::MergeCommits,
        workspace(),
        vec![child(3, "ENG-3", WorkItemStatusClass::Running)],
        IntegrationGates {
            require_all_children_terminal: false,
            require_no_open_blockers: true,
        },
        0,
        IntegrationRequestCause::AllChildrenTerminal,
    )
    .expect("waived gate accepts non-terminal child");
    assert_eq!(req.children.len(), 1);
}

#[test]
fn open_blockers_rejected_when_gate_on() {
    let err = IntegrationRunRequest::try_new(
        WorkItemId::new(1),
        "PROJ-42".into(),
        "title".into(),
        role(),
        IntegrationMergeStrategy::MergeCommits,
        workspace(),
        vec![child(2, "ENG-2", WorkItemStatusClass::Done)],
        IntegrationGates::default(),
        3,
        IntegrationRequestCause::AllChildrenTerminal,
    )
    .unwrap_err();
    assert_eq!(
        err,
        IntegrationRequestError::OpenBlockersPresent { count: 3 }
    );
}

#[test]
fn empty_children_under_all_children_terminal_is_rejected() {
    let err = IntegrationRunRequest::try_new(
        WorkItemId::new(1),
        "PROJ-42".into(),
        "title".into(),
        role(),
        IntegrationMergeStrategy::MergeCommits,
        workspace(),
        vec![],
        IntegrationGates::default(),
        0,
        IntegrationRequestCause::AllChildrenTerminal,
    )
    .unwrap_err();
    assert_eq!(err, IntegrationRequestError::NoChildrenForDecomposed);
}

#[test]
fn direct_integration_request_allows_no_children() {
    let req = IntegrationRunRequest::try_new(
        WorkItemId::new(1),
        "PROJ-42".into(),
        "title".into(),
        role(),
        IntegrationMergeStrategy::SharedBranch,
        workspace(),
        vec![],
        IntegrationGates::default(),
        0,
        IntegrationRequestCause::DirectIntegrationRequest,
    )
    .expect("direct integration request may have no children");
    assert!(req.children.is_empty());
    assert_eq!(req.cause, IntegrationRequestCause::DirectIntegrationRequest);
}

#[test]
fn embedded_handoff_must_validate() {
    let mut bad = valid_handoff();
    bad.summary.clear();
    let mut child2 = child(2, "ENG-2", WorkItemStatusClass::Done);
    child2.latest_handoff = Some(bad);
    let err = IntegrationRunRequest::try_new(
        WorkItemId::new(1),
        "PROJ-42".into(),
        "title".into(),
        role(),
        IntegrationMergeStrategy::MergeCommits,
        workspace(),
        vec![child2],
        IntegrationGates::default(),
        0,
        IntegrationRequestCause::AllChildrenTerminal,
    )
    .unwrap_err();
    match err {
        IntegrationRequestError::InvalidChildHandoff { child_id, .. } => {
            assert_eq!(child_id, WorkItemId::new(2));
        }
        other => panic!("expected InvalidChildHandoff, got {other:?}"),
    }
}

#[test]
fn has_child_handoffs_reflects_embedded_handoff() {
    let mut child2 = child(2, "ENG-2", WorkItemStatusClass::Done);
    child2.latest_handoff = Some(valid_handoff());
    let req = IntegrationRunRequest::try_new(
        WorkItemId::new(1),
        "PROJ-42".into(),
        "title".into(),
        role(),
        IntegrationMergeStrategy::SequentialCherryPick,
        workspace(),
        vec![child2],
        IntegrationGates::default(),
        0,
        IntegrationRequestCause::AllChildrenTerminal,
    )
    .unwrap();
    assert!(req.has_child_handoffs());
}

#[test]
fn child_order_is_preserved_for_sequential_cherry_pick() {
    let req = IntegrationRunRequest::try_new(
        WorkItemId::new(1),
        "PROJ-42".into(),
        "title".into(),
        role(),
        IntegrationMergeStrategy::SequentialCherryPick,
        workspace(),
        vec![
            child(5, "ENG-5", WorkItemStatusClass::Done),
            child(2, "ENG-2", WorkItemStatusClass::Done),
            child(9, "ENG-9", WorkItemStatusClass::Done),
        ],
        IntegrationGates::default(),
        0,
        IntegrationRequestCause::AllChildrenTerminal,
    )
    .unwrap();
    let ids: Vec<i64> = req.children().iter().map(|c| c.child_id.get()).collect();
    assert_eq!(ids, vec![5, 2, 9]);
}
