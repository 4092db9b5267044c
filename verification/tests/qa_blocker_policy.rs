use symphony_core::blocker::BlockerId;
use symphony_core::qa_blocker_policy::{QaBlockerPolicy, QaBlockerSnapshot, QaParentCloseError, QaWaiverError, check_qa_blockers_at_parent_close, validate_qa_waiver};
use symphony_core::role::RoleName;
use symphony_core::work_item::WorkItemId;

fn snap(id: i64, blocked: i64, ident: &str, role: &str) -> QaBlockerSnapshot {
    QaBlockerSnapshot {
        blocker_id: BlockerId::new(id),
        blocked_work_item: WorkItemId::new(blocked),
        blocked_identifier: ident.into(),
        origin_role: RoleName::new(role),
        reason: None,
    }
}

#[test]
fn policy_default_is_blocks_parent() {
    assert_eq!(QaBlockerPolicy::default(), QaBlockerPolicy::BlocksParent);
    assert!(QaBlockerPolicy::BlocksParent.gates_parent_close());
    assert!(!QaBlockerPolicy::Advisory.gates_parent_close());
}

#[test]
fn blocks_parent_with_no_open_qa_blockers_passes() {
    check_qa_blockers_at_parent_close(QaBlockerPolicy::BlocksParent, WorkItemId::new(1), &[])
        .unwrap();
}

#[test]
fn blocks_parent_with_open_qa_blocker_rejects_close() {
    let open = [snap(7, 3, "ENG-3", "qa")];
    let err = check_qa_blockers_at_parent_close(
        QaBlockerPolicy::BlocksParent,
        WorkItemId::new(1),
        &open,
    )
    .unwrap_err();
    match err {
        QaParentCloseError::QaBlockersOpen { parent, open } => {
            assert_eq!(parent, WorkItemId::new(1));
            assert_eq!(open.len(), 1);
            assert_eq!(open[0].blocked_identifier, "ENG-3");
        }
    }
}

#[test]
fn advisory_never_gates_close_even_with_open_qa_blockers() {
    let open = [
        snap(1, 10, "ENG-10", "qa"),
        snap(2, 11, "ENG-11", "quality"),
    ];
    check_qa_blockers_at_parent_close(QaBlockerPolicy::Advisory, WorkItemId::new(1), &open)
        .unwrap();
}

#[test]
fn open_qa_blockers_reported_in_input_order() {
    let open = [
        snap(1, 10, "ENG-10", "qa"),
        snap(2, 11, "ENG-11", "qa"),
        snap(3, 12, "ENG-12", "qa"),
    ];
    let err = check_qa_blockers_at_parent_close(
        QaBlockerPolicy::BlocksParent,
        WorkItemId::new(99),
        &open,
    )
    .unwrap_err();
    let QaParentCloseError::QaBlockersOpen { open, .. } = err;
    let idents: Vec<_> = open.iter().map(|b| b.blocked_identifier.as_str()).collect();
    assert_eq!(idents, vec!["ENG-10", "ENG-11", "ENG-12"]);
}

#[test]
fn error_message_names_count_and_policy() {
    let open = [snap(1, 2, "ENG-2", "qa"), snap(2, 3, "ENG-3", "qa")];
    let err = check_qa_blockers_at_parent_close(
        QaBlockerPolicy::BlocksParent,
        WorkItemId::new(1),
        &open,
    )
    .unwrap_err();
    let msg = err.to_string();
    assert!(msg.contains("2"), "msg should include count: {msg}");
    assert!(
        msg.contains("blocks_parent"),
        "msg should name policy: {msg}"
    );
}

#[test]
fn validate_qa_waiver_accepts_configured_role_with_reason() {
    let configured = vec![RoleName::new("platform_lead"), RoleName::new("release")];
    validate_qa_waiver(
        &configured,
        &RoleName::new("platform_lead"),
        "accepted risk",
    )
    .unwrap();
}

#[test]
fn validate_qa_waiver_rejects_unauthorised_role() {
    let configured = vec![RoleName::new("platform_lead")];
    let err = validate_qa_waiver(&configured, &RoleName::new("ghost"), "ok").unwrap_err();
    assert_eq!(
        err,
        QaWaiverError::UnauthorisedRole {
            role: RoleName::new("ghost"),
        }
    );
}

#[test]
fn validate_qa_waiver_rejects_empty_reason() {
    let configured = vec![RoleName::new("platform_lead")];
    for reason in ["", "   ", "\n\t"] {
        let err = validate_qa_waiver(&configured, &RoleName::new("platform_lead"), reason)
            .unwrap_err();
        assert_eq!(err, QaWaiverError::EmptyReason);
    }
}

#[test]
fn validate_qa_waiver_rejects_when_no_roles_configured() {
    let err =
        validate_qa_waiver(&[], &RoleName::new("platform_lead"), "accepted risk").unwrap_err();
    assert_eq!(err, QaWaiverError::NoWaiverRolesConfigured);
}

#[test]
fn validate_qa_waiver_no_roles_takes_priority_over_other_checks() {
    let err = validate_qa_waiver(&[], &RoleName::new("anyone"), "").unwrap_err();
    assert_eq!(err, QaWaiverError::NoWaiverRolesConfigured);
}
