use symphony_core::blocker::{BlockerOrigin, RunRef};
use symphony_core::followup::{FollowupError, FollowupId, FollowupPolicy, FollowupStatus};
use symphony_core::followup_request::{FollowupRequestError, FollowupRequestInput, FollowupSpec, derive_followups, resolve_policy};
use symphony_core::handoff::HandoffFollowupRequest;
use symphony_core::role::{RoleAuthority, RoleKind, RoleName};
use symphony_core::work_item::WorkItemId;

fn role() -> RoleName {
    RoleName::new("backend")
}

fn specialist_authority() -> RoleAuthority {
    RoleAuthority::defaults_for(RoleKind::Specialist)
}

fn handoff(
    title: &str,
    summary: &str,
    blocking: bool,
    propose_only: bool,
) -> HandoffFollowupRequest {
    HandoffFollowupRequest {
        title: title.into(),
        summary: summary.into(),
        blocking,
        propose_only,
    }
}

fn input(
    title: &str,
    reason: &str,
    scope: &str,
    ac: Vec<String>,
    blocking: bool,
    propose_only: bool,
) -> FollowupRequestInput {
    FollowupRequestInput {
        title: title.into(),
        reason: reason.into(),
        scope: scope.into(),
        acceptance_criteria: ac,
        blocking,
        propose_only,
    }
}

#[test]
fn from_handoff_copies_all_fields_and_attaches_kernel_supplied_context() {
    let h = handoff("rate-limit", "tighten retries on 429", true, false);
    let input = FollowupRequestInput::from_handoff(
        &h,
        "symphony-tracker GitHub adapter only",
        vec!["retries respect Retry-After".into()],
    );
    assert_eq!(input.title, "rate-limit");
    assert_eq!(input.reason, "tighten retries on 429");
    assert_eq!(input.scope, "symphony-tracker GitHub adapter only");
    assert_eq!(
        input.acceptance_criteria,
        vec!["retries respect Retry-After"]
    );
    assert!(input.blocking);
    assert!(!input.propose_only);
}

#[test]
fn resolve_policy_workflow_floor_then_agent_opt_up() {
    assert_eq!(
        resolve_policy(FollowupPolicy::CreateDirectly, false),
        FollowupPolicy::CreateDirectly
    );
    assert_eq!(
        resolve_policy(FollowupPolicy::CreateDirectly, true),
        FollowupPolicy::ProposeForApproval
    );
    assert_eq!(
        resolve_policy(FollowupPolicy::ProposeForApproval, false),
        FollowupPolicy::ProposeForApproval
    );
    assert_eq!(
        resolve_policy(FollowupPolicy::ProposeForApproval, true),
        FollowupPolicy::ProposeForApproval
    );
}

#[test]
fn derives_one_spec_per_request_with_run_and_role_origin() {
    let inputs = vec![
        input("a", "ra", "sa", vec!["ac1".into()], false, false),
        input("b", "rb", "sb", vec!["ac1".into()], true, true),
    ];
    let specs = derive_followups(
        WorkItemId::new(50),
        RunRef::new(7),
        &role(),
        &specialist_authority(),
        FollowupPolicy::CreateDirectly,
        true,
        &inputs,
    )
    .unwrap();
    assert_eq!(specs.len(), 2);
    assert_eq!(specs[0].source_work_item, WorkItemId::new(50));
    assert_eq!(specs[0].policy, FollowupPolicy::CreateDirectly);
    assert_eq!(specs[1].policy, FollowupPolicy::ProposeForApproval);
    for spec in &specs {
        match &spec.origin {
            BlockerOrigin::Run { run_id, role } => {
                assert_eq!(*run_id, RunRef::new(7));
                assert_eq!(role.as_ref().unwrap().as_str(), "backend");
            }
            other => panic!("unexpected origin: {other:?}"),
        }
        assert!(spec.require_acceptance_criteria);
    }
}

#[test]
fn workflow_propose_for_approval_overrides_request_propose_only_false() {
    let inputs = vec![input("t", "r", "s", vec!["ac".into()], false, false)];
    let specs = derive_followups(
        WorkItemId::new(1),
        RunRef::new(2),
        &role(),
        &specialist_authority(),
        FollowupPolicy::ProposeForApproval,
        true,
        &inputs,
    )
    .unwrap();
    assert_eq!(specs[0].policy, FollowupPolicy::ProposeForApproval);
}

#[test]
fn empty_input_slice_yields_empty_specs() {
    let specs = derive_followups(
        WorkItemId::new(1),
        RunRef::new(2),
        &role(),
        &specialist_authority(),
        FollowupPolicy::CreateDirectly,
        true,
        &[],
    )
    .unwrap();
    assert!(specs.is_empty());
}

#[test]
fn empty_title_rejected_with_index() {
    let inputs = vec![
        input("ok", "r", "s", vec!["ac".into()], false, false),
        input("  ", "r", "s", vec!["ac".into()], false, false),
    ];
    let err = derive_followups(
        WorkItemId::new(1),
        RunRef::new(2),
        &role(),
        &specialist_authority(),
        FollowupPolicy::CreateDirectly,
        true,
        &inputs,
    )
    .unwrap_err();
    assert_eq!(err, FollowupRequestError::EmptyTitle { index: 1 });
}

#[test]
fn empty_reason_rejected_with_index() {
    let inputs = vec![input("t", "", "s", vec!["ac".into()], false, false)];
    let err = derive_followups(
        WorkItemId::new(1),
        RunRef::new(2),
        &role(),
        &specialist_authority(),
        FollowupPolicy::CreateDirectly,
        true,
        &inputs,
    )
    .unwrap_err();
    assert_eq!(err, FollowupRequestError::EmptyReason { index: 0 });
}

#[test]
fn empty_scope_rejected_with_index() {
    let inputs = vec![input("t", "r", "  ", vec!["ac".into()], false, false)];
    let err = derive_followups(
        WorkItemId::new(1),
        RunRef::new(2),
        &role(),
        &specialist_authority(),
        FollowupPolicy::CreateDirectly,
        true,
        &inputs,
    )
    .unwrap_err();
    assert_eq!(err, FollowupRequestError::EmptyScope { index: 0 });
}

#[test]
fn empty_acceptance_criterion_rejected_with_index() {
    let inputs = vec![input(
        "t",
        "r",
        "s",
        vec!["ok".into(), "  ".into()],
        false,
        false,
    )];
    let err = derive_followups(
        WorkItemId::new(1),
        RunRef::new(2),
        &role(),
        &specialist_authority(),
        FollowupPolicy::CreateDirectly,
        true,
        &inputs,
    )
    .unwrap_err();
    assert_eq!(
        err,
        FollowupRequestError::EmptyAcceptanceCriterion { index: 0 }
    );
}

#[test]
fn missing_acceptance_criteria_rejected_when_workflow_requires_them() {
    let inputs = vec![input("t", "r", "s", vec![], false, false)];
    let err = derive_followups(
        WorkItemId::new(1),
        RunRef::new(2),
        &role(),
        &specialist_authority(),
        FollowupPolicy::CreateDirectly,
        true,
        &inputs,
    )
    .unwrap_err();
    assert_eq!(
        err,
        FollowupRequestError::AcceptanceCriteriaRequired { index: 0 }
    );
}

#[test]
fn missing_acceptance_criteria_allowed_when_workflow_does_not_require_them() {
    let inputs = vec![input("t", "r", "s", vec![], false, false)];
    let specs = derive_followups(
        WorkItemId::new(1),
        RunRef::new(2),
        &role(),
        &specialist_authority(),
        FollowupPolicy::CreateDirectly,
        false,
        &inputs,
    )
    .unwrap();
    assert_eq!(specs.len(), 1);
    assert!(specs[0].acceptance_criteria.is_empty());
    assert!(!specs[0].require_acceptance_criteria);
}

#[test]
fn spec_into_followup_round_trips_invariants_and_initial_status() {
    let inputs = vec![
        input("a", "ra", "sa", vec!["ac1".into()], false, false),
        input("b", "rb", "sb", vec!["ac1".into()], true, true),
    ];
    let specs = derive_followups(
        WorkItemId::new(50),
        RunRef::new(7),
        &role(),
        &specialist_authority(),
        FollowupPolicy::CreateDirectly,
        true,
        &inputs,
    )
    .unwrap();
    let f0 = specs[0]
        .clone()
        .into_followup(FollowupId::new(101))
        .unwrap();
    assert_eq!(f0.id, FollowupId::new(101));
    assert_eq!(f0.policy, FollowupPolicy::CreateDirectly);
    assert_eq!(f0.status, FollowupStatus::Approved);
    assert_eq!(f0.source_work_item, WorkItemId::new(50));

    let f1 = specs[1]
        .clone()
        .into_followup(FollowupId::new(102))
        .unwrap();
    assert_eq!(f1.policy, FollowupPolicy::ProposeForApproval);
    assert_eq!(f1.status, FollowupStatus::Proposed);
    assert!(f1.blocking);
}

#[test]
fn spec_into_followup_propagates_followup_invariant_errors() {
    let spec = FollowupSpec {
        source_work_item: WorkItemId::new(1),
        title: "  ".into(),
        reason: "r".into(),
        scope: "s".into(),
        acceptance_criteria: vec!["ac".into()],
        blocking: false,
        policy: FollowupPolicy::CreateDirectly,
        origin: BlockerOrigin::Run {
            run_id: RunRef::new(2),
            role: Some(role()),
        },
        require_acceptance_criteria: true,
    };
    let err = spec.into_followup(FollowupId::new(1)).unwrap_err();
    assert_eq!(err, FollowupError::EmptyTitle);
}

#[test]
fn every_role_kind_can_derive_followups_with_default_authority() {
    let inputs = vec![input("t", "r", "s", vec!["ac".into()], false, false)];
    for kind in RoleKind::ALL {
        let authority = RoleAuthority::defaults_for(kind);
        let specs = derive_followups(
            WorkItemId::new(1),
            RunRef::new(2),
            &role(),
            &authority,
            FollowupPolicy::CreateDirectly,
            true,
            &inputs,
        )
        .unwrap_or_else(|e| panic!("{kind:?} should derive follow-ups: {e:?}"));
        assert_eq!(specs.len(), 1);
        assert_eq!(specs[0].policy, FollowupPolicy::CreateDirectly);
    }
}

#[test]
fn role_with_can_file_followups_disabled_is_rejected() {
    let authority = RoleAuthority {
        can_file_followups: false,
        ..RoleAuthority::defaults_for(RoleKind::Specialist)
    };
    let inputs = vec![input("t", "r", "s", vec!["ac".into()], false, false)];
    let err = derive_followups(
        WorkItemId::new(1),
        RunRef::new(2),
        &role(),
        &authority,
        FollowupPolicy::CreateDirectly,
        true,
        &inputs,
    )
    .unwrap_err();
    assert_eq!(
        err,
        FollowupRequestError::RoleLacksFollowupAuthority { role: role() },
    );
}

#[test]
fn empty_request_slice_is_allowed_even_without_authority() {
    let authority = RoleAuthority {
        can_file_followups: false,
        ..RoleAuthority::none()
    };
    let specs = derive_followups(
        WorkItemId::new(1),
        RunRef::new(2),
        &role(),
        &authority,
        FollowupPolicy::CreateDirectly,
        true,
        &[],
    )
    .unwrap();
    assert!(specs.is_empty());
}
