use symphony_core::blocker::{BlockerOrigin, RunRef};
use symphony_core::followup::FollowupPolicy;
use symphony_core::followup_request::FollowupSpec;
use symphony_core::followup_routing::{FollowupRouteDecision, FollowupRoutingError, route_followup, route_followups};
use symphony_core::role::RoleName;
use symphony_core::work_item::WorkItemId;

fn spec(policy: FollowupPolicy) -> FollowupSpec {
    FollowupSpec {
        source_work_item: WorkItemId::new(42),
        title: "rate-limit cleanup".into(),
        reason: "tighten retries on 429".into(),
        scope: "symphony-tracker GitHub adapter only".into(),
        acceptance_criteria: vec!["retries respect Retry-After".into()],
        blocking: false,
        policy,
        origin: BlockerOrigin::Run {
            run_id: RunRef::new(7),
            role: Some(RoleName::new("backend")),
        },
        require_acceptance_criteria: true,
    }
}

#[test]
fn create_directly_routes_to_tracker_and_ignores_approval_role() {
    let s = spec(FollowupPolicy::CreateDirectly);
    let approval = RoleName::new("platform_lead");

    let with_role = route_followup(&s, Some(&approval)).unwrap();
    let without_role = route_followup(&s, None).unwrap();

    assert_eq!(with_role, FollowupRouteDecision::CreateDirectly);
    assert_eq!(without_role, FollowupRouteDecision::CreateDirectly);
    assert_eq!(with_role.kind(), "create_directly");
    assert!(!with_role.requires_approval());
}

#[test]
fn propose_for_approval_routes_to_queue_with_configured_role() {
    let s = spec(FollowupPolicy::ProposeForApproval);
    let approval = RoleName::new("platform_lead");

    let decision = route_followup(&s, Some(&approval)).unwrap();

    assert_eq!(
        decision,
        FollowupRouteDecision::RouteToApprovalQueue {
            approval_role: approval.clone(),
        }
    );
    assert_eq!(decision.kind(), "route_to_approval_queue");
    assert!(decision.requires_approval());
}

#[test]
fn propose_for_approval_without_approval_role_errors() {
    let s = spec(FollowupPolicy::ProposeForApproval);
    let err = route_followup(&s, None).unwrap_err();
    assert_eq!(err, FollowupRoutingError::MissingApprovalRole);
}

#[test]
fn batch_routes_each_spec_independently() {
    let specs = vec![
        spec(FollowupPolicy::CreateDirectly),
        spec(FollowupPolicy::ProposeForApproval),
        spec(FollowupPolicy::CreateDirectly),
    ];
    let approval = RoleName::new("platform_lead");

    let decisions = route_followups(&specs, Some(&approval)).unwrap();

    assert_eq!(decisions.len(), 3);
    assert_eq!(decisions[0], FollowupRouteDecision::CreateDirectly);
    assert_eq!(
        decisions[1],
        FollowupRouteDecision::RouteToApprovalQueue {
            approval_role: approval,
        }
    );
    assert_eq!(decisions[2], FollowupRouteDecision::CreateDirectly);
}

#[test]
fn batch_stops_at_first_missing_approval_role() {
    let specs = vec![
        spec(FollowupPolicy::CreateDirectly),
        spec(FollowupPolicy::ProposeForApproval),
    ];
    let err = route_followups(&specs, None).unwrap_err();
    assert_eq!(err, FollowupRoutingError::MissingApprovalRole);
}

#[test]
fn empty_input_slice_yields_empty_decisions_regardless_of_role() {
    let with_role = route_followups(&[], Some(&RoleName::new("x"))).unwrap();
    let without_role = route_followups(&[], None).unwrap();
    assert!(with_role.is_empty());
    assert!(without_role.is_empty());
}
