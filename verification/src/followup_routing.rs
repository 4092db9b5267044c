//! Where a derived follow-up goes next: to the tracker, or to the approval queue.
use crate::followup::FollowupPolicy;
use crate::followup_request::FollowupSpec;
use crate::role::RoleName;
use vstd::prelude::*;

verus! {

/// Where a follow-up goes next.
#[derive(Debug, PartialEq, Eq)]
pub enum FollowupRouteDecision {
    /// Write the issue to the tracker.
    CreateDirectly,
    /// Park it until the approval role decides.
    RouteToApprovalQueue {
        /// The role that decides, as configured when the decision was made.
        approval_role: RoleName,
    },
}

impl Clone for FollowupRouteDecision {
    fn clone(&self) -> (copy: Self)
        ensures
            copy == *self,
    {
        match self {
            FollowupRouteDecision::CreateDirectly => FollowupRouteDecision::CreateDirectly,
            FollowupRouteDecision::RouteToApprovalQueue {
                approval_role,
            } => FollowupRouteDecision::RouteToApprovalQueue {
                approval_role: approval_role.clone(),
            },
        }
    }
}

impl FollowupRouteDecision {
    /// Stable lowercase identifier used in diagnostics.
    pub fn kind(&self) -> (s: &'static str)
        ensures
            s@ == (match self {
                FollowupRouteDecision::CreateDirectly => "create_directly"@,
                FollowupRouteDecision::RouteToApprovalQueue { .. } => "route_to_approval_queue"@,
            }),
    {
        match self {
            FollowupRouteDecision::CreateDirectly => "create_directly",
            FollowupRouteDecision::RouteToApprovalQueue { .. } => "route_to_approval_queue",
        }
    }

    /// True when the decision parks the follow-up in the approval queue.
    pub fn requires_approval(&self) -> (b: bool)
        ensures
            b == (self is RouteToApprovalQueue),
    {
        matches!(self, FollowupRouteDecision::RouteToApprovalQueue { .. })
    }
}

/// Why no decision could be made.
#[derive(Debug, Clone, Copy, PartialEq, Eq, Structural)]
pub enum FollowupRoutingError {
    /// Approval is required and no approval role is configured.
    MissingApprovalRole,
}

/// The decision for a policy, given the configured approval role.
pub open spec fn route(policy: FollowupPolicy, approval_role: Option<RoleName>) -> Result<
    FollowupRouteDecision,
    FollowupRoutingError,
> {
    match policy {
        FollowupPolicy::CreateDirectly => Ok(FollowupRouteDecision::CreateDirectly),
        FollowupPolicy::ProposeForApproval => match approval_role {
            Some(role) => Ok(FollowupRouteDecision::RouteToApprovalQueue { approval_role: role }),
            None => Err(FollowupRoutingError::MissingApprovalRole),
        },
    }
}

/// The role behind an optional reference.
pub open spec fn referred(role: Option<&RoleName>) -> Option<RoleName> {
    match role {
        Some(r) => Some(*r),
        None => None,
    }
}

/// Decide where one follow-up goes next.
pub fn route_followup(spec: &FollowupSpec, approval_role: Option<&RoleName>) -> (r: Result<
    FollowupRouteDecision,
    FollowupRoutingError,
>)
    ensures
        r == route(spec.policy, referred(approval_role)),
{
    match spec.policy {
        FollowupPolicy::CreateDirectly => Ok(FollowupRouteDecision::CreateDirectly),
        FollowupPolicy::ProposeForApproval => match approval_role {
            Some(role) => Ok(
                FollowupRouteDecision::RouteToApprovalQueue { approval_role: role.clone() },
            ),
            None => Err(FollowupRoutingError::MissingApprovalRole),
        },
    }
}

/// Decide routing for several follow-ups, in order; stops at the first error.
pub fn route_followups(specs: &[FollowupSpec], approval_role: Option<&RoleName>) -> (r: Result<
    Vec<FollowupRouteDecision>,
    FollowupRoutingError,
>)
    ensures
        match r {
            Ok(decisions) => decisions@.len() == specs@.len() && forall|i: int|
                0 <= i < specs@.len() ==> Ok::<FollowupRouteDecision, FollowupRoutingError>(
                    #[trigger] decisions@[i],
                ) == route(specs@[i].policy, referred(approval_role)),
            Err(e) => exists|i: int|
                0 <= i < specs@.len() && route(
                    (#[trigger] specs@[i]).policy,
                    referred(approval_role),
                ) == Err::<FollowupRouteDecision, FollowupRoutingError>(e),
        },
{
    let mut decisions: Vec<FollowupRouteDecision> = Vec::new();
    for i in 0..specs.len()
        invariant
            decisions@.len() == i,
            forall|j: int|
                0 <= j < i ==> Ok::<FollowupRouteDecision, FollowupRoutingError>(
                    #[trigger] decisions@[j],
                ) == route(specs@[j].policy, referred(approval_role)),
    {
        match route_followup(&specs[i], approval_role) {
            Ok(decision) => decisions.push(decision),
            Err(e) => {
                assert(route(specs@[i as int].policy, referred(approval_role)) == Err::<
                    FollowupRouteDecision,
                    FollowupRoutingError,
                >(e));
                return Err(e);
            },
        }
    }
    Ok(decisions)
}

/// A follow-up is parked exactly when its lifecycle starts as a proposal, and
/// then under the configured role; only a missing role makes routing fail.
pub proof fn routes_follow_the_policy(policy: FollowupPolicy, approval_role: Option<RoleName>)
    ensures
        match route(policy, approval_role) {
            Ok(FollowupRouteDecision::CreateDirectly) => policy.starts_at() is Approved,
            Ok(
                FollowupRouteDecision::RouteToApprovalQueue { approval_role: role },
            ) => policy.starts_at() is Proposed && approval_role == Some(role),
            Err(_) => policy.starts_at() is Proposed && approval_role is None,
        },
{
}

/// A follow-up that is created directly needs no role; any other goes to the configured
/// role, and without one it cannot be routed.
pub proof fn only_proposals_need_an_approval_role(
    policy: FollowupPolicy,
    approval_role: Option<RoleName>,
)
    ensures
        route(policy, approval_role) is Err <==> policy == FollowupPolicy::ProposeForApproval
            && approval_role is None,
        policy == FollowupPolicy::CreateDirectly ==> route(policy, approval_role) == Ok::<
            FollowupRouteDecision,
            FollowupRoutingError,
        >(FollowupRouteDecision::CreateDirectly),
        policy == FollowupPolicy::ProposeForApproval && approval_role is Some ==> (route(
            policy,
            approval_role,
        ) matches Ok(FollowupRouteDecision::RouteToApprovalQueue { approval_role: role }) && role
            == approval_role->0),
{
}

/// The role behind a reference is the one referred to.
pub proof fn references_stand_for_their_role(role: Option<&RoleName>)
    ensures
        role is None <==> referred(role) is None,
        role matches Some(r) ==> referred(role) == Some(*r),
{
}

} // verus!
