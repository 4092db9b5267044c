//! Follow-ups derived from what a run's handoff asks for.
//!
//! A handoff carries small requests; the workflow supplies scope and acceptance
//! criteria. [`derive_followups`] folds the two into [`FollowupSpec`]s, which
//! become durable follow-ups once the storage layer has assigned ids. The
//! workflow sets the policy floor: an agent may raise a direct creation to a
//! proposal, and never the other way round.
use crate::blocker::{BlockerOrigin, RunRef};
use crate::checks;
use crate::followup::{FollowupError, FollowupId, FollowupIssueRequest, FollowupPolicy};
use crate::handoff::HandoffFollowupRequest;
use crate::role::{RoleAuthority, RoleName};
use crate::text;
use crate::work_item::WorkItemId;
use vstd::prelude::*;

verus! {

/// A handoff's request joined with what the workflow supplies.
#[derive(Debug, Clone, PartialEq, Eq)]
pub struct FollowupRequestInput {
    /// Short tracker title.
    pub title: String,
    /// Operator-facing reason.
    pub reason: String,
    /// Bounded scope.
    pub scope: String,
    /// Acceptance criteria.
    pub acceptance_criteria: Vec<String>,
    /// True if the follow-up gates current acceptance.
    pub blocking: bool,
    /// True if the agent asked for the approval queue.
    pub propose_only: bool,
}

impl FollowupRequestInput {
    /// Join a handoff's request with scope and acceptance criteria.
    pub fn from_handoff(
        handoff: &HandoffFollowupRequest,
        scope: &str,
        acceptance_criteria: Vec<String>,
    ) -> (r: Self)
        ensures
            r.title == handoff.title,
            r.reason == handoff.summary,
            r.scope@ == scope@,
            r.acceptance_criteria == acceptance_criteria,
            r.blocking == handoff.blocking,
            r.propose_only == handoff.propose_only,
    {
        FollowupRequestInput {
            title: handoff.title.clone(),
            reason: handoff.summary.clone(),
            scope: scope.to_owned(),
            acceptance_criteria,
            blocking: handoff.blocking,
            propose_only: handoff.propose_only,
        }
    }
}

/// A follow-up before it has an id.
#[derive(Debug, Clone, PartialEq, Eq)]
pub struct FollowupSpec {
    /// Work item that spawned it.
    pub source_work_item: WorkItemId,
    /// Short tracker title.
    pub title: String,
    /// Operator-facing reason.
    pub reason: String,
    /// Bounded scope.
    pub scope: String,
    /// Acceptance criteria.
    pub acceptance_criteria: Vec<String>,
    /// True when it gates current acceptance.
    pub blocking: bool,
    /// Resolved creation policy.
    pub policy: FollowupPolicy,
    /// Run and role that filed it.
    pub origin: BlockerOrigin,
    /// Whether the workflow demanded acceptance criteria at derivation.
    pub require_acceptance_criteria: bool,
}

impl FollowupSpec {
    /// What finalising this would refuse, if anything.
    pub open spec fn finalise_error(self) -> Option<FollowupError> {
        crate::followup::followup_error(
            self.title@,
            self.reason@,
            self.scope@,
            self.acceptance_criteria@,
            self.require_acceptance_criteria,
        )
    }

    /// Finalise into a durable follow-up.
    pub fn into_followup(self, id: FollowupId) -> (r: Result<FollowupIssueRequest, FollowupError>)
        ensures
            match self.finalise_error() {
                Some(e) => r == Err::<FollowupIssueRequest, FollowupError>(e),
                None => r == Ok::<FollowupIssueRequest, FollowupError>(
                    FollowupIssueRequest {
                        id,
                        source_work_item: self.source_work_item,
                        title: self.title,
                        reason: self.reason,
                        scope: self.scope,
                        acceptance_criteria: self.acceptance_criteria,
                        blocking: self.blocking,
                        policy: self.policy,
                        origin: self.origin,
                        status: self.policy.starts_at(),
                        decided_by: None,
                        decision_note: None,
                        created_work_item: None,
                    },
                ),
            },
    {
        FollowupIssueRequest::try_new(
            id,
            self.source_work_item,
            self.title,
            self.reason,
            self.scope,
            self.acceptance_criteria,
            self.blocking,
            self.policy,
            self.origin,
            self.require_acceptance_criteria,
        )
    }
}

/// Why [`derive_followups`] rejected a batch.
#[derive(Debug, Clone, PartialEq, Eq)]
pub enum FollowupRequestError {
    /// `title` is empty or blank.
    EmptyTitle {
        /// Position in the input.
        index: usize,
    },
    /// `reason` is empty or blank.
    EmptyReason {
        /// Position in the input.
        index: usize,
    },
    /// `scope` is empty or blank.
    EmptyScope {
        /// Position in the input.
        index: usize,
    },
    /// An acceptance criterion is empty or blank.
    EmptyAcceptanceCriterion {
        /// Position in the input.
        index: usize,
    },
    /// The workflow demands acceptance criteria and there is none.
    AcceptanceCriteriaRequired {
        /// Position in the input.
        index: usize,
    },
    /// The role may not file follow-ups.
    RoleLacksFollowupAuthority {
        /// The role that emitted the requests.
        role: RoleName,
    },
}

/// The policy in force: a proposal unless both the workflow and the agent want
/// direct creation.
pub open spec fn resolved_policy(
    default_policy: FollowupPolicy,
    propose_only: bool,
) -> FollowupPolicy {
    if default_policy is CreateDirectly && !propose_only {
        FollowupPolicy::CreateDirectly
    } else {
        FollowupPolicy::ProposeForApproval
    }
}

/// Resolve the workflow's policy against the agent's wish.
pub fn resolve_policy(default_policy: FollowupPolicy, propose_only: bool) -> (p: FollowupPolicy)
    ensures
        p == resolved_policy(default_policy, propose_only),
{
    match (default_policy, propose_only) {
        (FollowupPolicy::ProposeForApproval, _) => FollowupPolicy::ProposeForApproval,
        (FollowupPolicy::CreateDirectly, true) => FollowupPolicy::ProposeForApproval,
        (FollowupPolicy::CreateDirectly, false) => FollowupPolicy::CreateDirectly,
    }
}

/// What is wrong with the request at position `i`, if anything.
pub open spec fn request_error(
    requests: Seq<FollowupRequestInput>,
    require_acceptance_criteria: bool,
    i: int,
) -> Option<FollowupRequestError> {
    let request = requests[i];
    let index = i as usize;
    if text::is_blank(request.title@) {
        Some(FollowupRequestError::EmptyTitle { index })
    } else if text::is_blank(request.reason@) {
        Some(FollowupRequestError::EmptyReason { index })
    } else if text::is_blank(request.scope@) {
        Some(FollowupRequestError::EmptyScope { index })
    } else if checks::has_blank(request.acceptance_criteria@) {
        Some(FollowupRequestError::EmptyAcceptanceCriterion { index })
    } else if require_acceptance_criteria && request.acceptance_criteria@.len() == 0 {
        Some(FollowupRequestError::AcceptanceCriteriaRequired { index })
    } else {
        None
    }
}

/// Why the batch is refused, if it is: the role's missing authority comes before
/// anything wrong with a request.
pub open spec fn batch_error(
    reporting_role: RoleName,
    role_authority: RoleAuthority,
    require_acceptance_criteria: bool,
    requests: Seq<FollowupRequestInput>,
) -> Option<FollowupRequestError> {
    if requests.len() > 0 && !role_authority.can_file_followups {
        Some(FollowupRequestError::RoleLacksFollowupAuthority { role: reporting_role })
    } else {
        checks::first_error(
            requests.len(),
            |i: int| request_error(requests, require_acceptance_criteria, i),
        )
    }
}

/// Whether `spec` is what `request` stands for.
pub open spec fn derives(
    source_work_item: WorkItemId,
    run_id: RunRef,
    reporting_role: RoleName,
    default_policy: FollowupPolicy,
    require_acceptance_criteria: bool,
    request: FollowupRequestInput,
    derived: FollowupSpec,
) -> bool {
    &&& derived.source_work_item == source_work_item
    &&& derived.title == request.title
    &&& derived.reason == request.reason
    &&& derived.scope == request.scope
    &&& derived.acceptance_criteria@ == request.acceptance_criteria@
    &&& derived.blocking == request.blocking
    &&& derived.policy == resolved_policy(default_policy, request.propose_only)
    &&& derived.origin == (BlockerOrigin::Run { run_id, role: Some(reporting_role) })
    &&& derived.require_acceptance_criteria == require_acceptance_criteria
}

/// Derive follow-ups from a run's requests, or say why the batch is refused.
pub fn derive_followups(
    source_work_item: WorkItemId,
    run_id: RunRef,
    reporting_role: &RoleName,
    role_authority: &RoleAuthority,
    default_policy: FollowupPolicy,
    require_acceptance_criteria: bool,
    requests: &[FollowupRequestInput],
) -> (r: Result<Vec<FollowupSpec>, FollowupRequestError>)
    ensures
        match batch_error(
            *reporting_role,
            *role_authority,
            require_acceptance_criteria,
            requests@,
        ) {
            Some(e) => r == Err::<Vec<FollowupSpec>, FollowupRequestError>(e),
            None => r is Ok && r->Ok_0@.len() == requests@.len() && forall|i: int|
                0 <= i < requests@.len() ==> derives(
                    source_work_item,
                    run_id,
                    *reporting_role,
                    default_policy,
                    require_acceptance_criteria,
                    requests@[i],
                    #[trigger] r->Ok_0@[i],
                ),
        },
{
    if requests.len() > 0 && !role_authority.can_file_followups {
        return Err(
            FollowupRequestError::RoleLacksFollowupAuthority { role: reporting_role.clone() },
        );
    }
    let ghost check = |i: int| request_error(requests@, require_acceptance_criteria, i);
    let mut specs: Vec<FollowupSpec> = Vec::new();
    for i in 0..requests.len()
        invariant
            !(requests@.len() > 0 && !role_authority.can_file_followups),
            check == (|i: int| request_error(requests@, require_acceptance_criteria, i)),
            checks::first_error(i as nat, check) is None,
            specs@.len() == i,
            forall|j: int|
                0 <= j < i ==> derives(
                    source_work_item,
                    run_id,
                    *reporting_role,
                    default_policy,
                    require_acceptance_criteria,
                    requests@[j],
                    #[trigger] specs@[j],
                ),
    {
        let request: &FollowupRequestInput = &requests[i];
        proof {
            if check(i as int) is Some {
                checks::lemma_first_error_of_prefix(i as nat + 1, requests@.len(), check);
            }
        }
        if text::blank(request.title.as_str()) {
            return Err(FollowupRequestError::EmptyTitle { index: i });
        }
        if text::blank(request.reason.as_str()) {
            return Err(FollowupRequestError::EmptyReason { index: i });
        }
        if text::blank(request.scope.as_str()) {
            return Err(FollowupRequestError::EmptyScope { index: i });
        }
        if checks::any_blank(&request.acceptance_criteria) {
            return Err(FollowupRequestError::EmptyAcceptanceCriterion { index: i });
        }
        if require_acceptance_criteria && request.acceptance_criteria.len() == 0 {
            return Err(FollowupRequestError::AcceptanceCriteriaRequired { index: i });
        }
        let criteria: Vec<String> = request.acceptance_criteria.clone();
        assert(criteria@ =~= request.acceptance_criteria@);
        specs.push(
            FollowupSpec {
                source_work_item,
                title: request.title.clone(),
                reason: request.reason.clone(),
                scope: request.scope.clone(),
                acceptance_criteria: criteria,
                blocking: request.blocking,
                policy: resolve_policy(default_policy, request.propose_only),
                origin: BlockerOrigin::Run { run_id, role: Some(reporting_role.clone()) },
                require_acceptance_criteria,
            },
        );
    }
    Ok(specs)
}

/// An agent can raise the workflow's policy to a proposal, and never lower it:
/// where the workflow asks for approval the result asks for approval, and a
/// direct creation needs the consent of both.
pub proof fn agents_never_lower_the_policy(default_policy: FollowupPolicy, propose_only: bool)
    ensures
        default_policy is ProposeForApproval ==> resolved_policy(
            default_policy,
            propose_only,
        ) is ProposeForApproval,
        propose_only ==> resolved_policy(default_policy, propose_only) is ProposeForApproval,
        resolved_policy(default_policy, propose_only) is CreateDirectly ==> default_policy
            is CreateDirectly && !propose_only,
{
}

/// Every derived follow-up can be finalised: derivation refuses whatever a
/// durable follow-up would refuse.
pub proof fn derived_followups_finalise(
    source_work_item: WorkItemId,
    run_id: RunRef,
    reporting_role: RoleName,
    role_authority: RoleAuthority,
    default_policy: FollowupPolicy,
    require_acceptance_criteria: bool,
    requests: Seq<FollowupRequestInput>,
    i: int,
    derived: FollowupSpec,
)
    requires
        batch_error(reporting_role, role_authority, require_acceptance_criteria, requests) is None,
        0 <= i < requests.len(),
        derives(
            source_work_item,
            run_id,
            reporting_role,
            default_policy,
            require_acceptance_criteria,
            requests[i],
            derived,
        ),
    ensures
        derived.finalise_error() is None,
{
    let check = |i: int| request_error(requests, require_acceptance_criteria, i);
    checks::lemma_no_error(requests.len(), check);
    assert(check(i) is None);
}

/// An empty batch is accepted whatever the role may do.
pub proof fn nothing_to_file_needs_no_authority(
    reporting_role: RoleName,
    role_authority: RoleAuthority,
    require_acceptance_criteria: bool,
)
    ensures
        batch_error(
            reporting_role,
            role_authority,
            require_acceptance_criteria,
            Seq::empty(),
        ) is None,
{
}

/// Which requests can be filed, and which error any other one gets, with its position, in
/// the order in which the texts are looked at.
pub proof fn the_first_thing_wrong_with_a_request_is_reported(
    requests: Seq<FollowupRequestInput>,
    required: bool,
    i: int,
)
    ensures
        ({
            let found = request_error(requests, required, i);
            let index = i as usize;
            let untitled = text::is_blank(requests[i].title@);
            let unexplained = text::is_blank(requests[i].reason@);
            let unbounded = text::is_blank(requests[i].scope@);
            let blank_criterion = exists|k: int|
                0 <= k < requests[i].acceptance_criteria@.len() && text::is_blank(
                    (#[trigger] requests[i].acceptance_criteria@[k])@,
                );
            let unmeasured = required && requests[i].acceptance_criteria@.len() == 0;
            &&& found is None <==> !untitled && !unexplained && !unbounded && !blank_criterion
                && !unmeasured
            &&& (found == Some(FollowupRequestError::EmptyTitle { index })) <==> untitled
            &&& (found == Some(FollowupRequestError::EmptyReason { index })) <==> !untitled
                && unexplained
            &&& (found == Some(FollowupRequestError::EmptyScope { index })) <==> !untitled
                && !unexplained && unbounded
            &&& (found == Some(FollowupRequestError::EmptyAcceptanceCriterion { index }))
                <==> !untitled && !unexplained && !unbounded && blank_criterion
            &&& (found == Some(FollowupRequestError::AcceptanceCriteriaRequired { index }))
                <==> !untitled && !unexplained && !unbounded && !blank_criterion && unmeasured
        }),
{
}

/// Why a batch is refused: for want of authority, if there is anything to file, and else
/// by its first bad request. A batch of good requests by a role with the authority is
/// accepted.
pub proof fn batches_are_refused_by_authority_or_first_bad_request(
    reporting_role: RoleName,
    role_authority: RoleAuthority,
    required: bool,
    requests: Seq<FollowupRequestInput>,
) -> (at: int)
    ensures
        ({
            let found = batch_error(reporting_role, role_authority, required, requests);
            let barred = requests.len() > 0 && !role_authority.can_file_followups;
            &&& (found == Some(
                FollowupRequestError::RoleLacksFollowupAuthority { role: reporting_role },
            )) <==> barred
            &&& !barred ==> 0 <= at <= requests.len()
            &&& !barred && at < requests.len() ==> found is Some && found == request_error(
                requests,
                required,
                at,
            )
            &&& !barred && at == requests.len() ==> found is None
            &&& !barred ==> forall|i: int|
                0 <= i < at ==> (#[trigger] request_error(requests, required, i)) is None
        }),
{
    let check = |i: int| request_error(requests, required, i);
    let at = checks::first_errors_are_of_the_first_failure(requests.len(), check);
    assert forall|i: int| 0 <= i < at implies (#[trigger] request_error(
        requests,
        required,
        i,
    )) is None by {
        assert(check(i) is None);
    }
    if at < requests.len() {
        assert(check(at) is Some);
    }
    at
}

/// A derived follow-up says what was asked for, in the name of the run and role that asked,
/// and is created directly only where both the workflow and the agent want that.
pub proof fn derived_followups_say_what_was_asked(
    source_work_item: WorkItemId,
    run_id: RunRef,
    reporting_role: RoleName,
    default_policy: FollowupPolicy,
    required: bool,
    request: FollowupRequestInput,
    derived: FollowupSpec,
)
    requires
        derives(
            source_work_item,
            run_id,
            reporting_role,
            default_policy,
            required,
            request,
            derived,
        ),
    ensures
        derived.source_work_item == source_work_item,
        derived.title@ == request.title@,
        derived.reason@ == request.reason@,
        derived.scope@ == request.scope@,
        derived.acceptance_criteria@.len() == request.acceptance_criteria@.len(),
        forall|i: int|
            0 <= i < request.acceptance_criteria@.len()
                ==> #[trigger] derived.acceptance_criteria@[i]
                == request.acceptance_criteria@[i],
        derived.blocking == request.blocking,
        derived.policy == FollowupPolicy::CreateDirectly <==> default_policy
            == FollowupPolicy::CreateDirectly && !request.propose_only,
        derived.require_acceptance_criteria == required,
        derived.origin matches BlockerOrigin::Run { run_id: run, role } && run == run_id && role
            == Some(reporting_role),
{
}

/// Direct creation is what comes out exactly where the workflow and the agent both want it.
pub proof fn direct_creation_needs_both(default_policy: FollowupPolicy, propose_only: bool)
    ensures
        resolved_policy(default_policy, propose_only) == FollowupPolicy::CreateDirectly
            <==> default_policy == FollowupPolicy::CreateDirectly && !propose_only,
{
}

} // verus!
