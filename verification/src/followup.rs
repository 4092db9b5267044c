//! Follow-ups: work discovered along the way, filed for later.
use crate::blocker::BlockerOrigin;
use crate::checks;
use crate::role::RoleName;
use crate::text;
use crate::work_item::WorkItemId;
use vstd::prelude::*;

verus! {

/// Durable primary key of a follow-up.
#[derive(Debug, Clone, Copy, PartialEq, Eq, PartialOrd, Ord, Hash, Structural)]
pub struct FollowupId(pub i64);

impl FollowupId {
    /// Wrap a raw key.
    pub fn new(id: i64) -> (r: Self)
        ensures
            r == FollowupId(id),
    {
        FollowupId(id)
    }

    /// The raw key.
    pub fn get(self) -> (id: i64)
        ensures
            self == FollowupId(id),
    {
        self.0
    }

    /// The key as a decimal numeral.
    pub fn to_string(&self) -> (s: String)
        ensures
            s@ == text::signed_decimal(self.0 as int),
    {
        text::signed_decimal_text(self.0)
    }
}

/// How a follow-up becomes an issue.
#[derive(Debug, Clone, Copy, PartialEq, Eq, PartialOrd, Ord, Hash, Structural)]
pub enum FollowupPolicy {
    /// Written to the tracker at once.
    CreateDirectly,
    /// Parked until the approval role decides.
    ProposeForApproval,
}

impl FollowupPolicy {
    /// Where the lifecycle starts under this policy.
    pub open spec fn starts_at(self) -> FollowupStatus {
        match self {
            FollowupPolicy::CreateDirectly => FollowupStatus::Approved,
            FollowupPolicy::ProposeForApproval => FollowupStatus::Proposed,
        }
    }

    /// Where the lifecycle starts under this policy.
    pub fn initial_status(self) -> (s: FollowupStatus)
        ensures
            s == self.starts_at(),
    {
        match self {
            FollowupPolicy::CreateDirectly => FollowupStatus::Approved,
            FollowupPolicy::ProposeForApproval => FollowupStatus::Proposed,
        }
    }
}

/// Lifecycle of a follow-up.
#[derive(Debug, Clone, Copy, PartialEq, Eq, PartialOrd, Ord, Hash, Structural)]
pub enum FollowupStatus {
    /// Waiting for a decision.
    Proposed,
    /// Cleared for creation.
    Approved,
    /// The tracker issue exists.
    Created,
    /// Turned down.
    Rejected,
    /// Withdrawn.
    Cancelled,
}

/// A step in the lifecycle of a follow-up.
pub enum FollowupStep {
    /// The approval role accepts it.
    Approve,
    /// The approval role turns it down.
    Reject,
    /// It is withdrawn.
    Cancel,
    /// Its issue exists.
    MarkCreated,
}

impl FollowupStatus {
    /// The status after a step; `None` where the step is not allowed.
    pub open spec fn after(self, step: FollowupStep) -> Option<FollowupStatus> {
        match (self, step) {
            (FollowupStatus::Proposed, FollowupStep::Approve) => Some(FollowupStatus::Approved),
            (FollowupStatus::Proposed, FollowupStep::Reject) => Some(FollowupStatus::Rejected),
            (FollowupStatus::Proposed, FollowupStep::Cancel) => Some(FollowupStatus::Cancelled),
            (FollowupStatus::Approved, FollowupStep::Cancel) => Some(FollowupStatus::Cancelled),
            (FollowupStatus::Approved, FollowupStep::MarkCreated) => Some(FollowupStatus::Created),
            _ => None,
        }
    }
}

/// Why a follow-up could not be built or moved on.
#[derive(Debug, Clone, Copy, PartialEq, Eq, Structural)]
pub enum FollowupError {
    /// The title was empty or blank.
    EmptyTitle,
    /// The reason was empty or blank.
    EmptyReason,
    /// The scope was empty or blank.
    EmptyScope,
    /// An acceptance criterion was empty or blank.
    EmptyAcceptanceCriterion,
    /// At least one acceptance criterion is required.
    AcceptanceCriteriaRequired,
    /// The status does not allow the step.
    InvalidTransition {
        from: FollowupStatus,
    },
}

/// A durable follow-up.
#[derive(Debug, Clone, PartialEq, Eq)]
pub struct FollowupIssueRequest {
    /// Primary key.
    pub id: FollowupId,
    /// Work item that spawned it.
    pub source_work_item: WorkItemId,
    /// Short tracker title.
    pub title: String,
    /// Operator-facing reason.
    pub reason: String,
    /// Bounded scope.
    pub scope: String,
    /// Acceptance criteria.
    pub acceptance_criteria: Vec<String>,
    /// True when it gates the acceptance of the source item.
    pub blocking: bool,
    /// How it becomes an issue.
    pub policy: FollowupPolicy,
    /// Who filed it.
    pub origin: BlockerOrigin,
    /// Lifecycle status.
    pub status: FollowupStatus,
    /// Role that approved or rejected it.
    pub decided_by: Option<RoleName>,
    /// Note left with the latest decision.
    pub decision_note: Option<String>,
    /// Work item that it became.
    pub created_work_item: Option<WorkItemId>,
}

/// What is wrong with a follow-up's texts, if anything.
pub open spec fn followup_error(
    title: Seq<char>,
    reason: Seq<char>,
    scope: Seq<char>,
    acceptance_criteria: Seq<String>,
    require_acceptance_criteria: bool,
) -> Option<FollowupError> {
    if text::is_blank(title) {
        Some(FollowupError::EmptyTitle)
    } else if text::is_blank(reason) {
        Some(FollowupError::EmptyReason)
    } else if text::is_blank(scope) {
        Some(FollowupError::EmptyScope)
    } else if checks::has_blank(acceptance_criteria) {
        Some(FollowupError::EmptyAcceptanceCriterion)
    } else if require_acceptance_criteria && acceptance_criteria.len() == 0 {
        Some(FollowupError::AcceptanceCriteriaRequired)
    } else {
        None
    }
}

impl FollowupIssueRequest {
    /// Build a follow-up at the start of its lifecycle.
    pub fn try_new(
        id: FollowupId,
        source_work_item: WorkItemId,
        title: String,
        reason: String,
        scope: String,
        acceptance_criteria: Vec<String>,
        blocking: bool,
        policy: FollowupPolicy,
        origin: BlockerOrigin,
        require_acceptance_criteria: bool,
    ) -> (r: Result<Self, FollowupError>)
        ensures
            match followup_error(
                title@,
                reason@,
                scope@,
                acceptance_criteria@,
                require_acceptance_criteria,
            ) {
                Some(e) => r == Err::<FollowupIssueRequest, FollowupError>(e),
                None => r == Ok::<FollowupIssueRequest, FollowupError>(
                    FollowupIssueRequest {
                        id,
                        source_work_item,
                        title,
                        reason,
                        scope,
                        acceptance_criteria,
                        blocking,
                        policy,
                        origin,
                        status: policy.starts_at(),
                        decided_by: None,
                        decision_note: None,
                        created_work_item: None,
                    },
                ),
            },
    {
        if text::blank(title.as_str()) {
            return Err(FollowupError::EmptyTitle);
        }
        if text::blank(reason.as_str()) {
            return Err(FollowupError::EmptyReason);
        }
        if text::blank(scope.as_str()) {
            return Err(FollowupError::EmptyScope);
        }
        if checks::any_blank(&acceptance_criteria) {
            return Err(FollowupError::EmptyAcceptanceCriterion);
        }
        if require_acceptance_criteria && acceptance_criteria.len() == 0 {
            return Err(FollowupError::AcceptanceCriteriaRequired);
        }
        Ok(
            FollowupIssueRequest {
                id,
                source_work_item,
                title,
                reason,
                scope,
                acceptance_criteria,
                blocking,
                policy,
                origin,
                status: policy.initial_status(),
                decided_by: None,
                decision_note: None,
                created_work_item: None,
            },
        )
    }

    /// Blocking, and not dismissed. A follow-up whose issue was created still
    /// gates: the issue itself is not finished yet.
    pub open spec fn gates_acceptance(self) -> bool {
        self.blocking && !(self.status is Rejected) && !(self.status is Cancelled)
    }

    /// True while the follow-up gates the acceptance of its source.
    pub fn is_acceptance_gating(&self) -> (b: bool)
        ensures
            b == self.gates_acceptance(),
    {
        self.blocking && !matches!(self.status, FollowupStatus::Rejected | FollowupStatus::Cancelled)
    }

    /// The approval role accepts a proposal.
    pub fn approve(&mut self, role: RoleName, note: &str) -> (r: Result<(), FollowupError>)
        ensures
            r is Ok <==> old(self).status.after(FollowupStep::Approve) is Some,
            final(self).status == (match old(self).status.after(FollowupStep::Approve) {
                Some(next) => next,
                None => old(self).status,
            }),
            old(self).status is Proposed ==> r is Ok && final(self).decision_note is Some
                && final(self).decision_note->0@ == note@ && *final(self) == (
            FollowupIssueRequest {
                status: FollowupStatus::Approved,
                decided_by: Some(role),
                decision_note: final(self).decision_note,
                ..*old(self)
            }),
            !(old(self).status is Proposed) ==> *final(self) == *old(self) && r == Err::<
                (),
                FollowupError,
            >(FollowupError::InvalidTransition { from: old(self).status }),
    {
        match self.status {
            FollowupStatus::Proposed => {},
            from => return Err(FollowupError::InvalidTransition { from }),
        }
        self.status = FollowupStatus::Approved;
        self.decided_by = Some(role);
        self.decision_note = Some(note.to_owned());
        Ok(())
    }

    /// The approval role turns a proposal down.
    pub fn reject(&mut self, role: RoleName, note: &str) -> (r: Result<(), FollowupError>)
        ensures
            r is Ok <==> old(self).status.after(FollowupStep::Reject) is Some,
            final(self).status == (match old(self).status.after(FollowupStep::Reject) {
                Some(next) => next,
                None => old(self).status,
            }),
            old(self).status is Proposed ==> r is Ok && final(self).decision_note is Some
                && final(self).decision_note->0@ == note@ && *final(self) == (
            FollowupIssueRequest {
                status: FollowupStatus::Rejected,
                decided_by: Some(role),
                decision_note: final(self).decision_note,
                ..*old(self)
            }),
            !(old(self).status is Proposed) ==> *final(self) == *old(self) && r == Err::<
                (),
                FollowupError,
            >(FollowupError::InvalidTransition { from: old(self).status }),
    {
        match self.status {
            FollowupStatus::Proposed => {},
            from => return Err(FollowupError::InvalidTransition { from }),
        }
        self.status = FollowupStatus::Rejected;
        self.decided_by = Some(role);
        self.decision_note = Some(note.to_owned());
        Ok(())
    }

    /// Withdraw a follow-up that has not become an issue.
    pub fn cancel(&mut self, note: Option<String>) -> (r: Result<(), FollowupError>)
        ensures
            r is Ok <==> old(self).status.after(FollowupStep::Cancel) is Some,
            final(self).status == (match old(self).status.after(FollowupStep::Cancel) {
                Some(next) => next,
                None => old(self).status,
            }),
            old(self).status is Proposed || old(self).status is Approved ==> r is Ok
                && *final(self) == (FollowupIssueRequest {
                status: FollowupStatus::Cancelled,
                decision_note: note,
                ..*old(self)
            }),
            !(old(self).status is Proposed || old(self).status is Approved) ==> *final(self)
                == *old(self) && r == Err::<(), FollowupError>(
                FollowupError::InvalidTransition { from: old(self).status },
            ),
    {
        match self.status {
            FollowupStatus::Proposed => {},
            FollowupStatus::Approved => {},
            from => return Err(FollowupError::InvalidTransition { from }),
        }
        self.status = FollowupStatus::Cancelled;
        self.decision_note = note;
        Ok(())
    }

    /// Record the issue that an approved follow-up became.
    pub fn mark_created(&mut self, work_item: WorkItemId) -> (r: Result<(), FollowupError>)
        ensures
            r is Ok <==> old(self).status.after(FollowupStep::MarkCreated) is Some,
            final(self).status == (match old(self).status.after(FollowupStep::MarkCreated) {
                Some(next) => next,
                None => old(self).status,
            }),
            old(self).status is Approved ==> r is Ok && *final(self) == (FollowupIssueRequest {
                status: FollowupStatus::Created,
                created_work_item: Some(work_item),
                ..*old(self)
            }),
            !(old(self).status is Approved) ==> *final(self) == *old(self) && r == Err::<
                (),
                FollowupError,
            >(FollowupError::InvalidTransition { from: old(self).status }),
    {
        match self.status {
            FollowupStatus::Approved => {},
            from => return Err(FollowupError::InvalidTransition { from }),
        }
        self.status = FollowupStatus::Created;
        self.created_work_item = Some(work_item);
        Ok(())
    }
}

/// Which follow-ups are accepted, and which error any other one gets, in the order in which
/// the texts are looked at.
pub proof fn followups_need_their_texts(
    title: Seq<char>,
    reason: Seq<char>,
    scope: Seq<char>,
    criteria: Seq<String>,
    required: bool,
)
    ensures
        ({
            let found = followup_error(title, reason, scope, criteria, required);
            let untitled = text::is_blank(title);
            let unexplained = text::is_blank(reason);
            let unbounded = text::is_blank(scope);
            let blank_criterion = exists|i: int|
                0 <= i < criteria.len() && text::is_blank((#[trigger] criteria[i])@);
            let unmeasured = required && criteria.len() == 0;
            &&& found is None <==> !untitled && !unexplained && !unbounded && !blank_criterion
                && !unmeasured
            &&& found == Some(FollowupError::EmptyTitle) <==> untitled
            &&& found == Some(FollowupError::EmptyReason) <==> !untitled && unexplained
            &&& found == Some(FollowupError::EmptyScope) <==> !untitled && !unexplained && unbounded
            &&& found == Some(FollowupError::EmptyAcceptanceCriterion) <==> !untitled
                && !unexplained && !unbounded && blank_criterion
            &&& found == Some(FollowupError::AcceptanceCriteriaRequired) <==> !untitled
                && !unexplained && !unbounded && !blank_criterion && unmeasured
        }),
{
}

/// A follow-up starts as approved where it is created directly, and as proposed where it
/// has to be approved.
pub proof fn policies_decide_the_start(policy: FollowupPolicy)
    ensures
        policy.starts_at() == FollowupStatus::Approved <==> policy
            == FollowupPolicy::CreateDirectly,
        policy.starts_at() == FollowupStatus::Proposed <==> policy
            == FollowupPolicy::ProposeForApproval,
{
}

/// Only a proposal is decided, only an approved follow-up becomes an issue, and only one
/// of these two is withdrawn; every step leads to the status it is named after.
pub proof fn steps_lead_where_they_say(status: FollowupStatus)
    ensures
        status.after(FollowupStep::Approve) == (if status == FollowupStatus::Proposed {
            Some(FollowupStatus::Approved)
        } else {
            None
        }),
        status.after(FollowupStep::Reject) == (if status == FollowupStatus::Proposed {
            Some(FollowupStatus::Rejected)
        } else {
            None
        }),
        status.after(FollowupStep::Cancel) == (if status == FollowupStatus::Proposed || status
            == FollowupStatus::Approved {
            Some(FollowupStatus::Cancelled)
        } else {
            None
        }),
        status.after(FollowupStep::MarkCreated) == (if status == FollowupStatus::Approved {
            Some(FollowupStatus::Created)
        } else {
            None
        }),
{
}

/// No step leads out of created, rejected or cancelled, and none leads back to proposed.
pub proof fn decided_followups_stay_decided(status: FollowupStatus, step: FollowupStep)
    ensures
        status == FollowupStatus::Created || status == FollowupStatus::Rejected || status
            == FollowupStatus::Cancelled ==> status.after(step) is None,
        status.after(step) != Some(FollowupStatus::Proposed),
        status.after(step) == Some(FollowupStatus::Created) ==> status == FollowupStatus::Approved,
        status.after(step) == Some(FollowupStatus::Approved) ==> status
            == FollowupStatus::Proposed,
{
}

} // verus!
