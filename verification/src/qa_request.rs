//! Quality-assurance run requests.
//!
//! When the queue surfaces a work item that needs verification, the kernel
//! builds a [`QaRunRequest`] with everything the quality-assurance role needs to author a
//! verdict.
use crate::checks;
use crate::handoff::{Handoff, HandoffError};
use crate::integration::IntegrationId;
use crate::pull_request::{PullRequestProvider, PullRequestState};
use crate::role::RoleName;
use crate::text;
use crate::work_item::WorkItemId;
use vstd::prelude::*;

verus! {

/// Why the quality-assurance role is being invoked for a work item.
#[derive(Debug, Clone, Copy, PartialEq, Eq, Hash, Structural)]
pub enum QaRequestCause {
    /// The work item itself is in the quality-assurance class.
    DirectQaRequest,
    /// A successful integration exists and no verdict has been filed since.
    IntegrationConsolidated,
}

impl QaRequestCause {
    /// All variants in declaration order.
    pub const ALL: [QaRequestCause; 2] = [
        QaRequestCause::DirectQaRequest,
        QaRequestCause::IntegrationConsolidated,
    ];

    /// Stable lowercase identifier.
    pub open spec fn text(self) -> Seq<char> {
        match self {
            QaRequestCause::DirectQaRequest => "direct_qa_request"@,
            QaRequestCause::IntegrationConsolidated => "integration_consolidated"@,
        }
    }

    /// Stable lowercase identifier used in event payloads.
    pub fn as_str(self) -> (s: &'static str)
        ensures
            s@ == self.text(),
    {
        match self {
            QaRequestCause::DirectQaRequest => "direct_qa_request",
            QaRequestCause::IntegrationConsolidated => "integration_consolidated",
        }
    }
}

/// The workspace that the run must operate against.
#[derive(Debug, Clone, PartialEq, Eq)]
pub struct QaWorkspace {
    /// Absolute path.
    pub path: String,
    /// Strategy in force, such as `git_worktree`.
    pub strategy: String,
    /// Branch the run must be on at launch, when applicable.
    pub branch: Option<String>,
    /// Base ref the integration branch was cut from.
    pub base_ref: Option<String>,
}

/// What the run needs to know of the draft pull request.
#[derive(Debug, Clone, PartialEq, Eq)]
pub struct QaDraftPullRequest {
    /// Forge adapter.
    pub provider: PullRequestProvider,
    /// Lifecycle state when the request was built.
    pub state: PullRequestState,
    /// Forge-assigned number, when there is one.
    pub number: Option<i64>,
    /// Canonical URL, when known.
    pub url: Option<String>,
    /// Head ref proposed for merging.
    pub head_branch: String,
    /// Base ref targeted.
    pub base_branch: Option<String>,
    /// Head commit, when known.
    pub head_sha: Option<String>,
}

/// Invariant violations for [`QaRunRequest::try_new`].
#[derive(Debug, Clone, Copy, PartialEq, Eq, Structural)]
pub enum QaRequestError {
    /// The role's name is empty or blank.
    EmptyQaRole,
    /// The identifier is empty or blank.
    EmptyIdentifier,
    /// The title is empty or blank.
    EmptyTitle,
    /// The workspace path is empty.
    EmptyWorkspacePath,
    /// The workspace strategy is empty or blank.
    EmptyWorkspaceStrategy,
    /// The acceptance criterion at this position is empty or blank.
    EmptyAcceptanceCriterion(usize),
    /// The changed file at this position is empty or blank.
    EmptyChangedFile(usize),
    /// The CI status was given and is blank.
    EmptyCiStatus,
    /// The draft pull request's head branch is empty or blank.
    EmptyDraftPrHeadBranch,
    /// The cause is a consolidation and no integration is named.
    MissingIntegrationIdForConsolidatedCause,
    /// A prior handoff is malformed.
    InvalidPriorHandoff {
        /// Position of the handoff.
        index: usize,
        /// What is wrong with it.
        source: HandoffError,
    },
}

/// Quality-assurance run request.
#[derive(Debug, Clone, PartialEq, Eq)]
pub struct QaRunRequest {
    /// Work item that the run gates.
    pub work_item_id: WorkItemId,
    /// Tracker-facing identifier.
    pub identifier: String,
    /// Work item title.
    pub title: String,
    /// Role the run executes under.
    pub qa_role: RoleName,
    /// Workspace to operate against.
    pub workspace: QaWorkspace,
    /// Integration record that the run gates, when there is one.
    pub integration_id: Option<IntegrationId>,
    /// Draft pull request, when the workflow opens them.
    pub draft_pr: Option<QaDraftPullRequest>,
    /// Acceptance criteria to trace, in order.
    pub acceptance_criteria: Vec<String>,
    /// Files to review.
    pub changed_files: Vec<String>,
    /// CI rollup captured by the integration owner.
    pub ci_status: Option<String>,
    /// Handoffs of the contributing runs, in order.
    pub prior_handoffs: Vec<Handoff>,
    /// Why the queue surfaced the work item.
    pub cause: QaRequestCause,
}

/// The first blank text of `items`, reported as a criterion.
pub open spec fn criteria_error(items: Seq<String>) -> Option<QaRequestError> {
    checks::first_error(
        items.len(),
        |i: int|
            if text::is_blank(items[i]@) {
                Some(QaRequestError::EmptyAcceptanceCriterion(i as usize))
            } else {
                None
            },
    )
}

/// The first blank text of `items`, reported as a changed file.
pub open spec fn files_error(items: Seq<String>) -> Option<QaRequestError> {
    checks::first_error(
        items.len(),
        |i: int|
            if text::is_blank(items[i]@) {
                Some(QaRequestError::EmptyChangedFile(i as usize))
            } else {
                None
            },
    )
}

/// The first malformed handoff.
pub open spec fn handoffs_error(handoffs: Seq<Handoff>) -> Option<QaRequestError> {
    checks::first_error(
        handoffs.len(),
        |i: int|
            match handoffs[i].shape_error() {
                Some(source) => Some(
                    QaRequestError::InvalidPriorHandoff { index: i as usize, source },
                ),
                None => None,
            },
    )
}

impl QaRunRequest {
    /// The first rule that the request breaks, if any.
    pub open spec fn violation(self) -> Option<QaRequestError> {
        if text::is_blank(self.qa_role@) {
            Some(QaRequestError::EmptyQaRole)
        } else if text::is_blank(self.identifier@) {
            Some(QaRequestError::EmptyIdentifier)
        } else if text::is_blank(self.title@) {
            Some(QaRequestError::EmptyTitle)
        } else if self.workspace.path@.len() == 0 {
            Some(QaRequestError::EmptyWorkspacePath)
        } else if text::is_blank(self.workspace.strategy@) {
            Some(QaRequestError::EmptyWorkspaceStrategy)
        } else if criteria_error(self.acceptance_criteria@) is Some {
            criteria_error(self.acceptance_criteria@)
        } else if files_error(self.changed_files@) is Some {
            files_error(self.changed_files@)
        } else if self.ci_status is Some && text::is_blank(self.ci_status->0@) {
            Some(QaRequestError::EmptyCiStatus)
        } else if self.draft_pr is Some && text::is_blank(self.draft_pr->0.head_branch@) {
            Some(QaRequestError::EmptyDraftPrHeadBranch)
        } else if self.cause is IntegrationConsolidated && self.integration_id is None {
            Some(QaRequestError::MissingIntegrationIdForConsolidatedCause)
        } else {
            handoffs_error(self.prior_handoffs@)
        }
    }

    /// The request keeps every rule.
    pub open spec fn well_formed(self) -> bool {
        self.violation() is None
    }

    /// Construct a request, or report the first rule that it would break.
    pub fn try_new(
        work_item_id: WorkItemId,
        identifier: String,
        title: String,
        qa_role: RoleName,
        workspace: QaWorkspace,
        integration_id: Option<IntegrationId>,
        draft_pr: Option<QaDraftPullRequest>,
        acceptance_criteria: Vec<String>,
        changed_files: Vec<String>,
        ci_status: Option<String>,
        prior_handoffs: Vec<Handoff>,
        cause: QaRequestCause,
    ) -> (r: Result<Self, QaRequestError>)
        ensures
            ({
                let request = QaRunRequest {
                    work_item_id,
                    identifier,
                    title,
                    qa_role,
                    workspace,
                    integration_id,
                    draft_pr,
                    acceptance_criteria,
                    changed_files,
                    ci_status,
                    prior_handoffs,
                    cause,
                };
                match request.violation() {
                    Some(e) => r == Err::<QaRunRequest, QaRequestError>(e),
                    None => r == Ok::<QaRunRequest, QaRequestError>(request),
                }
            }),
    {
        if text::blank(qa_role.as_str()) {
            return Err(QaRequestError::EmptyQaRole);
        }
        if text::blank(identifier.as_str()) {
            return Err(QaRequestError::EmptyIdentifier);
        }
        if text::blank(title.as_str()) {
            return Err(QaRequestError::EmptyTitle);
        }
        if workspace.path.as_str().is_empty() {
            return Err(QaRequestError::EmptyWorkspacePath);
        }
        if text::blank(workspace.strategy.as_str()) {
            return Err(QaRequestError::EmptyWorkspaceStrategy);
        }
        match check_criteria(&acceptance_criteria) {
            Ok(()) => {},
            Err(e) => return Err(e),
        }
        match check_files(&changed_files) {
            Ok(()) => {},
            Err(e) => return Err(e),
        }
        match &ci_status {
            Some(status) => {
                if text::blank(status.as_str()) {
                    return Err(QaRequestError::EmptyCiStatus);
                }
            },
            None => {},
        }
        match &draft_pr {
            Some(pr) => {
                if text::blank(pr.head_branch.as_str()) {
                    return Err(QaRequestError::EmptyDraftPrHeadBranch);
                }
            },
            None => {},
        }
        if matches!(cause, QaRequestCause::IntegrationConsolidated) && integration_id.is_none() {
            return Err(QaRequestError::MissingIntegrationIdForConsolidatedCause);
        }
        match check_handoffs(&prior_handoffs) {
            Ok(()) => {},
            Err(e) => return Err(e),
        }
        Ok(
            QaRunRequest {
                work_item_id,
                identifier,
                title,
                qa_role,
                workspace,
                integration_id,
                draft_pr,
                acceptance_criteria,
                changed_files,
                ci_status,
                prior_handoffs,
                cause,
            },
        )
    }

    /// True when at least one prior handoff is attached.
    pub fn has_prior_handoffs(&self) -> (b: bool)
        ensures
            b == (self.prior_handoffs@.len() > 0),
    {
        self.prior_handoffs.len() > 0
    }

    /// True when a draft pull request is attached.
    pub fn has_draft_pr(&self) -> (b: bool)
        ensures
            b == (self.draft_pr is Some),
    {
        self.draft_pr.is_some()
    }
}

fn check_criteria(items: &Vec<String>) -> (r: Result<(), QaRequestError>)
    ensures
        match criteria_error(items@) {
            Some(e) => r == Err::<(), QaRequestError>(e),
            None => r is Ok,
        },
{
    let ghost check = |i: int|
        if text::is_blank(items@[i]@) {
            Some(QaRequestError::EmptyAcceptanceCriterion(i as usize))
        } else {
            None
        };
    assert(criteria_error(items@) == checks::first_error(items@.len(), check));
    for i in 0..items.len()
        invariant
            check == (|i: int|
                if text::is_blank(items@[i]@) {
                    Some(QaRequestError::EmptyAcceptanceCriterion(i as usize))
                } else {
                    None
                }),
            criteria_error(items@) == checks::first_error(items@.len(), check),
            checks::first_error(i as nat, check) is None,
    {
        if text::blank(items[i].as_str()) {
            proof {
                checks::lemma_first_error_of_prefix(i as nat + 1, items@.len(), check);
            }
            return Err(QaRequestError::EmptyAcceptanceCriterion(i));
        }
    }
    Ok(())
}

fn check_files(items: &Vec<String>) -> (r: Result<(), QaRequestError>)
    ensures
        match files_error(items@) {
            Some(e) => r == Err::<(), QaRequestError>(e),
            None => r is Ok,
        },
{
    let ghost check = |i: int|
        if text::is_blank(items@[i]@) {
            Some(QaRequestError::EmptyChangedFile(i as usize))
        } else {
            None
        };
    assert(files_error(items@) == checks::first_error(items@.len(), check));
    for i in 0..items.len()
        invariant
            check == (|i: int|
                if text::is_blank(items@[i]@) {
                    Some(QaRequestError::EmptyChangedFile(i as usize))
                } else {
                    None
                }),
            files_error(items@) == checks::first_error(items@.len(), check),
            checks::first_error(i as nat, check) is None,
    {
        if text::blank(items[i].as_str()) {
            proof {
                checks::lemma_first_error_of_prefix(i as nat + 1, items@.len(), check);
            }
            return Err(QaRequestError::EmptyChangedFile(i));
        }
    }
    Ok(())
}

fn check_handoffs(handoffs: &Vec<Handoff>) -> (r: Result<(), QaRequestError>)
    ensures
        match handoffs_error(handoffs@) {
            Some(e) => r == Err::<(), QaRequestError>(e),
            None => r is Ok,
        },
{
    let ghost check = |i: int|
        match handoffs@[i].shape_error() {
            Some(source) => Some(QaRequestError::InvalidPriorHandoff { index: i as usize, source }),
            None => None,
        };
    assert(handoffs_error(handoffs@) == checks::first_error(handoffs@.len(), check));
    for i in 0..handoffs.len()
        invariant
            check == (|i: int|
                match handoffs@[i].shape_error() {
                    Some(source) => Some(
                        QaRequestError::InvalidPriorHandoff { index: i as usize, source },
                    ),
                    None => None,
                }),
            handoffs_error(handoffs@) == checks::first_error(handoffs@.len(), check),
            checks::first_error(i as nat, check) is None,
    {
        match handoffs[i].validate() {
            Ok(()) => {},
            Err(source) => {
                proof {
                    checks::lemma_first_error_of_prefix(i as nat + 1, handoffs@.len(), check);
                }
                return Err(QaRequestError::InvalidPriorHandoff { index: i, source });
            },
        }
    }
    Ok(())
}

/// Every value of [`QaRequestCause`] is listed.
pub proof fn every_qa_request_cause_is_listed(value: QaRequestCause)
    ensures
        QaRequestCause::ALL@.contains(value),
{
    let all = QaRequestCause::ALL@;
    assert(all[0] == QaRequestCause::DirectQaRequest);
    assert(all[1] == QaRequestCause::IntegrationConsolidated);
}

/// Different values of [`QaRequestCause`] have different names.
pub proof fn qa_request_cause_names_are_distinct(a: QaRequestCause, b: QaRequestCause)
    requires
        a.text() == b.text(),
    ensures
        a == b,
{
    reveal_strlit("direct_qa_request");
    assert("direct_qa_request"@.len() == 17);
    reveal_strlit("integration_consolidated");
    assert("integration_consolidated"@.len() == 24);
}

/// A well-formed request names its role, item and workspace, lists no blank criterion or
/// file, carries only valid handoffs, and names the integration that it follows where
/// there is one.
pub proof fn well_formed_requests_are_complete(r: QaRunRequest)
    requires
        r.well_formed(),
    ensures
        !text::is_blank(r.qa_role@),
        !text::is_blank(r.identifier@),
        !text::is_blank(r.title@),
        !checks::has_blank(r.acceptance_criteria@),
        !checks::has_blank(r.changed_files@),
        r.cause is IntegrationConsolidated ==> r.integration_id is Some,
        forall|i: int|
            0 <= i < r.prior_handoffs@.len() ==> (#[trigger] r.prior_handoffs@[i]).shape_error()
                is None,
{
    let criterion = |i: int|
        if text::is_blank(r.acceptance_criteria@[i]@) {
            Some(QaRequestError::EmptyAcceptanceCriterion(i as usize))
        } else {
            None
        };
    let file = |i: int|
        if text::is_blank(r.changed_files@[i]@) {
            Some(QaRequestError::EmptyChangedFile(i as usize))
        } else {
            None
        };
    let handoff = |i: int|
        match r.prior_handoffs@[i].shape_error() {
            Some(source) => Some(QaRequestError::InvalidPriorHandoff { index: i as usize, source }),
            None => None,
        };
    checks::lemma_no_error(r.acceptance_criteria@.len(), criterion);
    checks::lemma_no_error(r.changed_files@.len(), file);
    checks::lemma_no_error(r.prior_handoffs@.len(), handoff);
    assert(checks::first_error(r.acceptance_criteria@.len(), criterion) == criteria_error(
        r.acceptance_criteria@,
    ));
    assert(checks::first_error(r.changed_files@.len(), file) == files_error(r.changed_files@));
    assert(checks::first_error(r.prior_handoffs@.len(), handoff) == handoffs_error(
        r.prior_handoffs@,
    ));
    assert forall|i: int| 0 <= i < r.acceptance_criteria@.len() implies !text::is_blank(
        (#[trigger] r.acceptance_criteria@[i])@,
    ) by {
        assert(criterion(i) is None);
    }
    assert forall|i: int| 0 <= i < r.changed_files@.len() implies !text::is_blank(
        (#[trigger] r.changed_files@[i])@,
    ) by {
        assert(file(i) is None);
    }
    assert forall|i: int| 0 <= i < r.prior_handoffs@.len() implies (
    #[trigger] r.prior_handoffs@[i]).shape_error() is None by {
        assert(handoff(i) is None);
    }
}

/// A name stands for one value of [`QaRequestCause`], the one it says.
pub proof fn qa_request_cause_names_say_their_value(value: QaRequestCause)
    ensures
        value.text() == "direct_qa_request"@ <==> value is DirectQaRequest,
        value.text() == "integration_consolidated"@ <==> value is IntegrationConsolidated,
{
    if value.text() == "direct_qa_request"@ {
        qa_request_cause_names_are_distinct(value, QaRequestCause::DirectQaRequest);
    }
    if value.text() == "integration_consolidated"@ {
        qa_request_cause_names_are_distinct(value, QaRequestCause::IntegrationConsolidated);
    }
}

/// Which requests are accepted, and which error any other one gets, in the order in which
/// the rules are looked at.
pub proof fn the_first_broken_rule_of_a_request_is_reported(r: QaRunRequest)
    ensures
        ({
            let roleless = text::is_blank(r.qa_role@);
            let unidentified = text::is_blank(r.identifier@);
            let untitled = text::is_blank(r.title@);
            let pathless = r.workspace.path@.len() == 0;
            let unplanned = text::is_blank(r.workspace.strategy@);
            let blank_criterion = exists|i: int|
                0 <= i < r.acceptance_criteria@.len() && text::is_blank(
                    (#[trigger] r.acceptance_criteria@[i])@,
                );
            let blank_file = exists|i: int|
                0 <= i < r.changed_files@.len()
                    && text::is_blank((#[trigger] r.changed_files@[i])@);
            let blank_status = r.ci_status is Some && text::is_blank(r.ci_status->0@);
            let headless = r.draft_pr is Some && text::is_blank(r.draft_pr->0.head_branch@);
            let unlinked = r.cause == QaRequestCause::IntegrationConsolidated
                && r.integration_id is None;
            let bad_handoff = exists|i: int|
                0 <= i < r.prior_handoffs@.len() && (
                #[trigger] r.prior_handoffs@[i]).shape_error() is Some;
            &&& r.violation() is None <==> !roleless && !unidentified && !untitled && !pathless
                && !unplanned && !blank_criterion && !blank_file && !blank_status && !headless
                && !unlinked && !bad_handoff
            &&& r.violation() == Some(QaRequestError::EmptyQaRole) <==> roleless
            &&& r.violation() == Some(QaRequestError::EmptyIdentifier) <==> !roleless
                && unidentified
            &&& r.violation() == Some(QaRequestError::EmptyTitle) <==> !roleless && !unidentified
                && untitled
            &&& r.violation() == Some(QaRequestError::EmptyWorkspacePath) <==> !roleless
                && !unidentified && !untitled && pathless
            &&& r.violation() == Some(QaRequestError::EmptyWorkspaceStrategy) <==> !roleless
                && !unidentified && !untitled && !pathless && unplanned
            &&& (r.violation() matches Some(e) && e is EmptyAcceptanceCriterion) <==> !roleless
                && !unidentified && !untitled && !pathless && !unplanned && blank_criterion
            &&& (r.violation() matches Some(e) && e is EmptyChangedFile) <==> !roleless
                && !unidentified && !untitled && !pathless && !unplanned && !blank_criterion
                && blank_file
            &&& r.violation() == Some(QaRequestError::EmptyCiStatus) <==> !roleless
                && !unidentified && !untitled && !pathless && !unplanned && !blank_criterion
                && !blank_file && blank_status
            &&& r.violation() == Some(QaRequestError::EmptyDraftPrHeadBranch) <==> !roleless
                && !unidentified && !untitled && !pathless && !unplanned && !blank_criterion
                && !blank_file && !blank_status && headless
            &&& r.violation() == Some(QaRequestError::MissingIntegrationIdForConsolidatedCause)
                <==> !roleless && !unidentified && !untitled && !pathless && !unplanned
                && !blank_criterion && !blank_file && !blank_status && !headless && unlinked
            &&& (r.violation() matches Some(e) && e is InvalidPriorHandoff) <==> !roleless
                && !unidentified && !untitled && !pathless && !unplanned && !blank_criterion
                && !blank_file && !blank_status && !headless && !unlinked && bad_handoff
        }),
{
    let a = the_first_blank_criterion_is_reported(r.acceptance_criteria@);
    let b = the_first_blank_file_is_reported(r.changed_files@);
    let c = the_first_malformed_handoff_is_reported(r.prior_handoffs@);
}

/// A list with a blank criterion is told the position of the first one.
pub proof fn the_first_blank_criterion_is_reported(items: Seq<String>) -> (at: int)
    ensures
        criteria_error(items) == (if at < items.len() {
            Some(QaRequestError::EmptyAcceptanceCriterion(at as usize))
        } else {
            None
        }),
        0 <= at <= items.len(),
        at < items.len() ==> text::is_blank(items[at]@),
        forall|i: int| 0 <= i < at ==> !text::is_blank((#[trigger] items[i])@),
{
    let check = |i: int|
        if text::is_blank(items[i]@) {
            Some(QaRequestError::EmptyAcceptanceCriterion(i as usize))
        } else {
            None
        };
    assert(criteria_error(items) == checks::first_error(items.len(), check));
    let at = checks::first_errors_are_of_the_first_failure(items.len(), check);
    assert forall|i: int| 0 <= i < at implies !text::is_blank((#[trigger] items[i])@) by {
        assert(check(i) is None);
    }
    if at < items.len() {
        assert(check(at) is Some);
    }
    at
}

/// A list with a blank file is told the position of the first one.
pub proof fn the_first_blank_file_is_reported(items: Seq<String>) -> (at: int)
    ensures
        files_error(items) == (if at < items.len() {
            Some(QaRequestError::EmptyChangedFile(at as usize))
        } else {
            None
        }),
        0 <= at <= items.len(),
        at < items.len() ==> text::is_blank(items[at]@),
        forall|i: int| 0 <= i < at ==> !text::is_blank((#[trigger] items[i])@),
{
    let check = |i: int|
        if text::is_blank(items[i]@) {
            Some(QaRequestError::EmptyChangedFile(i as usize))
        } else {
            None
        };
    assert(files_error(items) == checks::first_error(items.len(), check));
    let at = checks::first_errors_are_of_the_first_failure(items.len(), check);
    assert forall|i: int| 0 <= i < at implies !text::is_blank((#[trigger] items[i])@) by {
        assert(check(i) is None);
    }
    if at < items.len() {
        assert(check(at) is Some);
    }
    at
}

/// A list with a malformed handoff is told the position of the first one, and what is wrong
/// with it.
pub proof fn the_first_malformed_handoff_is_reported(handoffs: Seq<Handoff>) -> (at: int)
    ensures
        handoffs_error(handoffs) == (if at < handoffs.len() {
            Some(
                QaRequestError::InvalidPriorHandoff {
                    index: at as usize,
                    source: handoffs[at].shape_error()->0,
                },
            )
        } else {
            None
        }),
        0 <= at <= handoffs.len(),
        at < handoffs.len() ==> handoffs[at].shape_error() is Some,
        forall|i: int| 0 <= i < at ==> (#[trigger] handoffs[i]).shape_error() is None,
{
    let check = |i: int|
        match handoffs[i].shape_error() {
            Some(source) => Some(QaRequestError::InvalidPriorHandoff { index: i as usize, source }),
            None => None,
        };
    assert(handoffs_error(handoffs) == checks::first_error(handoffs.len(), check));
    let at = checks::first_errors_are_of_the_first_failure(handoffs.len(), check);
    assert forall|i: int| 0 <= i < at implies (#[trigger] handoffs[i]).shape_error() is None by {
        assert(check(i) is None);
    }
    if at < handoffs.len() {
        assert(check(at) is Some);
    }
    at
}

} // verus!
