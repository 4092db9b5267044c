//! Run handoffs: the structured output that an agent emits at the end of a run.
//!
//! The kernel reads a handoff to decide the next gate, to file blockers and to
//! create or propose follow-ups. `ready_for` is advisory; this module checks the
//! shape only. `ready_for: blocked` means nothing without evidence, so
//! [`Handoff::validate`] rejects it unless a blocker request or a block reason
//! comes with it.
use crate::blocker::BlockerSeverity;
use crate::checks;
use crate::role::RoleName;
use crate::text;
use crate::work_item::WorkItemId;
use vstd::prelude::*;

verus! {

/// Advisory next-gate hint from the agent.
#[derive(Debug, Clone, Copy, PartialEq, Eq, PartialOrd, Ord, Hash, Structural)]
pub enum ReadyFor {
    /// Enqueue for integration-owner consolidation.
    Integration,
    /// Enqueue for quality assurance.
    Qa,
    /// Pause until a human decides.
    HumanReview,
    /// Halt; needs evidence.
    Blocked,
    /// Mark complete.
    Done,
}

impl ReadyFor {
    /// All variants in declaration order.
    pub const ALL: [ReadyFor; 5] = [
        ReadyFor::Integration,
        ReadyFor::Qa,
        ReadyFor::HumanReview,
        ReadyFor::Blocked,
        ReadyFor::Done,
    ];

    /// Stable lowercase identifier.
    pub open spec fn text(self) -> Seq<char> {
        match self {
            ReadyFor::Integration => "integration"@,
            ReadyFor::Qa => "qa"@,
            ReadyFor::HumanReview => "human_review"@,
            ReadyFor::Blocked => "blocked"@,
            ReadyFor::Done => "done"@,
        }
    }

    /// Stable lowercase identifier used in payloads.
    pub fn as_str(self) -> (s: &'static str)
        ensures
            s@ == self.text(),
    {
        match self {
            ReadyFor::Integration => "integration",
            ReadyFor::Qa => "qa",
            ReadyFor::HumanReview => "human_review",
            ReadyFor::Blocked => "blocked",
            ReadyFor::Done => "done",
        }
    }

    /// True when the variant means nothing without a blocker or a block reason.
    pub fn requires_block_evidence(self) -> (b: bool)
        ensures
            b == (self is Blocked),
    {
        matches!(self, ReadyFor::Blocked)
    }
}

/// Branch or workspace that a handoff's output lives in.
#[derive(Debug, PartialEq, Eq, Default)]
pub struct BranchOrWorkspace {
    /// Branch the run produced output on.
    pub branch: Option<String>,
    /// Path to the workspace claim.
    pub workspace_path: Option<String>,
    /// Base ref the branch was created from.
    pub base_ref: Option<String>,
}

impl Clone for BranchOrWorkspace {
    fn clone(&self) -> (copy: Self)
        ensures
            copy == *self,
    {
        BranchOrWorkspace {
            branch: self.branch.clone(),
            workspace_path: self.workspace_path.clone(),
            base_ref: self.base_ref.clone(),
        }
    }
}

impl BranchOrWorkspace {
    /// Neither a branch nor a workspace path is recorded.
    pub open spec fn records_nothing(self) -> bool {
        text::text_or_empty(self.branch).len() == 0 && text::text_or_empty(
            self.workspace_path,
        ).len() == 0
    }

    /// True if neither a branch nor a workspace path is recorded.
    pub fn is_empty(&self) -> (b: bool)
        ensures
            b == self.records_nothing(),
    {
        let no_branch: bool = match &self.branch {
            Some(s) => s.as_str().is_empty(),
            None => true,
        };
        let no_path: bool = match &self.workspace_path {
            Some(s) => s.as_str().is_empty(),
            None => true,
        };
        no_branch && no_path
    }
}

/// Agent-emitted blocker request carried in a handoff.
#[derive(Debug, PartialEq, Eq)]
pub struct HandoffBlockerRequest {
    /// Work item that causes the block, when known.
    pub blocking_id: Option<WorkItemId>,
    /// Operator-facing reason.
    pub reason: String,
    /// Severity hint.
    pub severity: BlockerSeverity,
}

impl Clone for HandoffBlockerRequest {
    fn clone(&self) -> (copy: Self)
        ensures
            copy == *self,
    {
        HandoffBlockerRequest {
            blocking_id: self.blocking_id,
            reason: self.reason.clone(),
            severity: self.severity,
        }
    }
}

/// Agent-emitted follow-up request carried in a handoff.
#[derive(Debug, PartialEq, Eq)]
pub struct HandoffFollowupRequest {
    /// Short title for the follow-up.
    pub title: String,
    /// Free-form summary of the discovered work.
    pub summary: String,
    /// True if this follow-up gates the current item's acceptance.
    pub blocking: bool,
    /// True if the agent proposes rather than asks for direct creation.
    pub propose_only: bool,
}

impl Clone for HandoffFollowupRequest {
    fn clone(&self) -> (copy: Self)
        ensures
            copy == *self,
    {
        HandoffFollowupRequest {
            title: self.title.clone(),
            summary: self.summary.clone(),
            blocking: self.blocking,
            propose_only: self.propose_only,
        }
    }
}

/// Validation errors raised by [`Handoff::validate`].
#[derive(Debug, Clone, Copy, PartialEq, Eq, Structural)]
pub enum HandoffError {
    /// `summary` is empty or blank.
    EmptySummary,
    /// `ready_for: blocked` without a blocker request or a block reason.
    BlockedWithoutEvidence,
    /// A block reason was given but `ready_for` is not `blocked`.
    NonBlockedBlockReason(ReadyFor),
    /// A `changed_files` entry is empty or blank.
    EmptyChangedFile,
    /// A blocker request's reason is empty or blank.
    EmptyBlockerReason,
    /// A follow-up request's title is empty or blank.
    EmptyFollowupTitle,
    /// Neither a branch nor a workspace path is recorded.
    EmptyBranchOrWorkspace,
}

/// Structured run output emitted at the end of a run.
#[derive(Debug, Clone, PartialEq, Eq)]
pub struct Handoff {
    /// Operator-facing summary.
    pub summary: String,
    /// Files the run modified, relative to the workspace root.
    pub changed_files: Vec<String>,
    /// Test commands the run executed or attempted.
    pub tests_run: Vec<String>,
    /// Verification evidence.
    pub verification_evidence: Vec<String>,
    /// Known risks the agent surfaced.
    pub known_risks: Vec<String>,
    /// Blocker requests the kernel should file.
    pub blockers_created: Vec<HandoffBlockerRequest>,
    /// Follow-up requests the kernel should create or queue for approval.
    pub followups_created_or_proposed: Vec<HandoffFollowupRequest>,
    /// Where the run's output lives.
    pub branch_or_workspace: BranchOrWorkspace,
    /// Advisory next-gate hint.
    pub ready_for: ReadyFor,
    /// Structured block reason for blocked runs that filed no blocker.
    pub block_reason: Option<String>,
    /// Reporting role, when the handoff names it.
    pub reporting_role: Option<RoleName>,
}

impl Handoff {
    /// A block reason with something in it.
    pub open spec fn has_block_reason(self) -> bool {
        !text::is_missing_or_blank(self.block_reason)
    }

    /// Some blocker request lacks a reason.
    pub open spec fn has_unexplained_blocker(self) -> bool {
        exists|i: int|
            0 <= i < self.blockers_created@.len() && text::is_blank(
                (#[trigger] self.blockers_created@[i]).reason@,
            )
    }

    /// Some follow-up request lacks a title.
    pub open spec fn has_untitled_followup(self) -> bool {
        exists|i: int|
            0 <= i < self.followups_created_or_proposed@.len() && text::is_blank(
                (#[trigger] self.followups_created_or_proposed@[i]).title@,
            )
    }

    /// The first thing wrong with the handoff, if anything.
    pub open spec fn shape_error(self) -> Option<HandoffError> {
        if text::is_blank(self.summary@) {
            Some(HandoffError::EmptySummary)
        } else if self.branch_or_workspace.records_nothing() {
            Some(HandoffError::EmptyBranchOrWorkspace)
        } else if checks::has_blank(self.changed_files@) {
            Some(HandoffError::EmptyChangedFile)
        } else if self.has_unexplained_blocker() {
            Some(HandoffError::EmptyBlockerReason)
        } else if self.has_untitled_followup() {
            Some(HandoffError::EmptyFollowupTitle)
        } else if self.ready_for is Blocked {
            if self.blockers_created@.len() == 0 && !self.has_block_reason() {
                Some(HandoffError::BlockedWithoutEvidence)
            } else {
                None
            }
        } else if self.has_block_reason() {
            Some(HandoffError::NonBlockedBlockReason(self.ready_for))
        } else {
            None
        }
    }

    /// Validate the handoff's shape; run before persisting or routing.
    pub fn validate(&self) -> (r: Result<(), HandoffError>)
        ensures
            match self.shape_error() {
                Some(e) => r == Err::<(), HandoffError>(e),
                None => r is Ok,
            },
    {
        if text::blank(self.summary.as_str()) {
            return Err(HandoffError::EmptySummary);
        }
        if self.branch_or_workspace.is_empty() {
            return Err(HandoffError::EmptyBranchOrWorkspace);
        }
        if checks::any_blank(&self.changed_files) {
            return Err(HandoffError::EmptyChangedFile);
        }
        for i in 0..self.blockers_created.len()
            invariant
                !text::is_blank(self.summary@),
                !self.branch_or_workspace.records_nothing(),
                !checks::has_blank(self.changed_files@),
                forall|j: int|
                    0 <= j < i ==> !text::is_blank((#[trigger] self.blockers_created@[j]).reason@),
        {
            if text::blank(self.blockers_created[i].reason.as_str()) {
                assert(text::is_blank(self.blockers_created@[i as int].reason@));
                return Err(HandoffError::EmptyBlockerReason);
            }
        }
        for i in 0..self.followups_created_or_proposed.len()
            invariant
                !text::is_blank(self.summary@),
                !self.branch_or_workspace.records_nothing(),
                !checks::has_blank(self.changed_files@),
                !self.has_unexplained_blocker(),
                forall|j: int|
                    0 <= j < i ==> !text::is_blank(
                        (#[trigger] self.followups_created_or_proposed@[j]).title@,
                    ),
        {
            if text::blank(self.followups_created_or_proposed[i].title.as_str()) {
                assert(text::is_blank(self.followups_created_or_proposed@[i as int].title@));
                return Err(HandoffError::EmptyFollowupTitle);
            }
        }
        let has_block_reason: bool = !text::missing_or_blank(&self.block_reason);
        match self.ready_for {
            ReadyFor::Blocked => {
                if self.blockers_created.len() == 0 && !has_block_reason {
                    return Err(HandoffError::BlockedWithoutEvidence);
                }
            },
            other => {
                if has_block_reason {
                    return Err(HandoffError::NonBlockedBlockReason(other));
                }
            },
        }
        Ok(())
    }

    /// True when `ready_for` hands over to a gate: integration, quality
    /// assurance or human review.
    pub fn defers_to_gate(&self) -> (b: bool)
        ensures
            b == (self.ready_for is Integration || self.ready_for is Qa
                || self.ready_for is HumanReview),
    {
        matches!(self.ready_for, ReadyFor::Integration | ReadyFor::Qa | ReadyFor::HumanReview)
    }
}

/// A valid handoff that says it is blocked shows why; a valid handoff that says
/// anything else carries no block reason.
pub proof fn valid_handoffs_explain_blocks(h: Handoff)
    requires
        h.shape_error() is None,
    ensures
        h.ready_for is Blocked ==> h.blockers_created@.len() > 0 || h.has_block_reason(),
        h.has_block_reason() ==> h.ready_for is Blocked,
{
}

/// Different values of [`ReadyFor`] have different names.
pub proof fn ready_for_names_are_distinct(a: ReadyFor, b: ReadyFor)
    requires
        a.text() == b.text(),
    ensures
        a == b,
{
    reveal_strlit("integration");
    assert("integration"@.len() == 11);
    reveal_strlit("qa");
    assert("qa"@.len() == 2);
    reveal_strlit("human_review");
    assert("human_review"@.len() == 12);
    reveal_strlit("blocked");
    assert("blocked"@.len() == 7);
    reveal_strlit("done");
    assert("done"@.len() == 4);
}

/// Every value of [`ReadyFor`] is listed.
pub proof fn every_ready_for_is_listed(value: ReadyFor)
    ensures
        ReadyFor::ALL@.contains(value),
{
    let all = ReadyFor::ALL@;
    assert(all[0] == ReadyFor::Integration);
    assert(all[1] == ReadyFor::Qa);
    assert(all[2] == ReadyFor::HumanReview);
    assert(all[3] == ReadyFor::Blocked);
    assert(all[4] == ReadyFor::Done);
}

/// A name stands for one value of [`ReadyFor`], the one it says.
pub proof fn ready_for_names_say_their_value(value: ReadyFor)
    ensures
        value.text() == "integration"@ <==> value is Integration,
        value.text() == "qa"@ <==> value is Qa,
        value.text() == "human_review"@ <==> value is HumanReview,
        value.text() == "blocked"@ <==> value is Blocked,
        value.text() == "done"@ <==> value is Done,
{
    if value.text() == "integration"@ {
        ready_for_names_are_distinct(value, ReadyFor::Integration);
    }
    if value.text() == "qa"@ {
        ready_for_names_are_distinct(value, ReadyFor::Qa);
    }
    if value.text() == "human_review"@ {
        ready_for_names_are_distinct(value, ReadyFor::HumanReview);
    }
    if value.text() == "blocked"@ {
        ready_for_names_are_distinct(value, ReadyFor::Blocked);
    }
    if value.text() == "done"@ {
        ready_for_names_are_distinct(value, ReadyFor::Done);
    }
}

/// Which handoffs are valid, and which error any other one gets, in the order in which they
/// are looked for.
pub proof fn the_first_thing_wrong_with_a_handoff_is_reported(h: Handoff)
    ensures
        ({
            let unsummed = text::is_blank(h.summary@);
            let homeless = (h.branch_or_workspace.branch is None
                || h.branch_or_workspace.branch->0@.len()
                == 0) && (h.branch_or_workspace.workspace_path is None
                || h.branch_or_workspace.workspace_path->0@.len() == 0);
            let unnamed_file = exists|i: int|
                0 <= i < h.changed_files@.len()
                    && text::is_blank((#[trigger] h.changed_files@[i])@);
            let unexplained_blocker = exists|i: int|
                0 <= i < h.blockers_created@.len() && text::is_blank(
                    (#[trigger] h.blockers_created@[i]).reason@,
                );
            let untitled_followup = exists|i: int|
                0 <= i < h.followups_created_or_proposed@.len() && text::is_blank(
                    (#[trigger] h.followups_created_or_proposed@[i]).title@,
                );
            let explained = h.block_reason is Some && !text::is_blank(h.block_reason->0@);
            let baseless = h.ready_for == ReadyFor::Blocked && h.blockers_created@.len() == 0
                && !explained;
            let misplaced = h.ready_for != ReadyFor::Blocked && explained;
            &&& h.shape_error() is None <==> !unsummed && !homeless && !unnamed_file
                && !unexplained_blocker && !untitled_followup && !baseless && !misplaced
            &&& h.shape_error() == Some(HandoffError::EmptySummary) <==> unsummed
            &&& h.shape_error() == Some(HandoffError::EmptyBranchOrWorkspace) <==> !unsummed
                && homeless
            &&& h.shape_error() == Some(HandoffError::EmptyChangedFile) <==> !unsummed && !homeless
                && unnamed_file
            &&& h.shape_error() == Some(HandoffError::EmptyBlockerReason) <==> !unsummed
                && !homeless && !unnamed_file && unexplained_blocker
            &&& h.shape_error() == Some(HandoffError::EmptyFollowupTitle) <==> !unsummed
                && !homeless && !unnamed_file && !unexplained_blocker && untitled_followup
            &&& h.shape_error() == Some(HandoffError::BlockedWithoutEvidence) <==> !unsummed
                && !homeless && !unnamed_file && !unexplained_blocker && !untitled_followup
                && baseless
            &&& h.shape_error() == Some(HandoffError::NonBlockedBlockReason(h.ready_for))
                <==> !unsummed && !homeless && !unnamed_file && !unexplained_blocker
                && !untitled_followup && !baseless && misplaced
        }),
{
}

} // verus!
