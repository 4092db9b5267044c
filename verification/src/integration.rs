//! Integration records.
//!
//! An [`IntegrationRecord`] is the durable proof that an integration owner
//! consolidated child work into a canonical branch or worktree. The kernel reads
//! it when it checks whether a parent may close.
use crate::blocker::{BlockerId, RunRef};
use crate::checks;
use crate::role::RoleName;
use crate::text;
use crate::work_item::WorkItemId;
use vstd::prelude::*;

verus! {

/// Primary key of an [`IntegrationRecord`].
#[derive(Debug, Clone, Copy, PartialEq, Eq, PartialOrd, Ord, Hash, Structural)]
pub struct IntegrationId(pub i64);

impl IntegrationId {
    /// Wrap a raw key.
    pub fn new(id: i64) -> (r: Self)
        ensures
            r == IntegrationId(id),
    {
        IntegrationId(id)
    }

    /// The raw key.
    pub fn get(self) -> (id: i64)
        ensures
            self == IntegrationId(id),
    {
        self.0
    }

    /// The key as a decimal numeral.
    pub fn to_string(&self) -> (s: String)
        ensures
            s@ == text::signed_decimal(self.0 as int),
    {
        text::signed_decimal_text(self.0)
    }
}

/// Lifecycle of an integration attempt.
#[derive(Debug, Clone, Copy, PartialEq, Eq, PartialOrd, Ord, Hash, Structural)]
pub enum IntegrationStatus {
    /// Queued for the owner, not started.
    Pending,
    /// The owner is consolidating.
    InProgress,
    /// The canonical branch carries the integrated artifact.
    Succeeded,
    /// Consolidation failed; the record shows the conflicts.
    Failed,
    /// Consolidation could not proceed because of an external blocker.
    Blocked,
    /// Abandoned before reaching an outcome.
    Cancelled,
}

impl IntegrationStatus {
    /// All variants in declaration order.
    pub const ALL: [IntegrationStatus; 6] = [
        IntegrationStatus::Pending,
        IntegrationStatus::InProgress,
        IntegrationStatus::Succeeded,
        IntegrationStatus::Failed,
        IntegrationStatus::Blocked,
        IntegrationStatus::Cancelled,
    ];

    /// Stable lowercase identifier.
    pub open spec fn text(self) -> Seq<char> {
        match self {
            IntegrationStatus::Pending => "pending"@,
            IntegrationStatus::InProgress => "in_progress"@,
            IntegrationStatus::Succeeded => "succeeded"@,
            IntegrationStatus::Failed => "failed"@,
            IntegrationStatus::Blocked => "blocked"@,
            IntegrationStatus::Cancelled => "cancelled"@,
        }
    }

    /// Stable lowercase identifier used in configuration and payloads.
    pub fn as_str(self) -> (s: &'static str)
        ensures
            s@ == self.text(),
    {
        match self {
            IntegrationStatus::Pending => "pending",
            IntegrationStatus::InProgress => "in_progress",
            IntegrationStatus::Succeeded => "succeeded",
            IntegrationStatus::Failed => "failed",
            IntegrationStatus::Blocked => "blocked",
            IntegrationStatus::Cancelled => "cancelled",
        }
    }

    /// No further state changes are expected: everything but pending and in
    /// progress.
    pub open spec fn terminal(self) -> bool {
        !(self is Pending) && !(self is InProgress)
    }

    /// True when no further state changes are expected.
    pub fn is_terminal(self) -> (b: bool)
        ensures
            b == self.terminal(),
    {
        matches!(
            self,
            IntegrationStatus::Succeeded | IntegrationStatus::Failed | IntegrationStatus::Blocked
                | IntegrationStatus::Cancelled
        )
    }

    /// True when the record satisfies the integration gate of parent close.
    pub fn is_pass(self) -> (b: bool)
        ensures
            b == (self is Succeeded),
    {
        matches!(self, IntegrationStatus::Succeeded)
    }
}

/// How the canonical artifact is produced.
#[derive(Debug, Clone, Copy, PartialEq, Eq, PartialOrd, Ord, Hash, Structural)]
pub enum IntegrationMergeStrategy {
    /// Cherry-pick each child in order.
    SequentialCherryPick,
    /// Merge each child branch.
    MergeCommits,
    /// Children already share one branch.
    SharedBranch,
}

impl IntegrationMergeStrategy {
    /// All variants in declaration order.
    pub const ALL: [IntegrationMergeStrategy; 3] = [
        IntegrationMergeStrategy::SequentialCherryPick,
        IntegrationMergeStrategy::MergeCommits,
        IntegrationMergeStrategy::SharedBranch,
    ];

    /// Stable lowercase identifier.
    pub open spec fn text(self) -> Seq<char> {
        match self {
            IntegrationMergeStrategy::SequentialCherryPick => "sequential_cherry_pick"@,
            IntegrationMergeStrategy::MergeCommits => "merge_commits"@,
            IntegrationMergeStrategy::SharedBranch => "shared_branch"@,
        }
    }

    /// Stable lowercase identifier used in configuration and payloads.
    pub fn as_str(self) -> (s: &'static str)
        ensures
            s@ == self.text(),
    {
        match self {
            IntegrationMergeStrategy::SequentialCherryPick => "sequential_cherry_pick",
            IntegrationMergeStrategy::MergeCommits => "merge_commits",
            IntegrationMergeStrategy::SharedBranch => "shared_branch",
        }
    }
}

/// Structured evidence for a consolidation failure.
#[derive(Debug, Clone, PartialEq, Eq)]
pub struct IntegrationConflict {
    /// Child whose change could not be consolidated, when there is one.
    pub child_id: Option<WorkItemId>,
    /// Ref that the owner tried to consolidate.
    pub child_branch: Option<String>,
    /// Files that conflicted, for merge conflicts.
    pub files: Vec<String>,
    /// Operator-facing description.
    pub message: String,
}

/// Invariant violations for [`IntegrationRecord::try_new`].
#[derive(Debug, Clone, Copy, PartialEq, Eq, Structural)]
pub enum IntegrationError {
    /// The status requires a summary and there is none.
    MissingSummary(IntegrationStatus),
    /// A succeeded record names no integration branch.
    MissingIntegrationBranch,
    /// The recorded branch is empty or blank.
    EmptyBranch,
    /// A failed record shows no conflict.
    MissingConflictEvidence,
    /// A conflict's message is empty or blank.
    EmptyConflictMessage,
    /// A child appears more than once.
    DuplicateChild(WorkItemId),
    /// The parent appears among its own children.
    SelfConsolidation(WorkItemId),
    /// Only a pending record may lack a run reference.
    MissingRun(IntegrationStatus),
}

/// Durable integration record.
#[derive(Debug, Clone, PartialEq, Eq)]
pub struct IntegrationRecord {
    /// Primary key.
    pub id: IntegrationId,
    /// Work item being integrated.
    pub parent_id: WorkItemId,
    /// Role that owned the integration.
    pub owner_role: RoleName,
    /// Run that produced or is producing the record.
    pub run_id: Option<RunRef>,
    /// Lifecycle status.
    pub status: IntegrationStatus,
    /// Merge strategy used or intended.
    pub merge_strategy: IntegrationMergeStrategy,
    /// Canonical integration branch.
    pub integration_branch: Option<String>,
    /// Base ref the integration branch was cut from.
    pub base_ref: Option<String>,
    /// Tip of the canonical branch, when known.
    pub head_sha: Option<String>,
    /// Path to the integration workspace, for worktree strategies.
    pub workspace_path: Option<String>,
    /// Children consolidated, in order.
    pub children_consolidated: Vec<WorkItemId>,
    /// Operator-facing summary.
    pub summary: Option<String>,
    /// Conflict evidence.
    pub conflicts: Vec<IntegrationConflict>,
    /// Blockers filed alongside the attempt.
    pub blockers_filed: Vec<BlockerId>,
}

/// What is wrong with the child at position `i`, if anything.
pub open spec fn child_error(
    parent_id: WorkItemId,
    children: Seq<WorkItemId>,
    i: int,
) -> Option<IntegrationError> {
    if children[i] == parent_id {
        Some(IntegrationError::SelfConsolidation(children[i]))
    } else if children.take(i).contains(children[i]) {
        Some(IntegrationError::DuplicateChild(children[i]))
    } else {
        None
    }
}

/// Whether some conflict lacks a message.
pub open spec fn has_unexplained_conflict(conflicts: Seq<IntegrationConflict>) -> bool {
    exists|i: int|
        0 <= i < conflicts.len() && text::is_blank((#[trigger] conflicts[i]).message@)
}

/// What is wrong with a recorded branch, if anything. A succeeded record that
/// records blanks is reported as missing its branch, not as recording an empty one.
pub open spec fn branch_error(
    status: IntegrationStatus,
    integration_branch: Option<String>,
) -> Option<IntegrationError> {
    match integration_branch {
        Some(b) => if b@.len() == 0 || (text::is_blank(b@) && !(status is Succeeded)) {
            Some(IntegrationError::EmptyBranch)
        } else {
            None
        },
        None => None,
    }
}

/// What evidence the status asks for and does not find, if anything.
pub open spec fn evidence_error(
    status: IntegrationStatus,
    integration_branch: Option<String>,
    summary: Option<String>,
    conflicts: Seq<IntegrationConflict>,
) -> Option<IntegrationError> {
    if status is Succeeded && text::is_missing_or_blank(summary) {
        Some(IntegrationError::MissingSummary(status))
    } else if status is Succeeded && text::is_missing_or_blank(integration_branch) {
        Some(IntegrationError::MissingIntegrationBranch)
    } else if status is Failed && conflicts.len() == 0 {
        Some(IntegrationError::MissingConflictEvidence)
    } else {
        None
    }
}

impl IntegrationRecord {
    /// The first rule that the record breaks, if any.
    pub open spec fn violation(self) -> Option<IntegrationError> {
        let children = self.children_consolidated@;
        let bad_child = checks::first_error(
            children.len(),
            |i: int| child_error(self.parent_id, children, i),
        );
        if has_unexplained_conflict(self.conflicts@) {
            Some(IntegrationError::EmptyConflictMessage)
        } else if bad_child is Some {
            bad_child
        } else if !(self.status is Pending) && self.run_id is None {
            Some(IntegrationError::MissingRun(self.status))
        } else if branch_error(self.status, self.integration_branch) is Some {
            branch_error(self.status, self.integration_branch)
        } else {
            evidence_error(self.status, self.integration_branch, self.summary, self.conflicts@)
        }
    }

    /// The record keeps every rule.
    pub open spec fn well_formed(self) -> bool {
        self.violation() is None
    }

    /// Construct a record, or report the first rule that it would break.
    pub fn try_new(
        id: IntegrationId,
        parent_id: WorkItemId,
        owner_role: RoleName,
        run_id: Option<RunRef>,
        status: IntegrationStatus,
        merge_strategy: IntegrationMergeStrategy,
        integration_branch: Option<String>,
        base_ref: Option<String>,
        head_sha: Option<String>,
        workspace_path: Option<String>,
        children_consolidated: Vec<WorkItemId>,
        summary: Option<String>,
        conflicts: Vec<IntegrationConflict>,
        blockers_filed: Vec<BlockerId>,
    ) -> (r: Result<Self, IntegrationError>)
        ensures
            ({
                let record = IntegrationRecord {
                    id,
                    parent_id,
                    owner_role,
                    run_id,
                    status,
                    merge_strategy,
                    integration_branch,
                    base_ref,
                    head_sha,
                    workspace_path,
                    children_consolidated,
                    summary,
                    conflicts,
                    blockers_filed,
                };
                match record.violation() {
                    Some(e) => r == Err::<IntegrationRecord, IntegrationError>(e),
                    None => r == Ok::<IntegrationRecord, IntegrationError>(record),
                }
            }),
    {
        for i in 0..conflicts.len()
            invariant
                forall|j: int|
                    0 <= j < i ==> !text::is_blank((#[trigger] conflicts@[j]).message@),
        {
            if text::blank(conflicts[i].message.as_str()) {
                assert(text::is_blank(conflicts@[i as int].message@));
                return Err(IntegrationError::EmptyConflictMessage);
            }
        }
        match check_children(parent_id, &children_consolidated) {
            Ok(()) => {},
            Err(e) => return Err(e),
        }
        if !matches!(status, IntegrationStatus::Pending) && run_id.is_none() {
            return Err(IntegrationError::MissingRun(status));
        }
        let succeeded: bool = matches!(status, IntegrationStatus::Succeeded);
        match &integration_branch {
            Some(b) => {
                if b.as_str().is_empty() || (text::blank(b.as_str()) && !succeeded) {
                    return Err(IntegrationError::EmptyBranch);
                }
            },
            None => {},
        }
        if succeeded && text::missing_or_blank(&summary) {
            return Err(IntegrationError::MissingSummary(status));
        }
        if succeeded && text::missing_or_blank(&integration_branch) {
            return Err(IntegrationError::MissingIntegrationBranch);
        }
        if matches!(status, IntegrationStatus::Failed) && conflicts.len() == 0 {
            return Err(IntegrationError::MissingConflictEvidence);
        }
        Ok(
            IntegrationRecord {
                id,
                parent_id,
                owner_role,
                run_id,
                status,
                merge_strategy,
                integration_branch,
                base_ref,
                head_sha,
                workspace_path,
                children_consolidated,
                summary,
                conflicts,
                blockers_filed,
            },
        )
    }

    /// True when the record satisfies the integration gate of parent close.
    pub fn is_pass(&self) -> (b: bool)
        ensures
            b == (self.status is Succeeded),
    {
        self.status.is_pass()
    }

    /// The children consolidated, in order.
    pub fn children(&self) -> (c: &Vec<WorkItemId>)
        ensures
            *c == self.children_consolidated,
    {
        &self.children_consolidated
    }
}

/// Whether `id` is among the first `n` of `ids`.
pub(crate) fn seen_before(ids: &Vec<WorkItemId>, n: usize, id: WorkItemId) -> (b: bool)
    requires
        n <= ids@.len(),
    ensures
        b == ids@.take(n as int).contains(id),
{
    for j in 0..n
        invariant
            n <= ids@.len(),
            forall|k: int| 0 <= k < j ==> ids@[k] != id,
    {
        if ids[j] == id {
            assert(ids@.take(n as int)[j as int] == id);
            return true;
        }
    }
    false
}

fn check_children(parent_id: WorkItemId, children: &Vec<WorkItemId>) -> (r: Result<
    (),
    IntegrationError,
>)
    ensures
        match checks::first_error(
            children@.len(),
            |i: int| child_error(parent_id, children@, i),
        ) {
            Some(e) => r == Err::<(), IntegrationError>(e),
            None => r is Ok,
        },
{
    let ghost check = |i: int| child_error(parent_id, children@, i);
    for i in 0..children.len()
        invariant
            check == (|i: int| child_error(parent_id, children@, i)),
            checks::first_error(i as nat, check) is None,
    {
        if children[i] == parent_id {
            proof {
                checks::lemma_first_error_of_prefix(i as nat + 1, children@.len(), check);
            }
            return Err(IntegrationError::SelfConsolidation(children[i]));
        }
        if seen_before(children, i, children[i]) {
            proof {
                checks::lemma_first_error_of_prefix(i as nat + 1, children@.len(), check);
            }
            return Err(IntegrationError::DuplicateChild(children[i]));
        }
    }
    Ok(())
}

/// A well-formed record lists each child once and never its own parent; it names
/// its run unless it is pending; a succeeded one carries a summary and a branch;
/// a failed one shows at least one conflict.
pub proof fn well_formed_records_carry_their_evidence(r: IntegrationRecord)
    requires
        r.well_formed(),
    ensures
        r.children_consolidated@.no_duplicates(),
        !r.children_consolidated@.contains(r.parent_id),
        r.run_id is None ==> r.status is Pending,
        r.status is Succeeded ==> !text::is_missing_or_blank(r.summary)
            && !text::is_missing_or_blank(r.integration_branch),
        r.status is Failed ==> r.conflicts@.len() > 0,
{
    let children = r.children_consolidated@;
    let check = |i: int| child_error(r.parent_id, children, i);
    checks::lemma_no_error(children.len(), check);
    assert forall|i: int, j: int| 0 <= i < j < children.len() implies children[i] != children[j] by {
        assert(check(j) is None);
        assert(children.take(j)[i] == children[i]);
    }
    assert forall|i: int| 0 <= i < children.len() implies children[i] != r.parent_id by {
        assert(check(i) is None);
    }
}

/// Different values of [`IntegrationStatus`] have different names.
pub proof fn integration_status_names_are_distinct(a: IntegrationStatus, b: IntegrationStatus)
    requires
        a.text() == b.text(),
    ensures
        a == b,
{
    reveal_strlit("pending");
    assert("pending"@.len() == 7);
    reveal_strlit("in_progress");
    assert("in_progress"@.len() == 11);
    reveal_strlit("succeeded");
    assert("succeeded"@.len() == 9);
    reveal_strlit("failed");
    assert("failed"@.len() == 6);
    reveal_strlit("blocked");
    assert("blocked"@.len() == 7);
    reveal_strlit("cancelled");
    assert("cancelled"@.len() == 9);
    assert("pending"@[0] != "blocked"@[0]);
    assert("succeeded"@[0] != "cancelled"@[0]);
}

/// Different values of [`IntegrationMergeStrategy`] have different names.
pub proof fn integration_merge_strategy_names_are_distinct(a: IntegrationMergeStrategy, b: IntegrationMergeStrategy)
    requires
        a.text() == b.text(),
    ensures
        a == b,
{
    reveal_strlit("sequential_cherry_pick");
    assert("sequential_cherry_pick"@.len() == 22);
    reveal_strlit("merge_commits");
    assert("merge_commits"@.len() == 13);
    reveal_strlit("shared_branch");
    assert("shared_branch"@.len() == 13);
    assert("merge_commits"@[0] != "shared_branch"@[0]);
}

/// Every value of [`IntegrationStatus`] is listed.
pub proof fn every_integration_status_is_listed(value: IntegrationStatus)
    ensures
        IntegrationStatus::ALL@.contains(value),
{
    let all = IntegrationStatus::ALL@;
    assert(all[0] == IntegrationStatus::Pending);
    assert(all[1] == IntegrationStatus::InProgress);
    assert(all[2] == IntegrationStatus::Succeeded);
    assert(all[3] == IntegrationStatus::Failed);
    assert(all[4] == IntegrationStatus::Blocked);
    assert(all[5] == IntegrationStatus::Cancelled);
}

/// Every value of [`IntegrationMergeStrategy`] is listed.
pub proof fn every_integration_merge_strategy_is_listed(value: IntegrationMergeStrategy)
    ensures
        IntegrationMergeStrategy::ALL@.contains(value),
{
    let all = IntegrationMergeStrategy::ALL@;
    assert(all[0] == IntegrationMergeStrategy::SequentialCherryPick);
    assert(all[1] == IntegrationMergeStrategy::MergeCommits);
    assert(all[2] == IntegrationMergeStrategy::SharedBranch);
}

/// A name stands for one value of [`IntegrationStatus`], the one it says.
pub proof fn integration_status_names_say_their_value(value: IntegrationStatus)
    ensures
        value.text() == "pending"@ <==> value is Pending,
        value.text() == "in_progress"@ <==> value is InProgress,
        value.text() == "succeeded"@ <==> value is Succeeded,
        value.text() == "failed"@ <==> value is Failed,
        value.text() == "blocked"@ <==> value is Blocked,
        value.text() == "cancelled"@ <==> value is Cancelled,
{
    if value.text() == "pending"@ {
        integration_status_names_are_distinct(value, IntegrationStatus::Pending);
    }
    if value.text() == "in_progress"@ {
        integration_status_names_are_distinct(value, IntegrationStatus::InProgress);
    }
    if value.text() == "succeeded"@ {
        integration_status_names_are_distinct(value, IntegrationStatus::Succeeded);
    }
    if value.text() == "failed"@ {
        integration_status_names_are_distinct(value, IntegrationStatus::Failed);
    }
    if value.text() == "blocked"@ {
        integration_status_names_are_distinct(value, IntegrationStatus::Blocked);
    }
    if value.text() == "cancelled"@ {
        integration_status_names_are_distinct(value, IntegrationStatus::Cancelled);
    }
}

/// A name stands for one value of [`IntegrationMergeStrategy`], the one it says.
pub proof fn integration_merge_strategy_names_say_their_value(value: IntegrationMergeStrategy)
    ensures
        value.text() == "sequential_cherry_pick"@ <==> value is SequentialCherryPick,
        value.text() == "merge_commits"@ <==> value is MergeCommits,
        value.text() == "shared_branch"@ <==> value is SharedBranch,
{
    if value.text() == "sequential_cherry_pick"@ {
        integration_merge_strategy_names_are_distinct(value, IntegrationMergeStrategy::SequentialCherryPick);
    }
    if value.text() == "merge_commits"@ {
        integration_merge_strategy_names_are_distinct(value, IntegrationMergeStrategy::MergeCommits);
    }
    if value.text() == "shared_branch"@ {
        integration_merge_strategy_names_are_distinct(value, IntegrationMergeStrategy::SharedBranch);
    }
}

/// Which records are accepted, and which error any other one gets, in the order in which
/// the rules are looked at.
pub proof fn the_first_broken_rule_of_a_record_is_reported(r: IntegrationRecord)
    ensures
        ({
            let muddled = exists|i: int|
                0 <= i < r.conflicts@.len()
                    && text::is_blank((#[trigger] r.conflicts@[i]).message@);
            let own_child = r.children_consolidated@.contains(r.parent_id);
            let repeated = !r.children_consolidated@.no_duplicates();
            let misfiled = own_child || repeated;
            let runless = r.status != IntegrationStatus::Pending && r.run_id is None;
            let blank_branch = r.integration_branch is Some
                && text::is_blank(r.integration_branch->0@);
            let empty_branch = blank_branch && (r.integration_branch->0@.len() == 0 || r.status
                != IntegrationStatus::Succeeded);
            let unsummed = r.status == IntegrationStatus::Succeeded && (r.summary is None
                || text::is_blank(r.summary->0@));
            let branchless = r.status == IntegrationStatus::Succeeded
                && (r.integration_branch is None
                || blank_branch);
            let unshown = r.status == IntegrationStatus::Failed && r.conflicts@.len() == 0;
            &&& r.violation() is None <==> !muddled && !misfiled && !runless && !empty_branch
                && !unsummed && !branchless && !unshown
            &&& r.violation() == Some(IntegrationError::EmptyConflictMessage) <==> muddled
            &&& (r.violation() matches Some(e) && (e is SelfConsolidation || e is DuplicateChild))
                <==> !muddled && misfiled
            &&& r.violation() == Some(IntegrationError::MissingRun(r.status)) <==> !muddled
                && !misfiled && runless
            &&& r.violation() == Some(IntegrationError::EmptyBranch) <==> !muddled && !misfiled
                && !runless && empty_branch
            &&& r.violation() == Some(IntegrationError::MissingSummary(r.status)) <==> !muddled
                && !misfiled && !runless && !empty_branch && unsummed
            &&& r.violation() == Some(IntegrationError::MissingIntegrationBranch) <==> !muddled
                && !misfiled && !runless && !empty_branch && !unsummed && branchless
            &&& r.violation() == Some(IntegrationError::MissingConflictEvidence) <==> !muddled
                && !misfiled && !runless && !empty_branch && !unsummed && !branchless && unshown
        }),
{
    let children = r.children_consolidated@;
    let check = |i: int| child_error(r.parent_id, children, i);
    let at = checks::first_errors_are_of_the_first_failure(children.len(), check);
    assert(checks::first_error(children.len(), check) is Some <==> children.contains(r.parent_id)
        || !children.no_duplicates()) by {
        if at < children.len() {
            if children[at] != r.parent_id {
                let j = choose|j: int| 0 <= j < at && children.take(at)[j] == children[at];
                assert(children[j] == children[at]);
            }
        } else {
            assert forall|i: int| 0 <= i < children.len() implies children[i] != r.parent_id by {
                assert(check(i) is None);
            }
            assert forall|i: int, j: int| 0 <= i < j < children.len() implies children[i]
                != children[j] by {
                assert(check(j) is None);
                assert(children.take(j)[i] == children[i]);
            }
        }
    }
}

/// A record with a misfiled child is told the first one, as its own parent where it is
/// that, and else as listed twice.
pub proof fn the_first_misfiled_child_is_reported(
    parent_id: WorkItemId,
    children: Seq<WorkItemId>,
) -> (at: int)
    ensures
        ({
            let found = checks::first_error(
                children.len(),
                |i: int| child_error(parent_id, children, i),
            );
            &&& found is Some ==> 0 <= at < children.len() && found == Some(
                if children[at] == parent_id {
                    IntegrationError::SelfConsolidation(children[at])
                } else {
                    IntegrationError::DuplicateChild(children[at])
                },
            ) && (children[at] == parent_id || exists|j: int|
                0 <= j < at && #[trigger] children[j] == children[at])
            &&& found is None ==> at == children.len()
            &&& forall|i: int| 0 <= i < at ==> #[trigger] children[i] != parent_id
            &&& forall|i: int, j: int| 0 <= j < i < at ==> children[j] != children[i]
        }),
{
    let check = |i: int| child_error(parent_id, children, i);
    let at = checks::first_errors_are_of_the_first_failure(children.len(), check);
    assert forall|i: int| 0 <= i < at implies #[trigger] children[i] != parent_id by {
        assert(check(i) is None);
    }
    assert forall|i: int, j: int| 0 <= j < i < at implies children[j] != children[i] by {
        assert(check(i) is None);
        assert(children.take(i)[j] == children[j]);
    }
    if at < children.len() && children[at] != parent_id {
        assert(check(at) is Some);
        let j = choose|j: int| 0 <= j < at && children.take(at)[j] == children[at];
        assert(children[j] == children[at]);
    }
    at
}

/// A status is terminal unless it is pending or in progress.
pub proof fn integrations_end_once(status: IntegrationStatus)
    ensures
        status.terminal() <==> status == IntegrationStatus::Succeeded || status
            == IntegrationStatus::Failed || status == IntegrationStatus::Blocked || status
            == IntegrationStatus::Cancelled,
{
}

} // verus!
