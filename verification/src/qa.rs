//! Quality-assurance verdicts.
use crate::blocker::{BlockerId, RunRef};
use crate::role::RoleName;
use crate::text;
use crate::work_item::WorkItemId;
use vstd::prelude::*;

verus! {

/// Primary key of a [`QaOutcome`].
#[derive(Debug, Clone, Copy, PartialEq, Eq, PartialOrd, Ord, Hash, Structural)]
pub struct QaVerdictId(pub i64);

impl QaVerdictId {
    /// Wrap a raw key.
    pub fn new(id: i64) -> (r: Self)
        ensures
            r == QaVerdictId(id),
    {
        QaVerdictId(id)
    }

    /// The raw key.
    pub fn get(self) -> (id: i64)
        ensures
            self == QaVerdictId(id),
    {
        self.0
    }

    /// The key as a decimal numeral.
    pub fn to_string(&self) -> (s: String)
        ensures
            s@ == text::signed_decimal(self.0 as int),
    {
        text::signed_decimal_text(self.0)
    }
}

/// Outcome of a quality-assurance run.
#[derive(Debug, Clone, Copy, PartialEq, Eq, PartialOrd, Ord, Hash, Structural)]
pub enum QaVerdict {
    /// All acceptance criteria hold.
    Passed,
    /// Rejected, with at least one blocker filed.
    FailedWithBlockers,
    /// Rejected without a structural blocker; back for rework.
    FailedNeedsRework,
    /// No decision; the work item stays pending.
    Inconclusive,
    /// A waiver role accepted a non-passing outcome.
    Waived,
}

impl QaVerdict {
    /// All variants in declaration order.
    pub const ALL: [QaVerdict; 5] = [
        QaVerdict::Passed,
        QaVerdict::FailedWithBlockers,
        QaVerdict::FailedNeedsRework,
        QaVerdict::Inconclusive,
        QaVerdict::Waived,
    ];

    /// Stable lowercase identifier.
    pub open spec fn text(self) -> Seq<char> {
        match self {
            QaVerdict::Passed => "passed"@,
            QaVerdict::FailedWithBlockers => "failed_with_blockers"@,
            QaVerdict::FailedNeedsRework => "failed_needs_rework"@,
            QaVerdict::Inconclusive => "inconclusive"@,
            QaVerdict::Waived => "waived"@,
        }
    }

    /// Stable lowercase identifier used in configuration and payloads.
    pub fn as_str(self) -> (s: &'static str)
        ensures
            s@ == self.text(),
    {
        match self {
            QaVerdict::Passed => "passed",
            QaVerdict::FailedWithBlockers => "failed_with_blockers",
            QaVerdict::FailedNeedsRework => "failed_needs_rework",
            QaVerdict::Inconclusive => "inconclusive",
            QaVerdict::Waived => "waived",
        }
    }

    /// The verdict lets the work item pass.
    pub open spec fn passes(self) -> bool {
        self is Passed || self is Waived
    }

    /// The verdict sends the work back.
    pub open spec fn fails(self) -> bool {
        self is FailedWithBlockers || self is FailedNeedsRework
    }

    /// True for verdicts that let the parent gate proceed.
    pub fn is_pass(self) -> (b: bool)
        ensures
            b == self.passes(),
    {
        matches!(self, QaVerdict::Passed | QaVerdict::Waived)
    }

    /// True for verdicts that send the work back.
    pub fn is_failure(self) -> (b: bool)
        ensures
            b == self.fails(),
    {
        matches!(self, QaVerdict::FailedWithBlockers | QaVerdict::FailedNeedsRework)
    }

    /// True when the verdict requires at least one filed blocker.
    pub fn requires_blockers(self) -> (b: bool)
        ensures
            b == (self is FailedWithBlockers),
    {
        matches!(self, QaVerdict::FailedWithBlockers)
    }

    /// True when the verdict requires a waiver role and a reason.
    pub fn requires_waiver(self) -> (b: bool)
        ensures
            b == (self is Waived),
    {
        matches!(self, QaVerdict::Waived)
    }
}

/// Verification status of one acceptance criterion.
#[derive(Debug, Clone, Copy, PartialEq, Eq, PartialOrd, Ord, Hash, Structural)]
pub enum AcceptanceCriterionStatus {
    /// Exercised, and it held.
    Verified,
    /// Exercised, and it failed.
    Failed,
    /// Does not apply to this work item.
    NotApplicable,
    /// Could not be exercised.
    NotVerified,
}

impl AcceptanceCriterionStatus {
    /// All variants in declaration order.
    pub const ALL: [AcceptanceCriterionStatus; 4] = [
        AcceptanceCriterionStatus::Verified,
        AcceptanceCriterionStatus::Failed,
        AcceptanceCriterionStatus::NotApplicable,
        AcceptanceCriterionStatus::NotVerified,
    ];

    /// Stable lowercase identifier.
    pub open spec fn text(self) -> Seq<char> {
        match self {
            AcceptanceCriterionStatus::Verified => "verified"@,
            AcceptanceCriterionStatus::Failed => "failed"@,
            AcceptanceCriterionStatus::NotApplicable => "not_applicable"@,
            AcceptanceCriterionStatus::NotVerified => "not_verified"@,
        }
    }

    /// Stable lowercase identifier.
    pub fn as_str(self) -> (s: &'static str)
        ensures
            s@ == self.text(),
    {
        match self {
            AcceptanceCriterionStatus::Verified => "verified",
            AcceptanceCriterionStatus::Failed => "failed",
            AcceptanceCriterionStatus::NotApplicable => "not_applicable",
            AcceptanceCriterionStatus::NotVerified => "not_verified",
        }
    }

    /// The status counts as a pass.
    pub open spec fn passing(self) -> bool {
        self is Verified || self is NotApplicable
    }

    /// True when the status counts as a pass.
    pub fn is_passing(self) -> (b: bool)
        ensures
            b == self.passing(),
    {
        matches!(self, AcceptanceCriterionStatus::Verified | AcceptanceCriterionStatus::NotApplicable)
    }
}

/// One row of the acceptance-criteria trace.
#[derive(Debug, Clone, PartialEq, Eq)]
pub struct AcceptanceCriterionTrace {
    /// Criterion text, copied from the work item.
    pub criterion: String,
    /// Verification status.
    pub status: AcceptanceCriterionStatus,
    /// Pointers to the supporting evidence.
    pub evidence: Vec<String>,
    /// Free-form notes.
    pub notes: Option<String>,
}

/// Structured evidence behind a verdict.
#[derive(Debug, Clone, PartialEq, Eq, Default)]
pub struct QaEvidence {
    /// Test commands executed or attempted.
    pub tests_run: Vec<String>,
    /// Files reviewed.
    pub changed_files_reviewed: Vec<String>,
    /// CI status references.
    pub ci_status: Vec<String>,
    /// Visual or runtime evidence pointers.
    pub runtime_evidence: Vec<String>,
    /// Additional notes.
    pub notes: Vec<String>,
    /// Approved limitation that excuses missing runtime evidence.
    pub accepted_limitation: Option<String>,
}

impl QaEvidence {
    /// True when every category is empty.
    pub fn is_empty(&self) -> (b: bool)
        ensures
            b == (self.tests_run@.len() == 0 && self.changed_files_reviewed@.len() == 0
                && self.ci_status@.len() == 0 && self.runtime_evidence@.len() == 0
                && self.notes@.len() == 0 && text::text_or_empty(self.accepted_limitation).len()
                == 0),
    {
        let no_limitation: bool = match &self.accepted_limitation {
            Some(s) => s.as_str().is_empty(),
            None => true,
        };
        self.tests_run.len() == 0 && self.changed_files_reviewed.len() == 0 && self.ci_status.len()
            == 0 && self.runtime_evidence.len() == 0 && self.notes.len() == 0 && no_limitation
    }
}

/// Invariant violations for [`QaOutcome::try_new`].
#[derive(Debug, Clone, Copy, PartialEq, Eq, Structural)]
pub enum QaError {
    /// `failed_with_blockers` without a blocker reference.
    MissingBlockers,
    /// Another verdict with blocker references.
    UnexpectedBlockers {
        /// The verdict.
        verdict: QaVerdict,
        /// How many blocker ids were attached.
        count: usize,
    },
    /// `waived` without a waiver role and a reason.
    InvalidWaiver,
    /// Another verdict with a waiver role.
    UnexpectedWaiver(QaVerdict),
    /// An acceptance criterion's text is empty or blank.
    EmptyCriterion,
    /// `passed` although a criterion is not in a passing state.
    PassWithUnpassedCriterion,
    /// A verdict that does not pass without a reason.
    MissingReason(QaVerdict),
}

/// Durable verdict record.
#[derive(Debug, Clone, PartialEq, Eq)]
pub struct QaOutcome {
    /// Primary key.
    pub id: QaVerdictId,
    /// Work item that the verdict gated.
    pub work_item_id: WorkItemId,
    /// Run that emitted the verdict.
    pub run_id: RunRef,
    /// Role that authored the verdict.
    pub role: RoleName,
    /// The verdict.
    pub verdict: QaVerdict,
    /// Evidence it relied on.
    pub evidence: QaEvidence,
    /// One row per acceptance criterion.
    pub acceptance_trace: Vec<AcceptanceCriterionTrace>,
    /// Blockers filed alongside the verdict.
    pub blockers_created: Vec<BlockerId>,
    /// Role that authored a waiver.
    pub waiver_role: Option<RoleName>,
    /// Operator-facing reason. Required for `waived` and for every verdict that does
    /// not pass, so that the record explains itself.
    pub reason: Option<String>,
}

/// Whether some traced criterion has no text.
pub open spec fn has_untitled_criterion(trace: Seq<AcceptanceCriterionTrace>) -> bool {
    exists|i: int| 0 <= i < trace.len() && text::is_blank((#[trigger] trace[i]).criterion@)
}

/// Whether some traced criterion is not in a passing state.
pub open spec fn has_unpassed_criterion(trace: Seq<AcceptanceCriterionTrace>) -> bool {
    exists|i: int| 0 <= i < trace.len() && !(#[trigger] trace[i]).status.passing()
}

impl QaOutcome {
    /// The first rule that the outcome breaks, if any.
    pub open spec fn violation(self) -> Option<QaError> {
        if has_untitled_criterion(self.acceptance_trace@) {
            Some(QaError::EmptyCriterion)
        } else if self.verdict is FailedWithBlockers && self.blockers_created@.len() == 0 {
            Some(QaError::MissingBlockers)
        } else if !(self.verdict is FailedWithBlockers) && self.blockers_created@.len() > 0 {
            Some(
                QaError::UnexpectedBlockers {
                    verdict: self.verdict,
                    count: self.blockers_created@.len() as usize,
                },
            )
        } else if self.verdict is Passed && has_unpassed_criterion(self.acceptance_trace@) {
            Some(QaError::PassWithUnpassedCriterion)
        } else if self.verdict is Waived && (self.waiver_role is None || text::is_missing_or_blank(
            self.reason,
        )) {
            Some(QaError::InvalidWaiver)
        } else if !(self.verdict is Waived) && self.waiver_role is Some {
            Some(QaError::UnexpectedWaiver(self.verdict))
        } else if !self.verdict.passes() && text::is_missing_or_blank(self.reason) {
            Some(QaError::MissingReason(self.verdict))
        } else {
            None
        }
    }

    /// The outcome keeps every rule.
    pub open spec fn well_formed(self) -> bool {
        self.violation() is None
    }

    /// Construct an outcome, or report the first rule that it would break.
    pub fn try_new(
        id: QaVerdictId,
        work_item_id: WorkItemId,
        run_id: RunRef,
        role: RoleName,
        verdict: QaVerdict,
        evidence: QaEvidence,
        acceptance_trace: Vec<AcceptanceCriterionTrace>,
        blockers_created: Vec<BlockerId>,
        waiver_role: Option<RoleName>,
        reason: Option<String>,
    ) -> (r: Result<Self, QaError>)
        ensures
            ({
                let outcome = QaOutcome {
                    id,
                    work_item_id,
                    run_id,
                    role,
                    verdict,
                    evidence,
                    acceptance_trace,
                    blockers_created,
                    waiver_role,
                    reason,
                };
                match outcome.violation() {
                    Some(e) => r == Err::<QaOutcome, QaError>(e),
                    None => r == Ok::<QaOutcome, QaError>(outcome),
                }
            }),
    {
        let mut unpassed: bool = false;
        for i in 0..acceptance_trace.len()
            invariant
                forall|j: int|
                    0 <= j < i ==> !text::is_blank((#[trigger] acceptance_trace@[j]).criterion@),
                unpassed == exists|j: int|
                    0 <= j < i && !(#[trigger] acceptance_trace@[j]).status.passing(),
        {
            if text::blank(acceptance_trace[i].criterion.as_str()) {
                assert(text::is_blank(acceptance_trace@[i as int].criterion@));
                return Err(QaError::EmptyCriterion);
            }
            if !acceptance_trace[i].status.is_passing() {
                assert(!acceptance_trace@[i as int].status.passing());
                unpassed = true;
            }
        }
        let count: usize = blockers_created.len();
        match verdict {
            QaVerdict::FailedWithBlockers => {
                if count == 0 {
                    return Err(QaError::MissingBlockers);
                }
            },
            QaVerdict::Passed => {
                if count > 0 {
                    return Err(QaError::UnexpectedBlockers { verdict, count });
                }
                if unpassed {
                    return Err(QaError::PassWithUnpassedCriterion);
                }
            },
            QaVerdict::FailedNeedsRework | QaVerdict::Inconclusive | QaVerdict::Waived => {
                if count > 0 {
                    return Err(QaError::UnexpectedBlockers { verdict, count });
                }
            },
        }
        if verdict.requires_waiver() {
            if waiver_role.is_none() || text::missing_or_blank(&reason) {
                return Err(QaError::InvalidWaiver);
            }
        } else if waiver_role.is_some() {
            return Err(QaError::UnexpectedWaiver(verdict));
        }
        if !verdict.is_pass() && text::missing_or_blank(&reason) {
            return Err(QaError::MissingReason(verdict));
        }
        Ok(
            QaOutcome {
                id,
                work_item_id,
                run_id,
                role,
                verdict,
                evidence,
                acceptance_trace,
                blockers_created,
                waiver_role,
                reason,
            },
        )
    }

    /// True when the verdict lets the work item pass.
    pub fn is_pass(&self) -> (b: bool)
        ensures
            b == self.verdict.passes(),
    {
        self.verdict.is_pass()
    }

    /// The trace rows that are not in a passing state, in order.
    pub fn unpassed_criteria(&self) -> (rows: Vec<&AcceptanceCriterionTrace>)
        ensures
            rows@.map_values(|t: &AcceptanceCriterionTrace| *t) == self.acceptance_trace@.filter(
                |t: AcceptanceCriterionTrace| !t.status.passing(),
            ),
    {
        let ghost unpassed = |t: AcceptanceCriterionTrace| !t.status.passing();
        let ghost plain = |t: &AcceptanceCriterionTrace| *t;
        let mut rows: Vec<&AcceptanceCriterionTrace> = Vec::new();
        assert(rows@.map_values(plain) =~= self.acceptance_trace@.take(0).filter(unpassed)) by {
            reveal(Seq::filter);
        }
        for i in 0..self.acceptance_trace.len()
            invariant
                unpassed == (|t: AcceptanceCriterionTrace| !t.status.passing()),
                plain == (|t: &AcceptanceCriterionTrace| *t),
                rows@.map_values(plain) == self.acceptance_trace@.take(i as int).filter(unpassed),
        {
            let row: &AcceptanceCriterionTrace = &self.acceptance_trace[i];
            let ghost before = rows@;
            proof {
                let seen = self.acceptance_trace@.take(i as int);
                seen.lemma_filter_push(*row, unpassed);
                assert(self.acceptance_trace@.take(i + 1) =~= seen.push(*row));
            }
            if !row.status.is_passing() {
                rows.push(row);
                assert(rows@.map_values(plain) =~= before.map_values(plain).push(*row));
            }
        }
        assert(self.acceptance_trace@.take(self.acceptance_trace@.len() as int)
            =~= self.acceptance_trace@);
        rows
    }
}

/// No verdict both passes and fails, and only an inconclusive one does neither.
pub proof fn verdicts_pass_or_fail(v: QaVerdict)
    ensures
        !(v.passes() && v.fails()),
        !v.passes() && !v.fails() <==> v is Inconclusive,
{
}

/// A well-formed outcome that passes either verified every criterion or was
/// waived by a named role for a stated reason; one that does not pass states its
/// reason; blockers are attached exactly when the verdict says so.
pub proof fn well_formed_outcomes_justify_their_verdict(o: QaOutcome)
    requires
        o.well_formed(),
    ensures
        o.verdict is Passed ==> forall|i: int|
            0 <= i < o.acceptance_trace@.len() ==> (
            #[trigger] o.acceptance_trace@[i]).status.passing(),
        o.verdict is Waived <==> o.waiver_role is Some,
        o.verdict is Waived ==> !text::is_missing_or_blank(o.reason),
        !o.verdict.passes() ==> !text::is_missing_or_blank(o.reason),
        o.verdict is FailedWithBlockers <==> o.blockers_created@.len() > 0,
{
}

/// Different values of [`QaVerdict`] have different names.
pub proof fn qa_verdict_names_are_distinct(a: QaVerdict, b: QaVerdict)
    requires
        a.text() == b.text(),
    ensures
        a == b,
{
    reveal_strlit("passed");
    assert("passed"@.len() == 6);
    reveal_strlit("failed_with_blockers");
    assert("failed_with_blockers"@.len() == 20);
    reveal_strlit("failed_needs_rework");
    assert("failed_needs_rework"@.len() == 19);
    reveal_strlit("inconclusive");
    assert("inconclusive"@.len() == 12);
    reveal_strlit("waived");
    assert("waived"@.len() == 6);
    assert("passed"@[0] != "waived"@[0]);
}

/// Different values of [`AcceptanceCriterionStatus`] have different names.
pub proof fn acceptance_criterion_status_names_are_distinct(a: AcceptanceCriterionStatus, b: AcceptanceCriterionStatus)
    requires
        a.text() == b.text(),
    ensures
        a == b,
{
    reveal_strlit("verified");
    assert("verified"@.len() == 8);
    reveal_strlit("failed");
    assert("failed"@.len() == 6);
    reveal_strlit("not_applicable");
    assert("not_applicable"@.len() == 14);
    reveal_strlit("not_verified");
    assert("not_verified"@.len() == 12);
}

/// Every value of [`QaVerdict`] is listed.
pub proof fn every_qa_verdict_is_listed(value: QaVerdict)
    ensures
        QaVerdict::ALL@.contains(value),
{
    let all = QaVerdict::ALL@;
    assert(all[0] == QaVerdict::Passed);
    assert(all[1] == QaVerdict::FailedWithBlockers);
    assert(all[2] == QaVerdict::FailedNeedsRework);
    assert(all[3] == QaVerdict::Inconclusive);
    assert(all[4] == QaVerdict::Waived);
}

/// Every value of [`AcceptanceCriterionStatus`] is listed.
pub proof fn every_acceptance_criterion_status_is_listed(value: AcceptanceCriterionStatus)
    ensures
        AcceptanceCriterionStatus::ALL@.contains(value),
{
    let all = AcceptanceCriterionStatus::ALL@;
    assert(all[0] == AcceptanceCriterionStatus::Verified);
    assert(all[1] == AcceptanceCriterionStatus::Failed);
    assert(all[2] == AcceptanceCriterionStatus::NotApplicable);
    assert(all[3] == AcceptanceCriterionStatus::NotVerified);
}

/// A name stands for one value of [`QaVerdict`], the one it says.
pub proof fn qa_verdict_names_say_their_value(value: QaVerdict)
    ensures
        value.text() == "passed"@ <==> value is Passed,
        value.text() == "failed_with_blockers"@ <==> value is FailedWithBlockers,
        value.text() == "failed_needs_rework"@ <==> value is FailedNeedsRework,
        value.text() == "inconclusive"@ <==> value is Inconclusive,
        value.text() == "waived"@ <==> value is Waived,
{
    if value.text() == "passed"@ {
        qa_verdict_names_are_distinct(value, QaVerdict::Passed);
    }
    if value.text() == "failed_with_blockers"@ {
        qa_verdict_names_are_distinct(value, QaVerdict::FailedWithBlockers);
    }
    if value.text() == "failed_needs_rework"@ {
        qa_verdict_names_are_distinct(value, QaVerdict::FailedNeedsRework);
    }
    if value.text() == "inconclusive"@ {
        qa_verdict_names_are_distinct(value, QaVerdict::Inconclusive);
    }
    if value.text() == "waived"@ {
        qa_verdict_names_are_distinct(value, QaVerdict::Waived);
    }
}

/// A name stands for one value of [`AcceptanceCriterionStatus`], the one it says.
pub proof fn acceptance_criterion_status_names_say_their_value(value: AcceptanceCriterionStatus)
    ensures
        value.text() == "verified"@ <==> value is Verified,
        value.text() == "failed"@ <==> value is Failed,
        value.text() == "not_applicable"@ <==> value is NotApplicable,
        value.text() == "not_verified"@ <==> value is NotVerified,
{
    if value.text() == "verified"@ {
        acceptance_criterion_status_names_are_distinct(value, AcceptanceCriterionStatus::Verified);
    }
    if value.text() == "failed"@ {
        acceptance_criterion_status_names_are_distinct(value, AcceptanceCriterionStatus::Failed);
    }
    if value.text() == "not_applicable"@ {
        acceptance_criterion_status_names_are_distinct(value, AcceptanceCriterionStatus::NotApplicable);
    }
    if value.text() == "not_verified"@ {
        acceptance_criterion_status_names_are_distinct(value, AcceptanceCriterionStatus::NotVerified);
    }
}

/// Which outcomes are accepted, and which error any other one gets: blank criteria are
/// reported first, then what is wrong with the blockers, an unpassed criterion under
/// `passed`, what is wrong with the waiver, and a missing reason.
pub proof fn the_first_broken_rule_of_an_outcome_is_reported(o: QaOutcome)
    ensures
        ({
            let untitled = exists|i: int|
                0 <= i < o.acceptance_trace@.len() && text::is_blank(
                    (#[trigger] o.acceptance_trace@[i]).criterion@,
                );
            let unpassed = exists|i: int|
                0 <= i < o.acceptance_trace@.len() && (#[trigger] o.acceptance_trace@[i]).status
                    != AcceptanceCriterionStatus::Verified && o.acceptance_trace@[i].status
                    != AcceptanceCriterionStatus::NotApplicable;
            let unexplained = o.reason is None || text::is_blank(o.reason->0@);
            let unblocked = o.verdict == QaVerdict::FailedWithBlockers
                && o.blockers_created@.len() == 0;
            let overblocked = o.verdict != QaVerdict::FailedWithBlockers
                && o.blockers_created@.len() > 0;
            let falsely_passed = o.verdict == QaVerdict::Passed && unpassed;
            let badly_waived = o.verdict == QaVerdict::Waived && (o.waiver_role is None
                || unexplained);
            let overwaived = o.verdict != QaVerdict::Waived && o.waiver_role is Some;
            let silent = o.verdict != QaVerdict::Passed && unexplained;
            &&& o.violation() is None <==> !untitled && !unblocked && !overblocked
                && !falsely_passed && !badly_waived && !overwaived && !silent
            &&& o.violation() == Some(QaError::EmptyCriterion) <==> untitled
            &&& o.violation() == Some(QaError::MissingBlockers) <==> !untitled && unblocked
            &&& o.violation() == Some(
                QaError::UnexpectedBlockers {
                    verdict: o.verdict,
                    count: o.blockers_created.len(),
                },
            ) <==> !untitled && !unblocked && overblocked
            &&& o.violation() == Some(QaError::PassWithUnpassedCriterion) <==> !untitled
                && !unblocked && !overblocked && falsely_passed
            &&& o.violation() == Some(QaError::InvalidWaiver) <==> !untitled && !unblocked
                && !overblocked && !falsely_passed && badly_waived
            &&& o.violation() == Some(QaError::UnexpectedWaiver(o.verdict)) <==> !untitled
                && !unblocked && !overblocked && !falsely_passed && !badly_waived && overwaived
            &&& o.violation() == Some(QaError::MissingReason(o.verdict)) <==> !untitled
                && !unblocked && !overblocked && !falsely_passed && !badly_waived && !overwaived
                && silent
        }),
{
    assert(o.blockers_created.len() == o.blockers_created@.len());
    if has_unpassed_criterion(o.acceptance_trace@) {
        let i = choose|i: int|
            0 <= i < o.acceptance_trace@.len() && !(
            #[trigger] o.acceptance_trace@[i]).status.passing();
        assert(!o.acceptance_trace@[i].status.passing());
    }
}

/// A named role that gives a reason may waive whatever the criteria came to: only a pass
/// looks at their statuses.
pub proof fn waivers_accept_unpassed_criteria(o: QaOutcome)
    ensures
        o.verdict == QaVerdict::Waived && o.waiver_role is Some && (o.reason is Some
            && !text::is_blank(o.reason->0@)) && o.blockers_created@.len() == 0 && (forall|i: int|
            0 <= i < o.acceptance_trace@.len() ==> !text::is_blank(
                (#[trigger] o.acceptance_trace@[i]).criterion@,
            )) ==> o.well_formed(),
        o.violation() == Some(QaError::PassWithUnpassedCriterion) ==> o.verdict
            == QaVerdict::Passed,
{
}

/// Whether an outcome is accepted depends on the statuses of its criteria only under
/// `passed`.
pub proof fn only_a_pass_looks_at_the_statuses(a: QaOutcome, b: QaOutcome)
    requires
        a.verdict == b.verdict,
        a.verdict != QaVerdict::Passed,
        a.blockers_created == b.blockers_created,
        a.waiver_role == b.waiver_role,
        a.reason == b.reason,
        a.acceptance_trace@.len() == b.acceptance_trace@.len(),
        forall|i: int|
            0 <= i < a.acceptance_trace@.len() ==> (#[trigger] a.acceptance_trace@[i]).criterion@
                == b.acceptance_trace@[i].criterion@,
    ensures
        a.violation() == b.violation(),
{
    if has_untitled_criterion(a.acceptance_trace@) {
        let i = choose|i: int|
            0 <= i < a.acceptance_trace@.len() && text::is_blank(
                (#[trigger] a.acceptance_trace@[i]).criterion@,
            );
        assert(text::is_blank(b.acceptance_trace@[i].criterion@));
    }
    if has_untitled_criterion(b.acceptance_trace@) {
        let i = choose|i: int|
            0 <= i < b.acceptance_trace@.len() && text::is_blank(
                (#[trigger] b.acceptance_trace@[i]).criterion@,
            );
        assert(text::is_blank(a.acceptance_trace@[i].criterion@));
    }
}

/// A verdict lets the work pass when it is passed or waived, and sends it back when it
/// failed either way; a criterion passes when it was verified or does not apply.
pub proof fn verdicts_and_statuses_count_as_they_say(v: QaVerdict, s: AcceptanceCriterionStatus)
    ensures
        v.passes() <==> v == QaVerdict::Passed || v == QaVerdict::Waived,
        v.fails() <==> v == QaVerdict::FailedWithBlockers || v == QaVerdict::FailedNeedsRework,
        s.passing() <==> s == AcceptanceCriterionStatus::Verified || s
            == AcceptanceCriterionStatus::NotApplicable,
{
}

} // verus!
