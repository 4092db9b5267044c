//! Blockers: edges from the work item that causes a block to the one that waits.
use crate::role::RoleName;
use crate::text;
use crate::work_item::WorkItemId;
use vstd::prelude::*;

verus! {

/// Durable primary key of a blocker.
#[derive(Debug, Clone, Copy, PartialEq, Eq, PartialOrd, Ord, Hash, Structural)]
pub struct BlockerId(pub i64);

impl BlockerId {
    /// Wrap a raw key.
    pub fn new(id: i64) -> (r: Self)
        ensures
            r == BlockerId(id),
    {
        BlockerId(id)
    }

    /// The raw key.
    pub fn get(self) -> (id: i64)
        ensures
            self == BlockerId(id),
    {
        self.0
    }
}

/// Reference to a durable run row.
#[derive(Debug, Clone, Copy, PartialEq, Eq, PartialOrd, Ord, Hash, Structural)]
pub struct RunRef(pub i64);

impl RunRef {
    /// Wrap a raw key.
    pub fn new(id: i64) -> (r: Self)
        ensures
            r == RunRef(id),
    {
        RunRef(id)
    }

    /// The raw key.
    pub fn get(self) -> (id: i64)
        ensures
            self == RunRef(id),
    {
        self.0
    }
}

/// How much a blocker matters.
#[derive(Debug, Clone, Copy, PartialEq, Eq, PartialOrd, Ord, Hash, Structural)]
pub enum BlockerSeverity {
    Low,
    Medium,
    High,
    Critical,
}

impl BlockerSeverity {
    /// Stable lowercase identifier.
    pub open spec fn text(self) -> Seq<char> {
        match self {
            BlockerSeverity::Low => "low"@,
            BlockerSeverity::Medium => "medium"@,
            BlockerSeverity::High => "high"@,
            BlockerSeverity::Critical => "critical"@,
        }
    }

    /// Stable lowercase identifier.
    pub fn as_str(self) -> (s: &'static str)
        ensures
            s@ == self.text(),
    {
        match self {
            BlockerSeverity::Low => "low",
            BlockerSeverity::Medium => "medium",
            BlockerSeverity::High => "high",
            BlockerSeverity::Critical => "critical",
        }
    }
}

impl Default for BlockerSeverity {
    fn default() -> (r: Self)
        ensures
            r == BlockerSeverity::Medium,
    {
        BlockerSeverity::Medium
    }
}

/// Lifecycle of a blocker.
#[derive(Debug, Clone, Copy, PartialEq, Eq, PartialOrd, Ord, Hash, Structural)]
pub enum BlockerStatus {
    /// Still blocking.
    Open,
    /// The cause is gone.
    Resolved,
    /// Dismissed by a role that may waive.
    Waived,
}

/// Who filed a blocker or a follow-up.
#[derive(Debug, PartialEq, Eq)]
pub enum BlockerOrigin {
    /// A run, with the role it acted as when that is known.
    Run {
        run_id: RunRef,
        role: Option<RoleName>,
    },
    /// A person, outside any run.
    Operator,
}

impl Clone for BlockerOrigin {
    fn clone(&self) -> (copy: Self)
        ensures
            copy == *self,
    {
        match self {
            BlockerOrigin::Run { run_id, role } => BlockerOrigin::Run {
                run_id: *run_id,
                role: role.clone(),
            },
            BlockerOrigin::Operator => BlockerOrigin::Operator,
        }
    }
}

impl BlockerOrigin {
    /// The role that filed, when one was recorded.
    pub open spec fn recorded_role(self) -> Option<RoleName> {
        match self {
            BlockerOrigin::Run { role, .. } => role,
            BlockerOrigin::Operator => None,
        }
    }

    /// The role that filed, when one was recorded.
    pub fn role(&self) -> (r: Option<&RoleName>)
        ensures
            match r {
                Some(role) => self.recorded_role() == Some(*role),
                None => self.recorded_role() is None,
            },
    {
        match self {
            BlockerOrigin::Run { role, .. } => role.as_ref(),
            BlockerOrigin::Operator => None,
        }
    }
}

/// Why a blocker could not be built.
#[derive(Debug, Clone, Copy, PartialEq, Eq, Structural)]
pub enum BlockerError {
    /// A work item cannot block itself.
    SelfBlock,
    /// The reason was empty or blank.
    EmptyReason,
}

/// A durable blocker.
#[derive(Debug, Clone, PartialEq, Eq)]
pub struct Blocker {
    /// Primary key.
    pub id: BlockerId,
    /// Work item that causes the block.
    pub blocking_id: WorkItemId,
    /// Work item that waits.
    pub blocked_id: WorkItemId,
    /// Operator-facing reason.
    pub reason: String,
    /// Who filed it.
    pub origin: BlockerOrigin,
    /// How much it matters.
    pub severity: BlockerSeverity,
    /// Lifecycle status.
    pub status: BlockerStatus,
}

/// What is wrong with a blocker's fields, if anything.
pub open spec fn blocker_error(
    blocking_id: WorkItemId,
    blocked_id: WorkItemId,
    reason: Seq<char>,
) -> Option<BlockerError> {
    if blocking_id == blocked_id {
        Some(BlockerError::SelfBlock)
    } else if text::is_blank(reason) {
        Some(BlockerError::EmptyReason)
    } else {
        None
    }
}

impl Blocker {
    /// Build an open blocker: no self-edge, and a reason.
    pub fn try_new(
        id: BlockerId,
        blocking_id: WorkItemId,
        blocked_id: WorkItemId,
        reason: String,
        origin: BlockerOrigin,
        severity: BlockerSeverity,
    ) -> (r: Result<Self, BlockerError>)
        ensures
            match blocker_error(blocking_id, blocked_id, reason@) {
                Some(e) => r == Err::<Blocker, BlockerError>(e),
                None => r == Ok::<Blocker, BlockerError>(
                    Blocker {
                        id,
                        blocking_id,
                        blocked_id,
                        reason,
                        origin,
                        severity,
                        status: BlockerStatus::Open,
                    },
                ),
            },
    {
        if blocking_id == blocked_id {
            return Err(BlockerError::SelfBlock);
        }
        if text::blank(reason.as_str()) {
            return Err(BlockerError::EmptyReason);
        }
        Ok(
            Blocker {
                id,
                blocking_id,
                blocked_id,
                reason,
                origin,
                severity,
                status: BlockerStatus::Open,
            },
        )
    }

    /// True while the blocker is open.
    pub fn is_blocking(&self) -> (b: bool)
        ensures
            b == (self.status is Open),
    {
        matches!(self.status, BlockerStatus::Open)
    }
}

/// Different values of [`BlockerSeverity`] have different names.
pub proof fn blocker_severity_names_are_distinct(a: BlockerSeverity, b: BlockerSeverity)
    requires
        a.text() == b.text(),
    ensures
        a == b,
{
    reveal_strlit("low");
    assert("low"@.len() == 3);
    reveal_strlit("medium");
    assert("medium"@.len() == 6);
    reveal_strlit("high");
    assert("high"@.len() == 4);
    reveal_strlit("critical");
    assert("critical"@.len() == 8);
}

/// A name stands for one value of [`BlockerSeverity`], the one it says.
pub proof fn blocker_severity_names_say_their_value(value: BlockerSeverity)
    ensures
        value.text() == "low"@ <==> value is Low,
        value.text() == "medium"@ <==> value is Medium,
        value.text() == "high"@ <==> value is High,
        value.text() == "critical"@ <==> value is Critical,
{
    if value.text() == "low"@ {
        blocker_severity_names_are_distinct(value, BlockerSeverity::Low);
    }
    if value.text() == "medium"@ {
        blocker_severity_names_are_distinct(value, BlockerSeverity::Medium);
    }
    if value.text() == "high"@ {
        blocker_severity_names_are_distinct(value, BlockerSeverity::High);
    }
    if value.text() == "critical"@ {
        blocker_severity_names_are_distinct(value, BlockerSeverity::Critical);
    }
}

/// A blocker is refused exactly when it names one item twice, or gives no reason; the first
/// is told first.
pub proof fn blockers_need_two_items_and_a_reason(
    blocking_id: WorkItemId,
    blocked_id: WorkItemId,
    reason: Seq<char>,
)
    ensures
        ({
            let looped = blocking_id.0 == blocked_id.0;
            let unexplained = text::is_blank(reason);
            &&& blocker_error(blocking_id, blocked_id, reason) is None <==> !looped && !unexplained
            &&& blocker_error(blocking_id, blocked_id, reason) == Some(BlockerError::SelfBlock)
                <==> looped
            &&& blocker_error(blocking_id, blocked_id, reason) == Some(BlockerError::EmptyReason)
                <==> !looped && unexplained
        }),
{
}

/// Only a run has a recorded role, the one that it names.
pub proof fn only_runs_record_a_role(origin: BlockerOrigin)
    ensures
        origin is Operator ==> origin.recorded_role() is None,
        origin matches BlockerOrigin::Run { run_id, role } ==> origin.recorded_role() == role,
{
}

} // verus!
