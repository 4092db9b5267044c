//! The scheduler's logical queues and the report of one queue tick.
use vstd::prelude::*;

verus! {

/// Identity of one logical queue.
#[derive(Debug, Clone, Copy, PartialEq, Eq, PartialOrd, Ord, Hash, Structural)]
pub enum LogicalQueue {
    /// Tracker polling and triage.
    Intake,
    /// Claiming routable specialist work.
    Specialist,
    /// Draining integration entries under integration gates.
    Integration,
    /// Draining quality-assurance entries under their gates.
    Qa,
    /// Follow-up requests awaiting an approval decision.
    FollowupApproval,
    /// Budget pauses awaiting resume.
    BudgetPause,
    /// Expired-lease and orphaned-claim reconciliation.
    Recovery,
}

impl LogicalQueue {
    /// All variants in declaration order.
    pub const ALL: [LogicalQueue; 7] = [
        LogicalQueue::Intake,
        LogicalQueue::Specialist,
        LogicalQueue::Integration,
        LogicalQueue::Qa,
        LogicalQueue::FollowupApproval,
        LogicalQueue::BudgetPause,
        LogicalQueue::Recovery,
    ];

    /// Stable lowercase identifier.
    pub open spec fn text(self) -> Seq<char> {
        match self {
            LogicalQueue::Intake => "intake"@,
            LogicalQueue::Specialist => "specialist"@,
            LogicalQueue::Integration => "integration"@,
            LogicalQueue::Qa => "qa"@,
            LogicalQueue::FollowupApproval => "followup_approval"@,
            LogicalQueue::BudgetPause => "budget_pause"@,
            LogicalQueue::Recovery => "recovery"@,
        }
    }

    /// Stable lowercase identifier used in payloads, logs and status.
    pub fn as_str(self) -> (s: &'static str)
        ensures
            s@ == self.text(),
    {
        match self {
            LogicalQueue::Intake => "intake",
            LogicalQueue::Specialist => "specialist",
            LogicalQueue::Integration => "integration",
            LogicalQueue::Qa => "qa",
            LogicalQueue::FollowupApproval => "followup_approval",
            LogicalQueue::BudgetPause => "budget_pause",
            LogicalQueue::Recovery => "recovery",
        }
    }

    /// The identifier as an owned text.
    pub fn to_string(&self) -> (s: String)
        ensures
            s@ == self.text(),
    {
        self.as_str().to_owned()
    }
}

impl Default for LogicalQueue {
    fn default() -> (r: Self)
        ensures
            r == LogicalQueue::Intake,
    {
        LogicalQueue::Intake
    }
}

/// What one queue tick did.
#[derive(Debug, Clone, Copy, PartialEq, Eq, Structural)]
pub struct QueueTickOutcome {
    /// Which queue the report describes.
    pub queue: LogicalQueue,
    /// Entries the tick examined.
    pub considered: usize,
    /// Entries the tick acted on.
    pub processed: usize,
    /// Entries skipped on purpose, to be retried later.
    pub deferred: usize,
    /// Entries that failed this tick.
    pub errors: usize,
}

impl Default for QueueTickOutcome {
    fn default() -> (r: Self)
        ensures
            r == (QueueTickOutcome {
                queue: LogicalQueue::Intake,
                considered: 0,
                processed: 0,
                deferred: 0,
                errors: 0,
            }),
    {
        QueueTickOutcome {
            queue: LogicalQueue::Intake,
            considered: 0,
            processed: 0,
            deferred: 0,
            errors: 0,
        }
    }
}

impl QueueTickOutcome {
    /// The tick ran and had nothing to do.
    pub fn idle(queue: LogicalQueue) -> (r: Self)
        ensures
            r == (QueueTickOutcome { queue, considered: 0, processed: 0, deferred: 0, errors: 0 }),
    {
        QueueTickOutcome { queue, considered: 0, processed: 0, deferred: 0, errors: 0 }
    }

    /// True when nothing was considered, processed, deferred or in error.
    pub fn is_idle(&self) -> (b: bool)
        ensures
            b == (self.considered == 0 && self.processed == 0 && self.deferred == 0 && self.errors
                == 0),
    {
        self.considered == 0 && self.processed == 0 && self.deferred == 0 && self.errors == 0
    }
}

/// Different values of [`LogicalQueue`] have different names.
pub proof fn logical_queue_names_are_distinct(a: LogicalQueue, b: LogicalQueue)
    requires
        a.text() == b.text(),
    ensures
        a == b,
{
    reveal_strlit("intake");
    assert("intake"@.len() == 6);
    reveal_strlit("specialist");
    assert("specialist"@.len() == 10);
    reveal_strlit("integration");
    assert("integration"@.len() == 11);
    reveal_strlit("qa");
    assert("qa"@.len() == 2);
    reveal_strlit("followup_approval");
    assert("followup_approval"@.len() == 17);
    reveal_strlit("budget_pause");
    assert("budget_pause"@.len() == 12);
    reveal_strlit("recovery");
    assert("recovery"@.len() == 8);
}

/// Every queue is listed.
pub proof fn every_logical_queue_is_listed(q: LogicalQueue)
    ensures
        LogicalQueue::ALL@.contains(q),
{
    let all = LogicalQueue::ALL@;
    assert(all[0] == LogicalQueue::Intake);
    assert(all[1] == LogicalQueue::Specialist);
    assert(all[2] == LogicalQueue::Integration);
    assert(all[3] == LogicalQueue::Qa);
    assert(all[4] == LogicalQueue::FollowupApproval);
    assert(all[5] == LogicalQueue::BudgetPause);
    assert(all[6] == LogicalQueue::Recovery);
}

/// A name stands for one value of [`LogicalQueue`], the one it says.
pub proof fn logical_queue_names_say_their_value(value: LogicalQueue)
    ensures
        value.text() == "intake"@ <==> value is Intake,
        value.text() == "specialist"@ <==> value is Specialist,
        value.text() == "integration"@ <==> value is Integration,
        value.text() == "qa"@ <==> value is Qa,
        value.text() == "followup_approval"@ <==> value is FollowupApproval,
        value.text() == "budget_pause"@ <==> value is BudgetPause,
        value.text() == "recovery"@ <==> value is Recovery,
{
    if value.text() == "intake"@ {
        logical_queue_names_are_distinct(value, LogicalQueue::Intake);
    }
    if value.text() == "specialist"@ {
        logical_queue_names_are_distinct(value, LogicalQueue::Specialist);
    }
    if value.text() == "integration"@ {
        logical_queue_names_are_distinct(value, LogicalQueue::Integration);
    }
    if value.text() == "qa"@ {
        logical_queue_names_are_distinct(value, LogicalQueue::Qa);
    }
    if value.text() == "followup_approval"@ {
        logical_queue_names_are_distinct(value, LogicalQueue::FollowupApproval);
    }
    if value.text() == "budget_pause"@ {
        logical_queue_names_are_distinct(value, LogicalQueue::BudgetPause);
    }
    if value.text() == "recovery"@ {
        logical_queue_names_are_distinct(value, LogicalQueue::Recovery);
    }
}

} // verus!
