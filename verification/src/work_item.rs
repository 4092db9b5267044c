//! Work items: durable ids and normalised status classes.
use crate::text;
use vstd::prelude::*;

verus! {

/// Durable primary key of a work item.
#[derive(Debug, Clone, Copy, PartialEq, Eq, PartialOrd, Ord, Hash, Structural)]
pub struct WorkItemId(pub i64);

impl WorkItemId {
    /// Wrap a raw key.
    pub fn new(id: i64) -> (r: Self)
        ensures
            r == WorkItemId(id),
    {
        WorkItemId(id)
    }

    /// The raw key.
    pub fn get(self) -> (id: i64)
        ensures
            self == WorkItemId(id),
    {
        self.0
    }

    /// The key as a decimal numeral.
    pub fn to_string(&self) -> (s: String)
        ensures
            s@ == text::signed_decimal(self.0 as int),
    {
        text::signed_decimal_text(self.0)
    }
}

/// Normalised status of a work item, whatever the tracker calls it.
#[derive(Debug, Clone, Copy, PartialEq, Eq, PartialOrd, Ord, Hash, Structural)]
pub enum WorkItemStatusClass {
    /// Waiting to be picked up.
    Ready,
    /// An agent is working on it.
    Running,
    /// Halted by an open blocker.
    Blocked,
    /// Waiting for, or in, integration.
    Integration,
    /// Waiting for, or in, quality assurance.
    Qa,
    /// Finished.
    Done,
    /// Abandoned.
    Cancelled,
    /// Outside the orchestrator's remit.
    Ignore,
}

impl WorkItemStatusClass {
    /// A finished or abandoned item; an ignored one is not terminal.
    pub open spec fn terminal(self) -> bool {
        self is Done || self is Cancelled
    }

    /// Stable lowercase identifier.
    pub open spec fn text(self) -> Seq<char> {
        match self {
            WorkItemStatusClass::Ready => "ready"@,
            WorkItemStatusClass::Running => "running"@,
            WorkItemStatusClass::Blocked => "blocked"@,
            WorkItemStatusClass::Integration => "integration"@,
            WorkItemStatusClass::Qa => "qa"@,
            WorkItemStatusClass::Done => "done"@,
            WorkItemStatusClass::Cancelled => "cancelled"@,
            WorkItemStatusClass::Ignore => "ignore"@,
        }
    }

    /// True for `Done` and `Cancelled`.
    pub fn is_terminal(self) -> (b: bool)
        ensures
            b == self.terminal(),
    {
        matches!(self, WorkItemStatusClass::Done | WorkItemStatusClass::Cancelled)
    }

    /// Stable lowercase identifier.
    pub fn as_str(self) -> (s: &'static str)
        ensures
            s@ == self.text(),
    {
        match self {
            WorkItemStatusClass::Ready => "ready",
            WorkItemStatusClass::Running => "running",
            WorkItemStatusClass::Blocked => "blocked",
            WorkItemStatusClass::Integration => "integration",
            WorkItemStatusClass::Qa => "qa",
            WorkItemStatusClass::Done => "done",
            WorkItemStatusClass::Cancelled => "cancelled",
            WorkItemStatusClass::Ignore => "ignore",
        }
    }
}

/// Different values of [`WorkItemStatusClass`] have different names.
pub proof fn work_item_status_class_names_are_distinct(a: WorkItemStatusClass, b: WorkItemStatusClass)
    requires
        a.text() == b.text(),
    ensures
        a == b,
{
    reveal_strlit("ready");
    assert("ready"@.len() == 5);
    reveal_strlit("running");
    assert("running"@.len() == 7);
    reveal_strlit("blocked");
    assert("blocked"@.len() == 7);
    reveal_strlit("integration");
    assert("integration"@.len() == 11);
    reveal_strlit("qa");
    assert("qa"@.len() == 2);
    reveal_strlit("done");
    assert("done"@.len() == 4);
    reveal_strlit("cancelled");
    assert("cancelled"@.len() == 9);
    reveal_strlit("ignore");
    assert("ignore"@.len() == 6);
    assert("running"@[0] != "blocked"@[0]);
}

/// A name stands for one value of [`WorkItemStatusClass`], the one it says.
pub proof fn work_item_status_class_names_say_their_value(value: WorkItemStatusClass)
    ensures
        value.text() == "ready"@ <==> value is Ready,
        value.text() == "running"@ <==> value is Running,
        value.text() == "blocked"@ <==> value is Blocked,
        value.text() == "integration"@ <==> value is Integration,
        value.text() == "qa"@ <==> value is Qa,
        value.text() == "done"@ <==> value is Done,
        value.text() == "cancelled"@ <==> value is Cancelled,
        value.text() == "ignore"@ <==> value is Ignore,
{
    if value.text() == "ready"@ {
        work_item_status_class_names_are_distinct(value, WorkItemStatusClass::Ready);
    }
    if value.text() == "running"@ {
        work_item_status_class_names_are_distinct(value, WorkItemStatusClass::Running);
    }
    if value.text() == "blocked"@ {
        work_item_status_class_names_are_distinct(value, WorkItemStatusClass::Blocked);
    }
    if value.text() == "integration"@ {
        work_item_status_class_names_are_distinct(value, WorkItemStatusClass::Integration);
    }
    if value.text() == "qa"@ {
        work_item_status_class_names_are_distinct(value, WorkItemStatusClass::Qa);
    }
    if value.text() == "done"@ {
        work_item_status_class_names_are_distinct(value, WorkItemStatusClass::Done);
    }
    if value.text() == "cancelled"@ {
        work_item_status_class_names_are_distinct(value, WorkItemStatusClass::Cancelled);
    }
    if value.text() == "ignore"@ {
        work_item_status_class_names_are_distinct(value, WorkItemStatusClass::Ignore);
    }
}

/// A work item is over when it is done or cancelled, and in no other class.
pub proof fn finished_and_abandoned_items_are_terminal(class: WorkItemStatusClass)
    ensures
        class.terminal() <==> class == WorkItemStatusClass::Done || class
            == WorkItemStatusClass::Cancelled,
{
}

} // verus!
