//! What the orchestrator reports about its claims.
use crate::state_machine::{ClaimState, ReleaseReason};
use crate::tracker::IssueId;
use vstd::prelude::*;

verus! {

/// One reported change.
#[derive(Debug, Clone, PartialEq, Eq)]
pub enum OrchestratorEvent {
    /// A claim changed its state.
    StateChanged {
        /// Stable tracker id.
        issue: IssueId,
        /// Human-facing identifier.
        identifier: String,
        /// State before; none when the issue was not claimed.
        previous: Option<ClaimState>,
        /// State after.
        current: ClaimState,
    },
    /// A claim ended.
    Released {
        /// Stable tracker id.
        issue: IssueId,
        /// Human-facing identifier.
        identifier: String,
        /// Why it ended.
        reason: ReleaseReason,
        /// State that the claim ended in, when known.
        final_state: Option<ClaimState>,
    },
    /// Claims left the active set.
    Reconciled {
        /// The issues whose dispatches were cancelled.
        dropped: Vec<IssueId>,
    },
}

impl OrchestratorEvent {
    /// Name of the kind of event.
    pub open spec fn kind_text(self) -> Seq<char> {
        match self {
            OrchestratorEvent::StateChanged { .. } => "state_changed"@,
            OrchestratorEvent::Released { .. } => "released"@,
            OrchestratorEvent::Reconciled { .. } => "reconciled"@,
        }
    }

    /// Name of the kind of event.
    pub fn kind(&self) -> (s: &'static str)
        ensures
            s@ == self.kind_text(),
    {
        match self {
            OrchestratorEvent::StateChanged { .. } => "state_changed",
            OrchestratorEvent::Released { .. } => "released",
            OrchestratorEvent::Reconciled { .. } => "reconciled",
        }
    }
}

/// The name of an event's kind says what it reports.
pub proof fn event_kinds_say_what_they_report(event: OrchestratorEvent)
    ensures
        event.kind_text() == "state_changed"@ <==> event is StateChanged,
        event.kind_text() == "released"@ <==> event is Released,
        event.kind_text() == "reconciled"@ <==> event is Reconciled,
{
    reveal_strlit("state_changed");
    assert("state_changed"@.len() == 13);
    reveal_strlit("released");
    assert("released"@.len() == 8);
    reveal_strlit("reconciled");
    assert("reconciled"@.len() == 10);
}

} // verus!
