//! The follow-up gate of parent close: a parent may not close while a blocking
//! follow-up still gates acceptance.
use crate::followup::{FollowupId, FollowupIssueRequest, FollowupStatus};
use crate::role::RoleName;
use crate::text;
use crate::work_item::WorkItemId;
use vstd::prelude::*;

verus! {

/// What parent close needs to know of a gating follow-up.
#[derive(Debug, PartialEq, Eq)]
pub struct BlockingFollowupSnapshot {
    /// Primary key of the follow-up.
    pub followup_id: FollowupId,
    /// Work item that spawned it.
    pub source_work_item: WorkItemId,
    /// Tracker title.
    pub title: String,
    /// Lifecycle status at snapshot time.
    pub status: FollowupStatus,
    /// Role that filed it, when one was recorded.
    pub origin_role: Option<RoleName>,
}

impl Clone for BlockingFollowupSnapshot {
    fn clone(&self) -> (copy: Self)
        ensures
            copy == *self,
    {
        BlockingFollowupSnapshot {
            followup_id: self.followup_id,
            source_work_item: self.source_work_item,
            title: self.title.clone(),
            status: self.status,
            origin_role: self.origin_role.clone(),
        }
    }
}

/// The snapshot of a follow-up that gates acceptance; `None` for any other.
pub open spec fn snapshot_of(followup: FollowupIssueRequest) -> Option<BlockingFollowupSnapshot> {
    if followup.gates_acceptance() {
        Some(
            BlockingFollowupSnapshot {
                followup_id: followup.id,
                source_work_item: followup.source_work_item,
                title: followup.title,
                status: followup.status,
                origin_role: followup.origin.recorded_role(),
            },
        )
    } else {
        None
    }
}

/// The parent that may not close and what holds it back, if anything does.
pub open spec fn close_refusal(parent: WorkItemId, open: Seq<BlockingFollowupSnapshot>) -> Option<
    (WorkItemId, Seq<BlockingFollowupSnapshot>),
> {
    if open.len() == 0 {
        None
    } else {
        Some((parent, open))
    }
}

impl BlockingFollowupSnapshot {
    /// A snapshot of a follow-up that gates acceptance; `None` for any other.
    pub fn from_followup(followup: &FollowupIssueRequest) -> (r: Option<Self>)
        ensures
            r == snapshot_of(*followup),
            r == (if followup.gates_acceptance() {
                Some(
                    BlockingFollowupSnapshot {
                        followup_id: followup.id,
                        source_work_item: followup.source_work_item,
                        title: followup.title,
                        status: followup.status,
                        origin_role: followup.origin.recorded_role(),
                    },
                )
            } else {
                None
            }),
    {
        if !followup.is_acceptance_gating() {
            return None;
        }
        let origin_role: Option<RoleName> = match followup.origin.role() {
            Some(role) => Some(role.clone()),
            None => None,
        };
        Some(
            BlockingFollowupSnapshot {
                followup_id: followup.id,
                source_work_item: followup.source_work_item,
                title: followup.title.clone(),
                status: followup.status,
                origin_role,
            },
        )
    }
}

/// Errors produced by [`check_blocking_followups_at_parent_close`].
#[derive(Debug, Clone, PartialEq, Eq)]
pub enum BlockingFollowupGateError {
    /// At least one blocking follow-up still gates acceptance.
    BlockingFollowupsOpen {
        /// Parent that was to close.
        parent: WorkItemId,
        /// Gating follow-ups, in the order given.
        open: Vec<BlockingFollowupSnapshot>,
    },
}

impl BlockingFollowupGateError {
    /// Operator-facing message.
    pub fn to_string(&self) -> (s: String)
        ensures
            match self {
                BlockingFollowupGateError::BlockingFollowupsOpen { parent, open } => s@
                    == "parent "@ + text::signed_decimal(parent.0 as int) + " cannot close: "@
                    + text::decimal(open@.len()) + " blocking follow-up(s) still gate acceptance"@,
            },
    {
        match self {
            BlockingFollowupGateError::BlockingFollowupsOpen { parent, open } => {
                let mut out: String = "parent ".to_owned();
                text::append_signed_decimal(&mut out, parent.0);
                out.append(" cannot close: ");
                text::append_decimal(&mut out, open.len() as u64);
                out.append(" blocking follow-up(s) still gate acceptance");
                out
            },
        }
    }
}

/// Whether the parent may close: only when no follow-up gates it.
pub fn check_blocking_followups_at_parent_close(
    parent: WorkItemId,
    open_blocking_followups: &[BlockingFollowupSnapshot],
) -> (r: Result<(), BlockingFollowupGateError>)
    ensures
        r is Ok <==> close_refusal(parent, open_blocking_followups@) is None,
        r matches Err(BlockingFollowupGateError::BlockingFollowupsOpen { parent: p, open })
            ==> close_refusal(parent, open_blocking_followups@) == Some((p, open@)),
        match r {
            Ok(()) => open_blocking_followups@.len() == 0,
            Err(BlockingFollowupGateError::BlockingFollowupsOpen { parent: p, open }) => {
                &&& open_blocking_followups@.len() > 0
                &&& p == parent
                &&& open@ == open_blocking_followups@
            },
        },
{
    if open_blocking_followups.len() == 0 {
        return Ok(());
    }
    let mut open: Vec<BlockingFollowupSnapshot> = Vec::new();
    for i in 0..open_blocking_followups.len()
        invariant
            open@ == open_blocking_followups@.take(i as int),
    {
        open.push(open_blocking_followups[i].clone());
    }
    Err(BlockingFollowupGateError::BlockingFollowupsOpen { parent, open })
}

/// A follow-up that was not filed as blocking never gates, whatever its status;
/// a blocking one gates until it is rejected or cancelled.
pub proof fn only_undismissed_blocking_followups_gate(f: FollowupIssueRequest)
    ensures
        !f.blocking ==> !f.gates_acceptance(),
        f.blocking ==> (f.gates_acceptance() <==> !(f.status is Rejected) && !(f.status
            is Cancelled)),
{
}

/// A parent is held back exactly by the gating follow-ups, all of them and in order.
pub proof fn open_followups_hold_the_parent(
    parent: WorkItemId,
    open: Seq<BlockingFollowupSnapshot>,
)
    ensures
        close_refusal(parent, open) is None <==> open.len() == 0,
        close_refusal(parent, open) matches Some((held, by)) ==> held == parent && by == open,
{
}

/// A snapshot is taken of every follow-up that is blocking and not dismissed, and of no
/// other; it carries the follow-up's own id, source, title, status and filing role.
pub proof fn snapshots_show_the_gating_followups(f: FollowupIssueRequest)
    ensures
        snapshot_of(f) is Some <==> f.blocking && f.status != FollowupStatus::Rejected && f.status
            != FollowupStatus::Cancelled,
        snapshot_of(f) matches Some(shown) ==> {
            &&& shown.followup_id == f.id
            &&& shown.source_work_item == f.source_work_item
            &&& shown.title == f.title
            &&& shown.status == f.status
            &&& shown.origin_role == (match f.origin {
                crate::blocker::BlockerOrigin::Run { run_id, role } => role,
                crate::blocker::BlockerOrigin::Operator => None,
            })
        },
{
}

} // verus!
