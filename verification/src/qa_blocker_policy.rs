//! What open quality-assurance blockers mean for closing a parent, and who may
//! waive.
use crate::blocker::BlockerId;
use crate::role::RoleName;
use crate::text;
use crate::work_item::WorkItemId;
use vstd::prelude::*;

verus! {

/// Whether open blockers gate the parent.
#[derive(Debug, Clone, Copy, PartialEq, Eq, PartialOrd, Ord, Hash, Structural)]
pub enum QaBlockerPolicy {
    /// Open blockers gate the parent until resolved or waived.
    BlocksParent,
    /// Open blockers are recorded and do not gate.
    Advisory,
}

impl Default for QaBlockerPolicy {
    fn default() -> (r: Self)
        ensures
            r == QaBlockerPolicy::BlocksParent,
    {
        QaBlockerPolicy::BlocksParent
    }
}

impl QaBlockerPolicy {
    /// All variants in declaration order.
    pub const ALL: [QaBlockerPolicy; 2] = [
        QaBlockerPolicy::BlocksParent,
        QaBlockerPolicy::Advisory,
    ];

    /// Stable lowercase identifier.
    pub open spec fn text(self) -> Seq<char> {
        match self {
            QaBlockerPolicy::BlocksParent => "blocks_parent"@,
            QaBlockerPolicy::Advisory => "advisory"@,
        }
    }

    /// Stable lowercase identifier used in messages and payloads.
    pub fn as_str(self) -> (s: &'static str)
        ensures
            s@ == self.text(),
    {
        match self {
            QaBlockerPolicy::BlocksParent => "blocks_parent",
            QaBlockerPolicy::Advisory => "advisory",
        }
    }

    /// True when the policy gates the parent on open blockers.
    pub fn gates_parent_close(self) -> (b: bool)
        ensures
            b == (self is BlocksParent),
    {
        matches!(self, QaBlockerPolicy::BlocksParent)
    }
}

/// What parent close needs to know of an open blocker.
#[derive(Debug, PartialEq, Eq)]
pub struct QaBlockerSnapshot {
    /// Primary key of the blocker.
    pub blocker_id: BlockerId,
    /// Work item that the blocker is filed against.
    pub blocked_work_item: WorkItemId,
    /// Tracker-facing identifier of that work item.
    pub blocked_identifier: String,
    /// Role that filed the blocker.
    pub origin_role: RoleName,
    /// Reason, when one was recorded.
    pub reason: Option<String>,
}

impl Clone for QaBlockerSnapshot {
    fn clone(&self) -> (copy: Self)
        ensures
            copy == *self,
    {
        QaBlockerSnapshot {
            blocker_id: self.blocker_id,
            blocked_work_item: self.blocked_work_item,
            blocked_identifier: self.blocked_identifier.clone(),
            origin_role: self.origin_role.clone(),
            reason: self.reason.clone(),
        }
    }
}

/// Errors produced by [`check_qa_blockers_at_parent_close`].
#[derive(Debug, Clone, PartialEq, Eq)]
pub enum QaParentCloseError {
    /// Blockers are open and the policy gates on them.
    QaBlockersOpen {
        /// Parent that was to close.
        parent: WorkItemId,
        /// Open blockers, in the order given.
        open: Vec<QaBlockerSnapshot>,
    },
}

impl QaParentCloseError {
    /// Operator-facing message.
    pub fn to_string(&self) -> (s: String)
        ensures
            match self {
                QaParentCloseError::QaBlockersOpen { parent, open } => s@ == "parent "@
                    + text::signed_decimal(parent.0 as int) + " cannot close: "@ + text::decimal(
                    open@.len(),
                ) + " open QA blocker(s) under blocks_parent policy"@,
            },
    {
        match self {
            QaParentCloseError::QaBlockersOpen { parent, open } => {
                let mut out: String = "parent ".to_owned();
                text::append_signed_decimal(&mut out, parent.0);
                out.append(" cannot close: ");
                text::append_decimal(&mut out, open.len() as u64);
                out.append(" open QA blocker(s) under blocks_parent policy");
                out
            },
        }
    }
}

/// Copies a slice of snapshots.
fn copy_snapshots(snapshots: &[QaBlockerSnapshot]) -> (copy: Vec<QaBlockerSnapshot>)
    ensures
        copy@ == snapshots@,
{
    let mut copy: Vec<QaBlockerSnapshot> = Vec::new();
    for i in 0..snapshots.len()
        invariant
            copy@ == snapshots@.take(i as int),
    {
        copy.push(snapshots[i].clone());
    }
    copy
}

/// The parent that may not close and what holds it back, if anything does.
pub open spec fn close_refusal(
    policy: QaBlockerPolicy,
    parent: WorkItemId,
    open: Seq<QaBlockerSnapshot>,
) -> Option<(WorkItemId, Seq<QaBlockerSnapshot>)> {
    if policy is BlocksParent && open.len() > 0 {
        Some((parent, open))
    } else {
        None
    }
}

/// Whether the parent may close given the open blockers: an advisory policy
/// never gates; otherwise nothing may be open.
pub fn check_qa_blockers_at_parent_close(
    policy: QaBlockerPolicy,
    parent: WorkItemId,
    open_qa_blockers: &[QaBlockerSnapshot],
) -> (r: Result<(), QaParentCloseError>)
    ensures
        r is Ok <==> close_refusal(policy, parent, open_qa_blockers@) is None,
        r matches Err(QaParentCloseError::QaBlockersOpen { parent: p, open }) ==> close_refusal(
            policy,
            parent,
            open_qa_blockers@,
        ) == Some((p, open@)),
        match r {
            Ok(()) => policy is Advisory || open_qa_blockers@.len() == 0,
            Err(QaParentCloseError::QaBlockersOpen { parent: p, open }) => {
                &&& policy is BlocksParent
                &&& open_qa_blockers@.len() > 0
                &&& p == parent
                &&& open@ == open_qa_blockers@
            },
        },
{
    if !policy.gates_parent_close() || open_qa_blockers.len() == 0 {
        return Ok(());
    }
    Err(QaParentCloseError::QaBlockersOpen { parent, open: copy_snapshots(open_qa_blockers) })
}

/// Errors produced by [`validate_qa_waiver`].
#[derive(Debug, Clone, PartialEq, Eq)]
pub enum QaWaiverError {
    /// The author is not a configured waiver role.
    UnauthorisedRole {
        /// The role that tried to waive.
        role: RoleName,
    },
    /// The reason is empty or blank.
    EmptyReason,
    /// No role may waive.
    NoWaiverRolesConfigured,
}

/// Whether a role of the same name is configured.
pub open spec fn may_waive(configured: Seq<RoleName>, role: Seq<char>) -> bool {
    exists|i: int| 0 <= i < configured.len() && (#[trigger] configured[i])@ == role
}

/// Why a waiver is refused, if it is.
pub open spec fn waiver_refusal(
    configured: Seq<RoleName>,
    role: RoleName,
    reason: Seq<char>,
) -> Option<QaWaiverError> {
    if configured.len() == 0 {
        Some(QaWaiverError::NoWaiverRolesConfigured)
    } else if !may_waive(configured, role@) {
        Some(QaWaiverError::UnauthorisedRole { role })
    } else if text::is_blank(reason) {
        Some(QaWaiverError::EmptyReason)
    } else {
        None
    }
}

/// Whether a waiver is authorised: the role is configured, and it gives a reason.
pub fn validate_qa_waiver(
    configured_waiver_roles: &[RoleName],
    role: &RoleName,
    reason: &str,
) -> (r: Result<(), QaWaiverError>)
    ensures
        match waiver_refusal(configured_waiver_roles@, *role, reason@) {
            Some(e) => r == Err::<(), QaWaiverError>(e),
            None => r is Ok,
        },
        match r {
            Ok(()) => may_waive(configured_waiver_roles@, role@) && !text::is_blank(reason@),
            Err(QaWaiverError::NoWaiverRolesConfigured) => configured_waiver_roles@.len() == 0,
            Err(QaWaiverError::UnauthorisedRole { role: named }) => {
                &&& configured_waiver_roles@.len() > 0
                &&& !may_waive(configured_waiver_roles@, role@)
                &&& named == *role
            },
            Err(QaWaiverError::EmptyReason) => may_waive(configured_waiver_roles@, role@)
                && text::is_blank(reason@),
        },
{
    if configured_waiver_roles.len() == 0 {
        return Err(QaWaiverError::NoWaiverRolesConfigured);
    }
    let mut authorised: bool = false;
    for i in 0..configured_waiver_roles.len()
        invariant
            authorised == exists|j: int|
                0 <= j < i && (#[trigger] configured_waiver_roles@[j])@ == role@,
    {
        if text::same_text(configured_waiver_roles[i].as_str(), role.as_str()) {
            assert(configured_waiver_roles@[i as int]@ == role@);
            authorised = true;
        }
    }
    if !authorised {
        return Err(QaWaiverError::UnauthorisedRole { role: role.clone() });
    }
    if text::blank(reason) {
        return Err(QaWaiverError::EmptyReason);
    }
    Ok(())
}

/// Every value of [`QaBlockerPolicy`] is listed.
pub proof fn every_qa_blocker_policy_is_listed(value: QaBlockerPolicy)
    ensures
        QaBlockerPolicy::ALL@.contains(value),
{
    let all = QaBlockerPolicy::ALL@;
    assert(all[0] == QaBlockerPolicy::BlocksParent);
    assert(all[1] == QaBlockerPolicy::Advisory);
}

/// Different values of [`QaBlockerPolicy`] have different names.
pub proof fn qa_blocker_policy_names_are_distinct(a: QaBlockerPolicy, b: QaBlockerPolicy)
    requires
        a.text() == b.text(),
    ensures
        a == b,
{
    reveal_strlit("blocks_parent");
    assert("blocks_parent"@.len() == 13);
    reveal_strlit("advisory");
    assert("advisory"@.len() == 8);
}

/// A name stands for one value of [`QaBlockerPolicy`], the one it says.
pub proof fn qa_blocker_policy_names_say_their_value(value: QaBlockerPolicy)
    ensures
        value.text() == "blocks_parent"@ <==> value is BlocksParent,
        value.text() == "advisory"@ <==> value is Advisory,
{
    if value.text() == "blocks_parent"@ {
        qa_blocker_policy_names_are_distinct(value, QaBlockerPolicy::BlocksParent);
    }
    if value.text() == "advisory"@ {
        qa_blocker_policy_names_are_distinct(value, QaBlockerPolicy::Advisory);
    }
}

/// Open blockers hold a parent exactly where the policy says so, all of them and in order;
/// an advisory policy never holds one.
pub proof fn open_blockers_hold_the_parent_under_the_policy(
    policy: QaBlockerPolicy,
    parent: WorkItemId,
    open: Seq<QaBlockerSnapshot>,
)
    ensures
        close_refusal(policy, parent, open) is None <==> policy == QaBlockerPolicy::Advisory
            || open.len() == 0,
        close_refusal(policy, parent, open) matches Some((held, by)) ==> held == parent && by
            == open,
{
}

/// A waiver is accepted exactly where its role is among the configured ones, by name, and
/// gives a reason; what is missing is told in that order.
pub proof fn waivers_need_a_configured_role_and_a_reason(
    configured: Seq<RoleName>,
    role: RoleName,
    reason: Seq<char>,
)
    ensures
        ({
            let found = waiver_refusal(configured, role, reason);
            let unconfigured = configured.len() == 0;
            let stranger = forall|i: int| 0 <= i < configured.len()
                ==> (#[trigger] configured[i])@ != role@;
            let unexplained = text::is_blank(reason);
            &&& found is None <==> !unconfigured && !stranger && !unexplained
            &&& found == Some(QaWaiverError::NoWaiverRolesConfigured) <==> unconfigured
            &&& (found == Some(QaWaiverError::UnauthorisedRole { role })) <==> !unconfigured
                && stranger
            &&& found == Some(QaWaiverError::EmptyReason) <==> !unconfigured && !stranger
                && unexplained
        }),
{
}

} // verus!
