//! Integration-owner run requests.
//!
//! When the integration queue surfaces a parent that needs consolidation, the
//! kernel builds an [`IntegrationRunRequest`] with everything the owner needs:
//! the parent, the role, the merge strategy, the canonical workspace, the
//! children with their latest handoffs, the gates in force and why the parent
//! was promoted.
use crate::checks;
use crate::handoff::{Handoff, HandoffError};
use crate::integration::IntegrationMergeStrategy;
use crate::role::RoleName;
use crate::text;
use crate::work_item::{WorkItemId, WorkItemStatusClass};
use vstd::prelude::*;

verus! {

/// Why the integration owner is being invoked for a parent.
#[derive(Debug, Clone, Copy, PartialEq, Eq, Hash, Structural)]
pub enum IntegrationRequestCause {
    /// The parent itself is in the integration class.
    DirectIntegrationRequest,
    /// Every child of the parent has reached a terminal class.
    AllChildrenTerminal,
}

impl IntegrationRequestCause {
    /// All variants in declaration order.
    pub const ALL: [IntegrationRequestCause; 2] = [
        IntegrationRequestCause::DirectIntegrationRequest,
        IntegrationRequestCause::AllChildrenTerminal,
    ];

    /// Stable lowercase identifier.
    pub open spec fn text(self) -> Seq<char> {
        match self {
            IntegrationRequestCause::DirectIntegrationRequest => "direct_integration_request"@,
            IntegrationRequestCause::AllChildrenTerminal => "all_children_terminal"@,
        }
    }

    /// Stable lowercase identifier used in event payloads.
    pub fn as_str(self) -> (s: &'static str)
        ensures
            s@ == self.text(),
    {
        match self {
            IntegrationRequestCause::DirectIntegrationRequest => "direct_integration_request",
            IntegrationRequestCause::AllChildrenTerminal => "all_children_terminal",
        }
    }
}

/// The canonical integration workspace.
#[derive(Debug, Clone, PartialEq, Eq)]
pub struct IntegrationWorkspace {
    /// Absolute path to the workspace.
    pub path: String,
    /// Strategy in force, such as `git_worktree`.
    pub strategy: String,
    /// Branch the run must be on at launch, when applicable.
    pub branch: Option<String>,
    /// Base ref the integration branch was cut from.
    pub base_ref: Option<String>,
}

/// One child contributing to a consolidation.
#[derive(Debug, Clone, PartialEq, Eq)]
pub struct IntegrationChild {
    /// Durable child id.
    pub child_id: WorkItemId,
    /// Tracker-facing identifier.
    pub identifier: String,
    /// Child title.
    pub title: String,
    /// Status class when the request was built.
    pub status_class: WorkItemStatusClass,
    /// Branch carrying the child's contribution, when known.
    pub branch: Option<String>,
    /// Latest structured handoff that the child emitted, when there is one.
    pub latest_handoff: Option<Handoff>,
}

/// Policy switches of the workflow.
#[derive(Debug, Clone, Copy, PartialEq, Eq, Structural)]
pub struct IntegrationGates {
    /// Every child must be terminal.
    pub require_all_children_terminal: bool,
    /// No blocker may be open.
    pub require_no_open_blockers: bool,
}

impl Default for IntegrationGates {
    fn default() -> (r: Self)
        ensures
            r == (IntegrationGates {
                require_all_children_terminal: true,
                require_no_open_blockers: true,
            }),
    {
        IntegrationGates { require_all_children_terminal: true, require_no_open_blockers: true }
    }
}

/// Invariant violations for [`IntegrationRunRequest::try_new`].
#[derive(Debug, Clone, Copy, PartialEq, Eq, Structural)]
pub enum IntegrationRequestError {
    /// The owning role's name is empty or blank.
    EmptyOwnerRole,
    /// The parent identifier is empty or blank.
    EmptyParentIdentifier,
    /// The parent title is empty or blank.
    EmptyParentTitle,
    /// The workspace path is empty.
    EmptyWorkspacePath,
    /// The workspace strategy is empty or blank.
    EmptyWorkspaceStrategy,
    /// A child's identifier is empty or blank.
    EmptyChildIdentifier(WorkItemId),
    /// A child appears more than once.
    DuplicateChild(WorkItemId),
    /// The parent appears among its own children.
    SelfConsolidation(WorkItemId),
    /// The gates ask for terminal children and this one is not.
    ChildNotTerminal {
        child_id: WorkItemId,
        status_class: WorkItemStatusClass,
    },
    /// The gates ask for no open blockers and there are some.
    OpenBlockersPresent {
        count: u32,
    },
    /// All children are said to be terminal, and there is none.
    NoChildrenForDecomposed,
    /// A child's latest handoff is malformed.
    InvalidChildHandoff {
        child_id: WorkItemId,
        source: HandoffError,
    },
}

/// Integration-owner run request.
#[derive(Debug, Clone, PartialEq, Eq)]
pub struct IntegrationRunRequest {
    /// Parent being integrated.
    pub parent_id: WorkItemId,
    /// Tracker-facing identifier of the parent.
    pub parent_identifier: String,
    /// Parent title.
    pub parent_title: String,
    /// Role the run executes under.
    pub owner_role: RoleName,
    /// Merge strategy the owner should use.
    pub merge_strategy: IntegrationMergeStrategy,
    /// Canonical integration workspace.
    pub workspace: IntegrationWorkspace,
    /// Children contributing to the consolidation, in order.
    pub children: Vec<IntegrationChild>,
    /// Policy switches.
    pub gates: IntegrationGates,
    /// Open blockers across the parent's subtree.
    pub open_blocker_count: u32,
    /// Why the queue surfaced the parent.
    pub cause: IntegrationRequestCause,
}

/// Whether the child at position `i` was listed before.
pub open spec fn listed_before(children: Seq<IntegrationChild>, i: int) -> bool {
    exists|j: int| 0 <= j < i && (#[trigger] children[j]).child_id == children[i].child_id
}

/// What is wrong with the child at position `i`, if anything.
pub open spec fn child_error(
    parent_id: WorkItemId,
    children: Seq<IntegrationChild>,
    terminal_only: bool,
    i: int,
) -> Option<IntegrationRequestError> {
    let child = children[i];
    let handoff_error = match child.latest_handoff {
        Some(h) => h.shape_error(),
        None => None,
    };
    if child.child_id == parent_id {
        Some(IntegrationRequestError::SelfConsolidation(child.child_id))
    } else if listed_before(children, i) {
        Some(IntegrationRequestError::DuplicateChild(child.child_id))
    } else if text::is_blank(child.identifier@) {
        Some(IntegrationRequestError::EmptyChildIdentifier(child.child_id))
    } else if handoff_error is Some {
        Some(
            IntegrationRequestError::InvalidChildHandoff {
                child_id: child.child_id,
                source: handoff_error->0,
            },
        )
    } else if terminal_only && !child.status_class.terminal() {
        Some(
            IntegrationRequestError::ChildNotTerminal {
                child_id: child.child_id,
                status_class: child.status_class,
            },
        )
    } else {
        None
    }
}

/// The first thing wrong with the children, if anything.
pub open spec fn children_error(
    parent_id: WorkItemId,
    children: Seq<IntegrationChild>,
    terminal_only: bool,
) -> Option<IntegrationRequestError> {
    checks::first_error(
        children.len(),
        |i: int| child_error(parent_id, children, terminal_only, i),
    )
}

impl IntegrationRunRequest {
    /// Whether the gates and the cause together ask for terminal children.
    pub open spec fn terminal_only(self) -> bool {
        self.gates.require_all_children_terminal && self.cause is AllChildrenTerminal
    }

    /// The first rule that the request breaks, if any.
    pub open spec fn violation(self) -> Option<IntegrationRequestError> {
        if text::is_blank(self.owner_role@) {
            Some(IntegrationRequestError::EmptyOwnerRole)
        } else if text::is_blank(self.parent_identifier@) {
            Some(IntegrationRequestError::EmptyParentIdentifier)
        } else if text::is_blank(self.parent_title@) {
            Some(IntegrationRequestError::EmptyParentTitle)
        } else if self.workspace.path@.len() == 0 {
            Some(IntegrationRequestError::EmptyWorkspacePath)
        } else if text::is_blank(self.workspace.strategy@) {
            Some(IntegrationRequestError::EmptyWorkspaceStrategy)
        } else if children_error(self.parent_id, self.children@, self.terminal_only()) is Some {
            children_error(self.parent_id, self.children@, self.terminal_only())
        } else if self.cause is AllChildrenTerminal && self.children@.len() == 0 {
            Some(IntegrationRequestError::NoChildrenForDecomposed)
        } else if self.gates.require_no_open_blockers && self.open_blocker_count > 0 {
            Some(IntegrationRequestError::OpenBlockersPresent { count: self.open_blocker_count })
        } else {
            None
        }
    }

    /// The request keeps every rule.
    pub open spec fn well_formed(self) -> bool {
        self.violation() is None
    }

    /// Construct a request, or report the first rule that it would break.
    pub fn try_new(
        parent_id: WorkItemId,
        parent_identifier: String,
        parent_title: String,
        owner_role: RoleName,
        merge_strategy: IntegrationMergeStrategy,
        workspace: IntegrationWorkspace,
        children: Vec<IntegrationChild>,
        gates: IntegrationGates,
        open_blocker_count: u32,
        cause: IntegrationRequestCause,
    ) -> (r: Result<Self, IntegrationRequestError>)
        ensures
            ({
                let request = IntegrationRunRequest {
                    parent_id,
                    parent_identifier,
                    parent_title,
                    owner_role,
                    merge_strategy,
                    workspace,
                    children,
                    gates,
                    open_blocker_count,
                    cause,
                };
                match request.violation() {
                    Some(e) => r == Err::<IntegrationRunRequest, IntegrationRequestError>(e),
                    None => r == Ok::<IntegrationRunRequest, IntegrationRequestError>(request),
                }
            }),
    {
        if text::blank(owner_role.as_str()) {
            return Err(IntegrationRequestError::EmptyOwnerRole);
        }
        if text::blank(parent_identifier.as_str()) {
            return Err(IntegrationRequestError::EmptyParentIdentifier);
        }
        if text::blank(parent_title.as_str()) {
            return Err(IntegrationRequestError::EmptyParentTitle);
        }
        if workspace.path.as_str().is_empty() {
            return Err(IntegrationRequestError::EmptyWorkspacePath);
        }
        if text::blank(workspace.strategy.as_str()) {
            return Err(IntegrationRequestError::EmptyWorkspaceStrategy);
        }
        let decomposed: bool = matches!(cause, IntegrationRequestCause::AllChildrenTerminal);
        match check_children(
            parent_id,
            &children,
            gates.require_all_children_terminal && decomposed,
        ) {
            Ok(()) => {},
            Err(e) => return Err(e),
        }
        if decomposed && children.len() == 0 {
            return Err(IntegrationRequestError::NoChildrenForDecomposed);
        }
        if gates.require_no_open_blockers && open_blocker_count > 0 {
            return Err(
                IntegrationRequestError::OpenBlockersPresent { count: open_blocker_count },
            );
        }
        Ok(
            IntegrationRunRequest {
                parent_id,
                parent_identifier,
                parent_title,
                owner_role,
                merge_strategy,
                workspace,
                children,
                gates,
                open_blocker_count,
                cause,
            },
        )
    }

    /// The children, in insertion order.
    pub fn children(&self) -> (c: &Vec<IntegrationChild>)
        ensures
            *c == self.children,
    {
        &self.children
    }

    /// True when at least one child contributes a structured handoff.
    pub fn has_child_handoffs(&self) -> (b: bool)
        ensures
            b == exists|i: int|
                0 <= i < self.children@.len() && (#[trigger] self.children@[i]).latest_handoff is Some,
    {
        for i in 0..self.children.len()
            invariant
                forall|j: int|
                    0 <= j < i ==> (#[trigger] self.children@[j]).latest_handoff is None,
        {
            if self.children[i].latest_handoff.is_some() {
                assert(self.children@[i as int].latest_handoff is Some);
                return true;
            }
        }
        false
    }
}

/// Checks the child at position `i`.
fn check_child(
    parent_id: WorkItemId,
    children: &Vec<IntegrationChild>,
    terminal_only: bool,
    i: usize,
) -> (r: Result<(), IntegrationRequestError>)
    requires
        i < children@.len(),
    ensures
        match child_error(parent_id, children@, terminal_only, i as int) {
            Some(e) => r == Err::<(), IntegrationRequestError>(e),
            None => r is Ok,
        },
{
    let child: &IntegrationChild = &children[i];
    if child.child_id == parent_id {
        return Err(IntegrationRequestError::SelfConsolidation(child.child_id));
    }
    for j in 0..i
        invariant
            i < children@.len(),
            *child == children@[i as int],
            child.child_id != parent_id,
            forall|k: int| 0 <= k < j ==> (#[trigger] children@[k]).child_id != child.child_id,
    {
        if children[j].child_id == child.child_id {
            assert(children@[j as int].child_id == child.child_id);
            return Err(IntegrationRequestError::DuplicateChild(child.child_id));
        }
    }
    if text::blank(child.identifier.as_str()) {
        return Err(IntegrationRequestError::EmptyChildIdentifier(child.child_id));
    }
    match &child.latest_handoff {
        Some(handoff) => match handoff.validate() {
            Ok(()) => {},
            Err(source) => return Err(
                IntegrationRequestError::InvalidChildHandoff { child_id: child.child_id, source },
            ),
        },
        None => {},
    }
    if terminal_only && !child.status_class.is_terminal() {
        return Err(
            IntegrationRequestError::ChildNotTerminal {
                child_id: child.child_id,
                status_class: child.status_class,
            },
        );
    }
    Ok(())
}

fn check_children(
    parent_id: WorkItemId,
    children: &Vec<IntegrationChild>,
    terminal_only: bool,
) -> (r: Result<(), IntegrationRequestError>)
    ensures
        match children_error(parent_id, children@, terminal_only) {
            Some(e) => r == Err::<(), IntegrationRequestError>(e),
            None => r is Ok,
        },
{
    let ghost check = |i: int| child_error(parent_id, children@, terminal_only, i);
    for i in 0..children.len()
        invariant
            check == (|i: int| child_error(parent_id, children@, terminal_only, i)),
            checks::first_error(i as nat, check) is None,
    {
        match check_child(parent_id, children, terminal_only, i) {
            Ok(()) => {},
            Err(e) => {
                proof {
                    checks::lemma_first_error_of_prefix(i as nat + 1, children@.len(), check);
                }
                return Err(e);
            },
        }
    }
    Ok(())
}

/// A well-formed request lists each child once and never its own parent, embeds
/// only valid handoffs, has only terminal children where the gates and the cause
/// ask for that, has a child to consolidate where the cause says so, and has no
/// open blocker where the gates forbid one.
pub proof fn well_formed_requests_pass_their_gates(r: IntegrationRunRequest)
    requires
        r.well_formed(),
    ensures
        forall|i: int, j: int|
            0 <= i < j < r.children@.len() ==> (#[trigger] r.children@[i]).child_id != (
            #[trigger] r.children@[j]).child_id,
        forall|i: int|
            0 <= i < r.children@.len() ==> (#[trigger] r.children@[i]).child_id != r.parent_id,
        forall|i: int|
            0 <= i < r.children@.len() ==> ((#[trigger] r.children@[i]).latest_handoff matches Some(
                h,
            ) ==> h.shape_error() is None),
        r.gates.require_all_children_terminal && r.cause is AllChildrenTerminal ==> forall|i: int|
            0 <= i < r.children@.len() ==> (#[trigger] r.children@[i]).status_class.terminal(),
        r.cause is AllChildrenTerminal ==> r.children@.len() > 0,
        r.gates.require_no_open_blockers ==> r.open_blocker_count == 0,
{
    let children = r.children@;
    let check = |i: int| child_error(r.parent_id, children, r.terminal_only(), i);
    checks::lemma_no_error(children.len(), check);
    assert forall|i: int, j: int| 0 <= i < j < children.len() implies (
    #[trigger] children[i]).child_id != (#[trigger] children[j]).child_id by {
        assert(check(j) is None);
    }
    assert forall|i: int| 0 <= i < children.len() implies child_error(
        r.parent_id,
        children,
        r.terminal_only(),
        i,
    ) is None by {
        assert(check(i) is None);
    }
    assert forall|i: int| 0 <= i < children.len() implies ((#[trigger] children[i]).latest_handoff
        matches Some(h) ==> h.shape_error() is None) by {
        assert(child_error(r.parent_id, children, r.terminal_only(), i) is None);
    }
    assert forall|i: int| 0 <= i < children.len() implies (#[trigger] children[i]).child_id
        != r.parent_id by {
        assert(child_error(r.parent_id, children, r.terminal_only(), i) is None);
    }
    if r.terminal_only() {
        assert forall|i: int| 0 <= i < children.len() implies (
        #[trigger] children[i]).status_class.terminal() by {
            assert(child_error(r.parent_id, children, r.terminal_only(), i) is None);
        }
    }
}

/// Different values of [`IntegrationRequestCause`] have different names.
pub proof fn integration_request_cause_names_are_distinct(a: IntegrationRequestCause, b: IntegrationRequestCause)
    requires
        a.text() == b.text(),
    ensures
        a == b,
{
    reveal_strlit("direct_integration_request");
    assert("direct_integration_request"@.len() == 26);
    reveal_strlit("all_children_terminal");
    assert("all_children_terminal"@.len() == 21);
}

/// Every value of [`IntegrationRequestCause`] is listed.
pub proof fn every_integration_request_cause_is_listed(value: IntegrationRequestCause)
    ensures
        IntegrationRequestCause::ALL@.contains(value),
{
    let all = IntegrationRequestCause::ALL@;
    assert(all[0] == IntegrationRequestCause::DirectIntegrationRequest);
    assert(all[1] == IntegrationRequestCause::AllChildrenTerminal);
}

/// A name stands for one value of [`IntegrationRequestCause`], the one it says.
pub proof fn integration_request_cause_names_say_their_value(value: IntegrationRequestCause)
    ensures
        value.text() == "direct_integration_request"@ <==> value is DirectIntegrationRequest,
        value.text() == "all_children_terminal"@ <==> value is AllChildrenTerminal,
{
    if value.text() == "direct_integration_request"@ {
        integration_request_cause_names_are_distinct(value, IntegrationRequestCause::DirectIntegrationRequest);
    }
    if value.text() == "all_children_terminal"@ {
        integration_request_cause_names_are_distinct(value, IntegrationRequestCause::AllChildrenTerminal);
    }
}

/// Which requests are accepted, and which error any other one gets, in the order in which
/// the rules are looked at. What is wrong with the children has a law of its own.
pub proof fn the_first_broken_rule_of_a_request_is_reported(r: IntegrationRunRequest)
    ensures
        ({
            let ownerless = text::is_blank(r.owner_role@);
            let unidentified = text::is_blank(r.parent_identifier@);
            let untitled = text::is_blank(r.parent_title@);
            let pathless = r.workspace.path@.len() == 0;
            let unplanned = text::is_blank(r.workspace.strategy@);
            let faulty = children_error(
                r.parent_id,
                r.children@,
                r.gates.require_all_children_terminal && r.cause
                    == IntegrationRequestCause::AllChildrenTerminal,
            ) is Some;
            let childless = r.cause == IntegrationRequestCause::AllChildrenTerminal
                && r.children@.len() == 0;
            let held_up = r.gates.require_no_open_blockers && r.open_blocker_count > 0;
            &&& r.violation() is None <==> !ownerless && !unidentified && !untitled && !pathless
                && !unplanned && !faulty && !childless && !held_up
            &&& r.violation() == Some(IntegrationRequestError::EmptyOwnerRole) <==> ownerless
            &&& r.violation() == Some(IntegrationRequestError::EmptyParentIdentifier)
                <==> !ownerless && unidentified
            &&& r.violation() == Some(IntegrationRequestError::EmptyParentTitle) <==> !ownerless
                && !unidentified && untitled
            &&& r.violation() == Some(IntegrationRequestError::EmptyWorkspacePath) <==> !ownerless
                && !unidentified && !untitled && pathless
            &&& r.violation() == Some(IntegrationRequestError::EmptyWorkspaceStrategy)
                <==> !ownerless && !unidentified && !untitled && !pathless && unplanned
            &&& (r.violation() is Some && r.violation() == children_error(
                r.parent_id,
                r.children@,
                r.gates.require_all_children_terminal && r.cause
                    == IntegrationRequestCause::AllChildrenTerminal,
            )) <==> !ownerless && !unidentified && !untitled && !pathless && !unplanned && faulty
            &&& r.violation() == Some(IntegrationRequestError::NoChildrenForDecomposed)
                <==> !ownerless && !unidentified && !untitled && !pathless && !unplanned && !faulty
                && childless
            &&& (r.violation() == Some(
                IntegrationRequestError::OpenBlockersPresent { count: r.open_blocker_count },
            )) <==> !ownerless && !unidentified && !untitled && !pathless && !unplanned && !faulty
                && !childless && held_up
        }),
{
    let terminal_only = r.gates.require_all_children_terminal && r.cause
        == IntegrationRequestCause::AllChildrenTerminal;
    assert(r.terminal_only() == terminal_only);
    let at = the_first_faulty_child_is_reported(r.parent_id, r.children@, terminal_only);
}

/// A faulty list of children is told by its first faulty child, which is named: it is the
/// parent, was listed before, has no identifier, has a malformed handoff, or is not
/// terminal where that is asked for; what comes first in this list is told.
pub proof fn the_first_faulty_child_is_reported(
    parent_id: WorkItemId,
    children: Seq<IntegrationChild>,
    terminal_only: bool,
) -> (at: int)
    ensures
        ({
            let found = children_error(parent_id, children, terminal_only);
            &&& found is None <==> at == children.len()
            &&& 0 <= at <= children.len()
            &&& forall|i: int|
                0 <= i < at ==> {
                    &&& (#[trigger] children[i]).child_id != parent_id
                    &&& !text::is_blank(children[i].identifier@)
                    &&& children[i].latest_handoff matches Some(h) ==> h.shape_error() is None
                    &&& terminal_only ==> children[i].status_class == WorkItemStatusClass::Done
                        || children[i].status_class == WorkItemStatusClass::Cancelled
                }
            &&& forall|i: int, j: int|
                0 <= j < i < at ==> (#[trigger] children[j]).child_id != (
                #[trigger] children[i]).child_id
            &&& at < children.len() ==> {
                let child = children[at];
                let own = child.child_id == parent_id;
                let repeated = exists|j: int|
                    0 <= j < at && (#[trigger] children[j]).child_id == child.child_id;
                let unidentified = text::is_blank(child.identifier@);
                let malformed = child.latest_handoff is Some
                    && child.latest_handoff->0.shape_error() is Some;
                let open = terminal_only && child.status_class != WorkItemStatusClass::Done
                    && child.status_class != WorkItemStatusClass::Cancelled;
                &&& own || repeated || unidentified || malformed || open
                &&& (found == Some(IntegrationRequestError::SelfConsolidation(child.child_id)))
                    <==> own
                &&& (found == Some(IntegrationRequestError::DuplicateChild(child.child_id)))
                    <==> !own
                    && repeated
                &&& (found == Some(IntegrationRequestError::EmptyChildIdentifier(child.child_id)))
                    <==> !own && !repeated && unidentified
                &&& (found == Some(
                    IntegrationRequestError::InvalidChildHandoff {
                        child_id: child.child_id,
                        source: child.latest_handoff->0.shape_error()->0,
                    },
                )) <==> !own && !repeated && !unidentified && malformed
                &&& (found == Some(
                    IntegrationRequestError::ChildNotTerminal {
                        child_id: child.child_id,
                        status_class: child.status_class,
                    },
                )) <==> !own && !repeated && !unidentified && !malformed && open
            }
            &&& found matches Some(e) ==> !(e is EmptyOwnerRole) && !(e is EmptyParentIdentifier)
                && !(e is EmptyParentTitle) && !(e is EmptyWorkspacePath) && !(e
                is EmptyWorkspaceStrategy) && !(e is NoChildrenForDecomposed) && !(e
                is OpenBlockersPresent)
        }),
{
    let check = |i: int| child_error(parent_id, children, terminal_only, i);
    let at = checks::first_errors_are_of_the_first_failure(children.len(), check);
    assert forall|i: int| 0 <= i < at implies {
        &&& (#[trigger] children[i]).child_id != parent_id
        &&& !text::is_blank(children[i].identifier@)
        &&& children[i].latest_handoff matches Some(h) ==> h.shape_error() is None
        &&& terminal_only ==> children[i].status_class == WorkItemStatusClass::Done
            || children[i].status_class == WorkItemStatusClass::Cancelled
    } by {
        assert(check(i) is None);
    }
    assert forall|i: int, j: int| 0 <= j < i < at implies (#[trigger] children[j]).child_id != (
    #[trigger] children[i]).child_id by {
        assert(check(i) is None);
        assert(!listed_before(children, i));
    }
    if at < children.len() {
        assert(check(at) == children_error(parent_id, children, terminal_only));
    }
    at
}

} // verus!
