//! The parent-close guard.
//!
//! A parent may not close while a required child is unfinished. Children that
//! the integration owner waived (`required = false`) are ignored.
use crate::text;
use crate::work_item::{WorkItemId, WorkItemStatusClass};
use vstd::prelude::*;

verus! {

/// What the guard needs to know of a child.
#[derive(Debug, PartialEq, Eq)]
pub struct ChildSnapshot {
    /// Primary key of the child.
    pub id: WorkItemId,
    /// Human-facing tracker identifier.
    pub identifier: String,
    /// Status class of the child at snapshot time.
    pub status_class: WorkItemStatusClass,
    /// True when the child must be terminal before the parent may close.
    pub required: bool,
}

impl Clone for ChildSnapshot {
    fn clone(&self) -> (copy: Self)
        ensures
            copy == *self,
    {
        ChildSnapshot {
            id: self.id,
            identifier: self.identifier.clone(),
            status_class: self.status_class,
            required: self.required,
        }
    }
}

impl ChildSnapshot {
    /// A required child that is not terminal.
    pub open spec fn outstanding(self) -> bool {
        self.required && !self.status_class.terminal()
    }
}

/// Errors produced by [`check_parent_can_close`].
#[derive(Debug, Clone, PartialEq, Eq)]
pub enum ParentCloseError {
    /// The proposed status class is not terminal.
    TargetNotTerminal(WorkItemStatusClass),
    /// At least one required child is not terminal.
    ChildrenNotTerminal {
        /// Those children, in the order given.
        non_terminal: Vec<ChildSnapshot>,
    },
}

impl ParentCloseError {
    /// Operator-facing message.
    pub fn to_string(&self) -> (s: String)
        ensures
            match self {
                ParentCloseError::TargetNotTerminal(class) => s@ == "target status class `"@
                    + class.text() + "` is not a terminal class"@,
                ParentCloseError::ChildrenNotTerminal { non_terminal } => s@ == text::decimal(
                    non_terminal@.len(),
                ) + " required child(ren) still non-terminal"@,
            },
    {
        match self {
            ParentCloseError::TargetNotTerminal(class) => {
                let mut out: String = "target status class `".to_owned();
                out.append(class.as_str());
                out.append("` is not a terminal class");
                out
            },
            ParentCloseError::ChildrenNotTerminal { non_terminal } => {
                let mut out: String = String::new();
                text::append_decimal(&mut out, non_terminal.len() as u64);
                assert(out@ =~= text::decimal(non_terminal@.len()));
                out.append(" required child(ren) still non-terminal");
                out
            },
        }
    }
}

/// The children that hold a parent back, in order.
pub open spec fn held_back_by(children: Seq<ChildSnapshot>) -> Seq<ChildSnapshot> {
    children.filter(|c: ChildSnapshot| c.outstanding())
}

/// Whether a parent with these children may move to `target`.
pub open spec fn may_close(target: WorkItemStatusClass, children: Seq<ChildSnapshot>) -> bool {
    target.terminal() && held_back_by(children).len() == 0
}

/// Whether a parent with these children may move to `target`: the target is
/// terminal, and so is every required child.
pub fn check_parent_can_close(target: WorkItemStatusClass, children: &[ChildSnapshot]) -> (r:
    Result<(), ParentCloseError>)
    ensures
        r is Ok <==> may_close(target, children@),
        r matches Err(ParentCloseError::ChildrenNotTerminal { non_terminal }) ==> non_terminal@
            == held_back_by(children@),
        match r {
            Ok(()) => target.terminal() && forall|i: int|
                0 <= i < children@.len() ==> !(#[trigger] children@[i]).outstanding(),
            Err(ParentCloseError::TargetNotTerminal(class)) => class == target
                && !target.terminal(),
            Err(ParentCloseError::ChildrenNotTerminal { non_terminal }) => {
                &&& target.terminal()
                &&& non_terminal@.len() > 0
                &&& non_terminal@ == children@.filter(|c: ChildSnapshot| c.outstanding())
            },
        },
{
    if !target.is_terminal() {
        return Err(ParentCloseError::TargetNotTerminal(target));
    }
    let ghost outstanding = |c: ChildSnapshot| c.outstanding();
    let mut non_terminal: Vec<ChildSnapshot> = Vec::new();
    assert(children@.take(0).filter(outstanding) =~= Seq::<ChildSnapshot>::empty()) by {
        reveal(Seq::filter);
    }
    for i in 0..children.len()
        invariant
            outstanding == (|c: ChildSnapshot| c.outstanding()),
            non_terminal@ == children@.take(i as int).filter(outstanding),
            non_terminal@.len() == 0 ==> forall|j: int|
                0 <= j < i ==> !(#[trigger] children@[j]).outstanding(),
    {
        proof {
            children@.take(i as int).lemma_filter_push(children@[i as int], outstanding);
            assert(children@.take(i + 1) =~= children@.take(i as int).push(children@[i as int]));
        }
        let child: &ChildSnapshot = &children[i];
        if child.required && !child.status_class.is_terminal() {
            non_terminal.push(child.clone());
        }
    }
    assert(children@.take(children@.len() as int) =~= children@);
    if non_terminal.len() > 0 {
        return Err(ParentCloseError::ChildrenNotTerminal { non_terminal });
    }
    Ok(())
}

/// A parent may close into a terminal class exactly when each of its required children is
/// done or cancelled; waived children make no difference.
pub proof fn required_children_hold_the_parent(
    target: WorkItemStatusClass,
    children: Seq<ChildSnapshot>,
)
    ensures
        may_close(target, children) <==> (target == WorkItemStatusClass::Done || target
            == WorkItemStatusClass::Cancelled) && forall|i: int|
            0 <= i < children.len() ==> ((#[trigger] children[i]).required
                ==> children[i].status_class == WorkItemStatusClass::Done
                || children[i].status_class == WorkItemStatusClass::Cancelled),
{
    let outstanding = |c: ChildSnapshot| c.outstanding();
    lemma_filter_finds(children, outstanding);
    if held_back_by(children).len() == 0 {
        assert forall|i: int| 0 <= i < children.len() implies ((#[trigger] children[i]).required
            ==> children[i].status_class == WorkItemStatusClass::Done || children[i].status_class
            == WorkItemStatusClass::Cancelled) by {
            assert(!outstanding(children[i]));
        }
    } else {
        let i = choose|i: int| 0 <= i < children.len() && outstanding(#[trigger] children[i]);
        assert(children[i].outstanding());
    }
}

proof fn lemma_filter_finds(children: Seq<ChildSnapshot>, f: spec_fn(ChildSnapshot) -> bool)
    ensures
        children.filter(f).len() == 0 <==> forall|i: int|
            0 <= i < children.len() ==> !f(#[trigger] children[i]),
    decreases children.len(),
{
    reveal(Seq::filter);
    if children.len() > 0 {
        let init = children.drop_last();
        lemma_filter_finds(init, f);
        if children.filter(f).len() == 0 {
            assert forall|i: int| 0 <= i < children.len() implies !f(#[trigger] children[i]) by {
                if i < init.len() {
                    assert(!f(init[i]));
                }
            }
        } else if init.filter(f).len() > 0 {
            let i = choose|i: int| 0 <= i < init.len() && f(#[trigger] init[i]);
            assert(f(children[i]));
        } else {
            assert(f(children[children.len() - 1]));
        }
    }
}

/// What holds a parent back: its required children that are neither done nor cancelled, in
/// their order.
pub proof fn unfinished_required_children_are_listed(children: Seq<ChildSnapshot>)
    ensures
        held_back_by(children) == children.filter(
            |c: ChildSnapshot|
                c.required && c.status_class != WorkItemStatusClass::Done && c.status_class
                    != WorkItemStatusClass::Cancelled,
        ),
{
    let outstanding = |c: ChildSnapshot| c.outstanding();
    let unfinished = |c: ChildSnapshot|
        c.required && c.status_class != WorkItemStatusClass::Done && c.status_class
            != WorkItemStatusClass::Cancelled;
    assert(outstanding =~= unfinished);
}

} // verus!
