//! Cooperative cancellation of dispatches that have not started.
use crate::blocker::RunRef;
use crate::work_item::WorkItemId;
use vstd::prelude::*;

verus! {

/// What a cancellation is aimed at.
#[derive(Debug, Clone, Copy, PartialEq, Eq, Structural)]
pub enum CancelSubject {
    /// One run.
    Run(RunRef),
    /// A work item and whatever runs for it.
    WorkItem(WorkItemId),
}

/// A pending cancellation.
#[derive(Debug, PartialEq, Eq)]
pub struct CancelRequest {
    /// What it is aimed at.
    pub subject: CancelSubject,
    /// Operator-facing reason.
    pub reason: String,
    /// Who asked for it.
    pub requested_by: String,
    /// When.
    pub requested_at: String,
}

impl Clone for CancelRequest {
    fn clone(&self) -> (copy: Self)
        ensures
            copy == *self,
    {
        CancelRequest {
            subject: self.subject,
            reason: self.reason.clone(),
            requested_by: self.requested_by.clone(),
            requested_at: self.requested_at.clone(),
        }
    }
}

impl CancelRequest {
    /// A cancellation of one run.
    pub fn for_run(run: RunRef, reason: &str, requested_by: &str, requested_at: &str) -> (r: Self)
        ensures
            r.subject == CancelSubject::Run(run),
            r.reason@ == reason@,
            r.requested_by@ == requested_by@,
            r.requested_at@ == requested_at@,
    {
        CancelRequest {
            subject: CancelSubject::Run(run),
            reason: reason.to_owned(),
            requested_by: requested_by.to_owned(),
            requested_at: requested_at.to_owned(),
        }
    }

    /// A cancellation of a work item.
    pub fn for_work_item(
        item: WorkItemId,
        reason: &str,
        requested_by: &str,
        requested_at: &str,
    ) -> (r: Self)
        ensures
            r.subject == CancelSubject::WorkItem(item),
            r.reason@ == reason@,
            r.requested_by@ == requested_by@,
            r.requested_at@ == requested_at@,
    {
        CancelRequest {
            subject: CancelSubject::WorkItem(item),
            reason: reason.to_owned(),
            requested_by: requested_by.to_owned(),
            requested_at: requested_at.to_owned(),
        }
    }
}

/// The cancellation that a dispatch has to honour, if any.
pub open spec fn honoured(
    for_run: Option<CancelRequest>,
    for_work_item: Option<CancelRequest>,
) -> Option<CancelRequest> {
    if for_run is Some {
        for_run
    } else {
        for_work_item
    }
}

/// The cancellation that a dispatch has to honour, if any: one aimed at its run
/// comes before one aimed at the work item behind it.
pub fn observed_cancellation(
    for_run: Option<CancelRequest>,
    for_work_item: Option<CancelRequest>,
) -> (r: Option<CancelRequest>)
    ensures
        r == honoured(for_run, for_work_item),
        r == (if for_run is Some {
            for_run
        } else {
            for_work_item
        }),
{
    match for_run {
        Some(request) => Some(request),
        None => for_work_item,
    }
}

/// A pending cancellation is always honoured, the one for the run first, and nothing else
/// is.
pub proof fn pending_cancellations_are_honoured(
    for_run: Option<CancelRequest>,
    for_work_item: Option<CancelRequest>,
)
    ensures
        honoured(for_run, for_work_item) is None <==> for_run is None && for_work_item is None,
        for_run matches Some(request) ==> honoured(for_run, for_work_item) == Some(request),
        for_run is None ==> honoured(for_run, for_work_item) == for_work_item,
{
}

} // verus!
