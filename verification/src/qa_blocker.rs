//! Blockers filed by quality assurance.
//!
//! A failing verdict's blocker requests become [`QaBlockerSpec`]s, which become
//! durable blockers once the storage layer has assigned ids. A request that does
//! not say what causes the block is refused: it has to be filed as a follow-up
//! first.
use crate::blocker::{Blocker, BlockerError, BlockerId, BlockerOrigin, BlockerSeverity, RunRef};
use crate::checks;
use crate::handoff::HandoffBlockerRequest;
use crate::role::RoleName;
use crate::text;
use crate::work_item::WorkItemId;
use vstd::prelude::*;

verus! {

/// A blocker before it has an id.
#[derive(Debug, Clone, PartialEq, Eq)]
pub struct QaBlockerSpec {
    /// Work item that causes the block.
    pub blocking_id: WorkItemId,
    /// Work item that waits: the target of the run.
    pub blocked_id: WorkItemId,
    /// Operator-facing reason.
    pub reason: String,
    /// Run and role that filed it.
    pub origin: BlockerOrigin,
    /// Severity hint.
    pub severity: BlockerSeverity,
}

impl QaBlockerSpec {
    /// Finalise into a durable blocker.
    pub fn into_blocker(self, id: BlockerId) -> (r: Result<Blocker, BlockerError>)
        ensures
            match crate::blocker::blocker_error(self.blocking_id, self.blocked_id, self.reason@) {
                Some(e) => r == Err::<Blocker, BlockerError>(e),
                None => r == Ok::<Blocker, BlockerError>(
                    Blocker {
                        id,
                        blocking_id: self.blocking_id,
                        blocked_id: self.blocked_id,
                        reason: self.reason,
                        origin: self.origin,
                        severity: self.severity,
                        status: crate::blocker::BlockerStatus::Open,
                    },
                ),
            },
    {
        Blocker::try_new(
            id,
            self.blocking_id,
            self.blocked_id,
            self.reason,
            self.origin,
            self.severity,
        )
    }
}

/// Why [`derive_qa_blockers`] rejected a request.
#[derive(Debug, Clone, Copy, PartialEq, Eq, Structural)]
pub enum QaBlockerError {
    /// The request does not name the work item that causes the block.
    MissingBlockingId {
        /// Position in the input.
        index: usize,
    },
    /// The reason is empty or blank.
    EmptyReason {
        /// Position in the input.
        index: usize,
    },
    /// The target cannot block itself.
    SelfBlock {
        /// Position in the input.
        index: usize,
        /// The target.
        work_item: WorkItemId,
    },
}

/// What is wrong with the request at position `i`, if anything.
pub open spec fn request_error(
    work_item_id: WorkItemId,
    requests: Seq<HandoffBlockerRequest>,
    i: int,
) -> Option<QaBlockerError> {
    if text::is_blank(requests[i].reason@) {
        Some(QaBlockerError::EmptyReason { index: i as usize })
    } else if requests[i].blocking_id is None {
        Some(QaBlockerError::MissingBlockingId { index: i as usize })
    } else if requests[i].blocking_id == Some(work_item_id) {
        Some(QaBlockerError::SelfBlock { index: i as usize, work_item: work_item_id })
    } else {
        None
    }
}

/// The first thing wrong with the requests, if anything.
pub open spec fn requests_error(
    work_item_id: WorkItemId,
    requests: Seq<HandoffBlockerRequest>,
) -> Option<QaBlockerError> {
    checks::first_error(requests.len(), |i: int| request_error(work_item_id, requests, i))
}

/// The blocker that a sound request stands for.
pub open spec fn derived_blocker(
    work_item_id: WorkItemId,
    run_id: RunRef,
    qa_role: RoleName,
    request: HandoffBlockerRequest,
) -> QaBlockerSpec {
    QaBlockerSpec {
        blocking_id: request.blocking_id->0,
        blocked_id: work_item_id,
        reason: request.reason,
        origin: BlockerOrigin::Run { run_id, role: Some(qa_role) },
        severity: request.severity,
    }
}

/// Derive blockers from a verdict's requests, or report the first bad request.
pub fn derive_qa_blockers(
    work_item_id: WorkItemId,
    run_id: RunRef,
    qa_role: &RoleName,
    requests: &[HandoffBlockerRequest],
) -> (r: Result<Vec<QaBlockerSpec>, QaBlockerError>)
    ensures
        match requests_error(work_item_id, requests@) {
            Some(e) => r == Err::<Vec<QaBlockerSpec>, QaBlockerError>(e),
            None => r is Ok && r->Ok_0@ == requests@.map_values(
                |q: HandoffBlockerRequest| derived_blocker(work_item_id, run_id, *qa_role, q),
            ),
        },
{
    let ghost check = |i: int| request_error(work_item_id, requests@, i);
    let mut specs: Vec<QaBlockerSpec> = Vec::new();
    for i in 0..requests.len()
        invariant
            check == (|i: int| request_error(work_item_id, requests@, i)),
            checks::first_error(i as nat, check) is None,
            specs@.len() == i,
            forall|j: int|
                0 <= j < i ==> #[trigger] specs@[j] == derived_blocker(
                    work_item_id,
                    run_id,
                    *qa_role,
                    requests@[j],
                ),
    {
        let request: &HandoffBlockerRequest = &requests[i];
        proof {
            if check(i as int) is Some {
                checks::lemma_first_error_of_prefix(i as nat + 1, requests@.len(), check);
            }
        }
        if text::blank(request.reason.as_str()) {
            return Err(QaBlockerError::EmptyReason { index: i });
        }
        let blocking_id: WorkItemId = match request.blocking_id {
            Some(id) => id,
            None => return Err(QaBlockerError::MissingBlockingId { index: i }),
        };
        if blocking_id == work_item_id {
            return Err(QaBlockerError::SelfBlock { index: i, work_item: work_item_id });
        }
        specs.push(
            QaBlockerSpec {
                blocking_id,
                blocked_id: work_item_id,
                reason: request.reason.clone(),
                origin: BlockerOrigin::Run { run_id, role: Some(qa_role.clone()) },
                severity: request.severity,
            },
        );
    }
    assert(specs@ =~= requests@.map_values(
        |q: HandoffBlockerRequest| derived_blocker(work_item_id, run_id, *qa_role, q),
    ));
    Ok(specs)
}

/// Every derived blocker can be finalised: derivation refuses whatever a durable
/// blocker would refuse.
pub proof fn derived_blockers_finalise(
    work_item_id: WorkItemId,
    run_id: RunRef,
    qa_role: RoleName,
    requests: Seq<HandoffBlockerRequest>,
    i: int,
)
    requires
        requests_error(work_item_id, requests) is None,
        0 <= i < requests.len(),
    ensures
        ({
            let derived = derived_blocker(work_item_id, run_id, qa_role, requests[i]);
            crate::blocker::blocker_error(
                derived.blocking_id,
                derived.blocked_id,
                derived.reason@,
            ) is None
        }),
{
    let check = |i: int| request_error(work_item_id, requests, i);
    checks::lemma_no_error(requests.len(), check);
    assert(check(i) is None);
}

/// Which requests become blockers, and which error any other one gets, with its position.
pub proof fn the_first_thing_wrong_with_a_request_is_reported(
    work_item_id: WorkItemId,
    requests: Seq<HandoffBlockerRequest>,
    i: int,
)
    ensures
        ({
            let found = request_error(work_item_id, requests, i);
            let index = i as usize;
            let unexplained = text::is_blank(requests[i].reason@);
            let causeless = requests[i].blocking_id is None;
            let looped = requests[i].blocking_id is Some
                && requests[i].blocking_id->0 == work_item_id;
            &&& found is None <==> !unexplained && !causeless && !looped
            &&& (found == Some(QaBlockerError::EmptyReason { index })) <==> unexplained
            &&& (found == Some(QaBlockerError::MissingBlockingId { index })) <==> !unexplained
                && causeless
            &&& (found == Some(QaBlockerError::SelfBlock { index, work_item: work_item_id }))
                <==> !unexplained && !causeless && looped
        }),
{
}

/// A list with a bad request is refused by its first one; a list of good ones is not
/// refused.
pub proof fn the_first_bad_request_is_reported(
    work_item_id: WorkItemId,
    requests: Seq<HandoffBlockerRequest>,
) -> (at: int)
    ensures
        0 <= at <= requests.len(),
        at < requests.len() ==> requests_error(work_item_id, requests) is Some && requests_error(
            work_item_id,
            requests,
        ) == request_error(work_item_id, requests, at),
        at == requests.len() ==> requests_error(work_item_id, requests) is None,
        forall|i: int|
            0 <= i < at ==> (#[trigger] request_error(work_item_id, requests, i)) is None,
{
    let check = |i: int| request_error(work_item_id, requests, i);
    let at = checks::first_errors_are_of_the_first_failure(requests.len(), check);
    assert forall|i: int| 0 <= i < at implies (#[trigger] request_error(
        work_item_id,
        requests,
        i,
    )) is None by {
        assert(check(i) is None);
    }
    if at < requests.len() {
        assert(check(at) is Some);
    }
    at
}

/// A derived blocker blocks the target of the run, by the item that the request names, for
/// its reason and with its severity, in the name of the run and its role.
pub proof fn derived_blockers_say_what_was_asked(
    work_item_id: WorkItemId,
    run_id: RunRef,
    qa_role: RoleName,
    request: HandoffBlockerRequest,
)
    ensures
        ({
            let derived = derived_blocker(work_item_id, run_id, qa_role, request);
            &&& derived.blocked_id == work_item_id
            &&& request.blocking_id matches Some(cause) ==> derived.blocking_id == cause
            &&& derived.reason@ == request.reason@
            &&& derived.severity == request.severity
            &&& derived.origin matches BlockerOrigin::Run { run_id: run, role } && run == run_id
                && role == Some(qa_role)
        }),
{
}

} // verus!
