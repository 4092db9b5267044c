//! Run leases: what a dispatch does about its lease, and what comes of it.
use crate::blocker::RunRef;
use vstd::prelude::*;

verus! {

/// What a lease store answers to an acquisition.
#[derive(Debug, Clone, PartialEq, Eq)]
pub enum LeaseAcquireOutcome {
    /// The lease is held now.
    Acquired,
    /// Another owner holds an unexpired lease.
    Contended {
        /// Who holds it.
        holder: String,
        /// Until when.
        expires_at: String,
    },
    /// There is no such run row.
    NotFound,
}

/// What came of renewing a lease.
#[derive(Debug, Clone, PartialEq, Eq)]
pub enum HeartbeatPulseObservation {
    /// Renewed.
    Renewed,
    /// Another owner holds it.
    Contended {
        /// Who holds it.
        holder: String,
        /// Until when.
        expires_at: String,
    },
    /// There is no such run row.
    NotFound,
    /// The store failed.
    BackendError {
        /// What it said.
        message: String,
    },
}

/// What a dispatch has to do about its lease.
#[derive(Debug, Clone, Copy, PartialEq, Eq, Structural)]
pub enum LeasePlan {
    /// No leasing is wired; go on without.
    Unwired,
    /// The request reserved no run; go on without.
    Skipped,
    /// Acquire the lease of this run first.
    Acquire(RunRef),
}

/// What a dispatch has to do about its lease: acquire it, where leasing is wired and
/// the request reserved a run.
pub open spec fn plan_of(leasing_wired: bool, run_id: Option<RunRef>) -> LeasePlan {
    if !leasing_wired {
        LeasePlan::Unwired
    } else {
        match run_id {
            Some(run) => LeasePlan::Acquire(run),
            None => LeasePlan::Skipped,
        }
    }
}

/// What a dispatch has to do about its lease.
pub fn lease_plan(leasing_wired: bool, run_id: Option<RunRef>) -> (p: LeasePlan)
    ensures
        p == plan_of(leasing_wired, run_id),
{
    if !leasing_wired {
        return LeasePlan::Unwired;
    }
    match run_id {
        Some(run) => LeasePlan::Acquire(run),
        None => LeasePlan::Skipped,
    }
}

/// What came of trying for a lease.
#[derive(Debug, Clone, Copy, PartialEq, Eq, Structural)]
pub enum LeaseAttempt {
    /// The dispatch may go ahead.
    Acquired,
    /// Another owner holds the lease; try again later.
    Contended,
    /// The run row is missing; give up.
    NotFound,
    /// The store failed; try again later.
    BackendError,
}

/// What the store's answer means for the dispatch.
pub open spec fn attempt_of(answer: Result<LeaseAcquireOutcome, String>) -> LeaseAttempt {
    match answer {
        Ok(LeaseAcquireOutcome::Acquired) => LeaseAttempt::Acquired,
        Ok(LeaseAcquireOutcome::Contended { .. }) => LeaseAttempt::Contended,
        Ok(LeaseAcquireOutcome::NotFound) => LeaseAttempt::NotFound,
        Err(_) => LeaseAttempt::BackendError,
    }
}

/// What the store's answer means for the dispatch.
pub fn classify_lease(answer: &Result<LeaseAcquireOutcome, String>) -> (a: LeaseAttempt)
    ensures
        a == attempt_of(*answer),
{
    match answer {
        Ok(LeaseAcquireOutcome::Acquired) => LeaseAttempt::Acquired,
        Ok(LeaseAcquireOutcome::Contended { .. }) => LeaseAttempt::Contended,
        Ok(LeaseAcquireOutcome::NotFound) => LeaseAttempt::NotFound,
        Err(_) => LeaseAttempt::BackendError,
    }
}

/// A lease is to be acquired exactly where leasing is wired and the request reserved a run,
/// and then that of the run.
pub proof fn reserved_runs_are_leased(leasing_wired: bool, run_id: Option<RunRef>)
    ensures
        plan_of(leasing_wired, run_id) matches LeasePlan::Acquire(run) ==> leasing_wired && run_id
            == Some(run),
        leasing_wired && run_id is Some ==> plan_of(leasing_wired, run_id) is Acquire,
        plan_of(leasing_wired, run_id) == LeasePlan::Unwired <==> !leasing_wired,
        plan_of(leasing_wired, run_id) == LeasePlan::Skipped <==> leasing_wired && run_id is None,
{
}

/// An attempt counts as acquired, contended or missing exactly where the store says so, and
/// as a failure of the store exactly where the store failed.
pub proof fn attempts_follow_the_answer(answer: Result<LeaseAcquireOutcome, String>)
    ensures
        attempt_of(answer) == LeaseAttempt::Acquired <==> answer == Ok::<
            LeaseAcquireOutcome,
            String,
        >(LeaseAcquireOutcome::Acquired),
        attempt_of(answer) == LeaseAttempt::Contended <==> (answer matches Ok(outcome) && outcome
            is Contended),
        attempt_of(answer) == LeaseAttempt::NotFound <==> answer == Ok::<
            LeaseAcquireOutcome,
            String,
        >(LeaseAcquireOutcome::NotFound),
        attempt_of(answer) == LeaseAttempt::BackendError <==> answer is Err,
{
}

} // verus!
