//! Intake: once per cadence the tracker is asked for its active issues, and the
//! answer becomes the active set that the other queues read.
use crate::logical_queue::{LogicalQueue, QueueTickOutcome};
use crate::queue_tick::QueueTickCadence;
use crate::tracker::{Issue, TrackerError};
use vstd::prelude::*;

verus! {

/// The latest active set.
#[derive(Debug)]
pub struct ActiveSetStore {
    issues: Vec<Issue>,
}

impl View for ActiveSetStore {
    type V = Seq<Issue>;

    closed spec fn view(&self) -> Seq<Issue> {
        self.issues@
    }
}

impl Default for ActiveSetStore {
    fn default() -> (r: Self)
        ensures
            r@.len() == 0,
    {
        ActiveSetStore::new()
    }
}

impl ActiveSetStore {
    /// An empty store.
    pub fn new() -> (r: Self)
        ensures
            r@.len() == 0,
    {
        ActiveSetStore { issues: Vec::new() }
    }

    /// A copy of the current snapshot.
    pub fn snapshot(&self) -> (issues: Vec<Issue>)
        ensures
            issues@ == self@,
    {
        let issues: Vec<Issue> = self.issues.clone();
        assert(issues@ =~= self.issues@);
        issues
    }

    /// Number of issues in the latest snapshot.
    pub fn len(&self) -> (n: usize)
        ensures
            n == self@.len(),
    {
        self.issues.len()
    }

    /// True when the latest snapshot is empty.
    pub fn is_empty(&self) -> (b: bool)
        ensures
            b == (self@.len() == 0),
    {
        self.issues.len() == 0
    }

    /// Replace the snapshot wholesale.
    pub fn replace(&mut self, issues: Vec<Issue>)
        ensures
            final(self)@ == issues@,
    {
        self.issues = issues;
    }
}

/// The intake queue.
#[derive(Debug)]
pub struct IntakeQueueTick {
    active_set: ActiveSetStore,
    cadence: QueueTickCadence,
}

impl IntakeQueueTick {
    /// The active set that the tick publishes into.
    pub closed spec fn active(&self) -> Seq<Issue> {
        self.active_set@
    }

    /// The configured cadence.
    pub closed spec fn configured_cadence(&self) -> QueueTickCadence {
        self.cadence
    }

    /// What a tick does with the tracker's answer: a good one becomes the active set, and
    /// a failed one changes nothing.
    pub open spec fn ticks_to(
        &self,
        after: &Self,
        fetched: Result<Vec<Issue>, TrackerError>,
        outcome: QueueTickOutcome,
    ) -> bool {
        let seen: usize = match fetched {
            Ok(issues) => issues.len(),
            Err(_) => 0,
        };
        &&& after.configured_cadence() == self.configured_cadence()
        &&& after.active() == (match fetched {
            Ok(issues) => issues@,
            Err(_) => self.active(),
        })
        &&& outcome == (QueueTickOutcome {
            queue: LogicalQueue::Intake,
            considered: seen,
            processed: seen,
            deferred: 0,
            errors: if fetched is Ok {
                0
            } else {
                1
            },
        })
    }

    /// An intake tick that publishes into `active_set`.
    pub fn new(active_set: ActiveSetStore, cadence: QueueTickCadence) -> (r: Self)
        ensures
            r.active() == active_set@,
            r.configured_cadence() == cadence,
    {
        IntakeQueueTick { active_set, cadence }
    }

    /// The active set.
    pub fn active_set(&self) -> (s: &ActiveSetStore)
        ensures
            s@ == self.active(),
    {
        &self.active_set
    }

    /// The queue that this tick serves.
    pub fn queue(&self) -> (q: LogicalQueue)
        ensures
            q == LogicalQueue::Intake,
    {
        LogicalQueue::Intake
    }

    /// The configured cadence.
    pub fn cadence(&self) -> (c: QueueTickCadence)
        ensures
            c == self.configured_cadence(),
    {
        self.cadence
    }

    /// One tick, given what the tracker answered. A good answer replaces the
    /// active set; after a failed one the previous set stays in place.
    pub fn tick(&mut self, fetched: Result<Vec<Issue>, TrackerError>) -> (outcome: QueueTickOutcome)
        ensures
            old(self).ticks_to(final(self), fetched, outcome),
            final(self).configured_cadence() == old(self).configured_cadence(),
            match fetched {
                Ok(issues) => {
                    &&& final(self).active() == issues@
                    &&& outcome == (QueueTickOutcome {
                        queue: LogicalQueue::Intake,
                        considered: issues@.len() as usize,
                        processed: issues@.len() as usize,
                        deferred: 0,
                        errors: 0,
                    })
                },
                Err(_) => {
                    &&& final(self).active() == old(self).active()
                    &&& outcome == (QueueTickOutcome {
                        queue: LogicalQueue::Intake,
                        considered: 0,
                        processed: 0,
                        deferred: 0,
                        errors: 1,
                    })
                },
            },
    {
        match fetched {
            Ok(issues) => {
                let n: usize = issues.len();
                self.active_set.replace(issues);
                QueueTickOutcome {
                    queue: LogicalQueue::Intake,
                    considered: n,
                    processed: n,
                    deferred: 0,
                    errors: 0,
                }
            },
            Err(_) => QueueTickOutcome {
                queue: LogicalQueue::Intake,
                considered: 0,
                processed: 0,
                deferred: 0,
                errors: 1,
            },
        }
    }
}

/// A good answer replaces the active set by exactly what was fetched, and counts every issue
/// as processed.
pub proof fn good_answers_become_the_active_set(
    before: IntakeQueueTick,
    after: IntakeQueueTick,
    issues: Vec<Issue>,
    outcome: QueueTickOutcome,
)
    requires
        before.ticks_to(&after, Ok(issues), outcome),
    ensures
        after.active() == issues@,
        outcome.queue == LogicalQueue::Intake,
        outcome.considered == issues@.len(),
        outcome.processed == issues@.len(),
        outcome.deferred == 0,
        outcome.errors == 0,
        after.configured_cadence() == before.configured_cadence(),
{
}

/// A failed answer leaves the active set in place, and counts one error.
pub proof fn failed_answers_keep_the_active_set(
    before: IntakeQueueTick,
    after: IntakeQueueTick,
    error: TrackerError,
    outcome: QueueTickOutcome,
)
    requires
        before.ticks_to(&after, Err(error), outcome),
    ensures
        after.active() == before.active(),
        outcome.queue == LogicalQueue::Intake,
        outcome.considered == 0,
        outcome.processed == 0,
        outcome.deferred == 0,
        outcome.errors == 1,
        after.configured_cadence() == before.configured_cadence(),
{
}

} // verus!
