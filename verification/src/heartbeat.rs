//! The leases of running dispatches that have to be renewed.
use crate::blocker::RunRef;
use crate::run_lease::HeartbeatPulseObservation;
use vstd::prelude::*;

verus! {

/// What a list of registrations stands for.
pub open spec fn as_map<H>(entries: Seq<(RunRef, H)>) -> Map<i64, H>
    decreases entries.len(),
{
    if entries.len() == 0 {
        Map::empty()
    } else {
        as_map(entries.drop_last()).insert(entries.last().0.0, entries.last().1)
    }
}

/// No run is registered twice.
pub open spec fn distinct_runs<H>(entries: Seq<(RunRef, H)>) -> bool {
    forall|i: int, j: int|
        0 <= i < j < entries.len() ==> (#[trigger] entries[i]).0.0 != (#[trigger] entries[j]).0.0
}

proof fn lemma_as_map_domain<H>(entries: Seq<(RunRef, H)>, run: i64)
    ensures
        as_map(entries).contains_key(run) <==> exists|i: int|
            0 <= i < entries.len() && (#[trigger] entries[i]).0.0 == run,
    decreases entries.len(),
{
    if entries.len() > 0 {
        let init = entries.drop_last();
        lemma_as_map_domain(init, run);
        if as_map(entries).contains_key(run) {
            if entries.last().0.0 == run {
                assert(entries[entries.len() - 1].0.0 == run);
            } else {
                let i = choose|i: int| 0 <= i < init.len() && (#[trigger] init[i]).0.0 == run;
                assert(entries[i].0.0 == run);
            }
        }
        if exists|i: int| 0 <= i < entries.len() && (#[trigger] entries[i]).0.0 == run {
            let i = choose|i: int| 0 <= i < entries.len() && (#[trigger] entries[i]).0.0 == run;
            if i < init.len() {
                assert(init[i].0.0 == run);
            }
        }
    }
}

proof fn lemma_as_map_len<H>(entries: Seq<(RunRef, H)>)
    requires
        distinct_runs(entries),
    ensures
        as_map(entries).dom().finite(),
        as_map(entries).len() == entries.len(),
    decreases entries.len(),
{
    if entries.len() > 0 {
        let init = entries.drop_last();
        lemma_as_map_len(init);
        lemma_as_map_domain(init, entries.last().0.0);
        assert(!as_map(init).contains_key(entries.last().0.0)) by {
            if as_map(init).contains_key(entries.last().0.0) {
                let i = choose|i: int|
                    0 <= i < init.len() && (#[trigger] init[i]).0.0 == entries.last().0.0;
                assert(entries[i].0.0 != entries[entries.len() - 1].0.0);
            }
        }
    }
}

proof fn lemma_as_map_update<H>(entries: Seq<(RunRef, H)>, at: int, value: H)
    requires
        distinct_runs(entries),
        0 <= at < entries.len(),
    ensures
        as_map(entries.update(at, (entries[at].0, value))) == as_map(entries).insert(
            entries[at].0.0,
            value,
        ),
    decreases entries.len(),
{
    let changed = entries.update(at, (entries[at].0, value));
    let init = entries.drop_last();
    if at == entries.len() - 1 {
        assert(changed.drop_last() =~= init);
    } else {
        lemma_as_map_update(init, at, value);
        assert(changed.drop_last() =~= init.update(at, (entries[at].0, value)));
        assert(entries[at].0.0 != entries[entries.len() - 1].0.0);
    }
    assert(as_map(changed) =~= as_map(entries).insert(entries[at].0.0, value));
}

proof fn lemma_as_map_remove<H>(entries: Seq<(RunRef, H)>, at: int)
    requires
        distinct_runs(entries),
        0 <= at < entries.len(),
    ensures
        as_map(entries.remove(at)) == as_map(entries).remove(entries[at].0.0),
    decreases entries.len(),
{
    let init = entries.drop_last();
    let run = entries[at].0.0;
    if at == entries.len() - 1 {
        assert(entries.remove(at) =~= init);
        lemma_as_map_domain(init, run);
        assert(!as_map(init).contains_key(run)) by {
            if as_map(init).contains_key(run) {
                let i = choose|i: int| 0 <= i < init.len() && (#[trigger] init[i]).0.0 == run;
                assert(entries[i].0.0 != entries[at].0.0);
            }
        }
    } else {
        lemma_as_map_remove(init, at);
        assert(entries.remove(at).drop_last() =~= init.remove(at));
        assert(entries.remove(at).last() == entries.last());
        assert(run != entries[entries.len() - 1].0.0);
    }
    assert(as_map(entries.remove(at)) =~= as_map(entries).remove(run));
}

/// What has to be renewed, by run.
pub struct HeartbeatRegistry<H> {
    entries: Vec<(RunRef, H)>,
}

impl<H> View for HeartbeatRegistry<H> {
    type V = Map<i64, H>;

    closed spec fn view(&self) -> Map<i64, H> {
        as_map(self.entries@)
    }
}

impl<H> HeartbeatRegistry<H> {
    #[verifier::type_invariant]
    spec fn well_formed(self) -> bool {
        distinct_runs(self.entries@)
    }

    /// Nothing to renew.
    pub fn new() -> (r: Self)
        ensures
            r@ == Map::<i64, H>::empty(),
    {
        HeartbeatRegistry { entries: Vec::new() }
    }

    /// How many runs are registered.
    pub fn len(&self) -> (n: usize)
        ensures
            n == self@.len(),
    {
        proof {
            use_type_invariant(self);
            lemma_as_map_len(self.entries@);
        }
        self.entries.len()
    }

    /// The registrations, each run once.
    pub fn entries(&self) -> (v: &Vec<(RunRef, H)>)
        ensures
            as_map(v@) == self@,
            distinct_runs(v@),
    {
        proof {
            use_type_invariant(self);
        }
        &self.entries
    }

    fn position(&self, run: RunRef) -> (r: Option<usize>)
        ensures
            match r {
                Some(i) => i < self.entries@.len() && self.entries@[i as int].0.0 == run.0,
                None => forall|i: int|
                    0 <= i < self.entries@.len() ==> (#[trigger] self.entries@[i]).0.0 != run.0,
            },
    {
        let mut i: usize = 0;
        while i < self.entries.len()
            invariant
                i <= self.entries@.len(),
                forall|j: int| 0 <= j < i ==> (#[trigger] self.entries@[j]).0.0 != run.0,
            decreases self.entries@.len() - i,
        {
            if self.entries[i].0.0 == run.0 {
                return Some(i);
            }
            i = i + 1;
        }
        None
    }

    /// Register a run; an earlier registration of it is replaced.
    pub fn register(self, run: RunRef, handle: H) -> (r: Self)
        ensures
            r@ == self@.insert(run.0, handle),
    {
        proof {
            use_type_invariant(&self);
        }
        let at: Option<usize> = self.position(run);
        let mut entries: Vec<(RunRef, H)> = self.entries;
        match at {
            Some(i) => {
                proof {
                    lemma_as_map_update(self.entries@, i as int, handle);
                }
                entries.set(i, (run, handle));
            },
            None => {
                entries.push((run, handle));
                assert(entries@.drop_last() =~= self.entries@);
            },
        }
        HeartbeatRegistry { entries }
    }

    /// Forget a run.
    pub fn forget(self, run: RunRef) -> (r: Self)
        ensures
            r@ == self@.remove(run.0),
    {
        proof {
            use_type_invariant(&self);
        }
        let at: Option<usize> = self.position(run);
        let mut entries: Vec<(RunRef, H)> = self.entries;
        match at {
            Some(i) => {
                proof {
                    lemma_as_map_remove(self.entries@, i as int);
                }
                let _gone = entries.remove(i);
            },
            None => {
                proof {
                    lemma_as_map_domain(self.entries@, run.0);
                    assert(self@.remove(run.0) =~= self@);
                }
            },
        }
        HeartbeatRegistry { entries }
    }
}

/// What one look at a registration gives: nothing where its lease is not due.
pub open spec fn was_due<L>(look: (RunRef, L, Option<HeartbeatPulseObservation>)) -> bool {
    look.2 is Some
}

/// The observation of a look that was due.
pub open spec fn observed<L>(look: (RunRef, L, Option<HeartbeatPulseObservation>)) -> (
    RunRef,
    L,
    HeartbeatPulseObservation,
) {
    (look.0, look.1, look.2->0)
}

/// What a round over the registrations reports.
pub open spec fn reported<L>(
    leasing_wired: bool,
    looks: Seq<(RunRef, L, Option<HeartbeatPulseObservation>)>,
) -> Seq<(RunRef, L, HeartbeatPulseObservation)> {
    if leasing_wired {
        looks.filter(|look: (RunRef, L, Option<HeartbeatPulseObservation>)| was_due(look)).map_values(
            |look: (RunRef, L, Option<HeartbeatPulseObservation>)| observed(look),
        )
    } else {
        Seq::empty()
    }
}

/// What a round over the registrations reports: the observations of those that were
/// due, in order, and nothing at all where no leasing is wired.
pub fn due_observations<L>(
    leasing_wired: bool,
    looks: Vec<(RunRef, L, Option<HeartbeatPulseObservation>)>,
) -> (out: Vec<(RunRef, L, HeartbeatPulseObservation)>)
    ensures
        out@ == reported(leasing_wired, looks@),
        out@ == (if leasing_wired {
            looks@.filter(|look: (RunRef, L, Option<HeartbeatPulseObservation>)| was_due(look)).map_values(
                |look: (RunRef, L, Option<HeartbeatPulseObservation>)| observed(look),
            )
        } else {
            Seq::empty()
        }),
{
    let ghost all = looks@;
    let ghost due = |look: (RunRef, L, Option<HeartbeatPulseObservation>)| was_due(look);
    let ghost seen = |look: (RunRef, L, Option<HeartbeatPulseObservation>)| observed(look);
    let mut out: Vec<(RunRef, L, HeartbeatPulseObservation)> = Vec::new();
    if !leasing_wired {
        return out;
    }
    let mut rest: Vec<(RunRef, L, Option<HeartbeatPulseObservation>)> = looks;
    let ghost mut done: int = 0;
    proof {
        reveal(Seq::filter);
        assert(all.take(0) =~= Seq::empty());
        assert(all.take(0).filter(due).map_values(seen) =~= Seq::empty());
        assert(all.skip(0) =~= all);
    }
    while rest.len() > 0
        invariant
            0 <= done <= all.len(),
            rest@ == all.skip(done),
            out@ == all.take(done).filter(due).map_values(seen),
            due == (|look: (RunRef, L, Option<HeartbeatPulseObservation>)| was_due(look)),
            seen == (|look: (RunRef, L, Option<HeartbeatPulseObservation>)| observed(look)),
        decreases rest@.len(),
    {
        let look: (RunRef, L, Option<HeartbeatPulseObservation>) = rest.remove(0);
        let ghost before = all.take(done).filter(due);
        proof {
            assert(look == all[done]);
            assert(all.take(done + 1).drop_last() =~= all.take(done));
            reveal(Seq::filter);
            assert(all.take(done + 1).filter(due) == (if due(look) {
                before.push(look)
            } else {
                before
            }));
            assert(before.push(look).map_values(seen) =~= before.map_values(seen).push(seen(look)));
            assert(rest@ =~= all.skip(done + 1));
            done = done + 1;
        }
        let (run, label, pulse) = look;
        match pulse {
            Some(observation) => {
                out.push((run, label, observation));
            },
            None => {},
        }
    }
    assert(all.take(done) =~= all);
    out
}

/// A round reports the looks that were due, each under its run and label, in order, and no
/// other; without leasing it reports nothing.
pub proof fn rounds_report_what_was_due<L>(
    looks: Seq<(RunRef, L, Option<HeartbeatPulseObservation>)>,
    last: (RunRef, L, Option<HeartbeatPulseObservation>),
)
    ensures
        reported(false, looks).len() == 0,
        reported(true, Seq::<(RunRef, L, Option<HeartbeatPulseObservation>)>::empty()).len() == 0,
        reported(true, looks.push(last)) == (match last.2 {
            Some(seen) => reported(true, looks).push((last.0, last.1, seen)),
            None => reported(true, looks),
        }),
{
    reveal(Seq::filter);
    let due = |look: (RunRef, L, Option<HeartbeatPulseObservation>)| was_due(look);
    assert(looks.push(last).drop_last() =~= looks);
    assert(reported(true, looks.push(last)) =~= (match last.2 {
        Some(seen) => reported(true, looks).push((last.0, last.1, seen)),
        None => reported(true, looks),
    }));
}

/// A list of registrations stands for the runs that it names, each with the handle that it
/// was registered with.
pub proof fn registrations_stand_for_their_runs<H>(entries: Seq<(RunRef, H)>, i: int)
    requires
        distinct_runs(entries),
        0 <= i < entries.len(),
    ensures
        as_map(entries).contains_key(entries[i].0.0),
        as_map(entries)[entries[i].0.0] == entries[i].1,
        as_map(entries).len() == entries.len(),
    decreases entries.len(),
{
    lemma_as_map_len(entries);
    if i < entries.len() - 1 {
        let init = entries.drop_last();
        assert(distinct_runs(init)) by {
            assert forall|a: int, b: int| 0 <= a < b < init.len() implies (#[trigger] init[a]).0.0
                != (#[trigger] init[b]).0.0 by {
                assert(entries[a].0.0 != entries[b].0.0);
            }
        }
        registrations_stand_for_their_runs(init, i);
        assert(entries[i].0.0 != entries[entries.len() - 1].0.0);
    }
}

} // verus!
