//! What the dispatch runners share: bounded capacity, requests parked for a later
//! pass, and the walk over the work of one pass.
use vstd::prelude::*;

verus! {

/// Whether `part` is `whole` with some entries left out, in the same order.
pub open spec fn in_order_within<R>(part: Seq<R>, whole: Seq<R>) -> bool
    decreases whole.len(),
{
    if part.len() == 0 {
        true
    } else if whole.len() == 0 {
        false
    } else {
        ||| (part.last() == whole.last() && in_order_within(part.drop_last(), whole.drop_last()))
        ||| in_order_within(part, whole.drop_last())
    }
}

/// Leaving out the next entry keeps the order.
pub proof fn lemma_leave_out<R>(part: Seq<R>, whole: Seq<R>, next: R)
    requires
        in_order_within(part, whole),
    ensures
        in_order_within(part, whole.push(next)),
{
    assert(whole.push(next).drop_last() =~= whole);
}

/// Keeping the next entry keeps the order.
pub proof fn lemma_keep<R>(part: Seq<R>, whole: Seq<R>, next: R)
    requires
        in_order_within(part, whole),
    ensures
        in_order_within(part.push(next), whole.push(next)),
{
    assert(whole.push(next).drop_last() =~= whole);
    assert(part.push(next).drop_last() =~= part);
}

/// Keeping everything that follows keeps the order.
pub proof fn lemma_keep_all<R>(part: Seq<R>, whole: Seq<R>, rest: Seq<R>)
    requires
        in_order_within(part, whole),
    ensures
        in_order_within(part + rest, whole + rest),
    decreases rest.len(),
{
    if rest.len() == 0 {
        assert(part + rest =~= part);
        assert(whole + rest =~= whole);
    } else {
        let init = rest.drop_last();
        lemma_keep_all(part, whole, init);
        lemma_keep(part + init, whole + init, rest.last());
        assert((part + init).push(rest.last()) =~= part + rest);
        assert((whole + init).push(rest.last()) =~= whole + rest);
    }
}

/// What is to become of a request that holds a permit.
#[derive(Debug, Clone, Copy, PartialEq, Eq, Structural)]
pub enum Settlement {
    /// Start its dispatch; it keeps the permit.
    Start,
    /// Park it for a later pass.
    Park,
    /// Drop it.
    Drop,
}

/// Whether the current request may be asked about.
#[derive(Debug, Clone, Copy, PartialEq, Eq, Structural)]
pub enum PassOffer {
    /// It holds a permit now.
    Granted,
    /// No permit was free; it was parked.
    Parked,
    /// The pass is over.
    Finished,
}

/// What a runner is in the model.
#[verifier::ext_equal]
pub struct RunnerState<R> {
    /// How many dispatches may run at once.
    pub capacity: nat,
    /// How many permits are taken.
    pub in_use: nat,
    /// The parked requests, oldest first.
    pub deferred: Seq<R>,
}

impl<R> RunnerState<R> {
    /// The state after a permit was given back.
    pub open spec fn refunded(self) -> Self {
        RunnerState {
            in_use: if self.in_use > 0 {
                (self.in_use - 1) as nat
            } else {
                0
            },
            ..self
        }
    }
}

/// What a pass is in the model.
#[verifier::ext_equal]
pub struct PassState<R> {
    /// Everything the pass set out with.
    pub work: Seq<R>,
    /// What is not settled yet; the first entry is the current one.
    pub remaining: Seq<R>,
    /// What was parked.
    pub parked: Seq<R>,
    /// Whether the current entry holds a permit.
    pub granted: bool,
}

impl<R> PassState<R> {
    /// A pass that starts over `work`.
    pub open spec fn over(work: Seq<R>) -> Self {
        PassState { work, remaining: work, parked: Seq::empty(), granted: false }
    }

    /// The pass after its current entry was taken out.
    pub open spec fn without_current(self) -> Self {
        PassState { remaining: self.remaining.skip(1), granted: false, ..self }
    }

    /// The pass after its current entry was parked.
    pub open spec fn with_current_parked(self) -> Self {
        PassState {
            remaining: self.remaining.skip(1),
            parked: self.parked.push(self.remaining[0]),
            granted: false,
            ..self
        }
    }
}

/// What starting a pass does: it takes over the parked requests, and the drained ones
/// after them.
pub open spec fn begin_step<R>(runner: RunnerState<R>, drained: Seq<R>) -> (
    RunnerState<R>,
    PassState<R>,
) {
    (
        RunnerState { deferred: Seq::empty(), ..runner },
        PassState::over(runner.deferred + drained),
    )
}

/// What offering the current entry a permit does.
pub open spec fn offer_step<R>(runner: RunnerState<R>, pass: PassState<R>) -> (
    RunnerState<R>,
    PassState<R>,
    PassOffer,
) {
    if pass.remaining.len() == 0 {
        (runner, pass, PassOffer::Finished)
    } else if pass.granted {
        (runner, pass, PassOffer::Granted)
    } else if runner.in_use < runner.capacity {
        (
            RunnerState { in_use: runner.in_use + 1, ..runner },
            PassState { granted: true, ..pass },
            PassOffer::Granted,
        )
    } else {
        (runner, pass.with_current_parked(), PassOffer::Parked)
    }
}

/// What settling the current entry does; nothing when it holds no permit. Unless its
/// dispatch starts, the permit goes back.
pub open spec fn settle_step<R>(
    runner: RunnerState<R>,
    pass: PassState<R>,
    settlement: Settlement,
) -> (RunnerState<R>, PassState<R>) {
    if !pass.granted {
        (runner, pass)
    } else {
        match settlement {
            Settlement::Start => (runner, pass.without_current()),
            Settlement::Drop => (runner.refunded(), pass.without_current()),
            Settlement::Park => (runner.refunded(), pass.with_current_parked()),
        }
    }
}

/// The request that settling hands out, if its dispatch is to start.
pub open spec fn handed_out<R>(pass: PassState<R>, settlement: Settlement) -> Option<R> {
    if pass.granted && settlement == Settlement::Start {
        Some(pass.remaining[0])
    } else {
        None
    }
}

/// What ending a pass does: what it parked, and what it did not come to, waits for the
/// next pass, before anything parked since.
pub open spec fn end_step<R>(runner: RunnerState<R>, pass: PassState<R>) -> RunnerState<R> {
    RunnerState { deferred: pass.parked + pass.remaining + runner.deferred, ..runner }
}

/// A pass walked to its end, where `answers` says what is to become of each request that
/// gets a permit. The last part is the requests whose dispatch started, in walk order.
pub open spec fn walk<R>(
    runner: RunnerState<R>,
    pass: PassState<R>,
    answers: spec_fn(R) -> Settlement,
) -> (RunnerState<R>, PassState<R>, Seq<R>)
    decreases pass.remaining.len(),
{
    if pass.remaining.len() == 0 {
        (runner, pass, Seq::empty())
    } else {
        let current = pass.remaining[0];
        let (offered, open, offer) = offer_step(runner, pass);
        if offer == PassOffer::Granted {
            let (settled, next) = settle_step(offered, open, answers(current));
            let (end, done, started) = walk(settled, next, answers);
            if answers(current) == Settlement::Start {
                (end, done, seq![current] + started)
            } else {
                (end, done, started)
            }
        } else {
            walk(offered, open, answers)
        }
    }
}

/// A walk settles everything, never takes more permits than there are, takes one for
/// each dispatch that it starts, and changes nothing else of the runner.
pub proof fn walks_stay_within_capacity<R>(
    runner: RunnerState<R>,
    pass: PassState<R>,
    answers: spec_fn(R) -> Settlement,
)
    requires
        runner.in_use <= runner.capacity,
        !pass.granted,
    ensures
        ({
            let (end, done, started) = walk(runner, pass, answers);
            &&& done.remaining.len() == 0
            &&& !done.granted
            &&& done.work == pass.work
            &&& end.in_use <= end.capacity
            &&& end.in_use == runner.in_use + started.len()
            &&& end.capacity == runner.capacity
            &&& end.deferred == runner.deferred
        }),
    decreases pass.remaining.len(),
{
    if pass.remaining.len() > 0 {
        let (offered, open, offer) = offer_step(runner, pass);
        if offer == PassOffer::Granted {
            let (settled, next) = settle_step(offered, open, answers(pass.remaining[0]));
            walks_stay_within_capacity(settled, next, answers);
        } else {
            walks_stay_within_capacity(offered, open, answers);
        }
    }
}

/// With no permit free, nothing starts and every request waits, in its old order.
pub proof fn without_capacity_everything_waits<R>(
    runner: RunnerState<R>,
    pass: PassState<R>,
    answers: spec_fn(R) -> Settlement,
)
    requires
        runner.in_use >= runner.capacity,
        !pass.granted,
    ensures
        ({
            let (end, done, started) = walk(runner, pass, answers);
            &&& started.len() == 0
            &&& done.parked == pass.parked + pass.remaining
            &&& end == runner
        }),
    decreases pass.remaining.len(),
{
    if pass.remaining.len() == 0 {
        assert(pass.parked + pass.remaining =~= pass.parked);
    } else {
        let (offered, open, offer) = offer_step(runner, pass);
        without_capacity_everything_waits(offered, open, answers);
        assert(open.parked + open.remaining =~= pass.parked + pass.remaining);
    }
}

/// A request that is refused costs no capacity: with a permit free, a walk in which
/// every request is refused parks or drops each of them for that reason, and leaves the
/// runner as it was.
pub proof fn refused_requests_cost_no_capacity<R>(
    runner: RunnerState<R>,
    pass: PassState<R>,
    answers: spec_fn(R) -> Settlement,
)
    requires
        runner.in_use < runner.capacity,
        !pass.granted,
        forall|r: R| #[trigger] answers(r) != Settlement::Start,
    ensures
        ({
            let (end, done, started) = walk(runner, pass, answers);
            &&& started.len() == 0
            &&& end == runner
            &&& done.parked == pass.parked + pass.remaining.filter(
                |r: R| answers(r) == Settlement::Park,
            )
        }),
    decreases pass.remaining.len(),
{
    let waits = |r: R| answers(r) == Settlement::Park;
    if pass.remaining.len() == 0 {
        assert(pass.remaining =~= Seq::empty());
        reveal(Seq::filter);
        assert(pass.parked + pass.remaining.filter(waits) =~= pass.parked);
    } else {
        let current = pass.remaining[0];
        let (offered, open, offer) = offer_step(runner, pass);
        let (settled, next) = settle_step(offered, open, answers(current));
        assert(answers(current) != Settlement::Start);
        assert(settled =~= runner);
        refused_requests_cost_no_capacity(settled, next, answers);
        lemma_filter_head(pass.remaining, waits);
        assert(next.parked + next.remaining.filter(waits) =~= pass.parked
            + pass.remaining.filter(waits));
    }
}

/// What filtering does to the first entry.
proof fn lemma_filter_head<R>(s: Seq<R>, keep: spec_fn(R) -> bool)
    requires
        s.len() > 0,
    ensures
        s.filter(keep) == (if keep(s[0]) {
            seq![s[0]] + s.skip(1).filter(keep)
        } else {
            s.skip(1).filter(keep)
        }),
{
    let head = seq![s[0]];
    assert(s =~= head + s.skip(1));
    Seq::filter_distributes_over_add(head, s.skip(1), keep);
    reveal(Seq::filter);
    assert(head.drop_last() =~= Seq::empty());
    assert(head.drop_last().filter(keep) =~= Seq::empty());
    assert(head.filter(keep) =~= if keep(s[0]) {
        head
    } else {
        Seq::empty()
    });
    assert(Seq::<R>::empty() + s.skip(1).filter(keep) =~= s.skip(1).filter(keep));
}

/// With room for all of them, every admitted request starts, in its old order.
pub proof fn with_room_everything_starts<R>(
    runner: RunnerState<R>,
    pass: PassState<R>,
    answers: spec_fn(R) -> Settlement,
)
    requires
        runner.in_use + pass.remaining.len() <= runner.capacity,
        !pass.granted,
        forall|r: R| #[trigger] answers(r) == Settlement::Start,
    ensures
        ({
            let (end, done, started) = walk(runner, pass, answers);
            &&& started == pass.remaining
            &&& done.parked == pass.parked
            &&& end.in_use == runner.in_use + pass.remaining.len()
        }),
    decreases pass.remaining.len(),
{
    if pass.remaining.len() == 0 {
        assert(pass.remaining =~= Seq::empty());
    } else {
        let current = pass.remaining[0];
        let (offered, open, offer) = offer_step(runner, pass);
        let (settled, next) = settle_step(offered, open, answers(current));
        assert(answers(current) == Settlement::Start);
        with_room_everything_starts(settled, next, answers);
        assert(seq![current] + next.remaining =~= pass.remaining);
    }
}

/// Which dispatches a walk starts: the first of the requests that are admitted, as many
/// as permits were free. Refused requests before or between them make no difference.
pub proof fn the_first_admitted_requests_start<R>(
    runner: RunnerState<R>,
    pass: PassState<R>,
    answers: spec_fn(R) -> Settlement,
)
    requires
        runner.in_use <= runner.capacity,
        !pass.granted,
    ensures
        ({
            let admitted = pass.remaining.filter(|r: R| answers(r) == Settlement::Start);
            let free = runner.capacity - runner.in_use;
            walk(runner, pass, answers).2 == (if admitted.len() <= free {
                admitted
            } else {
                admitted.take(free)
            })
        }),
    decreases pass.remaining.len(),
{
    let starts = |r: R| answers(r) == Settlement::Start;
    let admitted = pass.remaining.filter(starts);
    let free = runner.capacity - runner.in_use;
    if pass.remaining.len() == 0 {
        assert(pass.remaining =~= Seq::empty());
        reveal(Seq::filter);
    } else if free == 0 {
        without_capacity_everything_waits(runner, pass, answers);
        assert(admitted.take(0) =~= Seq::empty());
    } else {
        let current = pass.remaining[0];
        let (offered, open, offer) = offer_step(runner, pass);
        let (settled, next) = settle_step(offered, open, answers(current));
        the_first_admitted_requests_start(settled, next, answers);
        lemma_filter_head(pass.remaining, starts);
        let later = next.remaining.filter(starts);
        if answers(current) == Settlement::Start {
            assert(admitted == seq![current] + later);
            if later.len() > free - 1 {
                assert(admitted.take(free) =~= seq![current] + later.take(free - 1));
            }
        } else {
            assert(admitted == later);
        }
    }
}

/// A walk loses nothing that is not dropped: each request that it comes to starts,
/// waits, or is one that is to be dropped.
pub proof fn walks_lose_nothing<R>(
    runner: RunnerState<R>,
    pass: PassState<R>,
    answers: spec_fn(R) -> Settlement,
)
    requires
        !pass.granted,
    ensures
        ({
            let (end, done, started) = walk(runner, pass, answers);
            &&& forall|r: R| #[trigger]
                pass.remaining.contains(r) ==> started.contains(r) || done.parked.contains(r)
                    || answers(r) == Settlement::Drop
            &&& forall|r: R| #[trigger]
                pass.parked.contains(r) ==> done.parked.contains(r)
        }),
    decreases pass.remaining.len(),
{
    if pass.remaining.len() > 0 {
        let current = pass.remaining[0];
        let (end, done, started) = walk(runner, pass, answers);
        let (offered, open, offer) = offer_step(runner, pass);
        let next = if offer == PassOffer::Granted {
            settle_step(offered, open, answers(current)).1
        } else {
            open
        };
        let later = if offer == PassOffer::Granted {
            let settled = settle_step(offered, open, answers(current)).0;
            walks_lose_nothing(settled, next, answers);
            walk(settled, next, answers).2
        } else {
            walks_lose_nothing(offered, next, answers);
            walk(offered, next, answers).2
        };
        assert forall|r: R| later.contains(r) implies started.contains(r) by {
            let i = choose|i: int| 0 <= i < later.len() && later[i] == r;
            if started != later {
                assert(started[i + 1] == r);
            }
        }
        if next.parked != pass.parked {
            assert(next.parked[pass.parked.len() as int] == current);
        }
        assert forall|r: R| #[trigger] pass.parked.contains(r) implies done.parked.contains(r) by {
            let i = choose|i: int| 0 <= i < pass.parked.len() && pass.parked[i] == r;
            assert(next.parked[i] == r);
            assert(next.parked.contains(r));
        }
        assert forall|r: R| #[trigger] pass.remaining.contains(r) implies started.contains(r)
            || done.parked.contains(r) || answers(r) == Settlement::Drop by {
            let i = choose|i: int| 0 <= i < pass.remaining.len() && pass.remaining[i] == r;
            if i > 0 {
                assert(next.remaining[i - 1] == r);
                assert(next.remaining.contains(r));
            } else if offer == PassOffer::Granted && answers(r) == Settlement::Start {
                assert(started[0] == r);
            } else if offer != PassOffer::Granted || answers(r) == Settlement::Park {
                assert(next.parked.contains(r));
            }
        }
    }
}

/// Requests that wait keep their order across a pass.
pub proof fn waiting_requests_keep_their_order<R>(
    runner: RunnerState<R>,
    work: Seq<R>,
    answers: spec_fn(R) -> Settlement,
)
    ensures
        in_order_within(walk(runner, PassState::over(work), answers).1.parked, work),
{
    lemma_walk_keeps_order(runner, PassState::over(work), Seq::empty(), answers);
    assert(Seq::<R>::empty() + work =~= work);
}

proof fn lemma_walk_keeps_order<R>(
    runner: RunnerState<R>,
    pass: PassState<R>,
    settled: Seq<R>,
    answers: spec_fn(R) -> Settlement,
)
    requires
        !pass.granted,
        in_order_within(pass.parked, settled),
    ensures
        in_order_within(walk(runner, pass, answers).1.parked, settled + pass.remaining),
    decreases pass.remaining.len(),
{
    if pass.remaining.len() == 0 {
        assert(settled + pass.remaining =~= settled);
    } else {
        let current = pass.remaining[0];
        let (offered, open, offer) = offer_step(runner, pass);
        lemma_keep(pass.parked, settled, current);
        lemma_leave_out(pass.parked, settled, current);
        assert(settled.push(current) + pass.remaining.skip(1) =~= settled + pass.remaining);
        if offer == PassOffer::Granted {
            let (after, next) = settle_step(offered, open, answers(current));
            lemma_walk_keeps_order(after, next, settled.push(current), answers);
        } else {
            lemma_walk_keeps_order(offered, open, settled.push(current), answers);
        }
    }
}

/// Giving a permit back frees exactly one that is taken, and nothing else changes.
pub proof fn refunds_free_one_permit<R>(runner: RunnerState<R>)
    ensures
        runner.in_use > 0 ==> runner.refunded().in_use + 1 == runner.in_use,
        runner.in_use == 0 ==> runner.refunded().in_use == 0,
        runner.refunded().capacity == runner.capacity,
        runner.refunded().deferred == runner.deferred,
{
}

/// A pass sets out with everything it is given: nothing is settled, parked or granted.
pub proof fn passes_set_out_with_all_their_work<R>(work: Seq<R>)
    ensures
        PassState::over(work).work == work,
        PassState::over(work).remaining == work,
        PassState::over(work).parked.len() == 0,
        !PassState::over(work).granted,
{
}

/// An offer loses nothing and reorders nothing: what is parked, followed by what is left,
/// is the same before and after. It takes at most one permit, exactly when it grants one
/// anew, and only while one is free; a request is parked only while none is.
pub proof fn offers_take_a_free_permit_or_park<R>(runner: RunnerState<R>, pass: PassState<R>)
    ensures
        ({
            let (after, next, offer) = offer_step(runner, pass);
            &&& next.parked + next.remaining == pass.parked + pass.remaining
            &&& next.work == pass.work
            &&& after.capacity == runner.capacity
            &&& after.deferred == runner.deferred
            &&& offer == PassOffer::Finished <==> pass.remaining.len() == 0
            &&& offer == PassOffer::Finished ==> after == runner && next == pass
            &&& offer == PassOffer::Granted ==> next.granted && next.remaining == pass.remaining
            &&& offer == PassOffer::Granted && pass.granted ==> after.in_use == runner.in_use
            &&& offer == PassOffer::Granted && !pass.granted ==> after.in_use == runner.in_use + 1
                && runner.in_use < runner.capacity
            &&& offer == PassOffer::Parked ==> !pass.granted && !next.granted && after.in_use
                == runner.in_use && runner.in_use >= runner.capacity && next.remaining.len() + 1
                == pass.remaining.len()
            &&& pass.remaining.len() > 0 && (pass.granted || runner.in_use < runner.capacity)
                ==> offer == PassOffer::Granted
        }),
{
    if pass.remaining.len() > 0 && !pass.granted && runner.in_use >= runner.capacity {
        assert(pass.parked.push(pass.remaining[0]) + pass.remaining.skip(1) =~= pass.parked
            + pass.remaining);
    }
}

/// Settling takes exactly the current request off, and only if it holds a permit. One
/// that starts keeps the permit; any other gives it back, and then it waits behind what
/// was parked before it, or is gone, as was asked for.
pub proof fn settling_takes_the_current_request_off<R>(
    runner: RunnerState<R>,
    pass: PassState<R>,
    settlement: Settlement,
)
    requires
        pass.granted ==> pass.remaining.len() > 0 && runner.in_use > 0,
    ensures
        ({
            let (after, next) = settle_step(runner, pass, settlement);
            &&& next.work == pass.work
            &&& after.capacity == runner.capacity
            &&& after.deferred == runner.deferred
            &&& !next.granted
            &&& !pass.granted ==> after == runner && next == pass
            &&& pass.granted ==> seq![pass.remaining[0]] + next.remaining == pass.remaining
            &&& pass.granted && settlement == Settlement::Start ==> after.in_use == runner.in_use
                && next.parked == pass.parked
            &&& pass.granted && settlement == Settlement::Drop ==> after.in_use + 1
                == runner.in_use && next.parked == pass.parked
            &&& pass.granted && settlement == Settlement::Park ==> after.in_use + 1
                == runner.in_use && next.parked + next.remaining == pass.parked + pass.remaining
        }),
{
    if pass.granted {
        assert(seq![pass.remaining[0]] + pass.remaining.skip(1) =~= pass.remaining);
        assert(pass.parked.push(pass.remaining[0]) + pass.remaining.skip(1) =~= pass.parked
            + pass.remaining);
    }
}

/// Ending a pass keeps everything that waits: what the pass parked comes first, then what
/// it did not come to, then what was parked since, each in its order. No permit changes
/// hands.
pub proof fn ended_passes_keep_what_waits<R>(runner: RunnerState<R>, pass: PassState<R>)
    ensures
        ({
            let waiting = end_step(runner, pass).deferred;
            let parked = pass.parked.len() as int;
            let left = pass.remaining.len() as int;
            &&& waiting.len() == parked + left + runner.deferred.len()
            &&& forall|i: int| 0 <= i < parked ==> #[trigger] waiting[i] == pass.parked[i]
            &&& forall|i: int|
                parked <= i < parked + left ==> #[trigger] waiting[i] == pass.remaining[i - parked]
            &&& forall|i: int|
                parked + left <= i < waiting.len() ==> #[trigger] waiting[i] == runner.deferred[i
                    - parked - left]
        }),
        end_step(runner, pass).in_use == runner.in_use,
        end_step(runner, pass).capacity == runner.capacity,
{
}

/// How a whole pass comes out, from the requests alone. The requests are asked about in
/// order until `asked` of them have used up the free permits, or all have been asked;
/// of those asked, the ones to be parked wait, and so does everything after them.
pub proof fn walks_park_what_is_refused_or_not_reached<R>(
    runner: RunnerState<R>,
    pass: PassState<R>,
    answers: spec_fn(R) -> Settlement,
    asked: int,
)
    requires
        runner.in_use <= runner.capacity,
        !pass.granted,
        0 <= asked <= pass.remaining.len(),
        ({
            let free = runner.capacity - runner.in_use;
            let starts = pass.remaining.take(asked).filter(
                |r: R| answers(r) == Settlement::Start,
            ).len();
            &&& starts <= free
            &&& asked < pass.remaining.len() ==> starts == free
            &&& forall|k: int|
                0 <= k < asked ==> (#[trigger] pass.remaining.take(k)).filter(
                    |r: R| answers(r) == Settlement::Start,
                ).len() < free
        }),
    ensures
        walk(runner, pass, answers).1.parked == pass.parked + pass.remaining.take(asked).filter(
            |r: R| answers(r) == Settlement::Park,
        ) + pass.remaining.skip(asked),
        walk(runner, pass, answers).2 == pass.remaining.take(asked).filter(
            |r: R| answers(r) == Settlement::Start,
        ),
    decreases pass.remaining.len(),
{
    let starts = |r: R| answers(r) == Settlement::Start;
    let waits = |r: R| answers(r) == Settlement::Park;
    let free = runner.capacity - runner.in_use;
    reveal(Seq::filter);
    if asked == 0 {
        assert(pass.remaining.take(0) =~= Seq::empty());
        assert(pass.remaining.skip(0) =~= pass.remaining);
        assert(pass.parked + Seq::<R>::empty() + pass.remaining =~= pass.parked + pass.remaining);
        if pass.remaining.len() == 0 {
            assert(pass.parked + pass.remaining =~= pass.parked);
        } else {
            without_capacity_everything_waits(runner, pass, answers);
            assert(walk(runner, pass, answers).2 =~= Seq::empty());
        }
    } else {
        let current = pass.remaining[0];
        let (offered, open, offer) = offer_step(runner, pass);
        assert(pass.remaining.take(0) =~= Seq::empty());
        assert(pass.remaining.take(0).filter(starts).len() == 0);
        assert(free > 0);
        let (settled, next) = settle_step(offered, open, answers(current));
        assert(pass.remaining.take(asked)[0] == current);
        assert(pass.remaining.take(asked).skip(1) =~= next.remaining.take(asked - 1));
        lemma_filter_head(pass.remaining.take(asked), starts);
        lemma_filter_head(pass.remaining.take(asked), waits);
        assert forall|k: int| 0 <= k < asked - 1 implies (#[trigger] next.remaining.take(k)).filter(
            starts,
        ).len() < settled.capacity - settled.in_use by {
            let longer = pass.remaining.take(k + 1);
            assert(longer.filter(starts).len() < free);
            assert(longer[0] == current);
            assert(longer.skip(1) =~= next.remaining.take(k));
            lemma_filter_head(longer, starts);
        }
        walks_park_what_is_refused_or_not_reached(settled, next, answers, asked - 1);
        assert(next.remaining.skip(asked - 1) =~= pass.remaining.skip(asked));
        let later = next.remaining.take(asked - 1).filter(waits);
        let rest = pass.remaining.skip(asked);
        if answers(current) == Settlement::Park {
            assert(pass.parked.push(current) + later + rest =~= pass.parked + (seq![current]
                + later) + rest);
        }
    }
}

/// Nothing is lost over a whole pass: every request that was parked or newly drained
/// starts, waits for the next pass, or was to be dropped. Unless it drops one, the pass
/// accounts for each request exactly once.
pub proof fn passes_keep_every_request<R>(
    runner: RunnerState<R>,
    drained: Seq<R>,
    answers: spec_fn(R) -> Settlement,
)
    requires
        runner.in_use <= runner.capacity,
    ensures
        ({
            let (taken, pass) = begin_step(runner, drained);
            let (walked, done, started) = walk(taken, pass, answers);
            let end = end_step(walked, done);
            &&& forall|r: R|
                (runner.deferred.contains(r) || drained.contains(r)) && answers(r)
                    != Settlement::Drop ==> started.contains(r) || end.deferred.contains(r)
            &&& (forall|r: R| #[trigger] answers(r) != Settlement::Drop) ==> started.len()
                + end.deferred.len() == runner.deferred.len() + drained.len()
            &&& end.in_use == runner.in_use + started.len()
            &&& end.in_use <= end.capacity
            &&& end.capacity == runner.capacity
        }),
{
    let (taken, pass) = begin_step(runner, drained);
    let (walked, done, started) = walk(taken, pass, answers);
    let end = end_step(walked, done);
    walks_stay_within_capacity(taken, pass, answers);
    walks_lose_nothing(taken, pass, answers);
    ended_passes_keep_what_waits(walked, done);
    assert forall|r: R|
        (runner.deferred.contains(r) || drained.contains(r)) && answers(r)
            != Settlement::Drop implies started.contains(r) || end.deferred.contains(r) by {
        if runner.deferred.contains(r) {
            let i = choose|i: int| 0 <= i < runner.deferred.len() && runner.deferred[i] == r;
            assert(pass.remaining[i] == r);
        } else {
            let i = choose|i: int| 0 <= i < drained.len() && drained[i] == r;
            assert(pass.remaining[runner.deferred.len() + i] == r);
        }
        assert(pass.remaining.contains(r));
        if done.parked.contains(r) {
            let k = choose|k: int| 0 <= k < done.parked.len() && done.parked[k] == r;
            assert(end.deferred[k] == r);
        }
    }
    if forall|r: R| #[trigger] answers(r) != Settlement::Drop {
        lemma_walk_counts(taken, pass, answers);
    }
}

proof fn lemma_walk_counts<R>(
    runner: RunnerState<R>,
    pass: PassState<R>,
    answers: spec_fn(R) -> Settlement,
)
    requires
        !pass.granted,
        forall|r: R| #[trigger] answers(r) != Settlement::Drop,
    ensures
        walk(runner, pass, answers).2.len() + walk(runner, pass, answers).1.parked.len()
            == pass.parked.len() + pass.remaining.len(),
    decreases pass.remaining.len(),
{
    if pass.remaining.len() > 0 {
        let (offered, open, offer) = offer_step(runner, pass);
        assert(answers(pass.remaining[0]) != Settlement::Drop);
        if offer == PassOffer::Granted {
            let (settled, next) = settle_step(offered, open, answers(pass.remaining[0]));
            lemma_walk_counts(settled, next, answers);
        } else {
            lemma_walk_counts(offered, open, answers);
        }
    }
}

/// A pass comes to the parked requests first, oldest first, and then to the drained ones
/// in their order; while it runs, none of them is parked with the runner as well.
pub proof fn parked_requests_come_first<R>(runner: RunnerState<R>, drained: Seq<R>)
    ensures
        ({
            let (taken, pass) = begin_step(runner, drained);
            let older = runner.deferred.len() as int;
            &&& pass.remaining.len() == older + drained.len()
            &&& forall|i: int| 0 <= i < older ==> #[trigger] pass.remaining[i] == runner.deferred[i]
            &&& forall|i: int|
                older <= i < pass.remaining.len()
                    ==> #[trigger] pass.remaining[i] == drained[i - older]
            &&& pass.parked.len() == 0
            &&& !pass.granted
            &&& taken.deferred.len() == 0
            &&& taken.in_use == runner.in_use
            &&& taken.capacity == runner.capacity
        }),
{
}

/// Permits of a bounded runner, and the requests that wait for a later pass.
pub struct RunnerCore<R> {
    max_concurrent: usize,
    permits_in_use: usize,
    deferred: Vec<R>,
}

impl<R> View for RunnerCore<R> {
    type V = RunnerState<R>;

    closed spec fn view(&self) -> RunnerState<R> {
        RunnerState {
            capacity: self.max_concurrent as nat,
            in_use: self.permits_in_use as nat,
            deferred: self.deferred@,
        }
    }
}

impl<R> RunnerCore<R> {
    #[verifier::type_invariant]
    spec fn well_formed(self) -> bool {
        self.permits_in_use <= self.max_concurrent
    }

    /// A runner with every permit free and nothing parked.
    pub fn new(max_concurrent: usize) -> (r: Self)
        ensures
            r@ == (RunnerState::<R> {
                capacity: max_concurrent as nat,
                in_use: 0,
                deferred: Seq::empty(),
            }),
    {
        RunnerCore { max_concurrent, permits_in_use: 0, deferred: Vec::new() }
    }

    /// How many dispatches may run at once.
    pub fn max_concurrent(&self) -> (n: usize)
        ensures
            n == self@.capacity,
    {
        self.max_concurrent
    }

    /// How many permits are taken; never more than the capacity.
    pub fn permits_in_use(&self) -> (n: usize)
        ensures
            n == self@.in_use,
            n <= self@.capacity,
    {
        proof {
            use_type_invariant(self);
        }
        self.permits_in_use
    }

    /// The parked requests, oldest first.
    pub fn parked(&self) -> (v: &Vec<R>)
        ensures
            v@ == self@.deferred,
    {
        &self.deferred
    }

    /// Give a permit back; nothing happens when none is taken.
    pub fn release(&mut self)
        ensures
            final(self)@ == old(self)@.refunded(),
    {
        proof {
            use_type_invariant(&*self);
        }
        if self.permits_in_use > 0 {
            self.permits_in_use = self.permits_in_use - 1;
        }
    }

    /// Start a pass: the parked requests come first, so that age order holds
    /// across passes.
    pub fn begin_pass(&mut self, drained: Vec<R>) -> (pass: PassCore<R>)
        ensures
            (final(self)@, pass@) == begin_step(old(self)@, drained@),
            pass@ == PassState::over(old(self)@.deferred + drained@),
            final(self)@ == (RunnerState { deferred: Seq::empty(), ..old(self)@ }),
            pass@.work.len() <= usize::MAX,
    {
        proof {
            use_type_invariant(&*self);
        }
        let mut work: Vec<R> = Vec::new();
        std::mem::swap(&mut work, &mut self.deferred);
        let mut fresh: Vec<R> = drained;
        work.append(&mut fresh);
        assert(work.len() == work@.len());
        PassCore::new(work)
    }

    /// Offer the current entry a permit; without a free one it is parked.
    pub fn offer(&mut self, pass: PassCore<R>) -> (r: (PassCore<R>, PassOffer))
        ensures
            (final(self)@, r.0@, r.1) == offer_step(old(self)@, pass@),
            r.1 == PassOffer::Parked ==> pass@.remaining.len() > 0,
    {
        proof {
            use_type_invariant(&*self);
            use_type_invariant(&pass);
        }
        if pass.remaining.len() == 0 {
            return (pass, PassOffer::Finished);
        }
        if pass.granted {
            return (pass, PassOffer::Granted);
        }
        if self.permits_in_use < self.max_concurrent {
            self.permits_in_use = self.permits_in_use + 1;
            (pass.grant(), PassOffer::Granted)
        } else {
            (pass.park(), PassOffer::Parked)
        }
    }

    /// Settle the current entry, if it holds a permit. A request whose dispatch is to
    /// start is handed out.
    pub fn settle(&mut self, pass: PassCore<R>, settlement: Settlement) -> (r: (
        PassCore<R>,
        Option<R>,
    ))
        ensures
            (final(self)@, r.0@) == settle_step(old(self)@, pass@, settlement),
            r.1 == handed_out(pass@, settlement),
            r.1 == (if pass@.granted && settlement == Settlement::Start {
                Some(pass@.remaining[0])
            } else {
                None
            }),
    {
        proof {
            use_type_invariant(&*self);
            use_type_invariant(&pass);
        }
        if !pass.granted {
            return (pass, None);
        }
        match settlement {
            Settlement::Start => {
                let (next, request) = pass.take();
                (next, Some(request))
            },
            Settlement::Drop => {
                self.release();
                let (next, _request) = pass.take();
                (next, None)
            },
            Settlement::Park => {
                self.release();
                (pass.park(), None)
            },
        }
    }

    /// End a pass. What it leaves waiting keeps its order.
    pub fn end_pass(&mut self, pass: PassCore<R>)
        ensures
            final(self)@ == end_step(old(self)@, pass@),
            in_order_within(pass@.parked + pass@.remaining, pass@.work),
    {
        proof {
            use_type_invariant(&*self);
            use_type_invariant(&pass);
            pass.lemma_keeps_order();
        }
        let PassCore { work: _, remaining, parked, granted: _ } = pass;
        let mut waiting: Vec<R> = parked;
        let mut rest: Vec<R> = remaining;
        waiting.append(&mut rest);
        let mut older: Vec<R> = Vec::new();
        std::mem::swap(&mut older, &mut self.deferred);
        waiting.append(&mut older);
        self.deferred = waiting;
    }
}

/// The walk over the work of one pass.
pub struct PassCore<R> {
    work: Ghost<Seq<R>>,
    remaining: Vec<R>,
    parked: Vec<R>,
    granted: bool,
}

impl<R> View for PassCore<R> {
    type V = PassState<R>;

    closed spec fn view(&self) -> PassState<R> {
        PassState {
            work: self.work@,
            remaining: self.remaining@,
            parked: self.parked@,
            granted: self.granted,
        }
    }
}

impl<R> PassCore<R> {
    #[verifier::type_invariant]
    spec fn well_formed(self) -> bool {
        let settled = self.work@.len() - self.remaining@.len();
        &&& 0 <= settled
        &&& self.work@.skip(settled) == self.remaining@
        &&& in_order_within(self.parked@, self.work@.take(settled))
        &&& self.granted ==> self.remaining@.len() > 0
    }

    proof fn lemma_keeps_order(&self)
        requires
            self.well_formed(),
        ensures
            in_order_within(self.parked@ + self.remaining@, self.work@),
    {
        let settled = self.work@.len() - self.remaining@.len();
        lemma_keep_all(self.parked@, self.work@.take(settled), self.remaining@);
        assert(self.work@.take(settled) + self.remaining@ =~= self.work@);
    }

    fn new(work: Vec<R>) -> (r: Self)
        ensures
            r@ == PassState::over(work@),
    {
        assert(work@.skip(0) =~= work@);
        assert(work@.take(0) =~= Seq::<R>::empty());
        PassCore { work: Ghost(work@), remaining: work, parked: Vec::new(), granted: false }
    }

    /// The current entry, if any is left.
    pub fn current(&self) -> (r: Option<&R>)
        ensures
            match r {
                Some(c) => self@.remaining.len() > 0 && *c == self@.remaining[0],
                None => self@.remaining.len() == 0,
            },
    {
        if self.remaining.len() == 0 {
            None
        } else {
            Some(&self.remaining[0])
        }
    }

    /// Whether the current entry holds a permit; only an entry that is left can.
    pub fn is_granted(&self) -> (b: bool)
        ensures
            b == self@.granted,
            b ==> self@.remaining.len() > 0,
    {
        proof {
            use_type_invariant(self);
        }
        self.granted
    }

    /// Note that the current entry holds a permit.
    fn grant(self) -> (r: Self)
        requires
            self@.remaining.len() > 0,
        ensures
            r@ == (PassState { granted: true, ..self@ }),
    {
        proof {
            use_type_invariant(&self);
        }
        PassCore {
            work: self.work,
            remaining: self.remaining,
            parked: self.parked,
            granted: true,
        }
    }

    /// Settle the current entry by handing it out.
    fn take(self) -> (r: (Self, R))
        requires
            self@.remaining.len() > 0,
        ensures
            r.0@ == self@.without_current(),
            r.1 == self@.remaining[0],
    {
        proof {
            use_type_invariant(&self);
            let settled = self.work@.len() - self.remaining@.len();
            lemma_leave_out(self.parked@, self.work@.take(settled), self.work@[settled]);
            assert(self.work@.take(settled + 1) =~= self.work@.take(settled).push(
                self.work@[settled],
            ));
            assert(self.work@.skip(settled + 1) =~= self.remaining@.skip(1));
        }
        let mut remaining: Vec<R> = self.remaining;
        let head: R = remaining.remove(0);
        assert(remaining@ =~= self.remaining@.skip(1));
        (PassCore { work: self.work, remaining, parked: self.parked, granted: false }, head)
    }

    /// Settle the current entry by parking it.
    fn park(self) -> (r: Self)
        requires
            self@.remaining.len() > 0,
        ensures
            r@ == self@.with_current_parked(),
    {
        proof {
            use_type_invariant(&self);
            let settled = self.work@.len() - self.remaining@.len();
            assert(self.remaining@[0] == self.work@[settled]);
            lemma_keep(self.parked@, self.work@.take(settled), self.work@[settled]);
            assert(self.work@.take(settled + 1) =~= self.work@.take(settled).push(
                self.work@[settled],
            ));
            assert(self.work@.skip(settled + 1) =~= self.remaining@.skip(1));
        }
        let mut remaining: Vec<R> = self.remaining;
        let head: R = remaining.remove(0);
        assert(remaining@ =~= self.remaining@.skip(1));
        let mut parked: Vec<R> = self.parked;
        parked.push(head);
        PassCore { work: self.work, remaining, parked, granted: false }
    }
}

/// Settling hands out the current request exactly when it holds a permit and is to start;
/// a request that is handed out is taken off, and is not parked as well.
pub proof fn started_requests_are_handed_out<R>(
    runner: RunnerState<R>,
    pass: PassState<R>,
    settlement: Settlement,
)
    requires
        pass.granted ==> pass.remaining.len() > 0,
    ensures
        handed_out(pass, settlement) is Some <==> pass.granted && settlement == Settlement::Start,
        handed_out(pass, settlement) matches Some(request) ==> {
            let (after, next) = settle_step(runner, pass, settlement);
            &&& seq![request] + next.remaining == pass.remaining
            &&& next.parked == pass.parked
            &&& after.in_use == runner.in_use
        },
{
    if pass.granted {
        assert(seq![pass.remaining[0]] + pass.remaining.skip(1) =~= pass.remaining);
    }
}

} // verus!
