//! How a run is shared among workers, what one worker does, and how the
//! workers' results become one sequence.

use crate::stats::Fact;
use vstd::prelude::*;

verus! {

/// The number of requests that each of `workers` workers issues in a run of
/// `requests` requests: the quotient, rounded down. The requests that remain
/// after an even split are not issued.
pub fn worker_share(requests: u32, workers: u32) -> (share: u32)
    requires
        workers >= 1,
    ensures
        share == requests / workers,
{
    requests / workers
}

/// The workers together issue at most the requests asked for, and fewer than
/// one request per worker is left out.
pub proof fn lemma_share_leaves_less_than_workers(requests: u32, workers: u32)
    requires
        workers >= 1,
    ensures
        workers * (requests / workers) <= requests,
        requests - workers * (requests / workers) == requests % workers,
        requests % workers < workers,
{
    let r = requests as int;
    let w = workers as int;
    assert(r == w * (r / w) + r % w && 0 <= r % w < w) by (nonlinear_arith)
        requires
            w >= 1,
    ;
}

/// Where a worker stands.
#[derive(Debug, Clone, Copy, PartialEq, Eq, Structural)]
pub enum Phase {
    /// Nothing has been asked of the worker yet.
    Idle,
    /// The warm-up request is under way.
    WarmingUp,
    /// A timed request is under way.
    Measuring,
    /// The worker has measured its share.
    Finished,
    /// A request failed, or an event came out of turn.
    Aborted,
}

/// What happened to a worker.
#[derive(Debug, Clone, Copy)]
pub enum Event {
    /// The worker was started.
    Started,
    /// The warm-up request was answered.
    WarmedUp,
    /// A timed request was answered, with this result.
    Measured(Fact),
    /// The request under way failed.
    Failed,
}

/// What a worker has to do next.
#[derive(Debug, Clone, Copy, PartialEq, Eq, Structural)]
pub enum Action {
    /// Send the warm-up request, untimed, and report `WarmedUp` or `Failed`.
    WarmUp,
    /// Send one timed request and report `Measured` or `Failed`.
    Measure,
    /// Stop: the share is measured.
    Finish,
    /// Stop: the run has failed.
    Abort,
}

/// The state of a worker: its phase, its share of the requests, and the
/// facts measured so far, oldest first.
pub struct WorkerView {
    pub phase: Phase,
    pub share: nat,
    pub facts: Seq<Fact>,
}

/// The state of a worker with the given share before it is started.
pub open spec fn idle(share: nat) -> WorkerView {
    WorkerView { phase: Phase::Idle, share, facts: Seq::empty() }
}

/// The phase of a worker that has just been answered and holds `measured`
/// facts of its share.
pub open spec fn phase_at(measured: nat, share: nat) -> Phase {
    if measured >= share {
        Phase::Finished
    } else {
        Phase::Measuring
    }
}

/// The state of a worker after `event`.
pub open spec fn after(state: WorkerView, event: Event) -> WorkerView {
    match (state.phase, event) {
        (Phase::Idle, Event::Started) => WorkerView { phase: Phase::WarmingUp, ..state },
        (Phase::WarmingUp, Event::WarmedUp) => WorkerView {
            phase: phase_at(0, state.share),
            ..state
        },
        (Phase::Measuring, Event::Measured(fact)) => WorkerView {
            phase: phase_at(state.facts.len() + 1, state.share),
            facts: state.facts.push(fact),
            ..state
        },
        (Phase::Finished, _) => state,
        _ => WorkerView { phase: Phase::Aborted, ..state },
    }
}

/// What a worker in the given phase has to do.
pub open spec fn action_in(phase: Phase) -> Action {
    match phase {
        Phase::Idle => Action::Abort,
        Phase::WarmingUp => Action::WarmUp,
        Phase::Measuring => Action::Measure,
        Phase::Finished => Action::Finish,
        Phase::Aborted => Action::Abort,
    }
}

/// Whether a state can be reached: a worker holds no more facts than its
/// share, all of them once it has finished, and none before it measures.
pub open spec fn consistent(state: WorkerView) -> bool {
    match state.phase {
        Phase::Idle => state.facts.len() == 0,
        Phase::WarmingUp => state.facts.len() == 0,
        Phase::Measuring => state.facts.len() < state.share,
        Phase::Finished => state.facts.len() == state.share,
        Phase::Aborted => state.facts.len() <= state.share,
    }
}

/// The state of a worker with the given share after the events, oldest first.
pub open spec fn run(share: nat, events: Seq<Event>) -> WorkerView
    decreases events.len(),
{
    if events.len() == 0 {
        idle(share)
    } else {
        after(run(share, events.drop_last()), events.last())
    }
}

/// The events of a worker whose requests are all answered: the start, the
/// warm-up, and one measurement for each of the facts.
pub open spec fn answered(facts: Seq<Fact>) -> Seq<Event> {
    seq![Event::Started, Event::WarmedUp] + facts.map_values(|fact: Fact| Event::Measured(fact))
}

/// Whatever happens to a worker, its share stays and its state stays
/// consistent.
pub proof fn lemma_run_is_consistent(share: nat, events: Seq<Event>)
    ensures
        run(share, events).share == share,
        consistent(run(share, events)),
    decreases events.len(),
{
    if events.len() > 0 {
        lemma_run_is_consistent(share, events.drop_last());
    }
}

/// A worker whose requests are all answered warms up once, measures as long
/// as its share is not reached, and then holds the facts in the order in
/// which they were measured.
pub proof fn lemma_answered_run(share: nat, facts: Seq<Fact>)
    requires
        facts.len() <= share,
    ensures
        run(share, answered(facts)).facts == facts,
        run(share, answered(facts)).phase == phase_at(facts.len(), share),
        facts.len() == share ==> action_in(run(share, answered(facts)).phase) == Action::Finish,
        facts.len() < share ==> action_in(run(share, answered(facts)).phase) == Action::Measure,
    decreases facts.len(),
{
    let events = answered(facts);
    if facts.len() == 0 {
        let started = seq![Event::Started];
        assert(events =~= started.push(Event::WarmedUp));
        assert(events.drop_last() =~= started);
        assert(started.drop_last() =~= Seq::<Event>::empty());
        assert(run(share, started.drop_last()) == idle(share));
        assert(run(share, started) == after(idle(share), Event::Started));
        assert(run(share, events) == after(run(share, started), Event::WarmedUp));
        assert(run(share, events).facts =~= facts);
    } else {
        lemma_answered_run(share, facts.drop_last());
        assert(events.drop_last() =~= answered(facts.drop_last()));
        assert(events.last() == Event::Measured(facts.last()));
        lemma_run_is_consistent(share, events.drop_last());
        assert(run(share, events).facts =~= facts);
    }
}

/// A worker warms up once: after the events that left it warming up, no
/// further event leaves it idle or warming up again.
pub proof fn lemma_warm_up_once(share: nat, events: Seq<Event>, i: int, j: int)
    requires
        0 <= i < j <= events.len(),
        run(share, events.take(i)).phase == Phase::WarmingUp,
    ensures
        run(share, events.take(j)).phase != Phase::WarmingUp,
        run(share, events.take(j)).phase != Phase::Idle,
    decreases j,
{
    assert(events.take(j).drop_last() =~= events.take(j - 1));
    if j > i + 1 {
        lemma_warm_up_once(share, events, i, j - 1);
    }
}

/// A failed request is fatal: it aborts a worker that has not finished, and
/// nothing brings an aborted worker back.
pub proof fn lemma_failure_is_final(state: WorkerView, event: Event)
    ensures
        state.phase != Phase::Finished ==> after(state, Event::Failed).phase == Phase::Aborted,
        state.phase == Phase::Aborted ==> after(state, event) == state,
        action_in(Phase::Aborted) == Action::Abort,
{
}

/// One of the parallel workers of a run. It decides what is done next; the
/// requests themselves are sent by whoever drives it.
#[derive(Debug)]
pub struct Worker {
    phase: Phase,
    share: u32,
    facts: Vec<Fact>,
}

impl View for Worker {
    type V = WorkerView;

    closed spec fn view(&self) -> WorkerView {
        WorkerView { phase: self.phase, share: self.share as nat, facts: self.facts@ }
    }
}

impl Worker {
    #[verifier::type_invariant]
    spec fn reachable(self) -> bool {
        consistent(self@)
    }

    /// A worker that is to measure `share` requests.
    pub fn new(share: u32) -> (worker: Worker)
        ensures
            worker@ == idle(share as nat),
    {
        Worker { phase: Phase::Idle, share, facts: Vec::new() }
    }

    /// Keeps the result of the timed request that was under way.
    fn keep(&mut self, fact: Fact)
        requires
            old(self)@.phase == Phase::Measuring,
        ensures
            final(self)@ == after(old(self)@, Event::Measured(fact)),
    {
        proof {
            use_type_invariant(&*self);
        }
        let mut facts: Vec<Fact> = Vec::new();
        core::mem::swap(&mut self.facts, &mut facts);
        facts.push(fact);
        let phase = if facts.len() >= self.share as usize {
            Phase::Finished
        } else {
            Phase::Measuring
        };
        *self = Worker { phase, share: self.share, facts };
    }

    /// Takes note of `event` and says what to do next.
    pub fn handle(&mut self, event: Event) -> (action: Action)
        ensures
            final(self)@ == after(old(self)@, event),
            action == action_in(final(self)@.phase),
    {
        proof {
            use_type_invariant(&*self);
        }
        match (self.phase, event) {
            (Phase::Idle, Event::Started) => {
                self.phase = Phase::WarmingUp;
            },
            (Phase::WarmingUp, Event::WarmedUp) => {
                self.phase = if self.share == 0 {
                    Phase::Finished
                } else {
                    Phase::Measuring
                };
            },
            (Phase::Measuring, Event::Measured(fact)) => {
                self.keep(fact);
            },
            (Phase::Finished, _) => {},
            _ => {
                self.phase = Phase::Aborted;
            },
        }
        match self.phase {
            Phase::Idle => Action::Abort,
            Phase::WarmingUp => Action::WarmUp,
            Phase::Measuring => Action::Measure,
            Phase::Finished => Action::Finish,
            Phase::Aborted => Action::Abort,
        }
    }

    /// Where the worker stands.
    pub fn phase(&self) -> (phase: Phase)
        ensures
            phase == self@.phase,
    {
        self.phase
    }

    /// The facts of a worker that has finished, oldest first: as many as its
    /// share. A worker that has not finished hands out nothing.
    pub fn into_facts(self) -> (facts: Option<Vec<Fact>>)
        ensures
            facts is Some <==> self@.phase == Phase::Finished,
            facts matches Some(measured) ==> measured@ == self@.facts && measured.len()
                == self@.share,
    {
        proof {
            use_type_invariant(&self);
        }
        match self.phase {
            Phase::Finished => Some(self.facts),
            _ => None,
        }
    }
}

/// The facts of all workers as one sequence: those of the first worker, then
/// those of the second, and so on, each worker's in its own order.
pub fn join(batches: &[Vec<Fact>]) -> (all: Vec<Fact>)
    ensures
        all@ == batches@.map_values(|batch: Vec<Fact>| batch@).flatten(),
{
    let ghost views = batches@.map_values(|batch: Vec<Fact>| batch@);
    let mut all: Vec<Fact> = Vec::new();
    let mut i: usize = 0;
    while i < batches.len()
        invariant
            i <= batches.len(),
            views == batches@.map_values(|batch: Vec<Fact>| batch@),
            all@ == views.take(i as int).flatten(),
        decreases batches.len() - i,
    {
        let batch = &batches[i];
        let mut j: usize = 0;
        while j < batch.len()
            invariant
                j <= batch.len(),
                all@ == views.take(i as int).flatten() + batch@.take(j as int),
            decreases batch.len() - j,
        {
            all.push(batch[j]);
            j += 1;
            assert(batch@.take(j as int) =~= batch@.take(j - 1).push(batch@[j - 1]));
        }
        proof {
            assert(batch@.take(j as int) =~= batch@);
            assert(views.take(i + 1) =~= views.take(i as int).push(batch@));
            views.take(i as int).lemma_flatten_push(batch@);
        }
        i += 1;
    }
    assert(views.take(i as int) =~= views);
    all
}

/// Where every worker has measured `share` requests, the run holds `share`
/// facts for each worker.
pub proof fn lemma_joined_count(batches: Seq<Seq<Fact>>, share: nat)
    requires
        forall|i: int| 0 <= i < batches.len() ==> (#[trigger] batches[i]).len() == share,
    ensures
        batches.flatten().len() == batches.len() * share,
    decreases batches.len(),
{
    if batches.len() > 0 {
        let rest = batches.drop_last();
        lemma_joined_count(rest, share);
        assert(batches =~= rest.push(batches.last()));
        rest.lemma_flatten_push(batches.last());
        assert(batches.len() * share == rest.len() * share + share) by (nonlinear_arith)
            requires
                batches.len() == rest.len() + 1,
        ;
    }
}

} // verus!
