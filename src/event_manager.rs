use vstd::prelude::*;
use crate::events::{Event, EventIds, EventKind};

verus! {

/// Capacity of the low-priority ingress queue.
pub const LOW_CAPACITY: usize = 20;

/// Where the dispatch loop stands. The first low-priority dispatch moves it
/// from `Init` to `Running`; the end-of-stream dispatch, made once both
/// queues are empty and the idle timer has run out, moves it to `Terminated`.
#[derive(Clone, Copy, Debug, PartialEq, Eq, Structural)]
pub enum Phase {
    /// Waiting for the first low-priority event.
    Init,
    /// Dispatching; the idle timer runs between dispatches.
    Running,
    /// The end-of-stream marker has been dispatched.
    Terminated,
}

/// What the dispatch loop does next.
pub enum Step {
    /// Send a copy of the event to each endpoint, in this order, and restart
    /// the idle timer.
    Dispatch(Event, Vec<usize>),
    /// Nothing has arrived yet: block until a low-priority event does.
    Block,
    /// Both queues are empty and the idle timer has not run out.
    Idle,
    /// The loop is over.
    Finished,
}

/// What each endpoint holds once `e` is sent to every endpoint of `subs`, in
/// order: each gets one copy per time it occurs in `subs`.
pub open spec fn deliver(mail: Map<usize, Seq<Event>>, subs: Seq<usize>, e: Event) -> Map<usize, Seq<Event>>
    decreases subs.len(),
{
    if subs.len() == 0 {
        mail
    } else {
        let m = deliver(mail, subs.drop_last(), e);
        m.insert(subs.last(), mailbox(m, subs.last()).push(e))
    }
}

/// The events delivered so far to endpoint `x`, oldest first.
pub open spec fn mailbox(mail: Map<usize, Seq<Event>>, x: usize) -> Seq<Event> {
    if mail.contains_key(x) {
        mail[x]
    } else {
        Seq::empty()
    }
}

/// How many times `x` occurs in `subs`.
pub open spec fn occurrences(subs: Seq<usize>, x: usize) -> nat
    decreases subs.len(),
{
    if subs.len() == 0 {
        0
    } else {
        occurrences(subs.drop_last(), x) + if subs.last() == x { 1nat } else { 0nat }
    }
}

/// `n` copies of `e`.
pub open spec fn copies(e: Event, n: nat) -> Seq<Event> {
    Seq::new(n, |i: int| e)
}

/// The mail after each dispatch of `steps` in order, each an event sent to a
/// list of endpoints.
pub open spec fn deliver_all(mail: Map<usize, Seq<Event>>, steps: Seq<(Seq<usize>, Event)>) -> Map<usize, Seq<Event>>
    decreases steps.len(),
{
    if steps.len() == 0 {
        mail
    } else {
        deliver(deliver_all(mail, steps.drop_last()), steps.last().0, steps.last().1)
    }
}

/// What endpoint `x` is owed by `steps`: the event of each dispatch, once
/// per time `x` occurs among its endpoints, in dispatch order.
pub open spec fn received(steps: Seq<(Seq<usize>, Event)>, x: usize) -> Seq<Event>
    decreases steps.len(),
{
    if steps.len() == 0 {
        Seq::empty()
    } else {
        received(steps.drop_last(), x) + copies(steps.last().1, occurrences(steps.last().0, x))
    }
}

/// One dispatch appends to each endpoint's mail exactly one copy of the
/// event per time the endpoint is listed, and nothing else.
pub proof fn lemma_deliver(mail: Map<usize, Seq<Event>>, subs: Seq<usize>, e: Event, x: usize)
    ensures
        mailbox(deliver(mail, subs, e), x) == mailbox(mail, x) + copies(e, occurrences(subs, x)),
    decreases subs.len(),
{
    if subs.len() == 0 {
        assert(mailbox(mail, x) + copies(e, 0) =~= mailbox(mail, x));
    } else {
        lemma_deliver(mail, subs.drop_last(), e, x);
        let n = occurrences(subs.drop_last(), x);
        if subs.last() == x {
            assert(copies(e, n).push(e) =~= copies(e, n + 1));
            assert((mailbox(mail, x) + copies(e, n)).push(e) =~= mailbox(mail, x) + copies(e, n + 1));
        }
    }
}

/// Per-subscriber FIFO over a whole run: after any sequence of dispatches
/// from empty mail, each endpoint has received exactly the dispatched events
/// it was listed for, once per listing, in the order they were dispatched:
/// nothing lost, nothing added, nothing reordered.
pub proof fn lemma_fifo_run(steps: Seq<(Seq<usize>, Event)>, x: usize)
    ensures
        mailbox(deliver_all(Map::empty(), steps), x) == received(steps, x),
    decreases steps.len(),
{
    if steps.len() == 0 {
        assert(mailbox(Map::<usize, Seq<Event>>::empty(), x) =~= Seq::<Event>::empty());
    } else {
        lemma_fifo_run(steps.drop_last(), x);
        lemma_deliver(deliver_all(Map::empty(), steps.drop_last()), steps.last().0, steps.last().1, x);
    }
}

/// The typed publish/subscribe core: subscriber registry, the two ingress
/// queues and the dispatch decisions. Endpoints are numbers chosen by the
/// caller, which also owns the channels behind them.
pub struct EventManager {
    market_data_subs: Vec<usize>,
    order_place_subs: Vec<usize>,
    portfolio_info_subs: Vec<usize>,
    shut_down_subs: Vec<usize>,
    high: Vec<Event>,
    low: Vec<Event>,
    phase: Phase,
    log: Ghost<Seq<(Seq<usize>, Event)>>,
}

fn copy_endpoints(v: &Vec<usize>) -> (r: Vec<usize>)
    ensures
        r@ == v@,
{
    let mut r: Vec<usize> = Vec::new();
    let mut i: usize = 0;
    while i < v.len()
        invariant
            i <= v@.len(),
            r@ == v@.subrange(0, i as int),
        decreases v@.len() - i,
    {
        r.push(v[i]);
        i = i + 1;
        assert(r@ =~= v@.subrange(0, i as int));
    }
    assert(v@.subrange(0, v@.len() as int) =~= v@);
    r
}

impl EventManager {
    /// The endpoints subscribed to `kind`, in subscription order.
    pub closed spec fn subscribers(&self, kind: EventKind) -> Seq<usize> {
        match kind {
            EventKind::MarketData => self.market_data_subs@,
            EventKind::OrderPlace => self.order_place_subs@,
            EventKind::PortfolioInfo => self.portfolio_info_subs@,
            EventKind::ShutDown => self.shut_down_subs@,
        }
    }

    /// The high-priority queue, oldest first.
    pub closed spec fn high_view(&self) -> Seq<Event> {
        self.high@
    }

    /// The low-priority queue, oldest first.
    pub closed spec fn low_view(&self) -> Seq<Event> {
        self.low@
    }

    pub closed spec fn phase_view(&self) -> Phase {
        self.phase
    }

    /// Every dispatch so far, in order: the endpoints and the event.
    pub closed spec fn dispatched(&self) -> Seq<(Seq<usize>, Event)> {
        self.log@
    }

    /// What every endpoint has been sent so far.
    pub open spec fn mail(&self) -> Map<usize, Seq<Event>> {
        deliver_all(Map::empty(), self.dispatched())
    }

    pub closed spec fn wf(&self) -> bool {
        self.low@.len() <= LOW_CAPACITY
    }

    pub fn new() -> (r: Self)
        ensures
            r.wf(),
            forall|k: EventKind| #[trigger] r.subscribers(k) == Seq::<usize>::empty(),
            r.high_view() == Seq::<Event>::empty(),
            r.low_view() == Seq::<Event>::empty(),
            r.phase_view() == Phase::Init,
            r.dispatched() == Seq::<(Seq<usize>, Event)>::empty(),
    {
        EventManager {
            market_data_subs: Vec::new(),
            order_place_subs: Vec::new(),
            portfolio_info_subs: Vec::new(),
            shut_down_subs: Vec::new(),
            high: Vec::new(),
            low: Vec::new(),
            phase: Phase::Init,
            log: Ghost(Seq::empty()),
        }
    }

    /// Appends `endpoint` to the subscribers of `kind`. Subscribing twice
    /// means receiving twice.
    pub fn subscribe(&mut self, kind: EventKind, endpoint: usize)
        ensures
            final(self).wf() == old(self).wf(),
            final(self).subscribers(kind) == old(self).subscribers(kind).push(endpoint),
            forall|k: EventKind| k != kind ==> #[trigger] final(self).subscribers(k) == old(self).subscribers(k),
            final(self).high_view() == old(self).high_view(),
            final(self).low_view() == old(self).low_view(),
            final(self).phase_view() == old(self).phase_view(),
            final(self).dispatched() == old(self).dispatched(),
    {
        match kind {
            EventKind::MarketData => self.market_data_subs.push(endpoint),
            EventKind::OrderPlace => self.order_place_subs.push(endpoint),
            EventKind::PortfolioInfo => self.portfolio_info_subs.push(endpoint),
            EventKind::ShutDown => self.shut_down_subs.push(endpoint),
        }
    }

    /// The endpoints subscribed to `kind`.
    pub fn subscribers_of(&self, kind: EventKind) -> (r: Vec<usize>)
        ensures
            r@ == self.subscribers(kind),
    {
        match kind {
            EventKind::MarketData => copy_endpoints(&self.market_data_subs),
            EventKind::OrderPlace => copy_endpoints(&self.order_place_subs),
            EventKind::PortfolioInfo => copy_endpoints(&self.portfolio_info_subs),
            EventKind::ShutDown => copy_endpoints(&self.shut_down_subs),
        }
    }

    /// Enqueues a high-priority event; this queue has no bound.
    pub fn publish_high(&mut self, event: Event)
        ensures
            final(self).wf() == old(self).wf(),
            final(self).high_view() == old(self).high_view().push(event),
            final(self).low_view() == old(self).low_view(),
            final(self).phase_view() == old(self).phase_view(),
            final(self).dispatched() == old(self).dispatched(),
            forall|k: EventKind| #[trigger] final(self).subscribers(k) == old(self).subscribers(k),
    {
        self.high.push(event);
    }

    /// Number of low-priority events not yet dispatched.
    pub fn low_outstanding(&self) -> (r: usize)
        ensures
            r == self.low_view().len(),
    {
        self.low.len()
    }

    /// Enqueues a low-priority event unless [`LOW_CAPACITY`] events are
    /// outstanding; then the event is handed back and its producer must wait.
    pub fn try_publish_low(&mut self, event: Event) -> (r: Result<(), Event>)
        requires
            old(self).wf(),
        ensures
            final(self).wf(),
            r is Err <==> old(self).low_view().len() == LOW_CAPACITY,
            r matches Err(e) ==> e == event && final(self).low_view() == old(self).low_view(),
            r is Ok ==> final(self).low_view() == old(self).low_view().push(event),
            final(self).high_view() == old(self).high_view(),
            final(self).phase_view() == old(self).phase_view(),
            final(self).dispatched() == old(self).dispatched(),
            forall|k: EventKind| #[trigger] final(self).subscribers(k) == old(self).subscribers(k),
    {
        if self.low.len() >= LOW_CAPACITY {
            Err(event)
        } else {
            self.low.push(event);
            Ok(())
        }
    }

    /// Records the delivery of `event` and returns its endpoints.
    fn dispatch(&mut self, event: Event) -> (r: Step)
        ensures
            final(self).dispatched() == old(self).dispatched().push((old(self).subscribers(event.kind()), event)),
            final(self).mail() == deliver(old(self).mail(), old(self).subscribers(event.kind()), event),
            r == Step::Dispatch(event, r->Dispatch_1) && r->Dispatch_1@ == old(self).subscribers(event.kind()),
            final(self).high_view() == old(self).high_view(),
            final(self).low_view() == old(self).low_view(),
            final(self).phase_view() == old(self).phase_view(),
            forall|k: EventKind| #[trigger] final(self).subscribers(k) == old(self).subscribers(k),
    {
        let kind = event.event_kind();
        let endpoints = self.subscribers_of(kind);
        let ghost prev = self.log@;
        self.log = Ghost(self.log@.push((endpoints@, event)));
        assert(self.log@.drop_last() =~= prev);
        Step::Dispatch(event, endpoints)
    }

    /// Decides the next step of the dispatch loop. `idle_expired` says
    /// whether the idle-shutdown time has passed since the last dispatch.
    ///
    /// Before the first low-priority event nothing is dispatched. After it,
    /// high-priority events go first, then one low-priority event; when both
    /// queues are empty and the timer has run out, a fresh end-of-stream
    /// event is dispatched and the loop ends.
    pub fn step(&mut self, idle_expired: bool, ids: &mut EventIds) -> (r: Step)
        requires
            old(self).wf(),
            old(ids).last(EventKind::ShutDown) < u64::MAX,
        ensures
            final(self).wf(),
            forall|k: EventKind| #[trigger] final(self).subscribers(k) == old(self).subscribers(k),
            match r {
                Step::Dispatch(e, endpoints) => {
                    &&& endpoints@ == old(self).subscribers(e.kind())
                    &&& final(self).dispatched() == old(self).dispatched().push((endpoints@, e))
                    &&& final(self).mail() == deliver(old(self).mail(), endpoints@, e)
                },
                _ => final(self).dispatched() == old(self).dispatched(),
            },
            match old(self).phase_view() {
                Phase::Init => if old(self).low_view().len() == 0 {
                    r is Block && final(self).phase_view() == Phase::Init
                        && final(self).low_view() == old(self).low_view()
                        && final(self).high_view() == old(self).high_view()
                } else {
                    r matches Step::Dispatch(e, _) && e == old(self).low_view()[0]
                        && final(self).phase_view() == Phase::Running
                        && final(self).low_view() == old(self).low_view().drop_first()
                        && final(self).high_view() == old(self).high_view()
                },
                Phase::Running => if old(self).high_view().len() > 0 {
                    r matches Step::Dispatch(e, _) && e == old(self).high_view()[0]
                        && final(self).phase_view() == Phase::Running
                        && final(self).high_view() == old(self).high_view().drop_first()
                        && final(self).low_view() == old(self).low_view()
                } else if old(self).low_view().len() > 0 {
                    r matches Step::Dispatch(e, _) && e == old(self).low_view()[0]
                        && final(self).phase_view() == Phase::Running
                        && final(self).low_view() == old(self).low_view().drop_first()
                        && final(self).high_view() == old(self).high_view()
                } else if idle_expired {
                    r matches Step::Dispatch(e, _) && e == Event::ShutDown(
                        crate::events::ShutDownEvent { id: final(ids).last(EventKind::ShutDown) as u64 },
                    ) && final(ids).advanced(old(ids), EventKind::ShutDown)
                        && final(self).phase_view() == Phase::Terminated
                        && final(self).low_view() == old(self).low_view()
                        && final(self).high_view() == old(self).high_view()
                } else {
                    r is Idle && final(self).phase_view() == Phase::Running
                        && final(self).low_view() == old(self).low_view()
                        && final(self).high_view() == old(self).high_view()
                },
                Phase::Terminated => r is Finished && final(self).phase_view() == Phase::Terminated
                    && final(self).low_view() == old(self).low_view()
                    && final(self).high_view() == old(self).high_view(),
            },
            !(old(self).phase_view() == Phase::Running && old(self).high_view().len() == 0
                && old(self).low_view().len() == 0 && idle_expired) ==> *final(ids) == *old(ids),
    {
        match self.phase {
            Phase::Init => {
                if self.low.len() == 0 {
                    Step::Block
                } else {
                    let e = self.low.remove(0);
                    self.phase = Phase::Running;
                    self.dispatch(e)
                }
            },
            Phase::Running => {
                if self.high.len() > 0 {
                    let e = self.high.remove(0);
                    self.dispatch(e)
                } else if self.low.len() > 0 {
                    let e = self.low.remove(0);
                    self.dispatch(e)
                } else if idle_expired {
                    let e = Event::new_shut_down(ids);
                    self.phase = Phase::Terminated;
                    self.dispatch(e)
                } else {
                    Step::Idle
                }
            },
            Phase::Terminated => Step::Finished,
        }
    }
}

} // verus!
