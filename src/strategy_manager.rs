use vstd::prelude::*;
use crate::events::{CASH_LIMIT, Event, EventIds, EventKind, MarketDataEvent, Portfolio, PortfolioView};

verus! {

/// Weights are given in parts per this many: 1000 is a weight of 1.
pub const WEIGHT_SCALE: u64 = 1000;

/// Largest weight a strategy may carry.
pub const MAX_WEIGHT: u64 = 65536;

/// A trading strategy driven by bars and by portfolio snapshots.
pub trait Strategy: Sized {
    /// The strategy's own invariant.
    spec fn inv(&self) -> bool;

    /// `self` is `before` once it has reacted to `bar` with `out`, an order
    /// taking identifier `order_id` if there is one.
    spec fn processed(&self, before: Self, bar: MarketDataEvent, out: Option<Event>, order_id: nat) -> bool;

    /// `self` is `before` once it has taken `portfolio` as its snapshot.
    spec fn updated(&self, before: Self, portfolio: PortfolioView) -> bool;

    /// Reacts to one bar, returning at most one order placement, which takes
    /// the next order identifier.
    fn process(&mut self, bar: &MarketDataEvent, ids: &mut EventIds) -> (r: Option<Event>)
        requires
            old(self).inv(),
            bar.wf(),
            old(ids).last(EventKind::OrderPlace) < u64::MAX,
        ensures
            final(self).inv(),
            final(self).processed(*old(self), *bar, r, final(ids).last(EventKind::OrderPlace)),
            match r {
                Some(e) => e.kind() == EventKind::OrderPlace && e.id() == final(ids).last(EventKind::OrderPlace)
                    && final(ids).advanced(old(ids), EventKind::OrderPlace),
                None => *final(ids) == *old(ids),
            },
    ;

    /// Takes a new portfolio snapshot.
    fn update(&mut self, portfolio: Portfolio)
        requires
            old(self).inv(),
        ensures
            final(self).inv(),
            final(self).updated(*old(self), portfolio@),
    ;
}

/// `amount` scaled by `weight` parts per [`WEIGHT_SCALE`], rounded toward zero.
pub open spec fn share(amount: int, weight: nat) -> int {
    if amount >= 0 {
        amount * weight / (WEIGHT_SCALE as int)
    } else {
        -((-amount) * weight / (WEIGHT_SCALE as int))
    }
}

/// The portfolio handed to a strategy of weight `weight`: the same, but with
/// its share of the available cash.
pub open spec fn weighted(p: PortfolioView, weight: nat) -> PortfolioView {
    PortfolioView { available_cash: share(p.available_cash, weight), ..p }
}

/// The orders among `outs`, in order.
pub open spec fn somes(outs: Seq<Option<Event>>) -> Seq<Event>
    decreases outs.len(),
{
    if outs.len() == 0 {
        Seq::empty()
    } else {
        let init = somes(outs.drop_last());
        match outs.last() {
            Some(e) => init.push(e),
            None => init,
        }
    }
}

/// Each strategy of `after` is the one of `before` at the same place once it
/// has reacted to `bar` with `outs[i]`; an order takes the identifier that
/// follows `last_id` and the orders of the strategies before it.
pub open spec fn all_processed<S: Strategy>(
    before: Seq<S>,
    after: Seq<S>,
    bar: MarketDataEvent,
    outs: Seq<Option<Event>>,
    last_id: nat,
) -> bool {
    &&& before.len() == outs.len()
    &&& after.len() == outs.len()
    &&& forall|i: int|
        0 <= i < outs.len() ==> #[trigger] after[i].processed(
            before[i],
            bar,
            outs[i],
            last_id + somes(outs.take(i + 1)).len(),
        )
}

/// Forwards bars and portfolio snapshots to an ordered list of strategies.
pub struct StrategyManager<S: Strategy> {
    strategies: Vec<S>,
    weights: Vec<u64>,
}

impl<S: Strategy> StrategyManager<S> {
    pub closed spec fn strategies_view(&self) -> Seq<S> {
        self.strategies@
    }

    pub closed spec fn weights_view(&self) -> Seq<u64> {
        self.weights@
    }

    pub closed spec fn wf(&self) -> bool {
        &&& forall|i: int| 0 <= i < self.strategies@.len() ==> #[trigger] self.strategies@[i].inv()
        &&& forall|i: int| 0 <= i < self.weights@.len() ==> #[trigger] self.weights@[i] <= MAX_WEIGHT
    }

    /// A manager with no strategies yet and one weight per strategy to come.
    pub fn new(weights: Vec<u64>) -> (r: Self)
        requires
            forall|i: int| 0 <= i < weights@.len() ==> #[trigger] weights@[i] <= MAX_WEIGHT,
        ensures
            r.wf(),
            r.strategies_view() == Seq::<S>::empty(),
            r.weights_view() == weights@,
    {
        StrategyManager { strategies: Vec::new(), weights }
    }

    /// Registers a strategy after those already present.
    pub fn add_strategy(&mut self, strategy: S)
        requires
            old(self).wf(),
            strategy.inv(),
        ensures
            final(self).wf(),
            final(self).strategies_view() == old(self).strategies_view().push(strategy),
            final(self).weights_view() == old(self).weights_view(),
    {
        self.strategies.push(strategy);
        assert forall|i: int| 0 <= i < self.strategies@.len() implies #[trigger] self.strategies@[i].inv() by {
            if i < old(self).strategies@.len() {
                assert(self.strategies@[i] == old(self).strategies@[i]);
            }
        }
    }

    /// Number of registered strategies.
    pub fn strategy_count(&self) -> (r: usize)
        ensures
            r == self.strategies_view().len(),
    {
        self.strategies.len()
    }

    /// Whether there is exactly one weight per strategy, as running requires.
    pub fn is_configured(&self) -> (r: bool)
        ensures
            r == (self.strategies_view().len() == self.weights_view().len()),
    {
        self.strategies.len() == self.weights.len()
    }

    /// Hands the bar to each strategy in registration order and returns the
    /// order placements they produced, in that order, to be published at high
    /// priority. They carry consecutive fresh identifiers.
    pub fn process_marketevent(&mut self, bar: &MarketDataEvent, ids: &mut EventIds) -> (r: Vec<Event>)
        requires
            old(self).wf(),
            bar.wf(),
            old(ids).last(EventKind::OrderPlace) + old(self).strategies_view().len() < u64::MAX,
        ensures
            final(self).wf(),
            final(self).strategies_view().len() == old(self).strategies_view().len(),
            final(self).weights_view() == old(self).weights_view(),
            exists|outs: Seq<Option<Event>>|
                #[trigger] all_processed(
                    old(self).strategies_view(),
                    final(self).strategies_view(),
                    *bar,
                    outs,
                    old(ids).last(EventKind::OrderPlace),
                ) && r@ == somes(outs),
            r@.len() <= old(self).strategies_view().len(),
            final(ids).last(EventKind::OrderPlace) == old(ids).last(EventKind::OrderPlace) + r@.len(),
            forall|k: EventKind| k != EventKind::OrderPlace ==> #[trigger] final(ids).last(k) == old(ids).last(k),
            forall|i: int|
                0 <= i < r@.len() ==> (#[trigger] r@[i]).kind() == EventKind::OrderPlace && r@[i].id()
                    == old(ids).last(EventKind::OrderPlace) + i + 1,
    {
        let mut rest: Vec<S> = Vec::new();
        core::mem::swap(&mut rest, &mut self.strategies);
        let ghost all = rest@;
        let n = rest.len();
        let mut done: Vec<S> = Vec::new();
        let mut out: Vec<Event> = Vec::new();
        let ghost mut outs: Seq<Option<Event>> = Seq::empty();
        let mut i: usize = 0;
        while i < n
            invariant
                n == all.len(),
                i <= n,
                rest@ == all.subrange(i as int, n as int),
                done@.len() == i,
                forall|j: int| 0 <= j < all.len() ==> #[trigger] all[j].inv(),
                forall|j: int| 0 <= j < done@.len() ==> #[trigger] done@[j].inv(),
                self.weights@ == old(self).weights@,
                forall|j: int| 0 <= j < self.weights@.len() ==> #[trigger] self.weights@[j] <= MAX_WEIGHT,
                out@.len() <= i,
                outs.len() == i,
                out@ == somes(outs),
                forall|j: int|
                    0 <= j < i ==> #[trigger] done@[j].processed(
                        all[j],
                        *bar,
                        outs[j],
                        old(ids).last(EventKind::OrderPlace) + somes(outs.take(j + 1)).len(),
                    ),
                ids.last(EventKind::OrderPlace) == old(ids).last(EventKind::OrderPlace) + out@.len(),
                old(ids).last(EventKind::OrderPlace) + n < u64::MAX,
                bar.wf(),
                forall|k: EventKind| k != EventKind::OrderPlace ==> #[trigger] ids.last(k) == old(ids).last(k),
                forall|j: int|
                    0 <= j < out@.len() ==> (#[trigger] out@[j]).kind() == EventKind::OrderPlace && out@[j].id()
                        == old(ids).last(EventKind::OrderPlace) + j + 1,
            decreases n - i,
        {
            assert(rest@[0] == all[i as int]);
            let mut s = rest.remove(0);
            let ghost before = *ids;
            let ghost s_before = s;
            let produced = s.process(bar, ids);
            let ghost outs_next = outs.push(produced);
            proof {
                assert(outs_next.drop_last() =~= outs);
                assert(outs_next.take(i + 1) =~= outs_next);
            }
            match produced {
                Some(e) => {
                    proof {
                        assert(ids.last(EventKind::OrderPlace) == before.last(EventKind::OrderPlace) + 1);
                        assert forall|k: EventKind| k != EventKind::OrderPlace implies #[trigger] ids.last(k)
                            == old(ids).last(k) by {
                            assert(ids.last(k) == before.last(k) + 0);
                        }
                    }
                    out.push(e);
                },
                None => {},
            }
            let ghost done_before = done@;
            done.push(s);
            proof {
                assert forall|j: int| 0 <= j < i + 1 implies #[trigger] done@[j].processed(
                    all[j],
                    *bar,
                    outs_next[j],
                    old(ids).last(EventKind::OrderPlace) + somes(outs_next.take(j + 1)).len(),
                ) by {
                    if j < i {
                        assert(outs_next.take(j + 1) =~= outs.take(j + 1));
                        assert(outs_next[j] == outs[j]);
                        assert(done@[j] == done_before[j]);
                    } else {
                        assert(done@[j] == s);
                        assert(all[j] == s_before);
                    }
                }
                outs = outs_next;
            }
            i = i + 1;
            assert(rest@ =~= all.subrange(i as int, n as int));
        }
        self.strategies = done;
        proof {
            assert(all.take(n as int) =~= all);
            assert(all_processed(all, self.strategies@, *bar, outs, old(ids).last(EventKind::OrderPlace)));
        }
        out
    }

    /// Hands each strategy the snapshot with its weighted share of the
    /// available cash.
    pub fn process_portfolioinfo(&mut self, portfolio: &Portfolio)
        requires
            old(self).wf(),
            old(self).strategies_view().len() == old(self).weights_view().len(),
            -CASH_LIMIT <= portfolio.available_cash <= CASH_LIMIT,
        ensures
            final(self).wf(),
            final(self).strategies_view().len() == old(self).strategies_view().len(),
            final(self).weights_view() == old(self).weights_view(),
            forall|i: int|
                0 <= i < final(self).strategies_view().len() ==> (#[trigger] final(self).strategies_view()[i]).updated(
                    old(self).strategies_view()[i],
                    weighted(portfolio@, old(self).weights_view()[i] as nat),
                ),
    {
        let mut rest: Vec<S> = Vec::new();
        core::mem::swap(&mut rest, &mut self.strategies);
        let ghost all = rest@;
        let n = rest.len();
        let mut done: Vec<S> = Vec::new();
        let mut i: usize = 0;
        while i < n
            invariant
                n == all.len(),
                n == self.weights@.len(),
                i <= n,
                rest@ == all.subrange(i as int, n as int),
                done@.len() == i,
                forall|j: int| 0 <= j < all.len() ==> #[trigger] all[j].inv(),
                forall|j: int| 0 <= j < done@.len() ==> #[trigger] done@[j].inv(),
                self.weights@ == old(self).weights@,
                forall|j: int| 0 <= j < self.weights@.len() ==> #[trigger] self.weights@[j] <= MAX_WEIGHT,
                -CASH_LIMIT <= portfolio.available_cash <= CASH_LIMIT,
                forall|j: int|
                    0 <= j < done@.len() ==> (#[trigger] done@[j]).updated(
                        all[j],
                        weighted(portfolio@, self.weights@[j] as nat),
                    ),
            decreases n - i,
        {
            assert(rest@[0] == all[i as int]);
            let mut s = rest.remove(0);
            let w = self.weights[i];
            let mut p = portfolio.copy();
            let a = portfolio.available_cash;
            proof {
                assert(self.weights@[i as int] <= MAX_WEIGHT);
                if a >= 0 {
                    assert(0 <= a * w <= CASH_LIMIT * MAX_WEIGHT) by (nonlinear_arith)
                        requires
                            0 <= a <= CASH_LIMIT,
                            0 <= w <= MAX_WEIGHT,
                    ;
                } else {
                    assert(0 <= (-a) * w <= CASH_LIMIT * MAX_WEIGHT) by (nonlinear_arith)
                        requires
                            0 <= -a <= CASH_LIMIT,
                            0 <= w <= MAX_WEIGHT,
                    ;
                }
            }
            p.available_cash = if a >= 0 {
                a * (w as i128) / (WEIGHT_SCALE as i128)
            } else {
                -((-a) * (w as i128) / (WEIGHT_SCALE as i128))
            };
            assert(p@ == weighted(portfolio@, w as nat));
            let ghost s_before = s;
            s.update(p);
            let ghost done_before = done@;
            done.push(s);
            proof {
                assert forall|j: int| 0 <= j < i + 1 implies #[trigger] done@[j].updated(
                    all[j],
                    weighted(portfolio@, self.weights@[j] as nat),
                ) by {
                    if j < i {
                        assert(done@[j] == done_before[j]);
                    } else {
                        assert(all[j] == s_before);
                    }
                }
            }
            i = i + 1;
            assert(rest@ =~= all.subrange(i as int, n as int));
        }
        self.strategies = done;
    }
}

} // verus!
