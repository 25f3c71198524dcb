use vstd::prelude::*;
use crate::events::{
    CASH_LIMIT, Event, EventIds, EventKind, FireAndDropOrder, MarketDataEvent, Order, OrderDirection,
    OrderPlaceEvent, Portfolio, PortfolioView, PRICE_LIMIT,
};
use crate::strategies::moving_average_crossover::{FACTOR_SCALE, trend};
use crate::strategy_helper::{MovingWindow, slide};
use crate::strategy_manager::Strategy;

verus! {

/// Price factor of the strategy, in parts per [`FACTOR_SCALE`].
pub const FIRE_PRICE_FACTOR: u64 = 1200;

/// What the available cash buys at `close` times 1.2, rounded to the
/// nearest whole quantity (halves up; cash above the cash limit counts as
/// the limit), capped by the largest order amount. Nothing at a zero close
/// or without cash.
pub open spec fn fire_quantity(available: int, close: nat) -> nat {
    let cash = if available > CASH_LIMIT { CASH_LIMIT as int } else { available };
    let unit = close * (FIRE_PRICE_FACTOR as nat);
    let q: nat = if cash <= 0 || close == 0 {
        0
    } else {
        ((2 * cash * (FACTOR_SCALE as int) + unit) / (2 * unit) as int) as nat
    };
    if q < u32::MAX { q } else { u32::MAX as nat }
}

/// `after` is `before` once it has reacted to `bar` with `out`, an order
/// taking identifier `order_id` if there is one: the close enters the
/// window; when the 2-bar mean is above the 3-bar mean a buy is placed, when
/// below a sell, each of [`fire_quantity`] and only when that is positive.
/// The local portfolio is kept.
pub open spec fn fire_reaction(
    after: StrategyFireAndDrop,
    before: StrategyFireAndDrop,
    bar: MarketDataEvent,
    out: Option<Event>,
    order_id: nat,
) -> bool {
    let t = trend(after.window(), 2, 3);
    let q = fire_quantity(before.local().available_cash, bar.close as nat);
    &&& after.window() == slide(before.window(), 20, bar.close)
    &&& after.local() == before.local()
    &&& if t != 0 && q > 0 {
        out == Some(Event::OrderPlace(OrderPlaceEvent {
            id: order_id as u64,
            order: Order::FireAndDrop(FireAndDropOrder {
                symbol: bar.symbol,
                amount: q as u32,
                direction: if t > 0 { OrderDirection::Buy } else { OrderDirection::Sell },
            }),
        }))
    } else {
        out is None
    }
}

/// On every bar, compares the 2-bar and 3-bar means of the closes and places
/// an unconditional order in the direction of the short mean, sized by the
/// available cash.
pub struct StrategyFireAndDrop {
    portfolio_local: Portfolio,
    moving_window: MovingWindow,
}

impl StrategyFireAndDrop {
    pub closed spec fn window(&self) -> Seq<u64> {
        self.moving_window@
    }

    pub closed spec fn local(&self) -> PortfolioView {
        self.portfolio_local@
    }

    pub closed spec fn wf(&self) -> bool {
        &&& self.moving_window.wf()
        &&& self.moving_window.capacity_view() == 20
    }

    pub fn new() -> (r: Self)
        ensures
            r.wf(),
            r.window() == Seq::<u64>::empty(),
            r.local() == Portfolio::new_view(0),
    {
        StrategyFireAndDrop { portfolio_local: Portfolio::new(0), moving_window: MovingWindow::new(20) }
    }

    fn compute_quantity(&self, close: u64) -> (r: u32)
        requires
            close <= PRICE_LIMIT,
        ensures
            r == fire_quantity(self.portfolio_local.available_cash as int, close as nat),
    {
        let available = self.portfolio_local.available_cash;
        let cash: i128 = if available > CASH_LIMIT { CASH_LIMIT } else { available };
        let q: u128 = if cash <= 0 || close == 0 {
            0
        } else {
            proof {
                assert(2 * cash * 1000 <= 2 * CASH_LIMIT * 1000) by (nonlinear_arith)
                    requires
                        0 < cash <= CASH_LIMIT,
                ;
                assert(close * 1200 <= PRICE_LIMIT * 1200) by (nonlinear_arith)
                    requires
                        close <= PRICE_LIMIT,
                ;
                assert(close * 1200 >= 1200) by (nonlinear_arith)
                    requires
                        close >= 1,
                ;
            }
            let unit: u128 = (close as u128) * (FIRE_PRICE_FACTOR as u128);
            (2 * (cash as u128) * (FACTOR_SCALE as u128) + unit) / (2 * unit)
        };
        if q < u32::MAX as u128 { q as u32 } else { u32::MAX }
    }

    /// Reacts to one bar: the close enters the window; when the 2-bar mean
    /// is above the 3-bar mean a buy is placed, when below a sell, each of
    /// [`fire_quantity`] and only when that is positive.
    pub fn on_bar(&mut self, bar: &MarketDataEvent, ids: &mut EventIds) -> (r: Option<Event>)
        requires
            old(self).wf(),
            bar.wf(),
            old(ids).last(EventKind::OrderPlace) < u64::MAX,
        ensures
            final(self).wf(),
            fire_reaction(*final(self), *old(self), *bar, r, final(ids).last(EventKind::OrderPlace)),
            match r {
                Some(_) => final(ids).advanced(old(ids), EventKind::OrderPlace),
                None => *final(ids) == *old(ids),
            },
    {
        self.moving_window.update(bar.close);
        let (ss, ns) = self.moving_window.tail_sum(2);
        let (sl, nl) = self.moving_window.tail_sum(3);
        proof {
            assert(ss * nl <= 2 * 281474976710656 * 3) by (nonlinear_arith)
                requires
                    ss <= ns * 281474976710656,
                    ns <= 2,
                    nl <= 3,
            ;
            assert(sl * ns <= 3 * 281474976710656 * 2) by (nonlinear_arith)
                requires
                    sl <= nl * 281474976710656,
                    ns <= 2,
                    nl <= 3,
            ;
        }
        let above = ss * (nl as u128);
        let below = sl * (ns as u128);
        if above == below {
            return None;
        }
        let q = self.compute_quantity(bar.close);
        if q == 0 {
            return None;
        }
        let direction = if above > below { OrderDirection::Buy } else { OrderDirection::Sell };
        let order = FireAndDropOrder { symbol: bar.symbol.clone(), amount: q, direction };
        Some(Event::new_order_place(ids, Order::FireAndDrop(order)))
    }
}

impl Strategy for StrategyFireAndDrop {
    open spec fn inv(&self) -> bool {
        self.wf()
    }

    open spec fn processed(&self, before: Self, bar: MarketDataEvent, out: Option<Event>, order_id: nat) -> bool {
        fire_reaction(*self, before, bar, out, order_id)
    }

    /// The window is kept and `portfolio` becomes the local portfolio.
    open spec fn updated(&self, before: Self, portfolio: PortfolioView) -> bool {
        self.window() == before.window() && self.local() == portfolio
    }

    fn process(&mut self, bar: &MarketDataEvent, ids: &mut EventIds) -> (r: Option<Event>) {
        self.on_bar(bar, ids)
    }

    /// Replaces the local portfolio with the snapshot.
    fn update(&mut self, portfolio: Portfolio) {
        self.portfolio_local = portfolio;
    }
}

} // verus!
