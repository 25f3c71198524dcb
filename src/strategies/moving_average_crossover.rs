use vstd::prelude::*;
use crate::events::{
    CASH_LIMIT, Event, EventIds, EventKind, LimitPriceOrder, MarketDataEvent, Order, OrderDirection,
    OrderPlaceEvent, Portfolio, PortfolioView, PRICE_LIMIT,
};
use crate::strategy_helper::{MAX_WINDOW, MovingWindow, slide, sum, tail};
use crate::strategy_manager::Strategy;
use crate::table::lookup;

verus! {

/// Price and volume factors are given in parts per this many: 1000 is 1.
pub const FACTOR_SCALE: u64 = 1000;

/// Largest price or volume factor.
pub const MAX_FACTOR: u64 = 1000000;

/// The last signal the strategy acted on.
#[derive(Clone, Copy, Debug, PartialEq, Eq, Structural)]
pub enum LastSignal {
    IsBuy,
    IsSell,
    IsNone,
}

/// Sign of the short mean minus the long mean: 1 above, -1 below, 0 level.
/// The means are compared exactly, as fractions.
pub open spec fn trend(w: Seq<u64>, short: nat, long: nat) -> int {
    let above = sum(tail(w, short)) * tail(w, long).len();
    let below = sum(tail(w, long)) * tail(w, short).len();
    if above > below {
        1
    } else if above < below {
        -1
    } else {
        0
    }
}

/// The quantity the available cash buys at `close` times the price factor,
/// rounded down (cash above the cash limit counts as the limit), capped by
/// the largest order amount. Nothing at a zero close or without cash. The
/// local cash is debited by this quantity times the close.
pub open spec fn cash_quantity(available: int, close: nat, price_factor: nat) -> nat {
    let cash = if available > CASH_LIMIT { CASH_LIMIT as int } else { available };
    let by_cash: nat = if cash <= 0 || close == 0 {
        0
    } else {
        (cash * (FACTOR_SCALE as int) / (close * price_factor) as int) as nat
    };
    if by_cash < u32::MAX { by_cash } else { u32::MAX as nat }
}

/// The quantity bought on a buy signal: [`cash_quantity`] capped by the
/// bar's volume times the volume factor.
pub open spec fn buy_quantity(available: int, close: nat, volume: nat, price_factor: nat, volume_factor: nat) -> nat {
    let by_cash = cash_quantity(available, close, price_factor);
    let by_volume: nat = volume * volume_factor / (FACTOR_SCALE as nat);
    if by_cash < by_volume { by_cash } else { by_volume }
}

/// The amount sold on a sell signal: the whole position, capped by the
/// largest order amount.
pub open spec fn sell_quantity(held: nat) -> nat {
    if held < u32::MAX { held } else { u32::MAX as nat }
}

/// `after` is `before` once it has reacted to `bar` with `out`, an order
/// taking identifier `order_id` if there is one. The close enters the
/// window; on a fresh upward crossing the signal becomes a buy and, when
/// [`buy_quantity`] is positive, a buy of that quantity is placed with limit
/// twice the bar's low and [`cash_quantity`] times the close is taken from
/// the local available cash; on a
/// fresh downward crossing the signal becomes a sell and, when a position is
/// held, all of it (up to the largest order amount) is offered with limit 0.
/// Otherwise nothing is placed and the signal is kept. The window lengths,
/// the factors and the rest of the local portfolio do not change.
pub open spec fn crossover_reaction(after: MAcross, before: MAcross, bar: MarketDataEvent, out: Option<Event>, order_id: nat) -> bool {
    let t = trend(after.window(), before.short_len(), before.long_len());
    &&& after.window() == slide(before.window(), before.long_len(), bar.close)
    &&& after.short_len() == before.short_len()
    &&& after.long_len() == before.long_len()
    &&& after.factors() == before.factors()
    &&& after.local().cash == before.local().cash
    &&& after.local().asset == before.local().asset
    &&& after.local().positions == before.local().positions
    &&& if t > 0 && before.signal() != LastSignal::IsBuy {
        let q = buy_quantity(
            before.local().available_cash,
            bar.close as nat,
            bar.volume as nat,
            before.factors().0,
            before.factors().1,
        );
        &&& after.signal() == LastSignal::IsBuy
        &&& if q > 0 {
            &&& out == Some(Event::OrderPlace(OrderPlaceEvent {
                id: order_id as u64,
                order: Order::LimitPrice(LimitPriceOrder {
                    symbol: bar.symbol,
                    amount: q as u32,
                    limit_price: (2 * bar.low) as u64,
                    direction: OrderDirection::Buy,
                }),
            }))
            &&& after.local().available_cash == before.local().available_cash - cash_quantity(
                before.local().available_cash,
                bar.close as nat,
                before.factors().0,
            ) * bar.close
        } else {
            &&& out is None
            &&& after.local().available_cash == before.local().available_cash
        }
    } else if t < 0 && before.signal() != LastSignal::IsSell {
        let held = lookup(before.local().positions, bar.symbol@);
        &&& after.signal() == LastSignal::IsSell
        &&& after.local().available_cash == before.local().available_cash
        &&& if held > 0 {
            out == Some(Event::OrderPlace(OrderPlaceEvent {
                id: order_id as u64,
                order: Order::LimitPrice(LimitPriceOrder {
                    symbol: bar.symbol,
                    amount: sell_quantity(held) as u32,
                    limit_price: 0,
                    direction: OrderDirection::Sell,
                }),
            }))
        } else {
            out is None
        }
    } else {
        &&& out is None
        &&& after.signal() == before.signal()
        &&& after.local().available_cash == before.local().available_cash
    }
}

/// `after` is `before` with `portfolio` as its local portfolio; the window,
/// the signal, the window lengths and the factors are kept.
pub open spec fn crossover_updated(after: MAcross, before: MAcross, portfolio: PortfolioView) -> bool {
    &&& after.window() == before.window()
    &&& after.signal() == before.signal()
    &&& after.short_len() == before.short_len()
    &&& after.long_len() == before.long_len()
    &&& after.factors() == before.factors()
    &&& after.local() == portfolio
}

/// Moving-average crossover: buys when the short mean of the closes rises
/// above the long mean, sells the whole position when it falls below, and
/// acts once per crossing.
pub struct MAcross {
    portfolio_local: Portfolio,
    moving_window: MovingWindow,
    price_factor: u64,
    volume_factor: u64,
    last_signal: LastSignal,
    short: usize,
    long: usize,
}

impl MAcross {
    pub closed spec fn window(&self) -> Seq<u64> {
        self.moving_window@
    }

    pub closed spec fn signal(&self) -> LastSignal {
        self.last_signal
    }

    pub closed spec fn short_len(&self) -> nat {
        self.short as nat
    }

    pub closed spec fn long_len(&self) -> nat {
        self.long as nat
    }

    pub closed spec fn factors(&self) -> (nat, nat) {
        (self.price_factor as nat, self.volume_factor as nat)
    }

    pub closed spec fn local(&self) -> PortfolioView {
        self.portfolio_local@
    }

    pub closed spec fn wf(&self) -> bool {
        &&& self.moving_window.wf()
        &&& self.moving_window.capacity_view() == self.long
        &&& 1 <= self.short < self.long <= MAX_WINDOW
        &&& 1 <= self.price_factor <= MAX_FACTOR
        &&& self.volume_factor <= MAX_FACTOR
    }

    /// A crossover of `short` and `long` bars with the given price and volume
    /// factors (in parts per [`FACTOR_SCALE`]) and an empty local portfolio.
    pub fn with_factors(short: usize, long: usize, price_factor: u64, volume_factor: u64) -> (r: Self)
        requires
            1 <= short < long <= MAX_WINDOW,
            1 <= price_factor <= MAX_FACTOR,
            volume_factor <= MAX_FACTOR,
        ensures
            r.wf(),
            r.window() == Seq::<u64>::empty(),
            r.signal() == LastSignal::IsNone,
            r.short_len() == short,
            r.long_len() == long,
            r.factors() == (price_factor as nat, volume_factor as nat),
            r.local() == Portfolio::new_view(0),
    {
        MAcross {
            portfolio_local: Portfolio::new(0),
            moving_window: MovingWindow::new(long),
            price_factor,
            volume_factor,
            last_signal: LastSignal::IsNone,
            short,
            long,
        }
    }

    /// A crossover of `short` and `long` bars with a price factor of 1.2 and a
    /// volume factor of 1.
    pub fn new(short: usize, long: usize) -> (r: Self)
        requires
            1 <= short < long <= MAX_WINDOW,
        ensures
            r.wf(),
            r.window() == Seq::<u64>::empty(),
            r.signal() == LastSignal::IsNone,
            r.short_len() == short,
            r.long_len() == long,
            r.factors() == (1200nat, 1000nat),
            r.local() == Portfolio::new_view(0),
    {
        MAcross::with_factors(short, long, 1200, 1000)
    }

    /// The local available cash, after the debits of the orders placed
    /// since the last snapshot.
    pub fn available_cash(&self) -> (r: i128)
        ensures
            r == self.local().available_cash,
    {
        self.portfolio_local.available_cash
    }

    /// Which way the short mean stands against the long mean.
    fn current_trend(&self) -> (r: i8)
        requires
            self.wf(),
        ensures
            r == trend(self.window(), self.short as nat, self.long as nat),
    {
        let (ss, ns) = self.moving_window.tail_sum(self.short);
        let (sl, nl) = self.moving_window.tail_sum(self.long);
        proof {
            assert(ns <= MAX_WINDOW && nl <= MAX_WINDOW);
            assert(ss * nl <= 65536 * 281474976710656 * 65536) by (nonlinear_arith)
                requires
                    ss <= ns * 281474976710656,
                    ns <= 65536,
                    nl <= 65536,
            ;
            assert(sl * ns <= 65536 * 281474976710656 * 65536) by (nonlinear_arith)
                requires
                    sl <= nl * 281474976710656,
                    ns <= 65536,
                    nl <= 65536,
            ;
        }
        let above = ss * (nl as u128);
        let below = sl * (ns as u128);
        if above > below {
            1
        } else if above < below {
            -1
        } else {
            0
        }
    }

    /// The cash quantity and the quantity bought.
    fn compute_buy_quantity(&self, close: u64, volume: u64) -> (r: (u32, u32))
        requires
            self.wf(),
            close <= PRICE_LIMIT,
        ensures
            r.0 == cash_quantity(self.portfolio_local.available_cash as int, close as nat, self.price_factor as nat),
            r.1 == buy_quantity(
                self.portfolio_local.available_cash as int,
                close as nat,
                volume as nat,
                self.price_factor as nat,
                self.volume_factor as nat,
            ),
    {
        let available = self.portfolio_local.available_cash;
        let cash: i128 = if available > CASH_LIMIT { CASH_LIMIT } else { available };
        let by_cash: u128 = if cash <= 0 || close == 0 {
            0
        } else {
            proof {
                assert(cash * 1000 <= CASH_LIMIT * 1000) by (nonlinear_arith)
                    requires
                        0 < cash <= CASH_LIMIT,
                ;
                assert(close * self.price_factor <= PRICE_LIMIT * MAX_FACTOR) by (nonlinear_arith)
                    requires
                        close <= PRICE_LIMIT,
                        self.price_factor <= MAX_FACTOR,
                ;
                assert(close * self.price_factor >= 1) by (nonlinear_arith)
                    requires
                        close >= 1,
                        self.price_factor >= 1,
                ;
            }
            (cash as u128) * (FACTOR_SCALE as u128) / ((close as u128) * (self.price_factor as u128))
        };
        proof {
            assert(volume * self.volume_factor <= u64::MAX * MAX_FACTOR) by (nonlinear_arith)
                requires
                    self.volume_factor <= MAX_FACTOR,
            ;
        }
        let by_volume: u128 = (volume as u128) * (self.volume_factor as u128) / (FACTOR_SCALE as u128);
        let by_cash: u32 = if by_cash < u32::MAX as u128 { by_cash as u32 } else { u32::MAX };
        let q: u32 = if (by_cash as u128) < by_volume { by_cash } else { by_volume as u32 };
        (by_cash, q)
    }

    /// Reacts to one bar: the close enters the window, then on a fresh upward
    /// crossing a buy is placed with limit twice the bar's low and its cost is
    /// taken from the local available cash; on a fresh downward crossing the
    /// whole position is offered for sale with limit 0. The signal is
    /// recorded even when no order results.
    pub fn on_bar(&mut self, bar: &MarketDataEvent, ids: &mut EventIds) -> (r: Option<Event>)
        requires
            old(self).wf(),
            bar.wf(),
            old(ids).last(EventKind::OrderPlace) < u64::MAX,
        ensures
            final(self).wf(),
            crossover_reaction(*final(self), *old(self), *bar, r, final(ids).last(EventKind::OrderPlace)),
            match r {
                Some(_) => final(ids).advanced(old(ids), EventKind::OrderPlace),
                None => *final(ids) == *old(ids),
            },
    {
        self.moving_window.update(bar.close);
        let t = self.current_trend();
        if t > 0 && self.last_signal != LastSignal::IsBuy {
            let (by_cash, q) = self.compute_buy_quantity(bar.close, bar.volume);
            self.last_signal = LastSignal::IsBuy;
            if q > 0 {
                let available = self.portfolio_local.available_cash;
                proof {
                    assert(available > 0);
                    assert(by_cash * bar.close <= u32::MAX * PRICE_LIMIT) by (nonlinear_arith)
                        requires
                            by_cash <= u32::MAX,
                            bar.close <= PRICE_LIMIT,
                    ;
                }
                self.portfolio_local.available_cash = available - (by_cash as i128) * (bar.close as i128);
                let order = LimitPriceOrder {
                    symbol: bar.symbol.clone(),
                    amount: q,
                    limit_price: 2 * bar.low,
                    direction: OrderDirection::Buy,
                };
                Some(Event::new_order_place(ids, Order::LimitPrice(order)))
            } else {
                None
            }
        } else if t < 0 && self.last_signal != LastSignal::IsSell {
            self.last_signal = LastSignal::IsSell;
            let held = self.portfolio_local.position(&bar.symbol);
            if held > 0 {
                let amount: u32 = if held < u32::MAX as u64 { held as u32 } else { u32::MAX };
                let order = LimitPriceOrder {
                    symbol: bar.symbol.clone(),
                    amount,
                    limit_price: 0,
                    direction: OrderDirection::Sell,
                };
                Some(Event::new_order_place(ids, Order::LimitPrice(order)))
            } else {
                None
            }
        } else {
            None
        }
    }
}

impl Strategy for MAcross {
    open spec fn inv(&self) -> bool {
        self.wf()
    }

    open spec fn processed(&self, before: Self, bar: MarketDataEvent, out: Option<Event>, order_id: nat) -> bool {
        crossover_reaction(*self, before, bar, out, order_id)
    }

    open spec fn updated(&self, before: Self, portfolio: PortfolioView) -> bool {
        crossover_updated(*self, before, portfolio)
    }

    fn process(&mut self, bar: &MarketDataEvent, ids: &mut EventIds) -> (r: Option<Event>) {
        self.on_bar(bar, ids)
    }

    /// Replaces the local portfolio with the snapshot.
    fn update(&mut self, portfolio: Portfolio) {
        self.portfolio_local = portfolio;
    }
}

} // verus!
