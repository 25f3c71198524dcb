use vstd::prelude::*;
use crate::events::{
    CASH_LIMIT, MAX_SYMBOLS, PRICE_LIMIT, QTY_LIMIT, Event, EventIds, EventKind, MarketDataEvent,
    Order, OrderDirection, OrderPlaceEvent, Portfolio,
};
use crate::table::{
    Rows, SymbolTable, assign, bounded_by, present, keys_unique, lemma_assign, lemma_assign_bounded,
    lemma_lookup_bounded, lookup,
};

verus! {

/// Fee rates are given in parts per this many: a rate of 1000 is 0.1%.
pub const FEE_RATE_SCALE: u64 = 1000000;

/// Largest fee rate: 2^32 parts per [`FEE_RATE_SCALE`], about 4295 times the
/// trade's value.
pub const MAX_FEE_RATE: u64 = 4294967296;

/// A fee schedule: a fixed amount per trade plus `rate` parts per
/// [`FEE_RATE_SCALE`] of the trade's value.
pub ghost struct Fees {
    pub fixed: nat,
    pub rate: nat,
}

/// The ranges a fee schedule must keep to.
pub open spec fn fees_ok(fees: Fees) -> bool {
    fees.fixed <= u64::MAX && fees.rate <= MAX_FEE_RATE
}

/// The fee charged on a trade of `value`: `fixed + value * rate / FEE_RATE_SCALE`,
/// rounded down.
pub open spec fn fee_of(fees: Fees, value: nat) -> nat {
    fees.fixed + (value * fees.rate) / (FEE_RATE_SCALE as nat)
}

/// The single fill price of a bar: the mean of its high and low, rounded down.
pub open spec fn mid_of(bar: MarketDataEvent) -> nat {
    ((bar.high + bar.low) / 2) as nat
}

/// The part of the exchange's state that fills change.
pub ghost struct Book {
    pub cash: int,
    pub positions: Rows,
}

/// A book within the ranges the exchange computes with.
pub open spec fn book_ok(b: Book) -> bool {
    &&& -CASH_LIMIT <= b.cash <= CASH_LIMIT
    &&& keys_unique(b.positions)
    &&& bounded_by(b.positions, QTY_LIMIT as nat)
    &&& b.positions.len() <= MAX_SYMBOLS
}

/// A buy of `q` of `sym` at `p`: cash pays the trade and its fee, the position
/// grows by `q`. An empty order, or one that would leave the book's ranges,
/// changes nothing.
pub open spec fn buy(b: Book, sym: Seq<char>, q: nat, p: nat, fees: Fees) -> Book {
    let cost = p * q + fee_of(fees, p * q);
    let held = lookup(b.positions, sym) + q;
    if q == 0 || held > QTY_LIMIT || (!present(b.positions, sym) && b.positions.len() >= MAX_SYMBOLS)
        || b.cash - cost < -CASH_LIMIT {
        b
    } else {
        Book { cash: b.cash - cost, positions: assign(b.positions, sym, held) }
    }
}

/// A sell of `q` of `sym` at `p`: at most the held quantity is sold, and cash
/// receives its value less the fee. With nothing held it is rejected.
pub open spec fn sell(b: Book, sym: Seq<char>, q: nat, p: nat, fees: Fees) -> Book {
    let held = lookup(b.positions, sym);
    let sold = if held < q { held } else { q };
    let proceeds = p * sold - fee_of(fees, p * sold);
    if q == 0 || held == 0 || b.cash + proceeds > CASH_LIMIT || b.cash + proceeds < -CASH_LIMIT {
        b
    } else {
        Book { cash: b.cash + proceeds, positions: assign(b.positions, sym, (held - sold) as nat) }
    }
}

/// What an order fills against a bar with mid price `mid`, if it fills:
/// a buy when its limit is at least the mid, a sell when its limit is at
/// most the mid. Other orders never fill.
pub open spec fn fill_of(o: Order, mid: nat) -> Option<(Seq<char>, nat, OrderDirection)> {
    match o {
        Order::LimitPrice(l) => {
            if (l.direction == OrderDirection::Buy && l.limit_price >= mid) || (l.direction
                == OrderDirection::Sell && l.limit_price <= mid) {
                Some((l.symbol@, l.amount as nat, l.direction))
            } else {
                None
            }
        },
        Order::FireAndDrop(_) => None,
    }
}

/// The book after matching one order at `mid`.
pub open spec fn apply_order(b: Book, o: Order, mid: nat, fees: Fees) -> Book {
    match fill_of(o, mid) {
        Some(f) => if f.2 == OrderDirection::Buy {
            buy(b, f.0, f.1, mid, fees)
        } else {
            sell(b, f.0, f.1, mid, fees)
        },
        None => b,
    }
}

/// The book after matching `orders` in order at `mid`.
pub open spec fn settle(b: Book, orders: Seq<Order>, mid: nat, fees: Fees) -> Book
    decreases orders.len(),
{
    if orders.len() == 0 {
        b
    } else {
        apply_order(settle(b, orders.drop_last(), mid, fees), orders.last(), mid, fees)
    }
}

/// The marked value of the positions: each quantity times the last close of
/// its symbol (0 for a symbol never quoted).
pub open spec fn marked_value(positions: Rows, closes: Rows) -> int
    decreases positions.len(),
{
    if positions.len() == 0 {
        0
    } else {
        marked_value(positions.drop_last(), closes) + positions.last().1 * lookup(
            closes,
            positions.last().0,
        )
    }
}

proof fn lemma_trade_bounds(p: nat, q: nat, fees: Fees)
    requires
        p <= PRICE_LIMIT,
        q <= u32::MAX,
        fees_ok(fees),
    ensures
        p * q <= 1208925819614629174706176,
        p * q * fees.rate <= 5192296858534827628530496329220096,
        fee_of(fees, p * q) <= 5192296876981571702240047945,
{
    assert(p * q <= 281474976710656 * 4294967295) by (nonlinear_arith)
        requires
            p <= 281474976710656,
            q <= 4294967295,
    ;
    let v = p * q;
    let rate = fees.rate;
    assert(v * rate <= 1208925819614629174706176 * 4294967296) by (nonlinear_arith)
        requires
            v <= 1208925819614629174706176,
            rate <= 4294967296,
    ;
    let x = v * rate;
    assert(x / 1000000 <= 5192296858534827628530496330) by (nonlinear_arith)
        requires
            0 <= x <= 5192296858534827628530496329220096,
    ;
}

proof fn lemma_buy_ok(b: Book, sym: Seq<char>, q: nat, p: nat, fees: Fees)
    requires
        book_ok(b),
        p <= PRICE_LIMIT,
        q <= u32::MAX,
        fees_ok(fees),
    ensures
        book_ok(buy(b, sym, q, p, fees)),
{
    lemma_trade_bounds(p, q, fees);
    lemma_lookup_bounded(b.positions, sym, QTY_LIMIT as nat);
    let held = lookup(b.positions, sym) + q;
    lemma_assign(b.positions, sym, held);
    if held <= QTY_LIMIT {
        lemma_assign_bounded(b.positions, sym, held, QTY_LIMIT as nat);
    }
}

proof fn lemma_sell_ok(b: Book, sym: Seq<char>, q: nat, p: nat, fees: Fees)
    requires
        book_ok(b),
        p <= PRICE_LIMIT,
        q <= u32::MAX,
        fees_ok(fees),
    ensures
        book_ok(sell(b, sym, q, p, fees)),
{
    let held = lookup(b.positions, sym);
    let sold = if held < q { held } else { q };
    lemma_trade_bounds(p, sold, fees);
    lemma_lookup_bounded(b.positions, sym, QTY_LIMIT as nat);
    lemma_assign(b.positions, sym, (held - sold) as nat);
    lemma_assign_bounded(b.positions, sym, (held - sold) as nat, QTY_LIMIT as nat);
}

proof fn lemma_apply_order_ok(b: Book, o: Order, mid: nat, fees: Fees)
    requires
        book_ok(b),
        mid <= PRICE_LIMIT,
        fees_ok(fees),
    ensures
        book_ok(apply_order(b, o, mid, fees)),
{
    match fill_of(o, mid) {
        Some(f) => {
            if f.2 == OrderDirection::Buy {
                lemma_buy_ok(b, f.0, f.1, mid, fees);
            } else {
                lemma_sell_ok(b, f.0, f.1, mid, fees);
            }
        },
        None => {},
    }
}

proof fn lemma_marked_value_bounds(positions: Rows, closes: Rows)
    requires
        bounded_by(positions, QTY_LIMIT as nat),
        bounded_by(closes, PRICE_LIMIT as nat),
    ensures
        0 <= marked_value(positions, closes) <= positions.len() * (QTY_LIMIT * PRICE_LIMIT),
    decreases positions.len(),
{
    if positions.len() > 0 {
        let init = positions.drop_last();
        assert(bounded_by(init, QTY_LIMIT as nat)) by {
            assert forall|i: int| 0 <= i < init.len() implies #[trigger] init[i].1 <= QTY_LIMIT by {
                assert(init[i] == positions[i]);
            }
        }
        lemma_marked_value_bounds(init, closes);
        let q = positions.last().1;
        let c = lookup(closes, positions.last().0);
        assert(q <= QTY_LIMIT) by {
            assert(positions[positions.len() - 1].1 <= QTY_LIMIT);
        }
        lemma_lookup_bounded(closes, positions.last().0, PRICE_LIMIT as nat);
        assert(q * c <= QTY_LIMIT * PRICE_LIMIT) by (nonlinear_arith)
            requires
                q <= QTY_LIMIT,
                c <= PRICE_LIMIT,
        ;
        assert(init.len() * (QTY_LIMIT * PRICE_LIMIT) + QTY_LIMIT * PRICE_LIMIT == positions.len() * (
        QTY_LIMIT * PRICE_LIMIT)) by (nonlinear_arith)
            requires
                init.len() + 1 == positions.len(),
        ;
    }
}

/// A buy of `q` filled at a bar's mid price, then a sell of the same `q` of
/// the same symbol filled at the same mid on the next bar, starting from no
/// holding: cash returns to where it started less the two fees, and the
/// position returns to zero. Other symbols are untouched.
pub proof fn lemma_round_trip(
    b: Book,
    buy_order: crate::events::LimitPriceOrder,
    sell_order: crate::events::LimitPriceOrder,
    mid: nat,
    fees: Fees,
)
    requires
        book_ok(b),
        mid <= PRICE_LIMIT,
        fees_ok(fees),
        buy_order.direction == OrderDirection::Buy,
        sell_order.direction == OrderDirection::Sell,
        buy_order.symbol@ == sell_order.symbol@,
        buy_order.amount == sell_order.amount,
        buy_order.amount > 0,
        buy_order.limit_price >= mid,
        sell_order.limit_price <= mid,
        lookup(b.positions, buy_order.symbol@) == 0,
        present(b.positions, buy_order.symbol@) || b.positions.len() < MAX_SYMBOLS,
        b.cash - (mid * buy_order.amount + fee_of(fees, mid * (buy_order.amount as nat))) >= -CASH_LIMIT,
        b.cash - 2 * fee_of(fees, mid * (buy_order.amount as nat)) >= -CASH_LIMIT,
    ensures
        ({
            let bought = settle(b, seq![Order::LimitPrice(buy_order)], mid, fees);
            let after = settle(bought, seq![Order::LimitPrice(sell_order)], mid, fees);
            &&& after.cash == b.cash - 2 * fee_of(fees, mid * (buy_order.amount as nat))
            &&& lookup(after.positions, buy_order.symbol@) == 0
            &&& forall|k: Seq<char>| k != buy_order.symbol@ ==> lookup(after.positions, k) == lookup(b.positions, k)
        }),
{
    let sym = buy_order.symbol@;
    let q = buy_order.amount as nat;
    let o1 = Order::LimitPrice(buy_order);
    let o2 = Order::LimitPrice(sell_order);
    assert(seq![o1].drop_last() =~= Seq::<Order>::empty());
    assert(seq![o2].drop_last() =~= Seq::<Order>::empty());
    lemma_trade_bounds(mid, q, fees);
    let bought = settle(b, seq![o1], mid, fees);
    assert(settle(b, Seq::<Order>::empty(), mid, fees) == b);
    assert(seq![o1].last() == o1);
    assert(bought == apply_order(b, o1, mid, fees));
    assert(bought == buy(b, sym, q, mid, fees));
    lemma_assign(b.positions, sym, q);
    assert(bought.positions == assign(b.positions, sym, q));
    lemma_buy_ok(b, sym, q, mid, fees);
    let after = settle(bought, seq![o2], mid, fees);
    assert(settle(bought, Seq::<Order>::empty(), mid, fees) == bought);
    assert(seq![o2].last() == o2);
    assert(after == apply_order(bought, o2, mid, fees));
    assert(after == sell(bought, sym, q, mid, fees));
    lemma_assign(bought.positions, sym, 0);
}

/// The schedule that charges nothing.
pub open spec fn no_fees() -> Fees {
    Fees { fixed: 0, rate: 0 }
}

/// Without fees, a buy then a sell of the same quantity at the same mid
/// price restores cash exactly.
pub proof fn lemma_round_trip_without_fees(
    b: Book,
    buy_order: crate::events::LimitPriceOrder,
    sell_order: crate::events::LimitPriceOrder,
    mid: nat,
)
    requires
        book_ok(b),
        mid <= PRICE_LIMIT,
        buy_order.direction == OrderDirection::Buy,
        sell_order.direction == OrderDirection::Sell,
        buy_order.symbol@ == sell_order.symbol@,
        buy_order.amount == sell_order.amount,
        buy_order.amount > 0,
        buy_order.limit_price >= mid,
        sell_order.limit_price <= mid,
        lookup(b.positions, buy_order.symbol@) == 0,
        present(b.positions, buy_order.symbol@) || b.positions.len() < MAX_SYMBOLS,
        b.cash - mid * buy_order.amount >= -CASH_LIMIT,
    ensures
        ({
            let bought = settle(b, seq![Order::LimitPrice(buy_order)], mid, no_fees());
            let after = settle(bought, seq![Order::LimitPrice(sell_order)], mid, no_fees());
            &&& after.cash == b.cash
            &&& lookup(after.positions, buy_order.symbol@) == 0
        }),
{
    assert(fee_of(no_fees(), mid * (buy_order.amount as nat)) == 0);
    lemma_round_trip(b, buy_order, sell_order, mid, no_fees());
}

/// `after` is `before` once `bar` has been processed, and `snapshot`, with
/// identifier `id`, is what was published: every pending order was matched
/// in arrival order at the bar's mid price and the queue emptied, the bar's
/// close recorded, the asset marked to market and the available cash set to
/// the cash.
pub open spec fn bar_processed(before: MockExchange, after: MockExchange, bar: MarketDataEvent, snapshot: Event, id: nat) -> bool {
    let b = settle(before.book(), before.pending_view(), mid_of(bar), before.fees());
    let closes = assign(before.closes_view(), bar.symbol@, bar.close as nat);
    &&& after.closes_view() == closes
    &&& after.portfolio_view().cash == b.cash
    &&& after.portfolio_view().positions == b.positions
    &&& after.portfolio_view().asset == b.cash + marked_value(b.positions, closes)
    &&& after.portfolio_view().available_cash == b.cash
    &&& after.pending_view() == Seq::<Order>::empty()
    &&& after.fees() == before.fees()
    &&& match snapshot {
        Event::PortfolioInfo(p) => p.id == id && p.portfolio@ == after.portfolio_view(),
        _ => false,
    }
}

/// Every published portfolio is marked to market: its asset value equals its
/// cash plus, over the symbols held, the quantity times the last close the
/// exchange has seen for the symbol.
pub proof fn lemma_snapshot_marked(before: MockExchange, after: MockExchange, bar: MarketDataEvent, snapshot: Event, id: nat)
    requires
        bar_processed(before, after, bar, snapshot, id),
    ensures
        snapshot matches Event::PortfolioInfo(p) && p.portfolio@.asset == p.portfolio@.cash + marked_value(
            p.portfolio@.positions,
            after.closes_view(),
        ),
{
}

/// The round trip through the exchange: a buy of `q` pending when one bar is
/// processed, then a sell of the same `q` placed and a second bar with the
/// same mid price processed. Cash ends at its start less the two fees and the
/// position at zero.
pub proof fn lemma_round_trip_through_bars(
    e0: MockExchange,
    e1: MockExchange,
    e1_placed: MockExchange,
    e2: MockExchange,
    bar1: MarketDataEvent,
    bar2: MarketDataEvent,
    s1: Event,
    s2: Event,
    id1: nat,
    id2: nat,
    buy_order: crate::events::LimitPriceOrder,
    sell_order: crate::events::LimitPriceOrder,
)
    requires
        book_ok(e0.book()),
        fees_ok(e0.fees()),
        e0.pending_view() == seq![Order::LimitPrice(buy_order)],
        bar_processed(e0, e1, bar1, s1, id1),
        e1_placed.pending_view() == e1.pending_view().push(Order::LimitPrice(sell_order)),
        e1_placed.portfolio_view() == e1.portfolio_view(),
        e1_placed.fees() == e1.fees(),
        bar_processed(e1_placed, e2, bar2, s2, id2),
        mid_of(bar1) == mid_of(bar2),
        mid_of(bar1) <= PRICE_LIMIT,
        buy_order.direction == OrderDirection::Buy,
        sell_order.direction == OrderDirection::Sell,
        buy_order.symbol@ == sell_order.symbol@,
        buy_order.amount == sell_order.amount,
        buy_order.amount > 0,
        buy_order.limit_price >= mid_of(bar1),
        sell_order.limit_price <= mid_of(bar1),
        lookup(e0.book().positions, buy_order.symbol@) == 0,
        present(e0.book().positions, buy_order.symbol@) || e0.book().positions.len() < MAX_SYMBOLS,
        e0.book().cash - (mid_of(bar1) * buy_order.amount + fee_of(e0.fees(), mid_of(bar1) * (buy_order.amount as nat)))
            >= -CASH_LIMIT,
        e0.book().cash - 2 * fee_of(e0.fees(), mid_of(bar1) * (buy_order.amount as nat)) >= -CASH_LIMIT,
    ensures
        e2.portfolio_view().cash == e0.portfolio_view().cash - 2 * fee_of(
            e0.fees(),
            mid_of(bar1) * (buy_order.amount as nat),
        ),
        lookup(e2.portfolio_view().positions, buy_order.symbol@) == 0,
        e0.fees() == no_fees() ==> e2.portfolio_view().cash == e0.portfolio_view().cash,
{
    assert(e1_placed.pending_view() =~= seq![Order::LimitPrice(sell_order)]);
    assert(e1_placed.book() == settle(e0.book(), seq![Order::LimitPrice(buy_order)], mid_of(bar1), e0.fees()));
    lemma_round_trip(e0.book(), buy_order, sell_order, mid_of(bar1), e0.fees());
    if e0.fees() == no_fees() {
        let v = mid_of(bar1) * (buy_order.amount as nat);
        assert(v * 0 == 0) by (nonlinear_arith);
        assert(fee_of(e0.fees(), v) == 0);
    }
}

/// The matching engine and portfolio accountant.
pub struct MockExchange {
    portfolio: Portfolio,
    closes: SymbolTable,
    pending_orders: Vec<Order>,
    fee_rate: u64,
    fee_fixed: u64,
}

impl MockExchange {
    /// Cash and positions as a [`Book`].
    pub open spec fn book(&self) -> Book {
        Book { cash: self.portfolio_view().cash, positions: self.portfolio_view().positions }
    }

    pub closed spec fn portfolio_view(&self) -> crate::events::PortfolioView {
        self.portfolio@
    }

    /// The last close seen for each symbol.
    pub closed spec fn closes_view(&self) -> Rows {
        self.closes@
    }

    /// The orders waiting for the next bar, oldest first.
    pub closed spec fn pending_view(&self) -> Seq<Order> {
        self.pending_orders@
    }

    /// The fee schedule.
    pub closed spec fn fees(&self) -> Fees {
        Fees { fixed: self.fee_fixed as nat, rate: self.fee_rate as nat }
    }

    pub closed spec fn wf(&self) -> bool {
        &&& book_ok(self.book())
        &&& keys_unique(self.closes@)
        &&& bounded_by(self.closes@, PRICE_LIMIT as nat)
        &&& self.closes@.len() <= MAX_SYMBOLS
        &&& self.fee_rate <= MAX_FEE_RATE
    }

    /// An exchange holding `initial_cash` and no positions, charging
    /// `fee_fixed` plus `fee_rate` parts per [`FEE_RATE_SCALE`] (at most
    /// [`MAX_FEE_RATE`]) of each trade's value.
    pub fn new(initial_cash: i128, fee_rate: u64, fee_fixed: u64) -> (r: Self)
        requires
            -CASH_LIMIT <= initial_cash <= CASH_LIMIT,
            fee_rate <= MAX_FEE_RATE,
        ensures
            r.wf(),
            r.portfolio_view() == Portfolio::new_view(initial_cash as int),
            r.closes_view() == Seq::<(Seq<char>, nat)>::empty(),
            r.pending_view() == Seq::<Order>::empty(),
            r.fees() == (Fees { fixed: fee_fixed as nat, rate: fee_rate as nat }),
    {
        MockExchange {
            portfolio: Portfolio::new(initial_cash),
            closes: SymbolTable::new(),
            pending_orders: Vec::new(),
            fee_rate,
            fee_fixed,
        }
    }

    /// The current portfolio.
    pub fn portfolio(&self) -> (r: &Portfolio)
        ensures
            r@ == self.portfolio_view(),
    {
        &self.portfolio
    }

    /// Whether [`MockExchange::process_marketevent`] can take `bar`: its
    /// prices are in range and its symbol is known or there is room for it.
    pub fn accepts_bar(&self, bar: &MarketDataEvent) -> (r: bool)
        requires
            self.wf(),
        ensures
            r == (bar.wf() && (present(self.closes_view(), bar.symbol@) || self.closes_view().len() < MAX_SYMBOLS)),
    {
        bar.is_valid() && (self.closes.contains(&bar.symbol) || self.closes.len() < MAX_SYMBOLS)
    }

    /// Number of orders waiting for the next bar.
    pub fn pending_count(&self) -> (r: usize)
        ensures
            r == self.pending_view().len(),
    {
        self.pending_orders.len()
    }

    /// Queues an order for the next bar.
    pub fn process_orderplace(&mut self, event: OrderPlaceEvent)
        ensures
            final(self).pending_view() == old(self).pending_view().push(event.order),
            final(self).portfolio_view() == old(self).portfolio_view(),
            final(self).closes_view() == old(self).closes_view(),
            final(self).fees() == old(self).fees(),
            old(self).wf() ==> final(self).wf(),
    {
        self.pending_orders.push(event.order);
    }

    fn fill_buy(&mut self, symbol: &String, amount: u32, price: u64)
        requires
            old(self).wf(),
            price <= PRICE_LIMIT,
        ensures
            final(self).wf(),
            final(self).book() == buy(old(self).book(), symbol@, amount as nat, price as nat, old(self).fees()),
            final(self).portfolio.asset == old(self).portfolio.asset,
            final(self).portfolio.available_cash == old(self).portfolio.available_cash,
            final(self).closes == old(self).closes,
            final(self).pending_orders == old(self).pending_orders,
            final(self).fee_rate == old(self).fee_rate,
            final(self).fee_fixed == old(self).fee_fixed,
    {
        proof {
            lemma_trade_bounds(price as nat, amount as nat, self.fees());
            lemma_lookup_bounded(self.portfolio.positions@, symbol@, QTY_LIMIT as nat);
            lemma_buy_ok(self.book(), symbol@, amount as nat, price as nat, self.fees());
        }
        let value: u128 = (price as u128) * (amount as u128);
        let fee: u128 = self.fee_fixed as u128 + value * (self.fee_rate as u128) / (FEE_RATE_SCALE as u128);
        let cost: i128 = (value + fee) as i128;
        let held: u64 = self.portfolio.positions.get(symbol);
        if amount == 0 || held as u128 + amount as u128 > QTY_LIMIT as u128 {
            return;
        }
        if !self.portfolio.positions.contains(symbol) && self.portfolio.positions.len() >= MAX_SYMBOLS {
            return;
        }
        if self.portfolio.cash - cost < -CASH_LIMIT {
            return;
        }
        self.portfolio.cash = self.portfolio.cash - cost;
        self.portfolio.positions.set(symbol, held + amount as u64);
    }

    fn fill_sell(&mut self, symbol: &String, amount: u32, price: u64)
        requires
            old(self).wf(),
            price <= PRICE_LIMIT,
        ensures
            final(self).wf(),
            final(self).book() == sell(old(self).book(), symbol@, amount as nat, price as nat, old(self).fees()),
            final(self).portfolio.asset == old(self).portfolio.asset,
            final(self).portfolio.available_cash == old(self).portfolio.available_cash,
            final(self).closes == old(self).closes,
            final(self).pending_orders == old(self).pending_orders,
            final(self).fee_rate == old(self).fee_rate,
            final(self).fee_fixed == old(self).fee_fixed,
    {
        let held: u64 = self.portfolio.positions.get(symbol);
        let sold: u64 = if held < amount as u64 { held } else { amount as u64 };
        proof {
            lemma_lookup_bounded(self.portfolio.positions@, symbol@, QTY_LIMIT as nat);
            lemma_trade_bounds(price as nat, sold as nat, self.fees());
            lemma_sell_ok(self.book(), symbol@, amount as nat, price as nat, self.fees());
        }
        if amount == 0 || held == 0 {
            return;
        }
        let value: u128 = (price as u128) * (sold as u128);
        let fee: u128 = self.fee_fixed as u128 + value * (self.fee_rate as u128) / (FEE_RATE_SCALE as u128);
        let proceeds: i128 = value as i128 - fee as i128;
        if self.portfolio.cash + proceeds > CASH_LIMIT || self.portfolio.cash + proceeds < -CASH_LIMIT {
            return;
        }
        self.portfolio.cash = self.portfolio.cash + proceeds;
        self.portfolio.positions.set(symbol, held - sold);
    }

    /// Matches one order at `mid`.
    fn match_order(&mut self, order: &Order, mid: u64)
        requires
            old(self).wf(),
            mid <= PRICE_LIMIT,
        ensures
            final(self).wf(),
            final(self).book() == apply_order(old(self).book(), *order, mid as nat, old(self).fees()),
            final(self).portfolio.asset == old(self).portfolio.asset,
            final(self).portfolio.available_cash == old(self).portfolio.available_cash,
            final(self).closes == old(self).closes,
            final(self).pending_orders == old(self).pending_orders,
            final(self).fee_rate == old(self).fee_rate,
            final(self).fee_fixed == old(self).fee_fixed,
    {
        match order {
            Order::LimitPrice(l) => {
                match l.direction {
                    OrderDirection::Buy => {
                        if l.limit_price >= mid {
                            self.fill_buy(&l.symbol, l.amount, mid);
                        }
                    },
                    OrderDirection::Sell => {
                        if l.limit_price <= mid {
                            self.fill_sell(&l.symbol, l.amount, mid);
                        }
                    },
                }
            },
            Order::FireAndDrop(_) => {},
        }
    }

    /// The marked value of the current positions at the last closes.
    fn positions_value(&self) -> (r: i128)
        requires
            self.wf(),
        ensures
            r == marked_value(self.portfolio.positions@, self.closes@),
            0 <= r <= MAX_SYMBOLS * (QTY_LIMIT * PRICE_LIMIT),
    {
        let ghost ps = self.portfolio.positions@;
        let ghost qs = self.closes@;
        let n = self.portfolio.positions.len();
        let mut acc: i128 = 0;
        let mut i: usize = 0;
        while i < n
            invariant
                n == ps.len(),
                ps == self.portfolio.positions@,
                qs == self.closes@,
                self.wf(),
                i <= n,
                acc == marked_value(ps.subrange(0, i as int), qs),
            decreases n - i,
        {
            let (sym, qty) = self.portfolio.positions.entry(i);
            let close = self.closes.get(sym);
            proof {
                let sub = ps.subrange(0, i as int);
                assert(bounded_by(sub, QTY_LIMIT as nat)) by {
                    assert forall|j: int| 0 <= j < sub.len() implies #[trigger] sub[j].1 <= QTY_LIMIT by {
                        assert(sub[j] == ps[j]);
                    }
                }
                lemma_marked_value_bounds(sub, qs);
                lemma_lookup_bounded(qs, sym@, PRICE_LIMIT as nat);
                assert(ps[i as int].1 <= QTY_LIMIT);
                assert(qty * close <= QTY_LIMIT * PRICE_LIMIT) by (nonlinear_arith)
                    requires
                        qty <= QTY_LIMIT,
                        close <= PRICE_LIMIT,
                ;
                assert(sub.len() * (QTY_LIMIT * PRICE_LIMIT) <= MAX_SYMBOLS * (QTY_LIMIT * PRICE_LIMIT))
                    by (nonlinear_arith)
                    requires
                        sub.len() <= MAX_SYMBOLS,
                ;
                assert(ps.subrange(0, i + 1).drop_last() =~= sub);
            }
            acc = acc + (qty as i128) * (close as i128);
            i = i + 1;
        }
        proof {
            assert(ps.subrange(0, n as int) =~= ps);
            lemma_marked_value_bounds(ps, qs);
            assert(ps.len() * (QTY_LIMIT * PRICE_LIMIT) <= MAX_SYMBOLS * (QTY_LIMIT * PRICE_LIMIT))
                by (nonlinear_arith)
                requires
                    ps.len() <= MAX_SYMBOLS,
            ;
        }
        acc
    }

    /// Processes one bar: matches every pending order in arrival order at the
    /// bar's mid price (orders that do not fill are dropped), records the
    /// bar's close, marks the portfolio to market, sets the available cash to
    /// the cash, and returns the one snapshot to publish.
    pub fn process_marketevent(&mut self, bar: &MarketDataEvent, ids: &mut EventIds) -> (r: Event)
        requires
            old(self).wf(),
            bar.wf(),
            present(old(self).closes_view(), bar.symbol@) || old(self).closes_view().len() < MAX_SYMBOLS,
            old(ids).last(EventKind::PortfolioInfo) < u64::MAX,
        ensures
            final(self).wf(),
            final(ids).advanced(old(ids), EventKind::PortfolioInfo),
            bar_processed(*old(self), *final(self), *bar, r, final(ids).last(EventKind::PortfolioInfo)),
    {
        let mid: u64 = (bar.high + bar.low) / 2;
        let mut orders: Vec<Order> = Vec::new();
        core::mem::swap(&mut orders, &mut self.pending_orders);
        let ghost start = self.book();
        let n = orders.len();
        let mut i: usize = 0;
        while i < n
            invariant
                n == orders@.len(),
                i <= n,
                self.wf(),
                mid == mid_of(*bar),
                mid <= PRICE_LIMIT,
                self.book() == settle(start, orders@.subrange(0, i as int), mid as nat, self.fees()),
                self.closes == old(self).closes,
                self.pending_orders@ == Seq::<Order>::empty(),
                self.fee_rate == old(self).fee_rate,
                self.fee_fixed == old(self).fee_fixed,
            decreases n - i,
        {
            proof {
                assert(orders@.subrange(0, i + 1).drop_last() =~= orders@.subrange(0, i as int));
            }
            self.match_order(&orders[i], mid);
            i = i + 1;
        }
        proof {
            assert(orders@.subrange(0, n as int) =~= orders@);
            lemma_assign(self.closes@, bar.symbol@, bar.close as nat);
            lemma_assign_bounded(self.closes@, bar.symbol@, bar.close as nat, PRICE_LIMIT as nat);
        }
        self.closes.set(&bar.symbol, bar.close);
        let value = self.positions_value();
        self.portfolio.asset = self.portfolio.cash + value;
        self.portfolio.available_cash = self.portfolio.cash;
        Event::new_portfolio_info(ids, self.portfolio.copy())
    }

    /// Handles one event delivered to the exchange: a bar yields the snapshot
    /// to publish, an order is queued, anything else is ignored.
    pub fn process_event(&mut self, event: Event, ids: &mut EventIds) -> (r: Option<Event>)
        requires
            old(self).wf(),
            event matches Event::MarketData(bar) ==> bar.wf() && (present(old(self).closes_view(), bar.symbol@)
                || old(self).closes_view().len() < MAX_SYMBOLS),
            old(ids).last(EventKind::PortfolioInfo) < u64::MAX,
        ensures
            final(self).wf(),
            r is Some <==> event is MarketData,
            event matches Event::MarketData(bar) ==> r matches Some(e) && bar_processed(
                *old(self),
                *final(self),
                bar,
                e,
                final(ids).last(EventKind::PortfolioInfo),
            ) && final(ids).advanced(old(ids), EventKind::PortfolioInfo),
            !(event is MarketData) ==> *final(ids) == *old(ids),
            (event is ShutDown || event is PortfolioInfo) ==> *final(self) == *old(self),
            event matches Event::OrderPlace(o) ==> final(self).pending_view() == old(self).pending_view().push(o.order)
                && final(self).portfolio_view() == old(self).portfolio_view(),
    {
        match event {
            Event::MarketData(bar) => Some(self.process_marketevent(&bar, ids)),
            Event::OrderPlace(o) => {
                self.process_orderplace(o);
                None
            },
            _ => None,
        }
    }
}

} // verus!
