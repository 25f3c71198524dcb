use vstd::prelude::*;
use crate::table::{Rows, SymbolTable};
use crate::util::Counter;

verus! {

/// Prices and money are fixed-point numbers: this many stored units make one
/// unit of currency.
pub const PRICE_SCALE: u64 = 1000000;

/// Largest price (in stored units) that a bar may carry: 2^48.
pub const PRICE_LIMIT: u64 = 281474976710656;

/// Largest quantity of one symbol that a portfolio may hold: 2^40.
pub const QTY_LIMIT: u64 = 1099511627776;

/// Largest number of distinct symbols a portfolio or a quote book may hold.
pub const MAX_SYMBOLS: usize = 65536;

/// Largest magnitude of cash (in stored units): 2^110.
pub const CASH_LIMIT: i128 = 1298074214633706907132624082305024;

/// The discriminator of an [`Event`].
#[derive(Clone, Copy, Debug, PartialEq, Eq, Structural)]
pub enum EventKind {
    MarketData,
    OrderPlace,
    PortfolioInfo,
    ShutDown,
}

impl EventKind {
    /// Row of the kind in per-kind tables.
    pub open spec fn index(self) -> int {
        match self {
            EventKind::MarketData => 0,
            EventKind::OrderPlace => 1,
            EventKind::PortfolioInfo => 2,
            EventKind::ShutDown => 3,
        }
    }

    pub fn to_index(self) -> (r: usize)
        ensures
            r == self.index(),
            r < 4,
    {
        match self {
            EventKind::MarketData => 0,
            EventKind::OrderPlace => 1,
            EventKind::PortfolioInfo => 2,
            EventKind::ShutDown => 3,
        }
    }
}

#[derive(Clone, Copy, Debug, PartialEq, Eq, Structural)]
pub enum OrderDirection {
    Buy,
    Sell,
}

/// An order that fills only when the bar's mid price is at least as
/// favourable as `limit_price`.
#[derive(Clone, Debug)]
pub struct LimitPriceOrder {
    pub symbol: String,
    pub amount: u32,
    pub limit_price: u64,
    pub direction: OrderDirection,
}

/// An order without a price condition. The exchange does not support it and
/// drops it unfilled.
#[derive(Clone, Debug)]
pub struct FireAndDropOrder {
    pub symbol: String,
    pub amount: u32,
    pub direction: OrderDirection,
}

#[derive(Clone, Debug)]
pub enum Order {
    LimitPrice(LimitPriceOrder),
    FireAndDrop(FireAndDropOrder),
}

impl Order {
    /// A field-for-field copy.
    pub fn copy(&self) -> (r: Order)
        ensures
            r == *self,
    {
        match self {
            Order::LimitPrice(o) => Order::LimitPrice(
                LimitPriceOrder {
                    symbol: o.symbol.clone(),
                    amount: o.amount,
                    limit_price: o.limit_price,
                    direction: o.direction,
                },
            ),
            Order::FireAndDrop(o) => Order::FireAndDrop(
                FireAndDropOrder { symbol: o.symbol.clone(), amount: o.amount, direction: o.direction },
            ),
        }
    }
}

/// One bar of market data. Prices are in stored units (see [`PRICE_SCALE`]).
#[derive(Clone, Debug)]
pub struct MarketDataEvent {
    pub id: u64,
    pub symbol: String,
    pub timestamp: String,
    pub open: u64,
    pub close: u64,
    pub high: u64,
    pub low: u64,
    pub volume: u64,
}

impl MarketDataEvent {
    /// The prices are within the range the library computes with.
    pub open spec fn wf(&self) -> bool {
        &&& self.open <= PRICE_LIMIT
        &&& self.close <= PRICE_LIMIT
        &&& self.high <= PRICE_LIMIT
        &&& self.low <= PRICE_LIMIT
    }

    /// Whether the prices are within range.
    pub fn is_valid(&self) -> (r: bool)
        ensures
            r == self.wf(),
    {
        self.open <= PRICE_LIMIT && self.close <= PRICE_LIMIT && self.high <= PRICE_LIMIT && self.low <= PRICE_LIMIT
    }

    pub fn copy(&self) -> (r: MarketDataEvent)
        ensures
            r == *self,
    {
        MarketDataEvent {
            id: self.id,
            symbol: self.symbol.clone(),
            timestamp: self.timestamp.clone(),
            open: self.open,
            close: self.close,
            high: self.high,
            low: self.low,
            volume: self.volume,
        }
    }
}

#[derive(Clone, Debug)]
pub struct OrderPlaceEvent {
    pub id: u64,
    pub order: Order,
}

/// The model of a [`Portfolio`]: amounts as integers, positions as rows.
pub ghost struct PortfolioView {
    pub asset: int,
    pub cash: int,
    pub available_cash: int,
    pub positions: Rows,
}

/// Cash, total marked value and held quantities. Money is in stored units.
pub struct Portfolio {
    pub asset: i128,
    pub cash: i128,
    pub available_cash: i128,
    pub positions: SymbolTable,
}

impl Portfolio {
    pub open spec fn view(&self) -> PortfolioView {
        PortfolioView {
            asset: self.asset as int,
            cash: self.cash as int,
            available_cash: self.available_cash as int,
            positions: self.positions@,
        }
    }

    /// The model of a fresh portfolio holding `cash`.
    pub open spec fn new_view(cash: int) -> PortfolioView {
        PortfolioView { asset: cash, cash, available_cash: cash, positions: Seq::empty() }
    }

    /// A fresh portfolio: all cash, no positions.
    pub fn new(initial_cash: i128) -> (r: Self)
        ensures
            r@ == Portfolio::new_view(initial_cash as int),
            r.positions.wf(),
    {
        Portfolio {
            asset: initial_cash,
            cash: initial_cash,
            available_cash: initial_cash,
            positions: SymbolTable::new(),
        }
    }

    /// A deep copy.
    pub fn copy(&self) -> (r: Self)
        ensures
            r@ == self@,
    {
        Portfolio {
            asset: self.asset,
            cash: self.cash,
            available_cash: self.available_cash,
            positions: self.positions.copy(),
        }
    }

    /// The quantity held of `symbol`, 0 when none.
    pub fn position(&self, symbol: &String) -> (r: u64)
        ensures
            r == crate::table::lookup(self@.positions, symbol@),
    {
        self.positions.get(symbol)
    }
}

pub struct PortfolioInfoEvent {
    pub id: u64,
    pub portfolio: Portfolio,
}

#[derive(Clone, Debug)]
pub struct ShutDownEvent {
    pub id: u64,
}

/// What flows through the event manager.
pub enum Event {
    MarketData(MarketDataEvent),
    OrderPlace(OrderPlaceEvent),
    PortfolioInfo(PortfolioInfoEvent),
    ShutDown(ShutDownEvent),
}

/// The process-wide identifier counters, one per event kind.
pub struct EventIds {
    market_data: Counter,
    order_place: Counter,
    portfolio_info: Counter,
    shut_down: Counter,
}

impl EventIds {
    /// The last identifier handed out for `kind` (0 before the first).
    pub closed spec fn last(&self, kind: EventKind) -> nat {
        match kind {
            EventKind::MarketData => self.market_data.value(),
            EventKind::OrderPlace => self.order_place.value(),
            EventKind::PortfolioInfo => self.portfolio_info.value(),
            EventKind::ShutDown => self.shut_down.value(),
        }
    }

    /// `self` follows `prev` by one identifier of `kind`, the others unchanged.
    pub open spec fn advanced(&self, prev: &EventIds, kind: EventKind) -> bool {
        forall|k: EventKind| #[trigger] self.last(k) == prev.last(k) + (if k == kind { 1nat } else { 0nat })
    }

    pub fn new() -> (r: Self)
        ensures
            forall|k: EventKind| #[trigger] r.last(k) == 0,
    {
        EventIds {
            market_data: Counter::new(),
            order_place: Counter::new(),
            portfolio_info: Counter::new(),
            shut_down: Counter::new(),
        }
    }

    /// The last identifier handed out for `kind`.
    pub fn current(&self, kind: EventKind) -> (r: u64)
        ensures
            r == self.last(kind),
    {
        match kind {
            EventKind::MarketData => self.market_data.peek(),
            EventKind::OrderPlace => self.order_place.peek(),
            EventKind::PortfolioInfo => self.portfolio_info.peek(),
            EventKind::ShutDown => self.shut_down.peek(),
        }
    }

    /// Draws the next identifier for `kind`.
    pub fn next(&mut self, kind: EventKind) -> (r: u64)
        requires
            old(self).last(kind) < u64::MAX,
        ensures
            r == final(self).last(kind),
            final(self).advanced(old(self), kind),
    {
        match kind {
            EventKind::MarketData => self.market_data.next(),
            EventKind::OrderPlace => self.order_place.next(),
            EventKind::PortfolioInfo => self.portfolio_info.next(),
            EventKind::ShutDown => self.shut_down.next(),
        }
    }
}

/// Identifiers drawn for one kind strictly increase: an event made after
/// another of the same kind, from the same counters, has the larger id.
pub proof fn lemma_ids_increase(first: Event, second: Event, after_first: EventIds, before_second: EventIds)
    requires
        first.kind() == second.kind(),
        first.id() == after_first.last(first.kind()),
        before_second.last(first.kind()) >= after_first.last(first.kind()),
        second.id() == before_second.last(second.kind()) + 1,
    ensures
        first.id() < second.id(),
{
}

impl Event {
    pub open spec fn kind(&self) -> EventKind {
        match self {
            Event::MarketData(_) => EventKind::MarketData,
            Event::OrderPlace(_) => EventKind::OrderPlace,
            Event::PortfolioInfo(_) => EventKind::PortfolioInfo,
            Event::ShutDown(_) => EventKind::ShutDown,
        }
    }

    pub open spec fn id(&self) -> u64 {
        match self {
            Event::MarketData(e) => e.id,
            Event::OrderPlace(e) => e.id,
            Event::PortfolioInfo(e) => e.id,
            Event::ShutDown(e) => e.id,
        }
    }

    /// The discriminator of the event.
    pub fn event_kind(&self) -> (r: EventKind)
        ensures
            r == self.kind(),
    {
        match self {
            Event::MarketData(_) => EventKind::MarketData,
            Event::OrderPlace(_) => EventKind::OrderPlace,
            Event::PortfolioInfo(_) => EventKind::PortfolioInfo,
            Event::ShutDown(_) => EventKind::ShutDown,
        }
    }

    /// The envelope identifier.
    pub fn event_id(&self) -> (r: u64)
        ensures
            r == self.id(),
    {
        match self {
            Event::MarketData(e) => e.id,
            Event::OrderPlace(e) => e.id,
            Event::PortfolioInfo(e) => e.id,
            Event::ShutDown(e) => e.id,
        }
    }

    /// `self` is a copy of `other`: same kind and id, equal payload.
    pub open spec fn copy_of(&self, other: &Event) -> bool {
        match (self, other) {
            (Event::MarketData(a), Event::MarketData(b)) => a == b,
            (Event::OrderPlace(a), Event::OrderPlace(b)) => a == b,
            (Event::PortfolioInfo(a), Event::PortfolioInfo(b)) => a.id == b.id && a.portfolio@ == b.portfolio@,
            (Event::ShutDown(a), Event::ShutDown(b)) => a == b,
            _ => false,
        }
    }

    /// A deep copy, as sent to each subscriber.
    pub fn copy(&self) -> (r: Event)
        ensures
            r.copy_of(self),
            r.kind() == self.kind(),
            r.id() == self.id(),
    {
        match self {
            Event::MarketData(e) => Event::MarketData(e.copy()),
            Event::OrderPlace(e) => Event::OrderPlace(OrderPlaceEvent { id: e.id, order: e.order.copy() }),
            Event::PortfolioInfo(e) => Event::PortfolioInfo(PortfolioInfoEvent { id: e.id, portfolio: e.portfolio.copy() }),
            Event::ShutDown(e) => Event::ShutDown(ShutDownEvent { id: e.id }),
        }
    }

    /// A bar of market data with a fresh identifier.
    pub fn new_market_data(
        ids: &mut EventIds,
        timestamp: String,
        symbol: String,
        open: u64,
        close: u64,
        high: u64,
        low: u64,
        volume: u64,
    ) -> (r: Event)
        requires
            old(ids).last(EventKind::MarketData) < u64::MAX,
        ensures
            final(ids).advanced(old(ids), EventKind::MarketData),
            r == Event::MarketData(MarketDataEvent {
                id: final(ids).last(EventKind::MarketData) as u64,
                symbol,
                timestamp,
                open,
                close,
                high,
                low,
                volume,
            }),
    {
        let id = ids.next(EventKind::MarketData);
        Event::MarketData(MarketDataEvent { id, symbol, timestamp, open, close, high, low, volume })
    }

    /// An order placement with a fresh identifier.
    pub fn new_order_place(ids: &mut EventIds, order: Order) -> (r: Event)
        requires
            old(ids).last(EventKind::OrderPlace) < u64::MAX,
        ensures
            final(ids).advanced(old(ids), EventKind::OrderPlace),
            r == Event::OrderPlace(OrderPlaceEvent { id: final(ids).last(EventKind::OrderPlace) as u64, order }),
    {
        let id = ids.next(EventKind::OrderPlace);
        Event::OrderPlace(OrderPlaceEvent { id, order })
    }

    /// A portfolio snapshot with a fresh identifier.
    pub fn new_portfolio_info(ids: &mut EventIds, portfolio: Portfolio) -> (r: Event)
        requires
            old(ids).last(EventKind::PortfolioInfo) < u64::MAX,
        ensures
            final(ids).advanced(old(ids), EventKind::PortfolioInfo),
            r == Event::PortfolioInfo(PortfolioInfoEvent { id: final(ids).last(EventKind::PortfolioInfo) as u64, portfolio }),
    {
        let id = ids.next(EventKind::PortfolioInfo);
        Event::PortfolioInfo(PortfolioInfoEvent { id, portfolio })
    }

    /// The end-of-stream marker with a fresh identifier.
    pub fn new_shut_down(ids: &mut EventIds) -> (r: Event)
        requires
            old(ids).last(EventKind::ShutDown) < u64::MAX,
        ensures
            final(ids).advanced(old(ids), EventKind::ShutDown),
            r == Event::ShutDown(ShutDownEvent { id: final(ids).last(EventKind::ShutDown) as u64 }),
    {
        let id = ids.next(EventKind::ShutDown);
        Event::ShutDown(ShutDownEvent { id })
    }
}

} // verus!
