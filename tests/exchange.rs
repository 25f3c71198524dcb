use crabquant::events::{
    Event, EventIds, EventKind, LimitPriceOrder, MarketDataEvent, Order, OrderDirection,
    OrderPlaceEvent, FireAndDropOrder, PRICE_SCALE,
};
use crabquant::exchange::MockExchange;

fn units(n: u64) -> u64 {
    n * PRICE_SCALE
}

fn money(n: i128) -> i128 {
    n * PRICE_SCALE as i128
}

fn bar(ids: &mut EventIds, ts: &str, close: u64, high: u64, low: u64, volume: u64) -> MarketDataEvent {
    match Event::new_market_data(
        ids,
        ts.to_string(),
        "X".to_string(),
        close,
        close,
        high,
        low,
        volume,
    ) {
        Event::MarketData(b) => b,
        _ => panic!("not a bar"),
    }
}

fn limit(dir: OrderDirection, amount: u32, price: u64) -> OrderPlaceEvent {
    OrderPlaceEvent {
        id: 0,
        order: Order::LimitPrice(LimitPriceOrder {
            symbol: "X".to_string(),
            amount,
            limit_price: price,
            direction: dir,
        }),
    }
}

fn snapshot_cash(e: &Event) -> (i128, i128, i128) {
    match e {
        Event::PortfolioInfo(p) => (p.portfolio.cash, p.portfolio.asset, p.portfolio.available_cash),
        _ => panic!("not a portfolio snapshot"),
    }
}

#[test]
fn bar_without_orders_publishes_one_snapshot() {
    let mut ids = EventIds::new();
    let mut ex = MockExchange::new(money(1000), 1000, 0);
    let b = bar(&mut ids, "1", units(10), units(10), units(10), 100);
    let e = ex.process_marketevent(&b, &mut ids);
    assert_eq!(e.event_kind(), EventKind::PortfolioInfo);
    assert_eq!(snapshot_cash(&e), (money(1000), money(1000), money(1000)));
    assert_eq!(ex.portfolio().positions.len(), 0);
}

#[test]
fn buy_fills_at_mid_with_fee() {
    let mut ids = EventIds::new();
    let mut ex = MockExchange::new(money(1000), 1000, 0);
    ex.process_orderplace(limit(OrderDirection::Buy, 83, units(12)));
    assert_eq!(ex.pending_count(), 1);
    let b = bar(&mut ids, "2", units(12), units(12), units(6), 100);
    let e = ex.process_marketevent(&b, &mut ids);
    let (cash, asset, available) = snapshot_cash(&e);
    assert_eq!(cash, 252_253_000);
    assert_eq!(asset, 1_248_253_000);
    assert_eq!(available, cash);
    assert_eq!(ex.portfolio().position(&"X".to_string()), 83);
    assert_eq!(ex.pending_count(), 0);
}

#[test]
fn sell_at_limit_zero_fills_at_mid() {
    let mut ids = EventIds::new();
    let mut ex = MockExchange::new(money(1000), 1000, 0);
    ex.process_orderplace(limit(OrderDirection::Buy, 83, units(12)));
    let b2 = bar(&mut ids, "2", units(12), units(12), units(6), 100);
    ex.process_marketevent(&b2, &mut ids);
    ex.process_orderplace(limit(OrderDirection::Sell, 83, 0));
    let b3 = bar(&mut ids, "3", units(8), units(10), units(6), 100);
    let e = ex.process_marketevent(&b3, &mut ids);
    let (cash, asset, _) = snapshot_cash(&e);
    assert_eq!(cash, 915_589_000);
    assert_eq!(asset, cash);
    assert_eq!(ex.portfolio().position(&"X".to_string()), 0);
}

#[test]
fn fee_arithmetic_buy_then_sell() {
    let mut ids = EventIds::new();
    let mut ex = MockExchange::new(money(1000), 2000, 0);
    ex.process_orderplace(limit(OrderDirection::Buy, 10, units(100)));
    let b1 = bar(&mut ids, "1", units(100), units(100), units(100), 100);
    let e1 = ex.process_marketevent(&b1, &mut ids);
    assert_eq!(snapshot_cash(&e1).0, money(-2));
    assert_eq!(ex.portfolio().position(&"X".to_string()), 10);
    ex.process_orderplace(limit(OrderDirection::Sell, 10, units(110)));
    let b2 = bar(&mut ids, "2", units(110), units(110), units(110), 100);
    let e2 = ex.process_marketevent(&b2, &mut ids);
    assert_eq!(snapshot_cash(&e2).0, 1_095_800_000);
    assert_eq!(ex.portfolio().position(&"X".to_string()), 0);
}

#[test]
fn round_trip_costs_two_fees() {
    let mut ids = EventIds::new();
    let mut ex = MockExchange::new(money(1000), 1000, 0);
    ex.process_orderplace(limit(OrderDirection::Buy, 5, units(50)));
    let b1 = bar(&mut ids, "1", units(20), units(30), units(10), 100);
    ex.process_marketevent(&b1, &mut ids);
    ex.process_orderplace(limit(OrderDirection::Sell, 5, units(1)));
    let b2 = bar(&mut ids, "2", units(25), units(25), units(15), 100);
    let e = ex.process_marketevent(&b2, &mut ids);
    // Both fills at mid 20: two fees of 0.1% of 100.
    assert_eq!(snapshot_cash(&e).0, money(1000) - 2 * 100_000);
    assert_eq!(ex.portfolio().position(&"X".to_string()), 0);
}

#[test]
fn round_trip_without_fees_restores_cash() {
    let mut ids = EventIds::new();
    let mut ex = MockExchange::new(money(1000), 0, 0);
    ex.process_orderplace(limit(OrderDirection::Buy, 7, units(50)));
    let b1 = bar(&mut ids, "1", units(20), units(30), units(10), 100);
    ex.process_marketevent(&b1, &mut ids);
    ex.process_orderplace(limit(OrderDirection::Sell, 7, units(1)));
    let b2 = bar(&mut ids, "2", units(20), units(30), units(10), 100);
    let e = ex.process_marketevent(&b2, &mut ids);
    assert_eq!(snapshot_cash(&e).0, money(1000));
}

#[test]
fn unfilled_orders_are_dropped() {
    let mut ids = EventIds::new();
    let mut ex = MockExchange::new(money(1000), 1000, 0);
    ex.process_orderplace(limit(OrderDirection::Buy, 5, units(5)));
    ex.process_orderplace(OrderPlaceEvent {
        id: 0,
        order: Order::FireAndDrop(FireAndDropOrder {
            symbol: "X".to_string(),
            amount: 5,
            direction: OrderDirection::Buy,
        }),
    });
    let b = bar(&mut ids, "1", units(20), units(30), units(10), 100);
    let e = ex.process_marketevent(&b, &mut ids);
    assert_eq!(snapshot_cash(&e).0, money(1000));
    assert_eq!(ex.pending_count(), 0);
    assert_eq!(ex.portfolio().position(&"X".to_string()), 0);
}

#[test]
fn sell_without_holding_is_rejected() {
    let mut ids = EventIds::new();
    let mut ex = MockExchange::new(money(1000), 1000, 0);
    ex.process_orderplace(limit(OrderDirection::Sell, 5, 0));
    let b = bar(&mut ids, "1", units(20), units(30), units(10), 100);
    let e = ex.process_marketevent(&b, &mut ids);
    assert_eq!(snapshot_cash(&e).0, money(1000));
}

#[test]
fn oversized_sell_sells_what_is_held() {
    let mut ids = EventIds::new();
    let mut ex = MockExchange::new(money(1000), 0, 0);
    ex.process_orderplace(limit(OrderDirection::Buy, 3, units(50)));
    let b1 = bar(&mut ids, "1", units(20), units(20), units(20), 100);
    ex.process_marketevent(&b1, &mut ids);
    ex.process_orderplace(limit(OrderDirection::Sell, 10, 0));
    let b2 = bar(&mut ids, "2", units(30), units(30), units(30), 100);
    let e = ex.process_marketevent(&b2, &mut ids);
    assert_eq!(snapshot_cash(&e).0, money(1000 - 60 + 90));
    assert_eq!(ex.portfolio().position(&"X".to_string()), 0);
}

#[test]
fn zero_amount_order_is_rejected() {
    let mut ids = EventIds::new();
    let mut ex = MockExchange::new(money(1000), 1000, 0);
    ex.process_orderplace(limit(OrderDirection::Buy, 0, units(50)));
    let b = bar(&mut ids, "1", units(20), units(30), units(10), 100);
    let e = ex.process_marketevent(&b, &mut ids);
    assert_eq!(snapshot_cash(&e).0, money(1000));
}

#[test]
fn asset_marks_other_symbols_at_their_last_close() {
    let mut ids = EventIds::new();
    let mut ex = MockExchange::new(money(1000), 0, 0);
    ex.process_orderplace(limit(OrderDirection::Buy, 2, units(100)));
    let b1 = bar(&mut ids, "1", units(10), units(10), units(10), 100);
    ex.process_marketevent(&b1, &mut ids);
    let other = match Event::new_market_data(
        &mut ids,
        "2".to_string(),
        "Y".to_string(),
        units(40),
        units(40),
        units(40),
        units(40),
        100,
    ) {
        Event::MarketData(b) => b,
        _ => panic!("not a bar"),
    };
    let e = ex.process_marketevent(&other, &mut ids);
    // Cash 980, two X marked at X's last close 10.
    assert_eq!(snapshot_cash(&e), (money(980), money(1000), money(980)));
}

#[test]
fn snapshot_ids_increase() {
    let mut ids = EventIds::new();
    let mut ex = MockExchange::new(money(1000), 0, 0);
    let b1 = bar(&mut ids, "1", units(10), units(10), units(10), 100);
    let b2 = bar(&mut ids, "2", units(10), units(10), units(10), 100);
    assert!(b1.id < b2.id);
    let e1 = ex.process_marketevent(&b1, &mut ids);
    let e2 = ex.process_marketevent(&b2, &mut ids);
    assert_eq!(e1.event_id(), 1);
    assert_eq!(e2.event_id(), 2);
}

#[test]
fn process_event_routes_by_kind() {
    let mut ids = EventIds::new();
    let mut ex = MockExchange::new(money(1000), 0, 0);
    let order = Event::OrderPlace(limit(OrderDirection::Buy, 1, units(100)));
    assert!(ex.process_event(order, &mut ids).is_none());
    assert_eq!(ex.pending_count(), 1);
    let b = Event::new_market_data(&mut ids, "1".to_string(), "X".to_string(), 10, 10, 10, 10, 1);
    let out = ex.process_event(b, &mut ids);
    assert_eq!(out.map(|e| e.event_kind()), Some(EventKind::PortfolioInfo));
    let sd = Event::new_shut_down(&mut ids);
    assert!(ex.process_event(sd, &mut ids).is_none());
}

#[test]
fn fixed_fee_per_trade() {
    let mut ids = EventIds::new();
    let mut ex = MockExchange::new(money(1000), 0, units(1));
    ex.process_orderplace(limit(OrderDirection::Buy, 10, units(100)));
    let b1 = bar(&mut ids, "1", units(100), units(100), units(100), 100);
    let e1 = ex.process_marketevent(&b1, &mut ids);
    assert_eq!(snapshot_cash(&e1).0, money(-1));
    ex.process_orderplace(limit(OrderDirection::Sell, 10, 0));
    let b2 = bar(&mut ids, "2", units(100), units(100), units(100), 100);
    let e2 = ex.process_marketevent(&b2, &mut ids);
    assert_eq!(snapshot_cash(&e2).0, money(998));
}

#[test]
fn fee_above_trade_value() {
    let mut ids = EventIds::new();
    // A fee of 200% of each trade's value.
    let mut ex = MockExchange::new(money(1000), 2_000_000, 0);
    ex.process_orderplace(limit(OrderDirection::Buy, 1, units(10)));
    let b1 = bar(&mut ids, "1", units(10), units(10), units(10), 100);
    let e1 = ex.process_marketevent(&b1, &mut ids);
    assert_eq!(snapshot_cash(&e1).0, money(970));
    ex.process_orderplace(limit(OrderDirection::Sell, 1, 0));
    let b2 = bar(&mut ids, "2", units(10), units(10), units(10), 100);
    let e2 = ex.process_marketevent(&b2, &mut ids);
    assert_eq!(snapshot_cash(&e2).0, money(960));
    assert_eq!(ex.portfolio().position(&"X".to_string()), 0);
}
