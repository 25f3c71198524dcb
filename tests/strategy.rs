use crabquant::events::{Event, EventIds, MarketDataEvent, Order, OrderDirection, Portfolio, PRICE_SCALE};
use crabquant::strategies::moving_average_crossover::MAcross;
use crabquant::strategy_helper::MovingWindow;
use crabquant::strategy_manager::{Strategy, StrategyManager};

fn units(n: u64) -> u64 {
    n * PRICE_SCALE
}

fn bar(ids: &mut EventIds, close: u64, high: u64, low: u64, volume: u64) -> MarketDataEvent {
    match Event::new_market_data(ids, "t".to_string(), "X".to_string(), close, close, high, low, volume) {
        Event::MarketData(b) => b,
        _ => panic!("not a bar"),
    }
}

fn cash_portfolio(cash: i128) -> Portfolio {
    Portfolio::new(cash)
}

#[test]
fn test_avg() {
    let mut mv = MovingWindow::new(10);
    for v in 1..=4u64 {
        mv.update(v);
    }
    assert_eq!(mv.average(2), 3);
    assert_eq!(mv.average(4), 2);
    assert_eq!(mv.average(10), 2);
}

#[test]
fn window_drops_oldest_when_full() {
    let mut mv = MovingWindow::new(3);
    for v in [10u64, 20, 30, 40] {
        mv.update(v);
    }
    assert_eq!(mv.len(), 3);
    assert_eq!(mv.tail_sum(3), (90, 3));
    assert_eq!(mv.average(3), 30);
}

#[test]
fn window_variance() {
    let mut mv = MovingWindow::new(4);
    for v in [2u64, 4, 4, 6] {
        mv.update(v);
    }
    // mean 4, squared distances 4 + 0 + 0 + 4 over 4 values
    assert_eq!(mv.variance(4), 2);
    assert_eq!(mv.variance(2), 1);
}

#[test]
fn crossover_level_places_nothing() {
    let mut ids = EventIds::new();
    let mut s = MAcross::with_factors(1, 2, 1000, 1000);
    s.update(cash_portfolio(1000 * PRICE_SCALE as i128));
    let b = bar(&mut ids, units(10), units(10), units(10), 100);
    assert!(s.on_bar(&b, &mut ids).is_none());
}

#[test]
fn crossover_buys_on_upward_cross() {
    let mut ids = EventIds::new();
    let mut s = MAcross::with_factors(1, 2, 1000, 1000);
    s.update(cash_portfolio(1000 * PRICE_SCALE as i128));
    let b1 = bar(&mut ids, units(10), units(10), units(10), 100);
    assert!(s.on_bar(&b1, &mut ids).is_none());
    let b2 = bar(&mut ids, units(12), units(12), units(6), 100);
    match s.on_bar(&b2, &mut ids) {
        Some(Event::OrderPlace(o)) => {
            assert_eq!(o.id, 1);
            match o.order {
                Order::LimitPrice(l) => {
                    assert_eq!(l.amount, 83);
                    assert_eq!(l.limit_price, units(12));
                    assert_eq!(l.direction, OrderDirection::Buy);
                    assert_eq!(l.symbol, "X");
                },
                _ => panic!("not a limit order"),
            }
        },
        _ => panic!("expected an order"),
    }
    assert_eq!(s.available_cash(), (1000 - 83 * 12) * PRICE_SCALE as i128);
    // Same signal again: no second buy.
    let b3 = bar(&mut ids, units(14), units(14), units(14), 100);
    assert!(s.on_bar(&b3, &mut ids).is_none());
}

#[test]
fn crossover_buy_capped_by_volume() {
    let mut ids = EventIds::new();
    let mut s = MAcross::with_factors(1, 2, 1000, 1000);
    s.update(cash_portfolio(1000 * PRICE_SCALE as i128));
    let b1 = bar(&mut ids, units(10), units(10), units(10), 100);
    s.on_bar(&b1, &mut ids);
    let b2 = bar(&mut ids, units(12), units(12), units(6), 50);
    match s.on_bar(&b2, &mut ids) {
        Some(Event::OrderPlace(o)) => match o.order {
            Order::LimitPrice(l) => assert_eq!(l.amount, 50),
            _ => panic!("not a limit order"),
        },
        _ => panic!("expected an order"),
    }
    // The cash quantity 83, not the 50 ordered, is debited: 1000 - 83 * 12.
    assert_eq!(s.available_cash(), 4 * PRICE_SCALE as i128);
}

#[test]
fn crossover_price_factor_scales_quantity() {
    let mut ids = EventIds::new();
    let mut s = MAcross::new(1, 2);
    s.update(cash_portfolio(1200 * PRICE_SCALE as i128));
    let b1 = bar(&mut ids, units(10), units(10), units(10), 1000);
    s.on_bar(&b1, &mut ids);
    let b2 = bar(&mut ids, units(20), units(20), units(20), 1000);
    match s.on_bar(&b2, &mut ids) {
        // 1200 / (20 * 1.2) = 50
        Some(Event::OrderPlace(o)) => match o.order {
            Order::LimitPrice(l) => assert_eq!(l.amount, 50),
            _ => panic!("not a limit order"),
        },
        _ => panic!("expected an order"),
    }
}

#[test]
fn crossover_sells_whole_position_at_limit_zero() {
    let mut ids = EventIds::new();
    let mut s = MAcross::with_factors(1, 2, 1000, 1000);
    let mut p = cash_portfolio(0);
    p.positions.set(&"X".to_string(), 83);
    s.update(p);
    let b1 = bar(&mut ids, units(10), units(10), units(10), 100);
    s.on_bar(&b1, &mut ids);
    let b2 = bar(&mut ids, units(8), units(10), units(6), 100);
    match s.on_bar(&b2, &mut ids) {
        Some(Event::OrderPlace(o)) => match o.order {
            Order::LimitPrice(l) => {
                assert_eq!(l.amount, 83);
                assert_eq!(l.limit_price, 0);
                assert_eq!(l.direction, OrderDirection::Sell);
            },
            _ => panic!("not a limit order"),
        },
        _ => panic!("expected an order"),
    }
}

#[test]
fn crossover_sell_without_position_places_nothing() {
    let mut ids = EventIds::new();
    let mut s = MAcross::with_factors(1, 2, 1000, 1000);
    let b1 = bar(&mut ids, units(10), units(10), units(10), 100);
    s.on_bar(&b1, &mut ids);
    let b2 = bar(&mut ids, units(8), units(10), units(6), 100);
    assert!(s.on_bar(&b2, &mut ids).is_none());
}

#[test]
fn manager_collects_orders_in_strategy_order() {
    let mut ids = EventIds::new();
    let mut m = StrategyManager::new(vec![1000, 500]);
    m.add_strategy(MAcross::with_factors(1, 2, 1000, 1000));
    m.add_strategy(MAcross::with_factors(1, 2, 1000, 1000));
    assert!(m.is_configured());
    m.process_portfolioinfo(&cash_portfolio(1000 * PRICE_SCALE as i128));
    let b1 = bar(&mut ids, units(10), units(10), units(10), 1000);
    assert!(m.process_marketevent(&b1, &mut ids).is_empty());
    let b2 = bar(&mut ids, units(10), units(20), units(5), 1000);
    let b3 = bar(&mut ids, units(20), units(20), units(10), 1000);
    let _ = b2;
    let out = m.process_marketevent(&b3, &mut ids);
    assert_eq!(out.len(), 2);
    let amounts: Vec<(u64, u32)> = out
        .iter()
        .map(|e| match e {
            Event::OrderPlace(o) => match &o.order {
                Order::LimitPrice(l) => (o.id, l.amount),
                _ => panic!("not a limit order"),
            },
            _ => panic!("not an order"),
        })
        .collect();
    // Full weight buys 1000/20 = 50, half weight 500/20 = 25.
    assert_eq!(amounts, vec![(1, 50), (2, 25)]);
}

#[test]
fn manager_detects_weight_mismatch() {
    let mut m = StrategyManager::new(vec![1000]);
    m.add_strategy(MAcross::new(5, 10));
    m.add_strategy(MAcross::new(5, 10));
    assert!(!m.is_configured());
}
