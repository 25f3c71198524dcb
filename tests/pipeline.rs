use crabquant::data_analyzer::{longest_drawdown, DataAnalyzer};
use crabquant::event_manager::{EventManager, Step};
use crabquant::events::{Event, EventIds, EventKind, MarketDataEvent, Order, OrderDirection, Portfolio, PRICE_SCALE};
use crabquant::exchange::MockExchange;
use crabquant::strategies::moving_average_crossover::MAcross;
use crabquant::strategies::strategy_fire_and_drop::StrategyFireAndDrop;
use crabquant::strategies::strategy_limit_price::StrategyLimitPrice;
use crabquant::strategy_manager::{Strategy, StrategyManager};

const STRATEGIES: usize = 0;
const EXCHANGE: usize = 1;

fn units(n: u64) -> u64 {
    n * PRICE_SCALE
}

struct Outcome {
    orders: usize,
    snapshots: Vec<(i128, i128, i128)>,
    exchange: MockExchange,
}

/// Runs the whole pipeline on one thread: bars enter at low priority and
/// every delivery is handled at once.
fn run(bars: &[(u64, u64, u64, u64)]) -> Outcome {
    let mut ids = EventIds::new();
    let mut em = EventManager::new();
    em.subscribe(EventKind::MarketData, STRATEGIES);
    em.subscribe(EventKind::PortfolioInfo, STRATEGIES);
    em.subscribe(EventKind::MarketData, EXCHANGE);
    em.subscribe(EventKind::OrderPlace, EXCHANGE);
    let mut manager = StrategyManager::new(vec![1000]);
    manager.add_strategy(MAcross::with_factors(1, 2, 1000, 1000));
    let mut exchange = MockExchange::new(1000 * PRICE_SCALE as i128, 1000, 0);
    let mut orders = 0;
    let mut snapshots = Vec::new();
    let mut pending: Vec<Event> = bars
        .iter()
        .enumerate()
        .map(|(i, &(c, h, l, v))| {
            Event::new_market_data(&mut ids, (i + 1).to_string(), "X".to_string(), c, c, h, l, v)
        })
        .collect();
    pending.reverse();
    loop {
        if let Some(e) = pending.pop() {
            em.try_publish_low(e).ok().unwrap();
        }
        let idle = pending.is_empty();
        match em.step(idle, &mut ids) {
            Step::Dispatch(e, to) => {
                for endpoint in to {
                    let copy = e.copy();
                    if endpoint == STRATEGIES {
                        match copy {
                            Event::MarketData(bar) => {
                                for o in manager.process_marketevent(&bar, &mut ids) {
                                    orders += 1;
                                    em.publish_high(o);
                                }
                            },
                            Event::PortfolioInfo(p) => manager.process_portfolioinfo(&p.portfolio),
                            _ => {},
                        }
                    } else if let Some(out) = exchange.process_event(copy, &mut ids) {
                        if let Event::PortfolioInfo(p) = &out {
                            snapshots.push((p.portfolio.cash, p.portfolio.asset, p.portfolio.available_cash));
                        }
                        em.publish_high(out);
                    }
                }
            },
            Step::Finished => break,
            _ => {},
        }
    }
    Outcome { orders, snapshots, exchange }
}

#[test]
fn scenario_no_signal_no_orders() {
    let out = run(&[(units(10), units(10), units(10), 100)]);
    assert_eq!(out.orders, 0);
    assert_eq!(out.snapshots, vec![(1_000_000_000, 1_000_000_000, 1_000_000_000)]);
    assert_eq!(out.exchange.portfolio().positions.len(), 0);
}

#[test]
fn pipeline_buy_then_sell() {
    let out = run(&[
        (units(10), units(10), units(10), 100),
        (units(12), units(12), units(6), 100),
        (units(8), units(10), units(6), 100),
        (units(9), units(9), units(9), 100),
    ]);
    // One snapshot per bar.
    assert_eq!(out.snapshots.len(), 4);
    // Buy 83 placed on bar 2 fills on bar 3 at mid 8 with a 0.1% fee.
    assert_eq!(out.snapshots[2].0, 1_000_000_000 - 664_000_000 - 664_000);
    // The strategy sees bar 3 before the snapshot that holds the fill, so its
    // downward crossing finds no position and places no sell.
    assert_eq!(out.snapshots[3].0, 335_336_000);
    assert_eq!(out.snapshots[3].1, 335_336_000 + 83 * 9 * PRICE_SCALE as i128);
    // Bar 4 crosses upward again: a second buy, still pending at the end.
    assert_eq!(out.orders, 2);
    assert_eq!(out.exchange.pending_count(), 1);
    assert_eq!(out.exchange.portfolio().position(&"X".to_string()), 83);
}

#[test]
fn published_asset_matches_cash_and_holdings() {
    let out = run(&[
        (units(10), units(10), units(10), 100),
        (units(12), units(12), units(6), 100),
        (units(15), units(16), units(6), 100),
    ]);
    // The buy fills on bar 3 at mid 11; 83 held, marked at the close of 15.
    let (cash, asset, available) = out.snapshots[2];
    assert_eq!(asset, cash + 83 * 15 * PRICE_SCALE as i128);
    assert_eq!(available, cash);
    assert_eq!(cash, 1_000_000_000 - 913_000_000 - 913_000);
}

fn bar(ids: &mut EventIds, ts: &str, close: u64, low: u64) -> MarketDataEvent {
    match Event::new_market_data(ids, ts.to_string(), "X".to_string(), close, close, close, low, 1000) {
        Event::MarketData(b) => b,
        _ => panic!("not a bar"),
    }
}

fn fire(s: &mut StrategyFireAndDrop, ids: &mut EventIds, ts: &str, close: u64) -> Option<(u32, OrderDirection)> {
    let b = bar(ids, ts, units(close), units(close));
    match s.on_bar(&b, ids) {
        Some(Event::OrderPlace(o)) => match o.order {
            Order::FireAndDrop(f) => Some((f.amount, f.direction)),
            _ => panic!("not a fire-and-drop order"),
        },
        None => None,
        _ => panic!("not an order"),
    }
}

#[test]
fn fire_and_drop_orders_follow_the_short_mean() {
    let mut ids = EventIds::new();
    let mut s = StrategyFireAndDrop::new();
    s.update(Portfolio::new(1200 * PRICE_SCALE as i128));
    assert_eq!(fire(&mut s, &mut ids, "1", 10), None);
    // Two values: both means cover the same bars.
    assert_eq!(fire(&mut s, &mut ids, "2", 10), None);
    // 2-bar mean 17.5 above 3-bar mean 15: buy 1200 / (25 * 1.2) = 40.
    assert_eq!(fire(&mut s, &mut ids, "3", 25), Some((40, OrderDirection::Buy)));
    // 16 above 14: buy again, 1200 / 8.4 = 142.86 rounded to 143.
    assert_eq!(fire(&mut s, &mut ids, "4", 7), Some((143, OrderDirection::Buy)));
    // 7 below 13: sell.
    assert_eq!(fire(&mut s, &mut ids, "5", 7), Some((143, OrderDirection::Sell)));
}

#[test]
fn limit_price_strategy_uses_five_and_ten_bars() {
    let mut ids = EventIds::new();
    let mut s = StrategyLimitPrice::new();
    s.update(Portfolio::new(1200 * PRICE_SCALE as i128));
    let mut placed = Vec::new();
    for (i, c) in [10u64, 10, 10, 10, 10, 10, 20].iter().enumerate() {
        let b = bar(&mut ids, &i.to_string(), units(*c), units(*c));
        placed.push(s.process(&b, &mut ids).is_some());
    }
    assert_eq!(placed, vec![false, false, false, false, false, false, true]);
}

#[test]
fn analyzer_labels_snapshots_with_latest_bar() {
    let mut ids = EventIds::new();
    let mut a = DataAnalyzer::new();
    a.process_portfolioinfo(&Portfolio::new(5));
    assert_eq!(a.lengths(), (0, 0, 0));
    let b = bar(&mut ids, "t1", units(3), units(3));
    a.process_marketevent(&b);
    let mut p = Portfolio::new(7);
    p.asset = 9;
    a.process_portfolioinfo(&p);
    assert_eq!(a.lengths(), (1, 1, 1));
    assert_eq!(a.market_at(0), (&"t1".to_string(), units(3)));
    assert_eq!(a.asset_at(0), (&"t1".to_string(), 9));
    assert_eq!(a.cash_at(0), (&"t1".to_string(), 7));
}

#[test]
fn longest_drawdown_counts_steps_below_peak() {
    assert_eq!(longest_drawdown(&vec![]), 0);
    assert_eq!(longest_drawdown(&vec![5, 6, 7]), 0);
    // Below the peak of 10 from index 1, regained at index 4.
    assert_eq!(longest_drawdown(&vec![10, 8, 7, 9, 10, 9, 11]), 3);
    // A drawdown still open at the end is counted up to the last index.
    assert_eq!(longest_drawdown(&vec![10, 9, 8, 7, 6]), 3);
}

#[test]
fn analyzer_reports_growth() {
    let mut ids = EventIds::new();
    let mut a = DataAnalyzer::new();
    assert!(!a.grew_since(0, 0));
    let b = bar(&mut ids, "t1", units(3), units(3));
    a.process_marketevent(&b);
    assert!(a.grew_since(0, 0));
    assert!(!a.grew_since(1, 0));
    a.process_portfolioinfo(&Portfolio::new(7));
    assert!(a.grew_since(1, 0));
    assert!(!a.grew_since(1, 1));
}
