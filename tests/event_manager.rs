use crabquant::event_manager::{EventManager, Step, LOW_CAPACITY};
use crabquant::events::{Event, EventIds, EventKind};

fn md(ids: &mut EventIds, n: u64) -> Event {
    Event::new_market_data(ids, n.to_string(), "X".to_string(), 1, 1, 1, 1, 1)
}

fn dispatched(step: Step) -> (Event, Vec<usize>) {
    match step {
        Step::Dispatch(e, to) => (e, to),
        _ => panic!("expected a dispatch"),
    }
}

#[test]
fn blocks_until_first_low_priority_event() {
    let mut ids = EventIds::new();
    let mut em = EventManager::new();
    let hp = Event::new_shut_down(&mut ids);
    em.publish_high(hp);
    assert!(matches!(em.step(true, &mut ids), Step::Block));
    em.try_publish_low(md(&mut ids, 1)).ok().unwrap();
    let (e, _) = dispatched(em.step(false, &mut ids));
    assert_eq!(e.event_kind(), EventKind::MarketData);
}

#[test]
fn backpressure_after_twenty_outstanding() {
    let mut ids = EventIds::new();
    let mut em = EventManager::new();
    let mut refused = 0;
    for n in 0..25u64 {
        if em.try_publish_low(md(&mut ids, n)).is_err() {
            refused += 1;
        }
    }
    assert_eq!(LOW_CAPACITY, 20);
    assert_eq!(em.low_outstanding(), 20);
    assert_eq!(refused, 5);
    dispatched(em.step(false, &mut ids));
    assert!(em.try_publish_low(md(&mut ids, 99)).is_ok());
    assert!(em.try_publish_low(md(&mut ids, 100)).is_err());
}

#[test]
fn high_priority_drains_before_next_low() {
    let mut ids = EventIds::new();
    let mut em = EventManager::new();
    em.subscribe(EventKind::MarketData, 7);
    em.subscribe(EventKind::OrderPlace, 8);
    em.subscribe(EventKind::OrderPlace, 9);
    em.try_publish_low(md(&mut ids, 1)).ok().unwrap();
    em.try_publish_low(md(&mut ids, 2)).ok().unwrap();
    let (first, to) = dispatched(em.step(false, &mut ids));
    assert_eq!(first.event_id(), 1);
    assert_eq!(to, vec![7]);
    let o1 = Event::new_shut_down(&mut ids);
    let o2 = Event::new_shut_down(&mut ids);
    em.publish_high(o1);
    em.publish_high(o2);
    let (a, _) = dispatched(em.step(false, &mut ids));
    let (b, _) = dispatched(em.step(false, &mut ids));
    assert_eq!((a.event_id(), b.event_id()), (1, 2));
    let (c, _) = dispatched(em.step(false, &mut ids));
    assert_eq!((c.event_kind(), c.event_id()), (EventKind::MarketData, 2));
}

#[test]
fn dispatch_follows_subscription_order_with_duplicates() {
    let mut ids = EventIds::new();
    let mut em = EventManager::new();
    em.subscribe(EventKind::MarketData, 3);
    em.subscribe(EventKind::MarketData, 1);
    em.subscribe(EventKind::MarketData, 3);
    em.try_publish_low(md(&mut ids, 1)).ok().unwrap();
    let (_, to) = dispatched(em.step(false, &mut ids));
    assert_eq!(to, vec![3, 1, 3]);
}

#[test]
fn idle_shutdown_after_traffic_stops() {
    let mut ids = EventIds::new();
    let mut em = EventManager::new();
    em.subscribe(EventKind::ShutDown, 4);
    for n in 1..=3u64 {
        em.try_publish_low(md(&mut ids, n)).ok().unwrap();
    }
    for _ in 0..3 {
        dispatched(em.step(false, &mut ids));
    }
    assert!(matches!(em.step(false, &mut ids), Step::Idle));
    let (e, to) = dispatched(em.step(true, &mut ids));
    assert_eq!(e.event_kind(), EventKind::ShutDown);
    assert_eq!(e.event_id(), 1);
    assert_eq!(to, vec![4]);
    assert!(matches!(em.step(true, &mut ids), Step::Finished));
}

#[test]
fn event_without_subscribers_goes_nowhere() {
    let mut ids = EventIds::new();
    let mut em = EventManager::new();
    em.try_publish_low(md(&mut ids, 1)).ok().unwrap();
    let (_, to) = dispatched(em.step(false, &mut ids));
    assert!(to.is_empty());
}

#[test]
fn ids_increase_per_kind() {
    let mut ids = EventIds::new();
    let a = md(&mut ids, 1);
    let s = Event::new_shut_down(&mut ids);
    let b = md(&mut ids, 2);
    assert_eq!((a.event_id(), b.event_id(), s.event_id()), (1, 2, 1));
    let c = a.copy();
    assert_eq!((c.event_kind(), c.event_id()), (EventKind::MarketData, 1));
}
