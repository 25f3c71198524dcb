use vstd::prelude::*;
use crate::events::{Event, EventIds, MarketDataEvent, Portfolio, PortfolioView};
use crate::strategies::moving_average_crossover::{LastSignal, MAcross, crossover_reaction, crossover_updated};
use crate::strategy_manager::Strategy;

verus! {

/// A crossover of the 5-bar and 10-bar means of the closes, with a price
/// factor of 1.2 and a volume factor of 1: buys with limit twice the bar's
/// low, sells the whole position with limit 0.
pub struct StrategyLimitPrice {
    crossover: MAcross,
}

impl StrategyLimitPrice {
    /// The crossover the strategy runs.
    pub closed spec fn crossover_view(&self) -> MAcross {
        self.crossover
    }

    pub fn new() -> (r: Self)
        ensures
            r.inv(),
            r.crossover_view().window() == Seq::<u64>::empty(),
            r.crossover_view().signal() == LastSignal::IsNone,
            r.crossover_view().short_len() == 5,
            r.crossover_view().long_len() == 10,
            r.crossover_view().factors() == (1200nat, 1000nat),
    {
        StrategyLimitPrice { crossover: MAcross::new(5, 10) }
    }
}

impl Strategy for StrategyLimitPrice {
    open spec fn inv(&self) -> bool {
        self.crossover_view().inv()
    }

    open spec fn processed(&self, before: Self, bar: MarketDataEvent, out: Option<Event>, order_id: nat) -> bool {
        crossover_reaction(self.crossover_view(), before.crossover_view(), bar, out, order_id)
    }

    open spec fn updated(&self, before: Self, portfolio: PortfolioView) -> bool {
        crossover_updated(self.crossover_view(), before.crossover_view(), portfolio)
    }

    fn process(&mut self, bar: &MarketDataEvent, ids: &mut EventIds) -> (r: Option<Event>) {
        self.crossover.process(bar, ids)
    }

    fn update(&mut self, portfolio: Portfolio) {
        self.crossover.update(portfolio)
    }
}

} // verus!
