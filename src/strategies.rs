pub mod moving_average_crossover;
pub mod strategy_limit_price;
pub mod strategy_fire_and_drop;
