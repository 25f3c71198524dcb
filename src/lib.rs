pub mod util;
pub mod table;
pub mod events;
pub mod exchange;
pub mod event_manager;
pub mod strategy_helper;
pub mod strategy_manager;
pub mod strategies;
pub mod data_analyzer;
pub mod market_data_feeder;
