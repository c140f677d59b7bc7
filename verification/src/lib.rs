//! Logic of a local-first fund portfolio tracker.
pub mod backup;
pub mod calendar;
pub mod changes;
pub mod channel;
pub mod cloud;
pub mod cloud_laws;
pub mod date;
pub mod disclosure;
pub mod fund_laws;
pub mod funds;
pub mod grid;
pub mod group;
pub mod imports;
pub mod json;
pub mod keeping_laws;
pub mod ledger;
pub mod ledger_laws;
pub mod lookthrough;
pub mod lookthrough_laws;
pub mod market_laws;
pub mod memory;
pub mod model_laws;
pub mod moment;
pub mod order;
pub mod percent;
pub mod pick;
pub mod position_laws;
pub mod positions;
pub mod pull;
pub mod quotes;
pub mod refresh;
pub mod relay;
pub mod replay;
pub mod report_laws;
pub mod reports;
pub mod search;
pub mod sector;
pub mod signals;
pub mod stats;
pub mod store;
pub mod strategy_laws;
pub mod symbols;
pub mod sync_laws;
pub mod table_laws;
pub mod text;
pub mod text_laws;
pub mod time_laws;
pub mod word_laws;
