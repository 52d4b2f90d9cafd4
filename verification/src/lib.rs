//! Decision logic of an incremental market-data ingestion pipeline:
//! which periods and symbols still need fetching, how a fetch task reacts
//! to each upstream answer, in which order collected records are committed,
//! and when a committed partition counts as complete.

pub mod calendar;
pub mod collector;
pub mod commit;
pub mod fetch;
pub mod order;
pub mod period;
pub mod planner;
pub mod stage;
pub mod symbols;
