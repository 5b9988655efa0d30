//! Balance-chart synthesis engine: turns a date-sorted ledger of per-method
//! running balances into dense per-day curves, with same-day coalescing,
//! carry-forward for missing days, adaptive axis scaling and a progressive
//! reveal animation cursor.

pub mod axis;
pub mod chart;
pub mod curve;
pub mod date;
pub mod digits;
pub mod money;
pub mod palette;
pub mod scheduler;
pub mod snapshot;
pub mod table_data;
