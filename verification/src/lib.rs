//! Ingestion and scoring core of a crawler that looks for approachable open
//! issues: candidate discovery with deduplication, metric derivation from a
//! repository snapshot, bounded retention of the persisted rows, and the
//! two-state cycle scheduler.

pub mod text;
pub mod clock;
pub mod snapshot;
pub mod stats;
pub mod histogram;
pub mod score;
pub mod discover;
pub mod retention;
pub mod scheduler;
