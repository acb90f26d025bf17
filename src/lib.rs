//! Decoders for the status messages of a mining daemon's management socket.
//!
//! The daemon answers with delimited `KEY=value` text. This library turns a
//! summary message into an [`APISummary`] and a per-worker message into an
//! [`APIThreads`] report, and resolves rate-unit labels to their decimal
//! multipliers. Every decoder is total: malformed input degrades to default
//! field values and never panics.

pub mod text;
pub mod number;
pub mod units;
pub mod summary;
pub mod threads;


pub use number::FloatText;
pub use summary::{parse_summary_data, APISummary};
pub use threads::{parse_thread_data, APIThreads, ThreadStat};
pub use units::unit_multiplier;
