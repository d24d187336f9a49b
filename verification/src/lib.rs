//! An adaptive admission-control gate: it self-tunes a concurrency limit and a
//! queue-admission limit so that the average observed service latency tracks a
//! configured target, and sheds requests instead of letting unbounded queueing
//! degrade latency further.
//!
//! Latencies and timestamps are integer nanoseconds; the weight of the newest
//! sample in the moving averages is a rational strictly between 0 and 1.

pub mod conf;
pub mod error;
pub mod ewma;
pub mod laws;
pub mod pool;
pub mod service;

pub use conf::{Admission, LoadShedConf};
pub use error::LoadShedError;
pub use ewma::EwmaParam;
pub use pool::Pool;
pub use service::LoadShed;
