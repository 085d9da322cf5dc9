//! What the two background workers do at each tick.

pub mod latency_tracker_worker;
pub mod server_status_worker;

pub use latency_tracker_worker::{check, mean_latency};
pub use server_status_worker::server_status;
