//! The telemetry store.

pub mod redis;
pub mod samples;

pub use redis::{RedisClient, Telemetry};
pub use samples::{SampleWindow, SAMPLE_WINDOW};
