//! The selection policies, and the step of the dispatcher that applies the
//! configured one to the telemetry store.

pub mod choice;
pub mod least_connection;
pub mod location_based;
pub mod select;
pub mod turns;
pub mod weighted;
pub mod weighted_least_connection;
pub mod weighted_response_time;

pub use least_connection::least_connection;
pub use location_based::location_based;
pub use select::Algorithm;
pub use weighted_least_connection::weighted_least_connection;
pub use weighted_response_time::weighted_response_time;
