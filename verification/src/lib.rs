//! The request-dispatch core of a layer-7 reverse proxy that balances load
//! over a fixed pool of backends: the selection policies, the telemetry they
//! read, the per-request pipeline around them, and what the two background
//! workers do at each tick. The functions are verified against their
//! contracts; what a URL and what JSON is, is taken from `reqwest` and
//! `serde_json` on trust, in the modules `origin` and `json`. The network
//! stays outside.

pub mod algorithms;
pub mod config;
pub mod db;
pub mod error;
pub mod json;
pub mod middleware;
pub mod origin;
pub mod sequence;
pub mod services;
pub mod table;
pub mod text;
