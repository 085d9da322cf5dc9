//! The per-request pipeline.

pub mod route;
pub mod run;
pub mod server;

pub use route::{fits, relay_response, request_route, Dispatch, Forward, BODY_LIMIT};
pub use server::{ApiResponse, Method, ServerClient, StaticServerData, UpstreamRequest};
