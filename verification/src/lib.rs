//! A rolling price board: bounded history, a versioned snapshot cache,
//! subscriber admission, and the request-screening rules in front of them.

pub mod config;
pub mod connection;
pub mod entry;
pub mod guard;
pub mod handlers;
pub mod history;
pub mod json;
pub mod rate_limiter;
pub mod security;
pub mod snapshot;
pub mod state;
pub mod tables;
pub mod text;
pub mod treasury;
pub mod usd_idr;
pub mod utils;
pub mod ws_manager;
