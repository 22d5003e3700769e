//! TLS interception.

pub mod config;
pub mod domain;
pub mod host;
pub mod order;
pub mod port;
pub mod routes;
