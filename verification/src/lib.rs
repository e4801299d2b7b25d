//! A minimal model of a one-route HTTP service: resolving the listen
//! port from an optional environment value, and the static route table
//! that answers `GET /api/hello` with a fixed greeting.

pub mod config;
pub mod routes;
