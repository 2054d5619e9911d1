//! A single control plane over a fleet of independent node agents.
//!
//! The crate holds the decisions of that control plane as plain functions:
//! which request a node client sends and how it reads the answer, how the
//! aggregator merges, routes and schedules, how liveness is tracked, and how an
//! observer's event feed moves from replay to polling. Performing the requests
//! and waiting on timers is left to the caller.

pub mod clients;
pub mod config;
pub mod helpers;
pub mod models;
pub mod routes;
pub mod text;
pub mod time;
