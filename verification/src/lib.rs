//! Detection core of a port-knocking mechanism.
//!
//! The engine watches a stream of `(client, port)` observations and decides
//! whether a client has just completed one of the configured knock sequences
//! (ordered port lists) as a contiguous suffix of its recorded hits, within a
//! per-client time window anchored at the first recorded hit.

pub mod config;
pub mod detector;
pub mod laws;
pub mod matching;
pub mod model;
