//! An epoch-bucketed counter library for a chat bot.
//!
//! Instants are milliseconds since the Unix epoch; a bucket ("epoch") is the
//! canonical `[lower, upper)` window of a fixed width that contains an
//! instant.  The library truncates instants to bucket bounds, finds or
//! creates bucket records and their counters in a store, tracks the active
//! bucket across rollovers, and renders counts and widths as text.

pub mod config;
pub mod dad_text;
pub mod dadded;
pub mod dadded_manager;
pub mod epochs;
pub mod errors;
pub mod records;
pub mod report;
pub mod rng_manager;
