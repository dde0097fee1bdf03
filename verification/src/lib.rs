//! Verified core of an ECS-driven bidirectional server framework.
//!
//! The modules hold the decisions the server makes on plain values: the
//! fixed-timestep frame stepping of the main loop, connection identifiers and
//! routing of network events to entities, the reader of one connection, the
//! throttle gate of the rate limiter, and the plugin and message types. Entities are carried as the
//! `u64` bits that identify them; instants and durations as nanoseconds.

pub mod connection;
pub mod events;
pub mod plugin;
pub mod rate_limit;
pub mod timestep;
