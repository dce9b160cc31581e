//! Bridges the readings of a DSMR5 smart meter to an MQTT broker.
//!
//! The library holds the logic: folding one telegram's field objects into a
//! snapshot, mapping the snapshot onto retained messages, the tab-separated
//! record line, and the decisions of the session supervisor.
pub mod config;
pub mod decimal;
pub mod error;
pub mod laws;
pub mod mqtt;
pub mod report;
pub mod session;
