//! Polling and metric-translation core of an exporter for Shelly smart relays.

pub mod config;
pub mod metrics;
pub mod registry;
pub mod schedule;
pub mod shelly;
pub mod text;
