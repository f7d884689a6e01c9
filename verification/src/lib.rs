//! Metrics of Elastic Fabric Adapter (EFA) devices: how much each hardware counter of each port has
//! counted since the last scrape, as gauges of the `prometheus` crate.
//!
//! - [`sysfs`], [`counter`]: what the counter files say.
//! - [`metrics`], [`metric_ids`], [`platform`], [`pods`]: what is exported, under which
//!   identifiers, and the labels it carries.
//! - [`gauges`], [`hash`]: the gauge families and the registry of the `prometheus` crate.
//! - [`scrape`]: the mathematical model of a scrape.
//! - [`counter_laws`], [`sysfs_laws`]: what the counter files say, stated of their text and entries.
//! - [`laws`], [`provider_laws`], [`export_laws`]: what holds of scrapes and of what they export.
//! - [`provider`]: the provider itself.
//! - [`table`], [`text`]: string tables and string comparison.
pub mod counter;
pub mod counter_laws;
pub mod export_laws;
pub mod gauges;
pub mod hash;
pub mod laws;
pub mod metric_ids;
pub mod metrics;
pub mod platform;
pub mod pods;
pub mod provider;
pub mod provider_laws;
pub mod scrape;
pub mod sysfs;
pub mod sysfs_laws;
pub mod table;
pub mod text;
