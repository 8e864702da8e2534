//! Flood-monitoring telemetry core: turns cumulative gauge counters into
//! rainfall increments, runs the catchment storage step, computes
//! stage-discharge flows and tags every sample with fixed-width time buckets.
//!
//! Readings are fixed-point: hundredths of their unit (mm of rain, m of
//! depth, m³/s of discharge), as the store keeps them.

pub mod error;
pub mod config;
pub mod decimal;
pub mod clock;
pub mod bucket;
pub mod delta;
pub mod hydro;
pub mod payload;
pub mod topic;
pub mod auth;
pub mod ingest;
pub mod query;
