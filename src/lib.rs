//! Contribution metrics: aggregation of commit and pull-request activity
//! into per-repository snapshots, rollups over a snapshot, and the
//! navigation state of the dashboard that explores them.

pub mod timestamp;
pub mod pattern;
pub mod activity;
pub mod aggregate;
pub mod scraper;
pub mod scrape;
pub mod stats;
pub mod sorting;
pub mod state;
pub mod events;
pub mod db;
pub mod query;
pub mod config;
