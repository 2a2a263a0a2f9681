//! Multiversioned database snapshots.
//!
//! A [`snapshot_manager::SnapshotManager`] keeps the recent versions of a
//! [`snapshot::Snapshot`], each at the timestamp of the commit that made it.
//! A snapshot holds the tables of the database with a running summary of each
//! ([`table_summaries::TableSummaries`]) and, as shared values that this crate
//! carries and replaces, the registries and indexes that live elsewhere.

pub mod laws;
pub mod order;
pub mod snapshot;
pub mod snapshot_manager;
pub mod snapshot_update;
pub mod storage;
pub mod summary_map;
pub mod table_mapping;
pub mod table_summaries;
pub mod totals;
pub mod types;
