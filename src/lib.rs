//! Moderation tooling for a community group: session handling against the
//! platform, incremental ingestion of the group's audit log, and a ranked
//! leaderboard of staff moderation activity.
pub mod config;
pub mod log;
pub mod alias;
pub mod rank;
pub mod actors;
pub mod leaderboard;
pub mod store;
pub mod ingest;
pub mod session;
pub mod browse;
pub mod icon;
