//! Core of an index-constituent reference-data crawler.
//!
//! The library reconstructs index membership for any past date from a base
//! roster and a change log, meters outbound requests through a sliding-window
//! admission policy, and drives a cache-first fetch/persist orchestrator over
//! a weekday schedule.  All I/O lives behind the collaborator traits; the
//! logic here is verified.

pub mod crawler;
pub mod database;
pub mod database_fixture;
pub mod date;
pub mod network;
pub mod network_fixture;
pub mod policy;
pub mod policy_fixture;
pub mod snp;
pub mod snp_by_date;
pub mod snp_fixture;
pub mod snp_update;
pub mod trades;
pub mod trades_fixture;

pub use date::Date;
