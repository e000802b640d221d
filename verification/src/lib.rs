//! Run orchestration and result ingestion for a nurse-rostering service.
//!
//! The crate holds the rules of the service as verified functions on plain
//! values: content-addressed scenario records, name resolution, KPI
//! aggregation, and the tables that a solver run writes.

pub mod assignments;
pub mod availability;
pub mod config;
pub mod coverage;
pub mod dates;
pub mod digest;
pub mod errors;
pub mod health;
pub mod kpi;
pub mod lifecycle;
pub mod models;
pub mod ordering;
pub mod organizations;
pub mod paging;
pub mod preferences;
pub mod resolver;
pub mod run_store;
pub mod scenarios;
pub mod solver_runs;
pub mod text;
pub mod units;
pub mod upsert;
pub mod users;
