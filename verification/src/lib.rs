use vstd::prelude::*;

pub mod ingest;
pub mod text;
pub mod schema;
pub mod error;
pub mod reconcile_order;
pub mod helper_plan;
pub mod pg;
pub mod config;
pub mod startup_plan;
pub mod sql_text;
pub mod schema_dump;
pub mod ordering;
pub mod schema_compare;
pub mod cli;
pub mod apply_sql;
pub mod cutover;
pub mod molt;
pub mod metrics;
pub mod postgres_setup;
pub mod webhook_payload;
pub mod runtime_plan;
pub mod routing;
pub mod log;
pub mod validated;
pub mod bootstrap;
pub mod ingress;
pub mod catalog;
pub mod tls;
pub mod conn_url;

verus! {

} // verus!
