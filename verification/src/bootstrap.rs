//! The statements that prepare a destination database for the runner: the helper schema,
//! its tracking tables, one mapping's shadow tables, and the rows that track a mapping.
use vstd::prelude::*;

use crate::helper_plan::{
    HelperTableView, MappingHelperPlan, create_primary_key_index_sql_spec,
    create_shadow_table_sql_spec, helper_schema, helper_schema_name, helper_table_views,
};
use crate::text::views;

verus! {

/// `before`, the helper schema's name, then `after`.
pub open spec fn in_helper_schema(before: Seq<char>, after: Seq<char>) -> Seq<char> {
    before + helper_schema() + after
}

fn helper_schema_sql(before: &str, after: &str) -> (r: String)
    ensures
        r@ == in_helper_schema(before@, after@),
{
    let mut r = String::from_str(before);
    let schema = helper_schema_name();
    r.append(schema.as_str());
    r.append(after);
    r
}

/// The DDL that creates a mapping's shadow tables, in order: each shadow table, followed
/// by its primary-key index where the table has a primary key.
pub open spec fn bootstrap_ddl(tables: Seq<HelperTableView>) -> Seq<Seq<char>>
    decreases tables.len(),
{
    if tables.len() == 0 {
        seq![]
    } else {
        let t = tables.last();
        let with_table = bootstrap_ddl(tables.drop_last()).push(create_shadow_table_sql_spec(t));
        match create_primary_key_index_sql_spec(t) {
            Some(index) => with_table.push(index),
            None => with_table,
        }
    }
}

/// The DDL that creates the shadow tables of `plan`, in the order it must run.
pub fn mapping_bootstrap_statements(plan: &MappingHelperPlan) -> (r: Vec<String>)
    ensures
        views(r@) == bootstrap_ddl(plan.helper_tables_spec()),
{
    let tables = plan.helper_tables();
    let mut r: Vec<String> = Vec::new();
    let mut i: usize = 0;
    while i < tables.len()
        invariant
            i <= tables.len(),
            helper_table_views(tables@) == plan.helper_tables_spec(),
            views(r@) == bootstrap_ddl(helper_table_views(tables@).take(i as int)),
        decreases tables.len() - i,
    {
        let ghost prev = r@;
        let ghost all = helper_table_views(tables@);
        assert(all.take(i + 1).drop_last() =~= all.take(i as int));
        assert(all.take(i + 1).last() == tables@[i as int]@);
        let table = &tables[i];
        r.push(table.create_shadow_table_sql());
        match table.create_primary_key_index_sql() {
            Some(index) => {
                r.push(index);
            },
            None => {},
        }
        assert(views(r@) =~= bootstrap_ddl(all.take(i + 1)));
        i += 1;
    }
    assert(helper_table_views(tables@).take(tables.len() as int) =~= helper_table_views(tables@));
    r
}

/// `CREATE SCHEMA IF NOT EXISTS <helper schema>`.
pub open spec fn schema_ddl() -> Seq<char> {
    in_helper_schema("CREATE SCHEMA IF NOT EXISTS "@, ""@)
}

pub fn create_helper_schema_sql() -> (r: String)
    ensures
        r@ == schema_ddl(),
{
    helper_schema_sql("CREATE SCHEMA IF NOT EXISTS ", "")
}

/// The table that holds one row per mapping: its source database, stream and watermarks.
pub open spec fn stream_state_ddl() -> Seq<char> {
    in_helper_schema("CREATE TABLE IF NOT EXISTS "@, ".stream_state (\n    mapping_id TEXT PRIMARY KEY,\n    source_database TEXT NOT NULL,\n    source_job_id TEXT,\n    starting_cursor TEXT,\n    latest_received_resolved_watermark TEXT,\n    latest_reconciled_resolved_watermark TEXT,\n    stream_status TEXT NOT NULL DEFAULT 'bootstrap_pending'\n)"@)
}

pub fn create_stream_state_sql() -> (r: String)
    ensures
        r@ == stream_state_ddl(),
{
    helper_schema_sql("CREATE TABLE IF NOT EXISTS ", ".stream_state (\n    mapping_id TEXT PRIMARY KEY,\n    source_database TEXT NOT NULL,\n    source_job_id TEXT,\n    starting_cursor TEXT,\n    latest_received_resolved_watermark TEXT,\n    latest_reconciled_resolved_watermark TEXT,\n    stream_status TEXT NOT NULL DEFAULT 'bootstrap_pending'\n)")
}

/// The table that holds one row per mapping and selected table: its shadow table, its last
/// successful sync and its last error.
pub open spec fn table_sync_state_ddl() -> Seq<char> {
    in_helper_schema("CREATE TABLE IF NOT EXISTS "@, ".table_sync_state (\n    mapping_id TEXT NOT NULL,\n    source_table_name TEXT NOT NULL,\n    helper_table_name TEXT NOT NULL,\n    last_successful_sync_time TIMESTAMPTZ,\n    last_successful_sync_watermark TEXT,\n    last_error TEXT,\n    PRIMARY KEY (mapping_id, source_table_name)\n)"@)
}

pub fn create_table_sync_state_sql() -> (r: String)
    ensures
        r@ == table_sync_state_ddl(),
{
    helper_schema_sql("CREATE TABLE IF NOT EXISTS ", ".table_sync_state (\n    mapping_id TEXT NOT NULL,\n    source_table_name TEXT NOT NULL,\n    helper_table_name TEXT NOT NULL,\n    last_successful_sync_time TIMESTAMPTZ,\n    last_successful_sync_watermark TEXT,\n    last_error TEXT,\n    PRIMARY KEY (mapping_id, source_table_name)\n)")
}

/// Records a mapping's source database, as `bootstrap_pending` when the mapping is new;
/// binds the mapping id and the source database.
pub open spec fn seed_stream_state_dml() -> Seq<char> {
    in_helper_schema("INSERT INTO "@, ".stream_state (mapping_id, source_database, stream_status)\nVALUES ($1, $2, 'bootstrap_pending')\nON CONFLICT (mapping_id) DO UPDATE\nSET source_database = EXCLUDED.source_database"@)
}

pub fn seed_stream_state_sql() -> (r: String)
    ensures
        r@ == seed_stream_state_dml(),
{
    helper_schema_sql("INSERT INTO ", ".stream_state (mapping_id, source_database, stream_status)\nVALUES ($1, $2, 'bootstrap_pending')\nON CONFLICT (mapping_id) DO UPDATE\nSET source_database = EXCLUDED.source_database")
}

/// Records the shadow table of one selected table; binds the mapping id, the table's label
/// and the shadow table's name.
pub open spec fn seed_table_sync_state_dml() -> Seq<char> {
    in_helper_schema("INSERT INTO "@, ".table_sync_state (mapping_id, source_table_name, helper_table_name)\nVALUES ($1, $2, $3)\nON CONFLICT (mapping_id, source_table_name) DO UPDATE\nSET helper_table_name = EXCLUDED.helper_table_name"@)
}

pub fn seed_table_sync_state_sql() -> (r: String)
    ensures
        r@ == seed_table_sync_state_dml(),
{
    helper_schema_sql("INSERT INTO ", ".table_sync_state (mapping_id, source_table_name, helper_table_name)\nVALUES ($1, $2, $3)\nON CONFLICT (mapping_id, source_table_name) DO UPDATE\nSET helper_table_name = EXCLUDED.helper_table_name")
}

/// Raises a mapping's latest received resolved watermark to the bound one when that is
/// later, and leaves it otherwise; binds the mapping id and the watermark.
pub open spec fn received_watermark_dml() -> Seq<char> {
    in_helper_schema("UPDATE "@, ".stream_state\nSET latest_received_resolved_watermark = CASE\n    WHEN latest_received_resolved_watermark IS NULL\n      OR latest_received_resolved_watermark < $2\n    THEN $2\n    ELSE latest_received_resolved_watermark\nEND\nWHERE mapping_id = $1"@)
}

pub fn update_received_watermark_sql() -> (r: String)
    ensures
        r@ == received_watermark_dml(),
{
    helper_schema_sql("UPDATE ", ".stream_state\nSET latest_received_resolved_watermark = CASE\n    WHEN latest_received_resolved_watermark IS NULL\n      OR latest_received_resolved_watermark < $2\n    THEN $2\n    ELSE latest_received_resolved_watermark\nEND\nWHERE mapping_id = $1")
}

/// Raises a mapping's latest reconciled watermark to its latest received one, and returns
/// the latest received one; binds the mapping id.
pub open spec fn reconciled_watermark_dml() -> Seq<char> {
    in_helper_schema("UPDATE "@, ".stream_state\nSET latest_reconciled_resolved_watermark = CASE\n    WHEN latest_received_resolved_watermark IS NULL\n    THEN latest_reconciled_resolved_watermark\n    WHEN latest_reconciled_resolved_watermark IS NULL\n      OR latest_reconciled_resolved_watermark < latest_received_resolved_watermark\n    THEN latest_received_resolved_watermark\n    ELSE latest_reconciled_resolved_watermark\nEND\nWHERE mapping_id = $1\nRETURNING latest_received_resolved_watermark"@)
}

pub fn update_reconciled_watermark_sql() -> (r: String)
    ensures
        r@ == reconciled_watermark_dml(),
{
    helper_schema_sql("UPDATE ", ".stream_state\nSET latest_reconciled_resolved_watermark = CASE\n    WHEN latest_received_resolved_watermark IS NULL\n    THEN latest_reconciled_resolved_watermark\n    WHEN latest_reconciled_resolved_watermark IS NULL\n      OR latest_reconciled_resolved_watermark < latest_received_resolved_watermark\n    THEN latest_received_resolved_watermark\n    ELSE latest_reconciled_resolved_watermark\nEND\nWHERE mapping_id = $1\nRETURNING latest_received_resolved_watermark")
}

/// Marks one table synced now at the bound watermark and clears its last error; binds the
/// mapping id, the table's label and the watermark.
pub open spec fn table_sync_success_dml() -> Seq<char> {
    in_helper_schema("UPDATE "@, ".table_sync_state\nSET last_successful_sync_time = NOW(),\n    last_successful_sync_watermark = $3,\n    last_error = NULL\nWHERE mapping_id = $1\n  AND source_table_name = $2"@)
}

pub fn record_table_sync_success_sql() -> (r: String)
    ensures
        r@ == table_sync_success_dml(),
{
    helper_schema_sql("UPDATE ", ".table_sync_state\nSET last_successful_sync_time = NOW(),\n    last_successful_sync_watermark = $3,\n    last_error = NULL\nWHERE mapping_id = $1\n  AND source_table_name = $2")
}

/// Stores the last error of one table; binds the mapping id, the table's label and the
/// rendered error.
pub open spec fn table_sync_failure_dml() -> Seq<char> {
    in_helper_schema("UPDATE "@, ".table_sync_state\nSET last_error = $3\nWHERE mapping_id = $1\n  AND source_table_name = $2"@)
}

pub fn record_table_sync_failure_sql() -> (r: String)
    ensures
        r@ == table_sync_failure_dml(),
{
    helper_schema_sql("UPDATE ", ".table_sync_state\nSET last_error = $3\nWHERE mapping_id = $1\n  AND source_table_name = $2")
}

/// The schema and the two tracking tables, in the order they are created.
pub fn scaffold_statements() -> (r: Vec<String>)
    ensures
        views(r@) == seq![schema_ddl(), stream_state_ddl(), table_sync_state_ddl()],
{
    let mut r: Vec<String> = Vec::new();
    r.push(create_helper_schema_sql());
    r.push(create_stream_state_sql());
    r.push(create_table_sync_state_sql());
    assert(views(r@) =~= seq![schema_ddl(), stream_state_ddl(), table_sync_state_ddl()]);
    r
}

/// Reads a mapping's latest received and reconciled watermarks; binds the mapping id.
pub open spec fn stream_state_read_dml() -> Seq<char> {
    in_helper_schema("SELECT latest_received_resolved_watermark,\n       latest_reconciled_resolved_watermark\nFROM "@, ".stream_state\nWHERE mapping_id = $1"@)
}

pub fn read_stream_state_sql() -> (r: String)
    ensures
        r@ == stream_state_read_dml(),
{
    helper_schema_sql("SELECT latest_received_resolved_watermark,\n       latest_reconciled_resolved_watermark\nFROM ", ".stream_state\nWHERE mapping_id = $1")
}

/// Reads each table's label, last successful sync watermark and last error; binds the
/// mapping id.
pub open spec fn table_sync_read_dml() -> Seq<char> {
    in_helper_schema("SELECT source_table_name,\n       last_successful_sync_watermark,\n       last_error\nFROM "@, ".table_sync_state\nWHERE mapping_id = $1"@)
}

pub fn read_table_sync_state_sql() -> (r: String)
    ensures
        r@ == table_sync_read_dml(),
{
    helper_schema_sql("SELECT source_table_name,\n       last_successful_sync_watermark,\n       last_error\nFROM ", ".table_sync_state\nWHERE mapping_id = $1")
}

/// Reads whether one table has a reconcile error and when it last synced, in seconds since
/// the epoch; binds the mapping id and the table's label.
pub open spec fn table_metrics_read_dml() -> Seq<char> {
    in_helper_schema("SELECT last_error IS NOT NULL AS has_reconcile_error,\n       EXTRACT(EPOCH FROM last_successful_sync_time)::double precision\n           AS last_success_unixtime_seconds\nFROM "@, ".table_sync_state\nWHERE mapping_id = $1\n  AND source_table_name = $2"@)
}

pub fn read_table_metrics_state_sql() -> (r: String)
    ensures
        r@ == table_metrics_read_dml(),
{
    helper_schema_sql("SELECT last_error IS NOT NULL AS has_reconcile_error,\n       EXTRACT(EPOCH FROM last_successful_sync_time)::double precision\n           AS last_success_unixtime_seconds\nFROM ", ".table_sync_state\nWHERE mapping_id = $1\n  AND source_table_name = $2")
}

/// Counts the rows of `table`, a rendered table name.
pub fn count_rows_sql(table: &str) -> (r: String)
    ensures
        r@ == "SELECT count(*) AS row_count FROM "@ + table@,
{
    let mut r = String::from_str("SELECT count(*) AS row_count FROM ");
    r.append(table);
    r
}

} // verus!
