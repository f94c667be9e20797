//! Where a change-feed request goes: a row batch to one shadow table, a watermark to tracking.
use vstd::prelude::*;

use crate::config::{PostgresTargetConfig, TargetView};
use crate::helper_plan::{HelperShadowTablePlan, HelperTableView};
use crate::runtime_plan::{helper_for, MappingRuntimePlan, MappingRuntimeView};
use crate::schema::{ident_views, table_label};
use crate::text::{decimal, push_decimal};
use crate::webhook_payload::{
    JsonObject, JsonValue, RequestView, RowBatchRequest, RowEvent, RowEventView, RowKey, RowMutation,
    RowOperation, WebhookRequest, request_view, row_event_view,
};

verus! {

/// Why a request could not be routed.
#[derive(Debug)]
pub enum RunnerWebhookRoutingError {
    UnknownMapping { mapping_id: String },
    SourceDatabaseMismatch { mapping_id: String, expected: String, database: String },
    SourceTableNotMapped { mapping_id: String, table: String },
    MixedSourceTables { mapping_id: String, first: String, second: String },
    EmptyRowBatch { mapping_id: String },
    InvalidPrimaryKeyCount { mapping_id: String, table: String, expected: usize, actual: usize },
}

pub enum RoutingErrorView {
    UnknownMapping { mapping_id: Seq<char> },
    SourceDatabaseMismatch { mapping_id: Seq<char>, expected: Seq<char>, database: Seq<char> },
    SourceTableNotMapped { mapping_id: Seq<char>, table: Seq<char> },
    MixedSourceTables { mapping_id: Seq<char>, first: Seq<char>, second: Seq<char> },
    EmptyRowBatch { mapping_id: Seq<char> },
    InvalidPrimaryKeyCount { mapping_id: Seq<char>, table: Seq<char>, expected: nat, actual: nat },
}

impl View for RunnerWebhookRoutingError {
    type V = RoutingErrorView;

    open spec fn view(&self) -> RoutingErrorView {
        match self {
            RunnerWebhookRoutingError::UnknownMapping { mapping_id } =>
                RoutingErrorView::UnknownMapping { mapping_id: mapping_id@ },
            RunnerWebhookRoutingError::SourceDatabaseMismatch { mapping_id, expected, database } =>
                RoutingErrorView::SourceDatabaseMismatch {
                mapping_id: mapping_id@,
                expected: expected@,
                database: database@,
            },
            RunnerWebhookRoutingError::SourceTableNotMapped { mapping_id, table } =>
                RoutingErrorView::SourceTableNotMapped { mapping_id: mapping_id@, table: table@ },
            RunnerWebhookRoutingError::MixedSourceTables { mapping_id, first, second } =>
                RoutingErrorView::MixedSourceTables {
                mapping_id: mapping_id@,
                first: first@,
                second: second@,
            },
            RunnerWebhookRoutingError::EmptyRowBatch { mapping_id } =>
                RoutingErrorView::EmptyRowBatch { mapping_id: mapping_id@ },
            RunnerWebhookRoutingError::InvalidPrimaryKeyCount { mapping_id, table, expected, actual } =>
                RoutingErrorView::InvalidPrimaryKeyCount {
                mapping_id: mapping_id@,
                table: table@,
                expected: *expected as nat,
                actual: *actual as nat,
            },
        }
    }
}

/// The shadow table of the rows read so far (none before the first row); the first row from
/// another database, from an unmapped table, or from a second table is an error.
pub open spec fn batch_table(m: MappingRuntimeView, rows: Seq<RowEventView>) -> Result<
    Option<HelperTableView>,
    RoutingErrorView,
>
    decreases rows.len(),
{
    if rows.len() == 0 {
        Ok(None)
    } else {
        match batch_table(m, rows.drop_last()) {
            Err(e) => Err(e),
            Ok(sel) => {
                let r = rows.last();
                if r.database_name != m.source_database {
                    Err(
                        RoutingErrorView::SourceDatabaseMismatch {
                            mapping_id: m.mapping_id,
                            expected: m.source_database,
                            database: r.database_name,
                        },
                    )
                } else {
                    match helper_for(m.helper_tables, r.table) {
                        None => Err(
                            RoutingErrorView::SourceTableNotMapped {
                                mapping_id: m.mapping_id,
                                table: table_label(r.table),
                            },
                        ),
                        Some(h) => match sel {
                            Some(e) => if e.source_table != r.table {
                                Err(
                                    RoutingErrorView::MixedSourceTables {
                                        mapping_id: m.mapping_id,
                                        first: table_label(e.source_table),
                                        second: table_label(r.table),
                                    },
                                )
                            } else {
                                Ok(Some(e))
                            },
                            None => Ok(Some(h)),
                        },
                    }
                }
            },
        }
    }
}

/// A positional key whose length does not match the table's primary key.
pub open spec fn key_count_error(m: MappingRuntimeView, t: HelperTableView, key: RowKey) -> Option<
    RoutingErrorView,
> {
    match key {
        RowKey::Named(_) => None,
        RowKey::Positional(vals) => if vals@.len() != t.primary_key_columns.len() {
            Some(
                RoutingErrorView::InvalidPrimaryKeyCount {
                    mapping_id: m.mapping_id,
                    table: table_label(t.source_table),
                    expected: t.primary_key_columns.len(),
                    actual: vals@.len(),
                },
            )
        } else {
            None
        },
    }
}

/// The first key of the rows that cannot be named by the table's primary key.
pub open spec fn first_key_error(m: MappingRuntimeView, t: HelperTableView, rows: Seq<RowEventView>) -> Option<
    RoutingErrorView,
>
    decreases rows.len(),
{
    if rows.len() == 0 {
        None
    } else {
        match first_key_error(m, t, rows.drop_last()) {
            Some(e) => Some(e),
            None => key_count_error(m, t, rows.last().key),
        }
    }
}

/// What routing a row batch gives: the batch's one shadow table, or the first error.
pub open spec fn batch_outcome(m: MappingRuntimeView, rows: Seq<RowEventView>) -> Result<
    HelperTableView,
    RoutingErrorView,
> {
    match batch_table(m, rows) {
        Err(e) => Err(e),
        Ok(None) => Err(RoutingErrorView::EmptyRowBatch { mapping_id: m.mapping_id }),
        Ok(Some(t)) => match first_key_error(m, t, rows) {
            Some(e) => Err(e),
            None => Ok(t),
        },
    }
}

/// `o` names, in primary-key order, each primary-key column with the given value.
pub open spec fn named_key(o: JsonObject, pk: Seq<Seq<char>>, vals: Seq<JsonValue>) -> bool {
    &&& o.entries@.len() == pk.len()
    &&& vals.len() == pk.len()
    &&& forall|i: int| 0 <= i < pk.len() ==> (#[trigger] o.entries@[i]).0@ == pk[i] && o.entries@[i].1 == vals[i]
}

/// A routed row: the same operation and values, its key named by column.
pub open spec fn normalized(out: RowMutation, input: RowEventView, t: HelperTableView) -> bool {
    &&& out.operation_spec() == input.operation
    &&& out.values_spec() == input.values
    &&& match input.key {
        RowKey::Named(o) => out.key_spec() == RowKey::Named(o),
        RowKey::Positional(vals) => out.key_spec() matches RowKey::Named(o) && named_key(
            o,
            t.primary_key_columns,
            vals@,
        ),
    }
}

/// The rows of a batch, bound for one shadow table.
pub struct RowMutationBatch {
    pub mapping_id: String,
    pub destination: PostgresTargetConfig,
    pub table: HelperShadowTablePlan,
    pub rows: Vec<RowMutation>,
}

/// The watermark of a mapping, bound for its tracking state.
pub struct ResolvedTrackingTarget {
    pub mapping_id: String,
    pub destination: PostgresTargetConfig,
    pub resolved_watermark: String,
}

/// Where a request goes.
pub enum DispatchTarget {
    RowBatch(RowMutationBatch),
    Resolved(ResolvedTrackingTarget),
}

/// A positional key, named by the table's primary-key columns.
fn name_key(t: &HelperShadowTablePlan, vals: Vec<JsonValue>) -> (r: JsonObject)
    requires
        vals@.len() == t@.primary_key_columns.len(),
    ensures
        named_key(r, t@.primary_key_columns, vals@),
{
    let pk = t.primary_key_columns();
    let ghost vv = vals@;
    let mut vals = vals;
    let mut entries: Vec<(String, JsonValue)> = Vec::new();
    let mut i: usize = 0;
    assert(vv.skip(0) =~= vv);
    while i < pk.len()
        invariant
            i <= pk.len(),
            vv.len() == pk.len(),
            ident_views(pk@) == t@.primary_key_columns,
            vals@ == vv.skip(i as int),
            entries@.len() == i,
            forall|k: int| 0 <= k < i ==> (#[trigger] entries@[k]).0@ == ident_views(pk@)[k] && entries@[k].1 == vv[k],
        decreases pk.len() - i,
    {
        let v = vals.remove(0);
        assert(v == vv[i as int]);
        assert(vals@ =~= vv.skip(i + 1));
        entries.push((String::from_str(pk[i].raw()), v));
        i += 1;
    }
    JsonObject { entries }
}

/// Routes a row: the key named by column when it was positional.
fn normalize_row_mutation(
    mapping: &MappingRuntimePlan,
    table: &HelperShadowTablePlan,
    event: RowEvent,
) -> (r: Result<RowMutation, RunnerWebhookRoutingError>)
    ensures
        match key_count_error(mapping@, table@, row_event_view(event).key) {
            Some(e) => r matches Err(x) && x@ == e,
            None => r matches Ok(m) && normalized(m, row_event_view(event), table@),
        },
{
    let ghost ev = row_event_view(event);
    let (operation, key, values) = event.into_mutation().into_raw_parts();
    let key = match key {
        RowKey::Named(o) => RowKey::Named(o),
        RowKey::Positional(vals) => {
            if vals.len() != table.primary_key_columns().len() {
                return Err(
                    RunnerWebhookRoutingError::InvalidPrimaryKeyCount {
                        mapping_id: String::from_str(mapping.mapping_id()),
                        table: table.source_table().label(),
                        expected: table.primary_key_columns().len(),
                        actual: vals.len(),
                    },
                );
            }
            RowKey::Named(name_key(table, vals))
        },
    };
    Ok(RowMutation::from_parts(operation, key, values))
}

pub proof fn lemma_batch_table_err(m: MappingRuntimeView, rows: Seq<RowEventView>, k: int)
    requires
        0 <= k <= rows.len(),
        batch_table(m, rows.take(k)) is Err,
    ensures
        batch_table(m, rows) == batch_table(m, rows.take(k)),
    decreases rows.len() - k,
{
    if k < rows.len() {
        assert(rows.take(k + 1).drop_last() == rows.take(k));
        lemma_batch_table_err(m, rows, k + 1);
    } else {
        assert(rows.take(k) == rows);
    }
}

pub proof fn lemma_first_key_error_some(m: MappingRuntimeView, t: HelperTableView, rows: Seq<RowEventView>, k: int)
    requires
        0 <= k <= rows.len(),
        first_key_error(m, t, rows.take(k)) is Some,
    ensures
        first_key_error(m, t, rows) == first_key_error(m, t, rows.take(k)),
    decreases rows.len() - k,
{
    if k < rows.len() {
        assert(rows.take(k + 1).drop_last() == rows.take(k));
        lemma_first_key_error_some(m, t, rows, k + 1);
    } else {
        assert(rows.take(k) == rows);
    }
}

pub open spec fn event_views(v: Seq<RowEvent>) -> Seq<RowEventView> {
    v.map_values(|e: RowEvent| row_event_view(e))
}

/// Routes a row batch: all rows must come from the mapping's source database and one mapped
/// table; positional keys are named by that table's primary key.
pub fn route_row_batch(mapping: &MappingRuntimePlan, batch: RowBatchRequest) -> (r: Result<
    RowMutationBatch,
    RunnerWebhookRoutingError,
>)
    ensures
        match batch_outcome(mapping@, event_views(batch.rows_spec())) {
            Err(e) => r matches Err(x) && x@ == e,
            Ok(t) => r matches Ok(b) && b.mapping_id@ == mapping@.mapping_id && b.destination@
                == mapping@.destination && b.table@ == t && b.rows@.len()
                == batch.rows_spec().len() && forall|i: int|
                0 <= i < b.rows@.len() ==> normalized(
                    #[trigger] b.rows@[i],
                    event_views(batch.rows_spec())[i],
                    t,
                ),
        },
{
    let ghost rows_v = event_views(batch.rows_spec());
    let mut selected: Option<&HelperShadowTablePlan> = None;
    let rows = batch.rows();
    let mut i: usize = 0;
    assert(rows_v.take(0) =~= seq![]);
    while i < rows.len()
        invariant
            i <= rows.len(),
            rows@ == batch.rows_spec(),
            rows_v == event_views(batch.rows_spec()),
            batch_table(mapping@, rows_v.take(i as int)) == Ok::<Option<HelperTableView>, RoutingErrorView>(
                match selected {
                    Some(t) => Some(t@),
                    None => None,
                },
            ),
        decreases rows.len() - i,
    {
        let row = &rows[i];
        assert(rows_v[i as int] == row_event_view(*row));
        assert(rows_v.take(i + 1).drop_last() == rows_v.take(i as int));
        assert(rows_v.take(i + 1).last() == rows_v[i as int]);
        let source = row.source();
        if !crate::text::str_eq(source.database_name(), mapping.source_database()) {
            proof {
                lemma_batch_table_err(mapping@, rows_v, i + 1);
            }
            return Err(
                RunnerWebhookRoutingError::SourceDatabaseMismatch {
                    mapping_id: String::from_str(mapping.mapping_id()),
                    expected: String::from_str(mapping.source_database()),
                    database: String::from_str(source.database_name()),
                },
            );
        }
        let table = source.source_table();
        let helper = match mapping.helper_table(table) {
            Some(h) => h,
            None => {
                proof {
                    lemma_batch_table_err(mapping@, rows_v, i + 1);
                }
                return Err(
                    RunnerWebhookRoutingError::SourceTableNotMapped {
                        mapping_id: String::from_str(mapping.mapping_id()),
                        table: table.label(),
                    },
                );
            },
        };
        match selected {
            Some(existing) => {
                if !existing.source_table().same(table) {
                    proof {
                        lemma_batch_table_err(mapping@, rows_v, i + 1);
                    }
                    return Err(
                        RunnerWebhookRoutingError::MixedSourceTables {
                            mapping_id: String::from_str(mapping.mapping_id()),
                            first: existing.source_table().label(),
                            second: table.label(),
                        },
                    );
                }
            },
            None => {
                selected = Some(helper);
            },
        }
        i += 1;
    }
    assert(rows_v.take(rows.len() as int) == rows_v);
    let table = match selected {
        Some(t) => t.clone(),
        None => {
            return Err(RunnerWebhookRoutingError::EmptyRowBatch { mapping_id: String::from_str(mapping.mapping_id()) });
        },
    };
    let n = rows.len();
    let mut events = batch.into_rows();
    let mut out: Vec<RowMutation> = Vec::new();
    let mut k: usize = 0;
    assert(rows_v.take(0) =~= seq![]);
    assert(rows_v.skip(0) =~= rows_v);
    while k < n
        invariant
            k <= n,
            n == rows_v.len(),
            rows_v == event_views(batch.rows_spec()),
            event_views(events@) == rows_v.skip(k as int),
            first_key_error(mapping@, table@, rows_v.take(k as int)) is None,
            out@.len() == k,
            forall|q: int| 0 <= q < k ==> normalized(#[trigger] out@[q], rows_v[q], table@),
            batch_table(mapping@, rows_v) == Ok::<Option<HelperTableView>, RoutingErrorView>(Some(table@)),
        decreases n - k,
    {
        let ghost before = events@;
        assert(event_views(before).len() == before.len());
        assert(event_views(before)[0] == rows_v.skip(k as int)[0]);
        let ev = events.remove(0);
        assert(ev == before[0]);
        assert(row_event_view(ev) == rows_v[k as int]);
        assert(events@ == before.drop_first());
        assert forall|q: int| 0 <= q < events@.len() implies #[trigger] event_views(events@)[q] == rows_v.skip(k + 1)[q] by {
            assert(events@[q] == before[q + 1]);
            assert(event_views(before)[q + 1] == rows_v.skip(k as int)[q + 1]);
        }
        assert(event_views(events@) =~= rows_v.skip(k + 1));
        assert(rows_v.take(k + 1).drop_last() == rows_v.take(k as int));
        assert(rows_v.take(k + 1).last() == rows_v[k as int]);
        match normalize_row_mutation(mapping, &table, ev) {
            Ok(m) => {
                out.push(m);
            },
            Err(e) => {
                proof {
                    assert(first_key_error(mapping@, table@, rows_v.take(k + 1)) == Some(e@));
                    lemma_first_key_error_some(mapping@, table@, rows_v, k + 1);
                }
                return Err(e);
            },
        }
        k += 1;
    }
    assert(rows_v.take(n as int) == rows_v);
    Ok(
        RowMutationBatch {
            mapping_id: String::from_str(mapping.mapping_id()),
            destination: mapping.destination().clone(),
            table,
            rows: out,
        },
    )
}

/// Routes a request: a watermark to the mapping's tracking state, a row batch to its table.
pub fn route_request(mapping: &MappingRuntimePlan, request: WebhookRequest) -> (r: Result<
    DispatchTarget,
    RunnerWebhookRoutingError,
>)
    ensures
        match request_view(request) {
            RequestView::Resolved(w) => r matches Ok(DispatchTarget::Resolved(t)) && t.mapping_id@
                == mapping@.mapping_id && t.destination@ == mapping@.destination
                && t.resolved_watermark@ == w,
            RequestView::RowBatch(rows) => match batch_outcome(mapping@, rows) {
                Err(e) => r matches Err(x) && x@ == e,
                Ok(t) => r matches Ok(DispatchTarget::RowBatch(b)) && b.table@ == t && b.rows@.len()
                    == rows.len(),
            },
        },
{
    match request {
        WebhookRequest::Resolved(resolved) => Ok(
            DispatchTarget::Resolved(
                ResolvedTrackingTarget {
                    mapping_id: String::from_str(mapping.mapping_id()),
                    destination: mapping.destination().clone(),
                    resolved_watermark: String::from_str(resolved.resolved()),
                },
            ),
        ),
        WebhookRequest::RowBatch(batch) => {
            proof {
                assert(event_views(batch.rows_spec()) =~= batch.rows_spec().map_values(
                    |e: RowEvent| row_event_view(e),
                ));
            }
            match route_row_batch(mapping, batch) {
                Ok(b) => Ok(DispatchTarget::RowBatch(b)),
                Err(e) => Err(e),
            }
        },
    }
}

proof fn lemma_helper_for_table(tables: Seq<HelperTableView>, name: crate::reconcile_order::TableKey)
    requires
        helper_for(tables, name) is Some,
    ensures
        helper_for(tables, name)->0.source_table == name,
    decreases tables.len(),
{
    if tables.last().source_table != name {
        lemma_helper_for_table(tables.drop_last(), name);
    }
}

/// A routed batch holds rows of one table only, all from the mapping's source database, and
/// goes to that table's shadow table.
pub proof fn lemma_routed_batch_is_one_table(m: MappingRuntimeView, rows: Seq<RowEventView>)
    requires
        batch_outcome(m, rows) is Ok,
    ensures
        rows.len() > 0,
        forall|i: int|
            0 <= i < rows.len() ==> (#[trigger] rows[i]).table == batch_outcome(m, rows)->Ok_0.source_table
                && rows[i].database_name == m.source_database,
{
    lemma_batch_table_facts(m, rows);
}

proof fn lemma_batch_table_facts(m: MappingRuntimeView, rows: Seq<RowEventView>)
    requires
        batch_table(m, rows) is Ok,
    ensures
        batch_table(m, rows) matches Ok(None) ==> rows.len() == 0,
        batch_table(m, rows) matches Ok(Some(t)) ==> rows.len() > 0 && forall|i: int|
            0 <= i < rows.len() ==> (#[trigger] rows[i]).table == t.source_table
                && rows[i].database_name == m.source_database,
    decreases rows.len(),
{
    if rows.len() > 0 {
        let prev = batch_table(m, rows.drop_last());
        lemma_batch_table_facts(m, rows.drop_last());
        let r = rows.last();
        let h = helper_for(m.helper_tables, r.table);
        if h is Some {
            lemma_helper_for_table(m.helper_tables, r.table);
        }
        if let Ok(Some(t)) = batch_table(m, rows) {
            assert forall|i: int| 0 <= i < rows.len() implies (#[trigger] rows[i]).table == t.source_table
                && rows[i].database_name == m.source_database by {
                if i < rows.len() - 1 {
                    assert(rows[i] == rows.drop_last()[i]);
                }
            }
        }
    }
}

/// The message of a routing error.
pub open spec fn routing_error_text(e: RoutingErrorView) -> Seq<char> {
    match e {
        RoutingErrorView::UnknownMapping { mapping_id } => "unknown mapping `"@ + mapping_id + "`"@,
        RoutingErrorView::SourceDatabaseMismatch { mapping_id, expected, database } => "mapping `"@
            + mapping_id + "` expects source database `"@ + expected + "` but received `"@ + database + "`"@,
        RoutingErrorView::SourceTableNotMapped { mapping_id, table } => "mapping `"@ + mapping_id
            + "` does not map source table `"@ + table + "`"@,
        RoutingErrorView::MixedSourceTables { mapping_id, first, second } => "row batch for mapping `"@
            + mapping_id + "` mixes source tables `"@ + first + "` and `"@ + second + "`"@,
        RoutingErrorView::EmptyRowBatch { mapping_id } => "row batch for mapping `"@ + mapping_id
            + "` is empty"@,
        RoutingErrorView::InvalidPrimaryKeyCount { mapping_id, table, expected, actual } => "mapping `"@
            + mapping_id + "` table `"@ + table + "` expects "@ + decimal(expected) + " primary-key values but received "@
            + decimal(actual),
    }
}

impl RunnerWebhookRoutingError {
    /// The error's message.
    pub fn render(&self) -> (r: String)
        ensures
            r@ == routing_error_text(self@),
    {
        match self {
            RunnerWebhookRoutingError::UnknownMapping { mapping_id } => {
                let mut s = String::from_str("unknown mapping `");
                s.append(mapping_id.as_str());
                s.append("`");
                s
            },
            RunnerWebhookRoutingError::SourceDatabaseMismatch { mapping_id, expected, database } => {
                let mut s = String::from_str("mapping `");
                s.append(mapping_id.as_str());
                s.append("` expects source database `");
                s.append(expected.as_str());
                s.append("` but received `");
                s.append(database.as_str());
                s.append("`");
                s
            },
            RunnerWebhookRoutingError::SourceTableNotMapped { mapping_id, table } => {
                let mut s = String::from_str("mapping `");
                s.append(mapping_id.as_str());
                s.append("` does not map source table `");
                s.append(table.as_str());
                s.append("`");
                s
            },
            RunnerWebhookRoutingError::MixedSourceTables { mapping_id, first, second } => {
                let mut s = String::from_str("row batch for mapping `");
                s.append(mapping_id.as_str());
                s.append("` mixes source tables `");
                s.append(first.as_str());
                s.append("` and `");
                s.append(second.as_str());
                s.append("`");
                s
            },
            RunnerWebhookRoutingError::EmptyRowBatch { mapping_id } => {
                let mut s = String::from_str("row batch for mapping `");
                s.append(mapping_id.as_str());
                s.append("` is empty");
                s
            },
            RunnerWebhookRoutingError::InvalidPrimaryKeyCount { mapping_id, table, expected, actual } => {
                let mut s = String::from_str("mapping `");
                s.append(mapping_id.as_str());
                s.append("` table `");
                s.append(table.as_str());
                s.append("` expects ");
                push_decimal(&mut s, *expected as u64);
                s.append(" primary-key values but received ");
                push_decimal(&mut s, *actual as u64);
                s
            },
        }
    }
}

} // verus!
