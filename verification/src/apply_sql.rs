//! The statements that move rows into a shadow table and from there into the real table.
use vstd::prelude::*;

use crate::helper_plan::{
    helper_column_views, helper_table_sql, render_helper_table_name, HelperColumnPlan,
    HelperShadowTablePlan, HelperTableView,
};
use crate::schema::{ident_views, quote_ident, table_quoted, ColumnView, SqlIdentifier};
use crate::text::{join, join_strings, views};
use crate::validated::ReconcileApplyFailure;
use crate::webhook_payload::{JsonObject, RowKey, RowMutation, RowOperation};

verus! {

/// How one column is written in a column list.
#[derive(Clone, Copy, PartialEq, Eq, Structural)]
pub enum ColumnItem {
    /// `"c"`
    Name,
    /// `row_data."c"`
    RowData,
    /// `helper."c"`
    Helper,
    /// `"c" = EXCLUDED."c"`
    Assignment,
}

/// Which columns a column list holds.
#[derive(Clone, Copy, PartialEq, Eq, Structural)]
pub enum ColumnChoice {
    All,
    /// the columns that are not generated
    Writable,
    /// the columns that are neither generated nor part of the primary key
    Updatable,
}

pub open spec fn column_item(kind: ColumnItem, name: Seq<char>) -> Seq<char> {
    match kind {
        ColumnItem::Name => quote_ident(name),
        ColumnItem::RowData => "row_data."@ + quote_ident(name),
        ColumnItem::Helper => "helper."@ + quote_ident(name),
        ColumnItem::Assignment => quote_ident(name) + " = EXCLUDED."@ + quote_ident(name),
    }
}

pub open spec fn column_chosen(choice: ColumnChoice, c: ColumnView, pk: Seq<Seq<char>>) -> bool {
    match choice {
        ColumnChoice::All => true,
        ColumnChoice::Writable => !c.generated,
        ColumnChoice::Updatable => !c.generated && !pk.contains(c.name),
    }
}

/// The chosen columns, each written as `kind` says, in column order.
pub open spec fn column_items(
    cols: Seq<ColumnView>,
    pk: Seq<Seq<char>>,
    kind: ColumnItem,
    choice: ColumnChoice,
) -> Seq<Seq<char>>
    decreases cols.len(),
{
    if cols.len() == 0 {
        seq![]
    } else {
        let rest = column_items(cols.drop_last(), pk, kind, choice);
        if column_chosen(choice, cols.last(), pk) {
            rest.push(column_item(kind, cols.last().name))
        } else {
            rest
        }
    }
}

/// How one primary-key column is written.
#[derive(Clone, Copy, PartialEq, Eq, Structural)]
pub enum KeyItem {
    /// `"c"`
    Name,
    /// `target."c" IS NOT DISTINCT FROM key_data."c"`
    KeyDataMatch,
    /// `helper."c" IS NOT DISTINCT FROM target."c"`
    HelperMatch,
}

pub open spec fn key_item(kind: KeyItem, name: Seq<char>) -> Seq<char> {
    match kind {
        KeyItem::Name => quote_ident(name),
        KeyItem::KeyDataMatch => "target."@ + quote_ident(name) + " IS NOT DISTINCT FROM key_data."@
            + quote_ident(name),
        KeyItem::HelperMatch => "helper."@ + quote_ident(name) + " IS NOT DISTINCT FROM target."@
            + quote_ident(name),
    }
}

pub open spec fn key_items(pk: Seq<Seq<char>>, kind: KeyItem) -> Seq<Seq<char>> {
    pk.map_values(|c: Seq<char>| key_item(kind, c))
}

/// Upsert of one change-feed row (bound as `$1`, JSON) into the shadow table.
pub open spec fn webhook_upsert_sql(t: HelperTableView) -> Seq<char> {
    let helper = helper_table_sql(t.helper_table_name);
    let head = "INSERT INTO "@ + helper + " ("@ + join(
        column_items(t.columns, t.primary_key_columns, ColumnItem::Name, ColumnChoice::All),
        ", "@,
    ) + ") SELECT "@ + join(
        column_items(t.columns, t.primary_key_columns, ColumnItem::RowData, ColumnChoice::All),
        ", "@,
    ) + " FROM jsonb_populate_record(NULL::"@ + helper + ", $1::jsonb) AS row_data"@;
    if t.primary_key_columns.len() == 0 {
        head
    } else {
        head + " ON CONFLICT ("@ + join(key_items(t.primary_key_columns, KeyItem::Name), ", "@)
            + ") DO UPDATE SET "@ + join(
            column_items(t.columns, t.primary_key_columns, ColumnItem::Assignment, ColumnChoice::All),
            ", "@,
        )
    }
}

/// Delete of one change-feed key (bound as `$1`, JSON) from the shadow table.
pub open spec fn webhook_delete_sql(t: HelperTableView) -> Seq<char> {
    let helper = helper_table_sql(t.helper_table_name);
    "DELETE FROM "@ + helper + " AS target USING jsonb_populate_record(NULL::"@ + helper
        + ", $1::jsonb) AS key_data WHERE "@ + join(
        key_items(t.primary_key_columns, KeyItem::KeyDataMatch),
        " AND "@,
    )
}

/// Copy of the shadow table's rows into the real table, updating rows that are there.
pub open spec fn reconcile_upsert_sql(t: HelperTableView) -> Seq<char> {
    let helper = helper_table_sql(t.helper_table_name);
    let updates = column_items(
        t.columns,
        t.primary_key_columns,
        ColumnItem::Assignment,
        ColumnChoice::Updatable,
    );
    "INSERT INTO "@ + table_quoted(t.source_table) + " ("@ + join(
        column_items(t.columns, t.primary_key_columns, ColumnItem::Name, ColumnChoice::Writable),
        ", "@,
    ) + ") SELECT "@ + join(
        column_items(t.columns, t.primary_key_columns, ColumnItem::Helper, ColumnChoice::Writable),
        ", "@,
    ) + " FROM "@ + helper + " AS helper ON CONFLICT ("@ + join(
        key_items(t.primary_key_columns, KeyItem::Name),
        ", "@,
    ) + ") "@ + if updates.len() == 0 {
        "DO NOTHING"@
    } else {
        "DO UPDATE SET "@ + join(updates, ", "@)
    }
}

/// Removal from the real table of the rows that the shadow table no longer holds.
pub open spec fn reconcile_delete_sql(t: HelperTableView) -> Seq<char> {
    "DELETE FROM "@ + table_quoted(t.source_table)
        + " AS target WHERE NOT EXISTS (SELECT 1 FROM "@ + helper_table_sql(t.helper_table_name)
        + " AS helper WHERE "@ + join(key_items(t.primary_key_columns, KeyItem::HelperMatch), " AND "@)
        + ")"@
}

fn contains_ident(v: &Vec<SqlIdentifier>, x: &SqlIdentifier) -> (r: bool)
    ensures
        r == ident_views(v@).contains(x@),
{
    let mut i: usize = 0;
    while i < v.len()
        invariant
            i <= v.len(),
            forall|k: int| 0 <= k < i ==> ident_views(v@)[k] != x@,
        decreases v.len() - i,
    {
        if v[i].same(x) {
            assert(ident_views(v@)[i as int] == x@);
            return true;
        }
        i += 1;
    }
    false
}

fn render_column_item(kind: ColumnItem, name: &SqlIdentifier) -> (r: String)
    ensures
        r@ == column_item(kind, name@),
{
    let q = name.quoted();
    match kind {
        ColumnItem::Name => q,
        ColumnItem::RowData => {
            let mut s = String::from_str("row_data.");
            s.append(q.as_str());
            s
        },
        ColumnItem::Helper => {
            let mut s = String::from_str("helper.");
            s.append(q.as_str());
            s
        },
        ColumnItem::Assignment => {
            let mut s = q.clone();
            s.append(" = EXCLUDED.");
            s.append(q.as_str());
            s
        },
    }
}

/// The column list that `kind` and `choice` describe.
pub fn render_column_items(
    cols: &Vec<HelperColumnPlan>,
    pk: &Vec<SqlIdentifier>,
    kind: ColumnItem,
    choice: ColumnChoice,
) -> (r: Vec<String>)
    ensures
        views(r@) == column_items(helper_column_views(cols@), ident_views(pk@), kind, choice),
{
    let ghost cv = helper_column_views(cols@);
    let ghost pv = ident_views(pk@);
    let mut r: Vec<String> = Vec::new();
    let mut i: usize = 0;
    assert(cv.take(0) =~= seq![]);
    while i < cols.len()
        invariant
            i <= cols.len(),
            cv == helper_column_views(cols@),
            pv == ident_views(pk@),
            views(r@) == column_items(cv.take(i as int), pv, kind, choice),
        decreases cols.len() - i,
    {
        let c = &cols[i];
        assert(cv.take(i + 1).drop_last() == cv.take(i as int));
        assert(cv.take(i + 1).last() == cv[i as int]);
        assert(cv[i as int] == cols@[i as int]@);
        let chosen = match choice {
            ColumnChoice::All => true,
            ColumnChoice::Writable => !c.generated(),
            ColumnChoice::Updatable => !c.generated() && !contains_ident(pk, c.name()),
        };
        if chosen {
            let ghost prev = r@;
            r.push(render_column_item(kind, c.name()));
            assert(views(r@) =~= views(prev).push(column_item(kind, cv[i as int].name)));
        }
        i += 1;
    }
    assert(cv.take(cols.len() as int) == cv);
    r
}

fn render_key_item(kind: KeyItem, name: &SqlIdentifier) -> (r: String)
    ensures
        r@ == key_item(kind, name@),
{
    let q = name.quoted();
    match kind {
        KeyItem::Name => q,
        KeyItem::KeyDataMatch => {
            let mut s = String::from_str("target.");
            s.append(q.as_str());
            s.append(" IS NOT DISTINCT FROM key_data.");
            s.append(q.as_str());
            s
        },
        KeyItem::HelperMatch => {
            let mut s = String::from_str("helper.");
            s.append(q.as_str());
            s.append(" IS NOT DISTINCT FROM target.");
            s.append(q.as_str());
            s
        },
    }
}

/// The primary-key list that `kind` describes.
pub fn render_key_items(pk: &Vec<SqlIdentifier>, kind: KeyItem) -> (r: Vec<String>)
    ensures
        views(r@) == key_items(ident_views(pk@), kind),
{
    let ghost pv = ident_views(pk@);
    let mut r: Vec<String> = Vec::new();
    let mut i: usize = 0;
    while i < pk.len()
        invariant
            i <= pk.len(),
            r@.len() == i,
            pv == ident_views(pk@),
            views(r@) == key_items(pv, kind).take(i as int),
        decreases pk.len() - i,
    {
        let ghost prev = r@;
        r.push(render_key_item(kind, &pk[i]));
        assert forall|k: int| 0 <= k < i + 1 implies #[trigger] views(r@)[k] == key_items(pv, kind).take(i + 1)[k] by {
            if k < i {
                assert(r@[k] == prev[k]);
                assert(views(prev)[k] == key_items(pv, kind).take(i as int)[k]);
            }
        }
        assert(views(r@) =~= key_items(pv, kind).take(i + 1));
        i += 1;
    }
    assert(key_items(pv, kind).take(pk.len() as int) == key_items(pv, kind));
    r
}

impl HelperShadowTablePlan {
    /// The upsert of one change-feed row into this shadow table.
    pub fn webhook_upsert_sql(&self) -> (r: String)
        ensures
            r@ == webhook_upsert_sql(self@),
    {
        let helper = render_helper_table_name(self.helper_table_name());
        let cols = self.columns();
        let pk = self.primary_key_columns();
        let mut s = String::from_str("INSERT INTO ");
        s.append(helper.as_str());
        s.append(" (");
        s.append(join_strings(&render_column_items(cols, pk, ColumnItem::Name, ColumnChoice::All), ", ").as_str());
        s.append(") SELECT ");
        s.append(join_strings(&render_column_items(cols, pk, ColumnItem::RowData, ColumnChoice::All), ", ").as_str());
        s.append(" FROM jsonb_populate_record(NULL::");
        s.append(helper.as_str());
        s.append(", $1::jsonb) AS row_data");
        if pk.len() == 0 {
            return s;
        }
        s.append(" ON CONFLICT (");
        s.append(join_strings(&render_key_items(pk, KeyItem::Name), ", ").as_str());
        s.append(") DO UPDATE SET ");
        s.append(join_strings(&render_column_items(cols, pk, ColumnItem::Assignment, ColumnChoice::All), ", ").as_str());
        s
    }

    /// The delete of one change-feed key from this shadow table.
    pub fn webhook_delete_sql(&self) -> (r: String)
        ensures
            r@ == webhook_delete_sql(self@),
    {
        let helper = render_helper_table_name(self.helper_table_name());
        let mut s = String::from_str("DELETE FROM ");
        s.append(helper.as_str());
        s.append(" AS target USING jsonb_populate_record(NULL::");
        s.append(helper.as_str());
        s.append(", $1::jsonb) AS key_data WHERE ");
        s.append(join_strings(&render_key_items(self.primary_key_columns(), KeyItem::KeyDataMatch), " AND ").as_str());
        s
    }

    /// The copy of this shadow table's rows into the real table.
    pub fn reconcile_upsert_sql(&self) -> (r: String)
        ensures
            r@ == reconcile_upsert_sql(self@),
    {
        let helper = render_helper_table_name(self.helper_table_name());
        let cols = self.columns();
        let pk = self.primary_key_columns();
        let updates = render_column_items(cols, pk, ColumnItem::Assignment, ColumnChoice::Updatable);
        let mut s = String::from_str("INSERT INTO ");
        s.append(self.source_table().quoted().as_str());
        s.append(" (");
        s.append(join_strings(&render_column_items(cols, pk, ColumnItem::Name, ColumnChoice::Writable), ", ").as_str());
        s.append(") SELECT ");
        s.append(join_strings(&render_column_items(cols, pk, ColumnItem::Helper, ColumnChoice::Writable), ", ").as_str());
        s.append(" FROM ");
        s.append(helper.as_str());
        s.append(" AS helper ON CONFLICT (");
        s.append(join_strings(&render_key_items(pk, KeyItem::Name), ", ").as_str());
        s.append(") ");
        if updates.len() == 0 {
            s.append("DO NOTHING");
        } else {
            s.append("DO UPDATE SET ");
            s.append(join_strings(&updates, ", ").as_str());
        }
        s
    }

    /// The removal from the real table of rows the shadow table no longer holds.
    pub fn reconcile_delete_sql(&self) -> (r: String)
        ensures
            r@ == reconcile_delete_sql(self@),
    {
        let mut s = String::from_str("DELETE FROM ");
        s.append(self.source_table().quoted().as_str());
        s.append(" AS target WHERE NOT EXISTS (SELECT 1 FROM ");
        s.append(render_helper_table_name(self.helper_table_name()).as_str());
        s.append(" AS helper WHERE ");
        s.append(join_strings(&render_key_items(self.primary_key_columns(), KeyItem::HelperMatch), " AND ").as_str());
        s.append(")");
        s
    }
}

/// Why the rows or the watermark of a change-feed request could not be stored.
#[derive(Debug)]
pub enum RunnerWebhookPersistenceError {
    Connect { mapping_id: String, endpoint: String, message: String },
    BeginTransaction { mapping_id: String, database: String, message: String },
    MissingValues { mapping_id: String, helper_table: String },
    MissingPrimaryKey { mapping_id: String, helper_table: String },
    ApplyMutation { mapping_id: String, helper_table: String, message: String },
    Commit { mapping_id: String, database: String, message: String },
    UpdateTrackingState { mapping_id: String, database: String, message: String },
    MissingTrackingState { mapping_id: String, database: String },
}

/// The statement for one routed row, and the JSON object bound as `$1`: the row's values for
/// an upsert, its key for a delete.
pub fn webhook_row_statement(
    mapping_id: &str,
    table: &HelperShadowTablePlan,
    row: RowMutation,
) -> (r: Result<(String, JsonObject), RunnerWebhookPersistenceError>)
    requires
        row.key_spec() is Named,
    ensures
        match row.operation_spec() {
            RowOperation::Upsert => match row.values_spec() {
                Some(v) => r matches Ok(p) && p.0@ == webhook_upsert_sql(table@) && p.1 == v,
                None => r matches Err(RunnerWebhookPersistenceError::MissingValues {
                    mapping_id: m,
                    helper_table: h,
                }) && m@ == mapping_id@ && h@ == table@.helper_table_name,
            },
            RowOperation::Delete => if table@.primary_key_columns.len() == 0 {
                r matches Err(RunnerWebhookPersistenceError::MissingPrimaryKey {
                    mapping_id: m,
                    helper_table: h,
                }) && m@ == mapping_id@ && h@ == table@.helper_table_name
            } else {
                r matches Ok(p) && p.0@ == webhook_delete_sql(table@) && RowKey::Named(p.1)
                    == row.key_spec()
            },
        },
{
    let (operation, key, values) = row.into_raw_parts();
    match operation {
        RowOperation::Upsert => match values {
            Some(v) => Ok((table.webhook_upsert_sql(), v)),
            None => Err(
                RunnerWebhookPersistenceError::MissingValues {
                    mapping_id: String::from_str(mapping_id),
                    helper_table: String::from_str(table.helper_table_name()),
                },
            ),
        },
        RowOperation::Delete => {
            if table.primary_key_columns().len() == 0 {
                return Err(
                    RunnerWebhookPersistenceError::MissingPrimaryKey {
                        mapping_id: String::from_str(mapping_id),
                        helper_table: String::from_str(table.helper_table_name()),
                    },
                );
            }
            match key {
                RowKey::Named(o) => Ok((table.webhook_delete_sql(), o)),
                RowKey::Positional(_) => {
                    assert(false);
                    Err(
                        RunnerWebhookPersistenceError::MissingPrimaryKey {
                            mapping_id: String::from_str(mapping_id),
                            helper_table: String::from_str(table.helper_table_name()),
                        },
                    )
                },
            }
        },
    }
}

/// The statement that copies a shadow table into its real table; a table without primary key
/// cannot be reconciled.
pub fn reconcile_upsert_statement(table: &HelperShadowTablePlan) -> (r: Result<String, ReconcileApplyFailure>)
    ensures
        if table@.primary_key_columns.len() == 0 {
            r matches Err(ReconcileApplyFailure::MissingPrimaryKey { phase, table: t })
                && phase == crate::metrics::ReconcilePhase::Upsert && t@ == crate::schema::table_label(
                table@.source_table,
            )
        } else {
            r matches Ok(s) && s@ == reconcile_upsert_sql(table@)
        },
{
    if table.primary_key_columns().len() == 0 {
        return Err(ReconcileApplyFailure::missing_upsert_primary_key(table.source_table().label()));
    }
    Ok(table.reconcile_upsert_sql())
}

/// The statement that removes from a real table the rows its shadow table lacks; a table
/// without primary key cannot be reconciled.
pub fn reconcile_delete_statement(table: &HelperShadowTablePlan) -> (r: Result<String, ReconcileApplyFailure>)
    ensures
        if table@.primary_key_columns.len() == 0 {
            r matches Err(ReconcileApplyFailure::MissingPrimaryKey { phase, table: t })
                && phase == crate::metrics::ReconcilePhase::Delete && t@ == crate::schema::table_label(
                table@.source_table,
            )
        } else {
            r matches Ok(s) && s@ == reconcile_delete_sql(table@)
        },
{
    if table.primary_key_columns().len() == 0 {
        return Err(ReconcileApplyFailure::missing_delete_primary_key(table.source_table().label()));
    }
    Ok(table.reconcile_delete_sql())
}

/// The message of a persistence error.
pub open spec fn persistence_error_text(e: &RunnerWebhookPersistenceError) -> Seq<char> {
    match e {
        RunnerWebhookPersistenceError::Connect { mapping_id, endpoint, message } => "failed to connect mapping `"@ + mapping_id@ + "` to `"@ + endpoint@ + "`: "@ + message@,
        RunnerWebhookPersistenceError::BeginTransaction { mapping_id, database, message } => "failed to begin transaction for mapping `"@ + mapping_id@ + "` in `"@ + database@ + "`: "@ + message@,
        RunnerWebhookPersistenceError::MissingValues { mapping_id, helper_table } => "upsert for mapping `"@ + mapping_id@ + "` into `"@ + helper_table@ + "` carries no row values"@,
        RunnerWebhookPersistenceError::MissingPrimaryKey { mapping_id, helper_table } => "delete for mapping `"@ + mapping_id@ + "` from `"@ + helper_table@ + "` needs primary-key columns"@,
        RunnerWebhookPersistenceError::ApplyMutation { mapping_id, helper_table, message } => "failed to apply row for mapping `"@ + mapping_id@ + "` to `"@ + helper_table@ + "`: "@ + message@,
        RunnerWebhookPersistenceError::Commit { mapping_id, database, message } => "failed to commit rows for mapping `"@ + mapping_id@ + "` in `"@ + database@ + "`: "@ + message@,
        RunnerWebhookPersistenceError::UpdateTrackingState { mapping_id, database, message } => "failed to update tracking state for mapping `"@ + mapping_id@ + "` in `"@ + database@ + "`: "@ + message@,
        RunnerWebhookPersistenceError::MissingTrackingState { mapping_id, database } => "missing tracking state for mapping `"@ + mapping_id@ + "` in `"@ + database@ + "`"@,
    }
}

impl RunnerWebhookPersistenceError {
    /// The error's message.
    pub fn render(&self) -> (r: String)
        ensures
            r@ == persistence_error_text(self),
    {
        match self {
            RunnerWebhookPersistenceError::Connect { mapping_id, endpoint, message } => {
                let mut s = String::from_str("failed to connect mapping `");
                s.append(mapping_id.as_str());
                s.append("` to `");
                s.append(endpoint.as_str());
                s.append("`: ");
                s.append(message.as_str());
                s
            },
            RunnerWebhookPersistenceError::BeginTransaction { mapping_id, database, message } => {
                let mut s = String::from_str("failed to begin transaction for mapping `");
                s.append(mapping_id.as_str());
                s.append("` in `");
                s.append(database.as_str());
                s.append("`: ");
                s.append(message.as_str());
                s
            },
            RunnerWebhookPersistenceError::MissingValues { mapping_id, helper_table } => {
                let mut s = String::from_str("upsert for mapping `");
                s.append(mapping_id.as_str());
                s.append("` into `");
                s.append(helper_table.as_str());
                s.append("` carries no row values");
                s
            },
            RunnerWebhookPersistenceError::MissingPrimaryKey { mapping_id, helper_table } => {
                let mut s = String::from_str("delete for mapping `");
                s.append(mapping_id.as_str());
                s.append("` from `");
                s.append(helper_table.as_str());
                s.append("` needs primary-key columns");
                s
            },
            RunnerWebhookPersistenceError::ApplyMutation { mapping_id, helper_table, message } => {
                let mut s = String::from_str("failed to apply row for mapping `");
                s.append(mapping_id.as_str());
                s.append("` to `");
                s.append(helper_table.as_str());
                s.append("`: ");
                s.append(message.as_str());
                s
            },
            RunnerWebhookPersistenceError::Commit { mapping_id, database, message } => {
                let mut s = String::from_str("failed to commit rows for mapping `");
                s.append(mapping_id.as_str());
                s.append("` in `");
                s.append(database.as_str());
                s.append("`: ");
                s.append(message.as_str());
                s
            },
            RunnerWebhookPersistenceError::UpdateTrackingState { mapping_id, database, message } => {
                let mut s = String::from_str("failed to update tracking state for mapping `");
                s.append(mapping_id.as_str());
                s.append("` in `");
                s.append(database.as_str());
                s.append("`: ");
                s.append(message.as_str());
                s
            },
            RunnerWebhookPersistenceError::MissingTrackingState { mapping_id, database } => {
                let mut s = String::from_str("missing tracking state for mapping `");
                s.append(mapping_id.as_str());
                s.append("` in `");
                s.append(database.as_str());
                s.append("`");
                s
            },
        }
    }
}

/// With one key column, the delete keeps the real rows whose key the shadow table holds:
/// `DELETE FROM <table> AS target WHERE NOT EXISTS (SELECT 1 FROM <shadow> AS helper WHERE
/// helper."k" IS NOT DISTINCT FROM target."k")`.
pub proof fn lemma_reconcile_delete_one_key(t: HelperTableView, k: Seq<char>)
    requires
        t.primary_key_columns == seq![k],
    ensures
        reconcile_delete_sql(t) == "DELETE FROM "@ + table_quoted(t.source_table)
            + " AS target WHERE NOT EXISTS (SELECT 1 FROM "@ + helper_table_sql(t.helper_table_name)
            + " AS helper WHERE helper."@ + quote_ident(k) + " IS NOT DISTINCT FROM target."@ + quote_ident(k)
            + ")"@,
{
    let items = key_items(t.primary_key_columns, KeyItem::HelperMatch);
    assert(items.len() == 1);
    assert(items[0] == key_item(KeyItem::HelperMatch, k));
    assert(join(items, " AND "@) == items[0]);
    reveal_strlit(" AS helper WHERE ");
    reveal_strlit(" AS helper WHERE helper.");
    reveal_strlit("helper.");
    assert(" AS helper WHERE helper."@ =~= " AS helper WHERE "@ + "helper."@);
}

/// One more key column adds one more condition, joined by `AND`: a real row is deleted when
/// no shadow row matches it on every key column, not on any one of them.
pub proof fn lemma_reconcile_delete_more_keys(t: HelperTableView, k: Seq<char>)
    requires
        t.primary_key_columns.len() > 0,
    ensures
        reconcile_delete_sql(HelperTableView { primary_key_columns: t.primary_key_columns.push(k), ..t })
            == reconcile_delete_sql(t).drop_last() + " AND helper."@ + quote_ident(k)
            + " IS NOT DISTINCT FROM target."@ + quote_ident(k) + ")"@,
{
    let t2 = HelperTableView { primary_key_columns: t.primary_key_columns.push(k), ..t };
    let items = key_items(t.primary_key_columns, KeyItem::HelperMatch);
    let items2 = key_items(t2.primary_key_columns, KeyItem::HelperMatch);
    assert(items2 =~= items.push(key_item(KeyItem::HelperMatch, k)));
    assert(items2.drop_last() =~= items);
    assert(join(items2, " AND "@) == join(items, " AND "@) + " AND "@ + key_item(KeyItem::HelperMatch, k));
    let head = "DELETE FROM "@ + table_quoted(t.source_table) + " AS target WHERE NOT EXISTS (SELECT 1 FROM "@
        + helper_table_sql(t.helper_table_name) + " AS helper WHERE "@;
    assert(reconcile_delete_sql(t) == head + join(items, " AND "@) + ")"@);
    reveal_strlit(")");
    assert(reconcile_delete_sql(t).drop_last() =~= head + join(items, " AND "@));
    reveal_strlit(" AND ");
    reveal_strlit(" AND helper.");
    reveal_strlit("helper.");
    assert(" AND helper."@ =~= " AND "@ + "helper."@);
    assert(reconcile_delete_sql(t2) =~= reconcile_delete_sql(t).drop_last() + " AND helper."@ + quote_ident(k)
        + " IS NOT DISTINCT FROM target."@ + quote_ident(k) + ")"@);
}

} // verus!
