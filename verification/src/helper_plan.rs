//! Shadow tables that hold a mapping's incoming rows, and the SQL that creates them.
use vstd::prelude::*;

use crate::error::RunnerHelperPlanError;
use crate::reconcile_order::{
    ReconcileOrder, TableKey, cycle_error, first_missing, valid_order, name_views, reconcile_order_from_schema,
};
use crate::schema::{
    ColumnSchema, ColumnView, QualifiedTableName, SqlIdentifier, TableView, ValidatedSchema,
    clone_idents, ident_views, quote_ident, table_label,
};
use crate::text::{join, join_strings, push_char, views};

verus! {

/// The schema that holds the runner's helper tables.
pub open spec fn helper_schema() -> Seq<char> {
    "_cockroach_migration_tool"@
}

pub fn helper_schema_name() -> (r: String)
    ensures
        r@ == helper_schema(),
{
    String::from_str("_cockroach_migration_tool")
}

/// `"_cockroach_migration_tool"."<table>"`.
pub open spec fn helper_table_sql(table: Seq<char>) -> Seq<char> {
    quote_ident(helper_schema()) + seq!['.'] + quote_ident(table)
}

pub fn render_helper_table_name(helper_table_name: &str) -> (r: String)
    ensures
        r@ == helper_table_sql(helper_table_name@),
{
    let mut r = SqlIdentifier::new(helper_schema_name().as_str()).quoted();
    push_char(&mut r, '.');
    let t = SqlIdentifier::new(helper_table_name).quoted();
    r.append(t.as_str());
    r
}

/// `<mapping>__<schema>__<table>`.
pub open spec fn helper_table_name_spec(mapping_id: Seq<char>, table: TableKey) -> Seq<char> {
    mapping_id + "__"@ + table.0 + "__"@ + table.1
}

/// A column of a shadow table: `"name" type` with ` NOT NULL` unless nullable.
pub open spec fn column_sql(c: ColumnView) -> Seq<char> {
    quote_ident(c.name) + seq![' '] + c.raw_type + if c.nullable {
        seq![]
    } else {
        " NOT NULL"@
    }
}

pub struct HelperColumnPlan {
    column: ColumnSchema,
}

impl View for HelperColumnPlan {
    type V = ColumnView;

    closed spec fn view(&self) -> ColumnView {
        self.column@
    }
}

impl Clone for HelperColumnPlan {
    fn clone(&self) -> (r: Self)
        ensures
            r@ == self@,
    {
        HelperColumnPlan { column: self.column.clone() }
    }
}

pub open spec fn helper_column_views(v: Seq<HelperColumnPlan>) -> Seq<ColumnView> {
    v.map_values(|c: HelperColumnPlan| c@)
}

impl HelperColumnPlan {
    fn from_schema_column(column: &ColumnSchema) -> (r: Self)
        ensures
            r@ == column@,
    {
        HelperColumnPlan { column: column.clone() }
    }

    pub fn name(&self) -> (r: &SqlIdentifier)
        ensures
            r@ == self@.name,
    {
        self.column.name()
    }

    pub fn generated(&self) -> (r: bool)
        ensures
            r == self@.generated,
    {
        self.column.generated()
    }

    fn render_sql(&self) -> (r: String)
        ensures
            r@ == column_sql(self@),
    {
        let mut r = self.column.name().quoted();
        push_char(&mut r, ' ');
        r.append(self.column.raw_type());
        if !self.column.nullable() {
            r.append(" NOT NULL");
        }
        r
    }
}

/// A shadow table of a mapping, as the other modules read it.
pub struct HelperTableView {
    pub source_table: TableKey,
    pub helper_table_name: Seq<char>,
    pub columns: Seq<ColumnView>,
    pub primary_key_columns: Seq<Seq<char>>,
}

pub struct HelperShadowTablePlan {
    source_table: QualifiedTableName,
    helper_table_name: String,
    columns: Vec<HelperColumnPlan>,
    primary_key_columns: Vec<SqlIdentifier>,
}

impl View for HelperShadowTablePlan {
    type V = HelperTableView;

    closed spec fn view(&self) -> HelperTableView {
        HelperTableView {
            source_table: self.source_table@,
            helper_table_name: self.helper_table_name@,
            columns: helper_column_views(self.columns@),
            primary_key_columns: ident_views(self.primary_key_columns@),
        }
    }
}

pub open spec fn helper_table_views(v: Seq<HelperShadowTablePlan>) -> Seq<HelperTableView> {
    v.map_values(|t: HelperShadowTablePlan| t@)
}

/// `CREATE TABLE IF NOT EXISTS` for the shadow table.
pub open spec fn create_shadow_table_sql_spec(t: HelperTableView) -> Seq<char> {
    "CREATE TABLE IF NOT EXISTS "@ + helper_table_sql(t.helper_table_name) + " (\n"@ + join(
        t.columns.map_values(|c: ColumnView| "    "@ + column_sql(c)),
        ",\n"@,
    ) + "\n);\n"@
}

/// The unique index over the shadow table's primary-key columns.
pub open spec fn create_primary_key_index_sql_spec(t: HelperTableView) -> Option<Seq<char>> {
    if t.primary_key_columns.len() == 0 {
        None
    } else {
        Some(
            "CREATE UNIQUE INDEX IF NOT EXISTS "@ + quote_ident(t.helper_table_name + "__pk"@)
                + " ON "@ + helper_table_sql(t.helper_table_name) + " ("@ + join(
                t.primary_key_columns.map_values(|c: Seq<char>| quote_ident(c)),
                ", "@,
            ) + ")"@,
        )
    }
}

/// The quoted form of each identifier.
pub fn quoted_idents(v: &Vec<SqlIdentifier>) -> (r: Vec<String>)
    ensures
        views(r@) == ident_views(v@).map_values(|c: Seq<char>| quote_ident(c)),
{
    let mut r: Vec<String> = Vec::new();
    let mut i: usize = 0;
    while i < v.len()
        invariant
            i <= v.len(),
            r.len() == i,
            views(r@) == ident_views(v@).map_values(|c: Seq<char>| quote_ident(c)).take(i as int),
        decreases v.len() - i,
    {
        let ghost prev = r@;
        let q = v[i].quoted();
        r.push(q);
        assert(views(r@) =~= ident_views(v@).map_values(|c: Seq<char>| quote_ident(c)).take(i + 1))
            by {
            assert forall|k: int| 0 <= k < i + 1 implies views(r@)[k] == ident_views(v@).map_values(
                |c: Seq<char>| quote_ident(c),
            ).take(i + 1)[k] by {
                if k < i {
                    assert(r@[k] == prev[k]);
                    assert(views(prev)[k] == ident_views(v@).map_values(
                        |c: Seq<char>| quote_ident(c),
                    ).take(i as int)[k]);
                }
            }
        }
        i += 1;
    }
    assert(ident_views(v@).map_values(|c: Seq<char>| quote_ident(c)).take(v.len() as int)
        =~= ident_views(v@).map_values(|c: Seq<char>| quote_ident(c)));
    r
}

impl Clone for HelperShadowTablePlan {
    fn clone(&self) -> (r: Self)
        ensures
            r@ == self@,
    {
        let mut columns: Vec<HelperColumnPlan> = Vec::new();
        let mut i: usize = 0;
        while i < self.columns.len()
            invariant
                i <= self.columns.len(),
                columns.len() == i,
                helper_column_views(columns@) == helper_column_views(self.columns@).take(i as int),
            decreases self.columns.len() - i,
        {
            let ghost prev = columns@;
            let c = self.columns[i].clone();
            columns.push(c);
            assert(helper_column_views(columns@) =~= helper_column_views(self.columns@).take(i + 1))
                by {
                assert forall|k: int| 0 <= k < i + 1 implies helper_column_views(columns@)[k]
                    == helper_column_views(self.columns@).take(i + 1)[k] by {
                    if k < i {
                        assert(columns@[k] == prev[k]);
                        assert(helper_column_views(prev)[k] == helper_column_views(self.columns@).take(
                            i as int,
                        )[k]);
                    }
                }
            }
            i += 1;
        }
        assert(helper_column_views(self.columns@).take(self.columns.len() as int)
            =~= helper_column_views(self.columns@));
        HelperShadowTablePlan {
            source_table: self.source_table.clone(),
            helper_table_name: self.helper_table_name.clone(),
            columns,
            primary_key_columns: clone_idents(&self.primary_key_columns),
        }
    }
}

impl HelperShadowTablePlan {
    /// The shadow table of `source_table` for a mapping.
    pub fn from_table(
        mapping_id: &str,
        source_table: &QualifiedTableName,
        columns: &Vec<ColumnSchema>,
        primary_key_columns: Vec<SqlIdentifier>,
    ) -> (r: Self)
        ensures
            r@ == (HelperTableView {
                source_table: source_table@,
                helper_table_name: helper_table_name_spec(mapping_id@, source_table@),
                columns: crate::schema::column_views(columns@),
                primary_key_columns: ident_views(primary_key_columns@),
            }),
    {
        let mut name = String::from_str(mapping_id);
        name.append("__");
        name.append(source_table.schema().raw());
        name.append("__");
        name.append(source_table.table().raw());
        let mut plans: Vec<HelperColumnPlan> = Vec::new();
        let mut i: usize = 0;
        while i < columns.len()
            invariant
                i <= columns.len(),
                plans.len() == i,
                helper_column_views(plans@) == crate::schema::column_views(columns@).take(i as int),
            decreases columns.len() - i,
        {
            let ghost prev = plans@;
            let p = HelperColumnPlan::from_schema_column(&columns[i]);
            plans.push(p);
            assert(helper_column_views(plans@) =~= crate::schema::column_views(columns@).take(i + 1))
                by {
                assert forall|k: int| 0 <= k < i + 1 implies helper_column_views(plans@)[k]
                    == crate::schema::column_views(columns@).take(i + 1)[k] by {
                    if k < i {
                        assert(plans@[k] == prev[k]);
                        assert(helper_column_views(prev)[k] == crate::schema::column_views(columns@).take(
                            i as int,
                        )[k]);
                    }
                }
            }
            i += 1;
        }
        assert(crate::schema::column_views(columns@).take(columns.len() as int)
            =~= crate::schema::column_views(columns@));
        HelperShadowTablePlan {
            source_table: source_table.clone(),
            helper_table_name: name,
            columns: plans,
            primary_key_columns,
        }
    }

    pub fn source_table(&self) -> (r: &QualifiedTableName)
        ensures
            r@ == self@.source_table,
    {
        &self.source_table
    }

    pub fn helper_table_name(&self) -> (r: &str)
        ensures
            r@ == self@.helper_table_name,
    {
        self.helper_table_name.as_str()
    }

    pub fn columns(&self) -> (r: &Vec<HelperColumnPlan>)
        ensures
            helper_column_views(r@) == self@.columns,
    {
        &self.columns
    }

    pub fn primary_key_columns(&self) -> (r: &Vec<SqlIdentifier>)
        ensures
            ident_views(r@) == self@.primary_key_columns,
    {
        &self.primary_key_columns
    }

    pub fn create_shadow_table_sql(&self) -> (r: String)
        ensures
            r@ == create_shadow_table_sql_spec(self@),
    {
        let mut lines: Vec<String> = Vec::new();
        let mut i: usize = 0;
        let ghost f = |c: ColumnView| "    "@ + column_sql(c);
        while i < self.columns.len()
            invariant
                i <= self.columns.len(),
                lines.len() == i,
                f == (|c: ColumnView| "    "@ + column_sql(c)),
                views(lines@) == helper_column_views(self.columns@).map_values(f).take(i as int),
            decreases self.columns.len() - i,
        {
            let ghost prev = lines@;
            let mut line = String::from_str("    ");
            let col = self.columns[i].render_sql();
            line.append(col.as_str());
            lines.push(line);
            assert(views(lines@) =~= helper_column_views(self.columns@).map_values(f).take(i + 1)) by {
                assert forall|k: int| 0 <= k < i + 1 implies views(lines@)[k]
                    == helper_column_views(self.columns@).map_values(f).take(i + 1)[k] by {
                    if k < i {
                        assert(lines@[k] == prev[k]);
                        assert(views(prev)[k] == helper_column_views(self.columns@).map_values(f).take(
                            i as int,
                        )[k]);
                    }
                }
            }
            i += 1;
        }
        assert(helper_column_views(self.columns@).map_values(f).take(self.columns.len() as int)
            =~= helper_column_views(self.columns@).map_values(f));
        let body = join_strings(&lines, ",\n");
        let mut r = String::from_str("CREATE TABLE IF NOT EXISTS ");
        let t = render_helper_table_name(self.helper_table_name.as_str());
        r.append(t.as_str());
        r.append(" (\n");
        r.append(body.as_str());
        r.append("\n);\n");
        r
    }

    pub fn create_primary_key_index_sql(&self) -> (r: Option<String>)
        ensures
            match r {
                Some(s) => create_primary_key_index_sql_spec(self@) == Some(s@),
                None => create_primary_key_index_sql_spec(self@) is None,
            },
    {
        if self.primary_key_columns.len() == 0 {
            return None;
        }
        let cols = quoted_idents(&self.primary_key_columns);
        let columns = join_strings(&cols, ", ");
        let mut index_name = self.helper_table_name.clone();
        index_name.append("__pk");
        let mut r = String::from_str("CREATE UNIQUE INDEX IF NOT EXISTS ");
        let q = SqlIdentifier::new(index_name.as_str()).quoted();
        r.append(q.as_str());
        r.append(" ON ");
        let t = render_helper_table_name(self.helper_table_name.as_str());
        r.append(t.as_str());
        r.append(" (");
        r.append(columns.as_str());
        r.append(")");
        Some(r)
    }
}


/// The shadow table that a mapping keeps for one selected table of the schema.
pub open spec fn helper_table_spec(mapping_id: Seq<char>, name: TableKey, table: TableView) -> HelperTableView {
    HelperTableView {
        source_table: name,
        helper_table_name: helper_table_name_spec(mapping_id, name),
        columns: table.columns,
        primary_key_columns: match table.primary_key {
            Some(pk) => pk,
            None => seq![],
        },
    }
}

/// The shadow tables and reconcile order of one mapping.
pub struct MappingHelperPlan {
    helper_tables: Vec<HelperShadowTablePlan>,
    reconcile_order: ReconcileOrder,
}

impl MappingHelperPlan {
    pub closed spec fn helper_tables_spec(&self) -> Seq<HelperTableView> {
        helper_table_views(self.helper_tables@)
    }

    pub closed spec fn upsert_spec(&self) -> Seq<TableKey> {
        self.reconcile_order.upsert_spec()
    }

    pub closed spec fn delete_spec(&self) -> Seq<TableKey> {
        self.reconcile_order.delete_spec()
    }

    /// Plans the shadow tables of the selected tables and the order in which they are
    /// reconciled; fails on the first selected table that the schema lacks, and on a
    /// foreign-key cycle.
    pub fn from_validated_schema(
        mapping_id: &str,
        selected_tables: &Vec<QualifiedTableName>,
        schema: &ValidatedSchema,
    ) -> (r: Result<Self, RunnerHelperPlanError>)
        ensures
            ({
                let keys = name_views(selected_tables@);
                match r {
                    Err(RunnerHelperPlanError::MissingValidatedTable { mapping_id: m, table }) => {
                        &&& m@ == mapping_id@
                        &&& exists|i: int| first_missing(keys, schema@, i) && table@ == table_label(keys[i])
                    },
                    Err(RunnerHelperPlanError::DependencyCycle { mapping_id: m, tables }) => {
                        &&& m@ == mapping_id@
                        &&& forall|i: int| 0 <= i < keys.len() ==> schema@.contains_key(#[trigger] keys[i])
                        &&& cycle_error(keys, schema@, tables@)
                    },
                    Ok(plan) => {
                        &&& forall|i: int| 0 <= i < keys.len() ==> schema@.contains_key(#[trigger] keys[i])
                        &&& plan.helper_tables_spec() == keys.map_values(
                            |k: TableKey| helper_table_spec(mapping_id@, k, schema@[k]),
                        )
                        &&& valid_order(keys, schema@, plan.upsert_spec(), plan.delete_spec())
                    },
                }
            }),
    {
        let ghost keys = name_views(selected_tables@);
        let ghost f = |k: TableKey| helper_table_spec(mapping_id@, k, schema@[k]);
        let mut helper_tables: Vec<HelperShadowTablePlan> = Vec::new();
        let mut i: usize = 0;
        while i < selected_tables.len()
            invariant
                keys == name_views(selected_tables@),
                f == (|k: TableKey| helper_table_spec(mapping_id@, k, schema@[k])),
                i <= selected_tables.len(),
                helper_tables.len() == i,
                forall|j: int| 0 <= j < i ==> schema@.contains_key(#[trigger] keys[j]),
                helper_table_views(helper_tables@) == keys.map_values(f).take(i as int),
            decreases selected_tables.len() - i,
        {
            let name = &selected_tables[i];
            assert(keys[i as int] == name@);
            match schema.table(name) {
                Some(table) => {
                    let pk = match table.primary_key() {
                        Some(p) => clone_idents(p.columns()),
                        None => {
                            let v: Vec<SqlIdentifier> = Vec::new();
                            assert(ident_views(v@) =~= seq![]);
                            v
                        },
                    };
                    let plan = HelperShadowTablePlan::from_table(mapping_id, name, table.columns(), pk);
                    let ghost prev = helper_tables@;
                    helper_tables.push(plan);
                    assert(helper_table_views(helper_tables@) =~= keys.map_values(f).take(i + 1)) by {
                        assert forall|k: int| 0 <= k < i + 1 implies helper_table_views(helper_tables@)[k]
                            == keys.map_values(f).take(i + 1)[k] by {
                            if k < i {
                                assert(helper_tables@[k] == prev[k]);
                                assert(helper_table_views(prev)[k] == keys.map_values(f).take(i as int)[k]);
                            }
                        }
                    }
                },
                None => {
                    assert(first_missing(keys, schema@, i as int));
                    return Err(
                        RunnerHelperPlanError::MissingValidatedTable {
                            mapping_id: String::from_str(mapping_id),
                            table: name.label(),
                        },
                    );
                },
            }
            i += 1;
        }
        assert(keys.map_values(f).take(selected_tables.len() as int) =~= keys.map_values(f));
        let reconcile_order = reconcile_order_from_schema(mapping_id, selected_tables, schema)?;
        Ok(MappingHelperPlan { helper_tables, reconcile_order })
    }

    pub fn helper_tables(&self) -> (r: &Vec<HelperShadowTablePlan>)
        ensures
            helper_table_views(r@) == self.helper_tables_spec(),
    {
        &self.helper_tables
    }

    pub fn reconcile_upsert_order(&self) -> (r: &Vec<QualifiedTableName>)
        ensures
            name_views(r@) == self.upsert_spec(),
    {
        self.reconcile_order.upsert_order()
    }

    pub fn reconcile_delete_order(&self) -> (r: &Vec<QualifiedTableName>)
        ensures
            name_views(r@) == self.delete_spec(),
    {
        self.reconcile_order.delete_order()
    }
}

} // verus!
