//! Comparing the selected tables of a CockroachDB dump with those of a PostgreSQL dump.
use vstd::prelude::*;

use crate::ordering::{
    lemma_list_order_strict, lemma_map_values_to_multiset, lemma_sort_by_permutation,
    lemma_str_order_strict, list_order, list_views, name_order, sort_by, sort_unique, str_order,
    sort_lists, sort_strings, sort_unique_names, sort_unique_strings, name_views,
};
use crate::schema::{
    table_label, ColumnView, ForeignKeyAction, ForeignKeyView, QualifiedTableName, SortDirection,
    TableView, ValidatedSchema, TableSchema, ColumnSchema, ident_views,
};
use crate::schema_dump::{
    apply_statements, extract_cockroach_statements, extract_postgres_statements,
    parsed_cockroach, parsed_postgres, SchemaMap,
};
use crate::config::{mapping_named, LoadedRunnerConfig, MappingConfig};
use crate::schema::config_table_name;
use crate::sql_text::{ascii_lower, ascii_upper, char_views};
use crate::text::{chars_of, join, join_strings, starts_with, string_of, trim, views};

verus! {

/// Which dump a fact is about.
#[derive(Clone, Copy, Debug, PartialEq, Eq, Structural)]
pub enum SchemaSide {
    Cockroach,
    Postgres,
}

/// The side's name in reports.
pub open spec fn side_label(side: SchemaSide) -> Seq<char> {
    match side {
        SchemaSide::Cockroach => "cockroach"@,
        SchemaSide::Postgres => "postgres"@,
    }
}

/// Column types that the two databases are known to store alike.
#[derive(Clone, Copy, Debug, PartialEq, Eq, Structural)]
pub enum TypeFamily {
    String,
    Integer,
    Boolean,
    TimestampWithTimeZone,
}

/// The family of a CockroachDB column type, if it is one the runner knows.
pub open spec fn cockroach_family(raw: Seq<char>) -> Option<TypeFamily> {
    let u = ascii_upper(trim(raw));
    if u == "STRING"@ || u == "VARCHAR"@ || u == "TEXT"@ {
        Some(TypeFamily::String)
    } else if u == "INT"@ || u == "INT8"@ || u == "BIGINT"@ {
        Some(TypeFamily::Integer)
    } else if u == "BOOL"@ || u == "BOOLEAN"@ {
        Some(TypeFamily::Boolean)
    } else if u == "TIMESTAMPTZ"@ {
        Some(TypeFamily::TimestampWithTimeZone)
    } else {
        None
    }
}

/// The family of a PostgreSQL column type, if it is one the runner knows.
pub open spec fn postgres_family(raw: Seq<char>) -> Option<TypeFamily> {
    let n = ascii_lower(trim(raw));
    if n == "text"@ || starts_with(n, "character varying"@) || starts_with(n, "varchar"@) {
        Some(TypeFamily::String)
    } else if n == "integer"@ || n == "bigint"@ || n == "int"@ || n == "int8"@ {
        Some(TypeFamily::Integer)
    } else if n == "bool"@ || n == "boolean"@ {
        Some(TypeFamily::Boolean)
    } else if n == "timestamp with time zone"@ || n == "timestamptz"@ {
        Some(TypeFamily::TimestampWithTimeZone)
    } else {
        None
    }
}

/// One difference between the two dumps, as contracts speak of it.
pub enum MismatchView {
    MissingTable { side: SchemaSide, table: Seq<char> },
    MissingColumn { side: SchemaSide, table: Seq<char>, column: Seq<char> },
    UnsupportedTypePair {
        table: Seq<char>,
        column: Seq<char>,
        cockroach_type: Seq<char>,
        postgres_type: Seq<char>,
    },
    ColumnTypeMismatch {
        table: Seq<char>,
        column: Seq<char>,
        cockroach_type: Seq<char>,
        postgres_type: Seq<char>,
    },
    NullabilityMismatch {
        table: Seq<char>,
        column: Seq<char>,
        cockroach_nullable: bool,
        postgres_nullable: bool,
    },
    PrimaryKeyMismatch {
        table: Seq<char>,
        cockroach_columns: Seq<Seq<char>>,
        postgres_columns: Seq<Seq<char>>,
    },
    UniqueConstraintMismatch {
        table: Seq<char>,
        cockroach_constraints: Seq<Seq<Seq<char>>>,
        postgres_constraints: Seq<Seq<Seq<char>>>,
    },
    ForeignKeyMismatch {
        table: Seq<char>,
        cockroach_foreign_keys: Seq<Seq<char>>,
        postgres_foreign_keys: Seq<Seq<char>>,
    },
    IndexMismatch {
        table: Seq<char>,
        cockroach_indexes: Seq<Seq<char>>,
        postgres_indexes: Seq<Seq<char>>,
    },
}

/// One difference between the two dumps.
#[derive(Debug)]
pub enum SchemaMismatch {
    MissingTable { side: SchemaSide, table: String },
    MissingColumn { side: SchemaSide, table: String, column: String },
    UnsupportedTypePair {
        table: String,
        column: String,
        cockroach_type: String,
        postgres_type: String,
    },
    ColumnTypeMismatch {
        table: String,
        column: String,
        cockroach_type: String,
        postgres_type: String,
    },
    NullabilityMismatch {
        table: String,
        column: String,
        cockroach_nullable: bool,
        postgres_nullable: bool,
    },
    PrimaryKeyMismatch {
        table: String,
        cockroach_columns: Vec<String>,
        postgres_columns: Vec<String>,
    },
    UniqueConstraintMismatch {
        table: String,
        cockroach_constraints: Vec<Vec<String>>,
        postgres_constraints: Vec<Vec<String>>,
    },
    ForeignKeyMismatch {
        table: String,
        cockroach_foreign_keys: Vec<String>,
        postgres_foreign_keys: Vec<String>,
    },
    IndexMismatch {
        table: String,
        cockroach_indexes: Vec<String>,
        postgres_indexes: Vec<String>,
    },
}

pub open spec fn nested_views(v: Seq<Vec<String>>) -> Seq<Seq<Seq<char>>> {
    v.map_values(|x: Vec<String>| views(x@))
}

impl View for SchemaMismatch {
    type V = MismatchView;

    open spec fn view(&self) -> MismatchView {
        match self {
            SchemaMismatch::MissingTable { side, table } => MismatchView::MissingTable {
                side: *side,
                table: table@,
            },
            SchemaMismatch::MissingColumn { side, table, column } => MismatchView::MissingColumn {
                side: *side,
                table: table@,
                column: column@,
            },
            SchemaMismatch::UnsupportedTypePair { table, column, cockroach_type, postgres_type } =>
                MismatchView::UnsupportedTypePair {
                table: table@,
                column: column@,
                cockroach_type: cockroach_type@,
                postgres_type: postgres_type@,
            },
            SchemaMismatch::ColumnTypeMismatch { table, column, cockroach_type, postgres_type } =>
                MismatchView::ColumnTypeMismatch {
                table: table@,
                column: column@,
                cockroach_type: cockroach_type@,
                postgres_type: postgres_type@,
            },
            SchemaMismatch::NullabilityMismatch {
                table,
                column,
                cockroach_nullable,
                postgres_nullable,
            } => MismatchView::NullabilityMismatch {
                table: table@,
                column: column@,
                cockroach_nullable: *cockroach_nullable,
                postgres_nullable: *postgres_nullable,
            },
            SchemaMismatch::PrimaryKeyMismatch { table, cockroach_columns, postgres_columns } =>
                MismatchView::PrimaryKeyMismatch {
                table: table@,
                cockroach_columns: views(cockroach_columns@),
                postgres_columns: views(postgres_columns@),
            },
            SchemaMismatch::UniqueConstraintMismatch {
                table,
                cockroach_constraints,
                postgres_constraints,
            } => MismatchView::UniqueConstraintMismatch {
                table: table@,
                cockroach_constraints: nested_views(cockroach_constraints@),
                postgres_constraints: nested_views(postgres_constraints@),
            },
            SchemaMismatch::ForeignKeyMismatch {
                table,
                cockroach_foreign_keys,
                postgres_foreign_keys,
            } => MismatchView::ForeignKeyMismatch {
                table: table@,
                cockroach_foreign_keys: views(cockroach_foreign_keys@),
                postgres_foreign_keys: views(postgres_foreign_keys@),
            },
            SchemaMismatch::IndexMismatch { table, cockroach_indexes, postgres_indexes } =>
                MismatchView::IndexMismatch {
                table: table@,
                cockroach_indexes: views(cockroach_indexes@),
                postgres_indexes: views(postgres_indexes@),
            },
        }
    }
}

/// The first column of `cols` with the given name.
pub open spec fn column_named(cols: Seq<ColumnView>, name: Seq<char>) -> Option<ColumnView>
    decreases cols.len(),
{
    if cols.len() == 0 {
        None
    } else if cols[0].name == name {
        Some(cols[0])
    } else {
        column_named(cols.drop_first(), name)
    }
}

/// What differs about one column name of a table present in both dumps.
pub open spec fn column_mismatches(
    table: Seq<char>,
    crt: TableView,
    pgt: TableView,
    name: Seq<char>,
) -> Seq<MismatchView> {
    match column_named(crt.columns, name) {
        None => seq![
            MismatchView::MissingColumn { side: SchemaSide::Cockroach, table, column: name },
        ],
        Some(cc) => match column_named(pgt.columns, name) {
            None => seq![
                MismatchView::MissingColumn { side: SchemaSide::Postgres, table, column: name },
            ],
            Some(pc) => {
                let types = match (cockroach_family(cc.raw_type), postgres_family(pc.raw_type)) {
                    (Some(a), Some(b)) => if a == b {
                        seq![]
                    } else {
                        seq![
                            MismatchView::ColumnTypeMismatch {
                                table,
                                column: name,
                                cockroach_type: cc.raw_type,
                                postgres_type: pc.raw_type,
                            },
                        ]
                    },
                    _ => seq![
                        MismatchView::UnsupportedTypePair {
                            table,
                            column: name,
                            cockroach_type: cc.raw_type,
                            postgres_type: pc.raw_type,
                        },
                    ],
                };
                let nulls = if cc.nullable != pc.nullable {
                    seq![
                        MismatchView::NullabilityMismatch {
                            table,
                            column: name,
                            cockroach_nullable: cc.nullable,
                            postgres_nullable: pc.nullable,
                        },
                    ]
                } else {
                    seq![]
                };
                types + nulls
            },
        },
    }
}

/// The column differences, column name by column name.
pub open spec fn columns_mismatches(
    table: Seq<char>,
    crt: TableView,
    pgt: TableView,
    names: Seq<Seq<char>>,
) -> Seq<MismatchView>
    decreases names.len(),
{
    if names.len() == 0 {
        seq![]
    } else {
        columns_mismatches(table, crt, pgt, names.drop_last()) + column_mismatches(
            table,
            crt,
            pgt,
            names.last(),
        )
    }
}

/// The names of a table's columns, in order.
pub open spec fn column_names(t: TableView) -> Seq<Seq<char>> {
    t.columns.map_values(|c: ColumnView| c.name)
}

/// The primary key columns, or none.
pub open spec fn primary_key_columns(t: TableView) -> Seq<Seq<char>> {
    match t.primary_key {
        Some(p) => p,
        None => seq![],
    }
}

/// The name of a delete action in reports.
pub open spec fn action_label(a: ForeignKeyAction) -> Seq<char> {
    match a {
        ForeignKeyAction::NoAction => "no_action"@,
        ForeignKeyAction::Cascade => "cascade"@,
        ForeignKeyAction::SetNull => "set_null"@,
        ForeignKeyAction::Restrict => "restrict"@,
    }
}

/// A foreign key as a comparable line: `(cols)->schema.table(cols) on_delete=action`.
pub open spec fn render_foreign_key(fk: ForeignKeyView) -> Seq<char> {
    "("@ + join(fk.columns, ", "@) + ")->"@ + table_label(fk.referenced_table) + "("@ + join(
        fk.referenced_columns,
        ", "@,
    ) + ") on_delete="@ + action_label(fk.on_delete)
}

/// An index as a comparable line: its columns, `DESC` after the descending ones.
pub open spec fn render_index(ix: Seq<(Seq<char>, SortDirection)>) -> Seq<char> {
    join(
        ix.map_values(
            |c: (Seq<char>, SortDirection)|
                match c.1 {
                    SortDirection::Asc => c.0,
                    SortDirection::Desc => c.0 + " DESC"@,
                },
        ),
        ", "@,
    )
}

/// The unique constraints of a table, sorted.
pub open spec fn unique_lines(t: TableView) -> Seq<Seq<Seq<char>>> {
    sort_by(t.unique_constraints, list_order())
}

/// The foreign keys of a table, rendered and sorted.
pub open spec fn foreign_key_lines(t: TableView) -> Seq<Seq<char>> {
    sort_by(t.foreign_keys.map_values(|f: ForeignKeyView| render_foreign_key(f)), str_order())
}

/// The indexes of a table, rendered and sorted.
pub open spec fn index_lines(t: TableView) -> Seq<Seq<char>> {
    sort_by(
        t.indexes.map_values(|i: Seq<(Seq<char>, SortDirection)>| render_index(i)),
        str_order(),
    )
}

/// What differs about one selected table.
pub open spec fn table_mismatches(
    name: (Seq<char>, Seq<char>),
    crm: SchemaMap,
    pgm: SchemaMap,
) -> Seq<MismatchView> {
    let table = table_label(name);
    if !crm.contains_key(name) {
        seq![MismatchView::MissingTable { side: SchemaSide::Cockroach, table }]
    } else if !pgm.contains_key(name) {
        seq![MismatchView::MissingTable { side: SchemaSide::Postgres, table }]
    } else {
        let crt = crm[name];
        let pgt = pgm[name];
        let names = sort_unique(column_names(crt) + column_names(pgt), str_order());
        let pk = if primary_key_columns(crt) != primary_key_columns(pgt) {
            seq![
                MismatchView::PrimaryKeyMismatch {
                    table,
                    cockroach_columns: primary_key_columns(crt),
                    postgres_columns: primary_key_columns(pgt),
                },
            ]
        } else {
            seq![]
        };
        let uq = if unique_lines(crt) != unique_lines(pgt) {
            seq![
                MismatchView::UniqueConstraintMismatch {
                    table,
                    cockroach_constraints: unique_lines(crt),
                    postgres_constraints: unique_lines(pgt),
                },
            ]
        } else {
            seq![]
        };
        let fk = if foreign_key_lines(crt) != foreign_key_lines(pgt) {
            seq![
                MismatchView::ForeignKeyMismatch {
                    table,
                    cockroach_foreign_keys: foreign_key_lines(crt),
                    postgres_foreign_keys: foreign_key_lines(pgt),
                },
            ]
        } else {
            seq![]
        };
        let ix = if index_lines(crt) != index_lines(pgt) {
            seq![
                MismatchView::IndexMismatch {
                    table,
                    cockroach_indexes: index_lines(crt),
                    postgres_indexes: index_lines(pgt),
                },
            ]
        } else {
            seq![]
        };
        columns_mismatches(table, crt, pgt, names) + pk + uq + fk + ix
    }
}

/// The differences over the given tables, table by table.
pub open spec fn tables_mismatches(
    names: Seq<(Seq<char>, Seq<char>)>,
    crm: SchemaMap,
    pgm: SchemaMap,
) -> Seq<MismatchView>
    decreases names.len(),
{
    if names.len() == 0 {
        seq![]
    } else {
        tables_mismatches(names.drop_last(), crm, pgm) + table_mismatches(names.last(), crm, pgm)
    }
}

/// The differences over the selected tables, each selected table once, in name order.
pub open spec fn selection_mismatches(
    selected: Seq<(Seq<char>, Seq<char>)>,
    crm: SchemaMap,
    pgm: SchemaMap,
) -> Seq<MismatchView> {
    tables_mismatches(sort_unique(selected, name_order()), crm, pgm)
}

pub open spec fn mismatch_views(v: Seq<SchemaMismatch>) -> Seq<MismatchView> {
    v.map_values(|m: SchemaMismatch| m@)
}

proof fn lemma_column_named(cols: Seq<ColumnView>, name: Seq<char>, i: int)
    requires
        0 <= i <= cols.len(),
        forall|j: int| 0 <= j < i ==> #[trigger] cols[j].name != name,
        i == cols.len() || cols[i].name == name,
    ensures
        column_named(cols, name) == if i == cols.len() {
            None
        } else {
            Some(cols[i])
        },
    decreases i,
{
    if i > 0 {
        let t = cols.drop_first();
        assert forall|j: int| 0 <= j < i - 1 implies #[trigger] t[j].name != name by {
            assert(t[j] == cols[j + 1]);
        }
        if i < cols.len() {
            assert(t[i - 1] == cols[i]);
        }
        lemma_column_named(t, name, i - 1);
    }
}

/// The column of `t` with the given name (the first, if several share it).
fn find_column<'a>(t: &'a TableSchema, name: &Vec<char>) -> (r: Option<&'a ColumnSchema>)
    ensures
        match r {
            Some(c) => column_named(t@.columns, name@) == Some(c@),
            None => column_named(t@.columns, name@) is None,
        },
{
    let id = crate::schema::SqlIdentifier::from_string(string_of(name));
    let r = t.column(&id);
    proof {
        match r {
            Some(c) => {
                let i = choose|i: int|
                    0 <= i < t@.columns.len() && #[trigger] t@.columns[i] == c@ && forall|j: int|
                        0 <= j < i ==> t@.columns[j].name != id@;
                lemma_column_named(t@.columns, name@, i);
            },
            None => {
                lemma_column_named(t@.columns, name@, t@.columns.len() as int);
            },
        }
    }
    r
}

/// Strings made of character vectors.
fn strings_of(v: &Vec<Vec<char>>) -> (r: Vec<String>)
    ensures
        views(r@) == char_views(v@),
{
    let mut r: Vec<String> = Vec::new();
    let mut i: usize = 0;
    while i < v.len()
        invariant
            i <= v.len(),
            r@.len() == i,
            views(r@) == char_views(v@).take(i as int),
        decreases v.len() - i,
    {
        let ghost prev = r@;
        r.push(string_of(&v[i]));
        assert forall|k: int| 0 <= k < i + 1 implies #[trigger] views(r@)[k] == char_views(v@).take(i + 1)[k] by {
            if k < i {
                assert(r@[k] == prev[k]);
                assert(views(prev)[k] == char_views(v@).take(i as int)[k]);
            }
        }
        assert(views(r@) =~= char_views(v@).take(i + 1));
        i += 1;
    }
    assert(char_views(v@).take(v.len() as int) == char_views(v@));
    r
}

/// Lists of strings made of lists of character vectors.
fn nested_strings_of(v: &Vec<Vec<Vec<char>>>) -> (r: Vec<Vec<String>>)
    ensures
        nested_views(r@) == list_views(v@),
{
    let mut r: Vec<Vec<String>> = Vec::new();
    let mut i: usize = 0;
    while i < v.len()
        invariant
            i <= v.len(),
            r@.len() == i,
            nested_views(r@) == list_views(v@).take(i as int),
        decreases v.len() - i,
    {
        let ghost prev = r@;
        r.push(strings_of(&v[i]));
        assert forall|k: int| 0 <= k < i + 1 implies #[trigger] nested_views(r@)[k] == list_views(v@).take(i + 1)[k] by {
            if k < i {
                assert(r@[k] == prev[k]);
                assert(nested_views(prev)[k] == list_views(v@).take(i as int)[k]);
            }
        }
        assert(nested_views(r@) =~= list_views(v@).take(i + 1));
        i += 1;
    }
    assert(list_views(v@).take(v.len() as int) == list_views(v@));
    r
}

fn same_strings(a: &Vec<Vec<char>>, b: &Vec<Vec<char>>) -> (r: bool)
    ensures
        r == (char_views(a@) == char_views(b@)),
{
    if a.len() != b.len() {
        assert(char_views(a@).len() != char_views(b@).len());
        return false;
    }
    let mut i: usize = 0;
    while i < a.len()
        invariant
            a.len() == b.len(),
            i <= a.len(),
            forall|k: int| 0 <= k < i ==> char_views(a@)[k] == char_views(b@)[k],
        decreases a.len() - i,
    {
        if !crate::sql_text::same_chars(&a[i], &b[i]) {
            assert(char_views(a@)[i as int] != char_views(b@)[i as int]);
            return false;
        }
        i += 1;
    }
    assert(char_views(a@) =~= char_views(b@));
    true
}

fn same_lists(a: &Vec<Vec<Vec<char>>>, b: &Vec<Vec<Vec<char>>>) -> (r: bool)
    ensures
        r == (list_views(a@) == list_views(b@)),
{
    if a.len() != b.len() {
        assert(list_views(a@).len() != list_views(b@).len());
        return false;
    }
    let mut i: usize = 0;
    while i < a.len()
        invariant
            a.len() == b.len(),
            i <= a.len(),
            forall|k: int| 0 <= k < i ==> list_views(a@)[k] == list_views(b@)[k],
        decreases a.len() - i,
    {
        if !same_strings(&a[i], &b[i]) {
            assert(list_views(a@)[i as int] != list_views(b@)[i as int]);
            return false;
        }
        i += 1;
    }
    assert(list_views(a@) =~= list_views(b@));
    true
}

fn lit(s: &str) -> (v: Vec<char>)
    ensures
        v@ == s@,
{
    chars_of(s)
}

/// The family of a CockroachDB column type.
pub fn normalize_cockroach_type(raw: &str) -> (r: Option<TypeFamily>)
    ensures
        r == cockroach_family(raw@),
{
    let v = chars_of(raw);
    let t = crate::sql_text::trim_chars(&v);
    let u = crate::sql_text::to_upper(&t);
    let eq = |x: &str| -> (b: bool)
        ensures
            b == (u@ == x@),
        { crate::sql_text::same_chars(&u, &lit(x)) };
    if eq("STRING") || eq("VARCHAR") || eq("TEXT") {
        Some(TypeFamily::String)
    } else if eq("INT") || eq("INT8") || eq("BIGINT") {
        Some(TypeFamily::Integer)
    } else if eq("BOOL") || eq("BOOLEAN") {
        Some(TypeFamily::Boolean)
    } else if eq("TIMESTAMPTZ") {
        Some(TypeFamily::TimestampWithTimeZone)
    } else {
        None
    }
}

/// The family of a PostgreSQL column type.
pub fn normalize_postgres_type(raw: &str) -> (r: Option<TypeFamily>)
    ensures
        r == postgres_family(raw@),
{
    let v = chars_of(raw);
    let t = crate::sql_text::trim_chars(&v);
    let n = crate::sql_text::to_lower(&t);
    let eq = |x: &str| -> (b: bool)
        ensures
            b == (n@ == x@),
        { crate::sql_text::same_chars(&n, &lit(x)) };
    if eq("text") || crate::sql_text::starts_with_chars(&n, &lit("character varying"))
        || crate::sql_text::starts_with_chars(&n, &lit("varchar")) {
        Some(TypeFamily::String)
    } else if eq("integer") || eq("bigint") || eq("int") || eq("int8") {
        Some(TypeFamily::Integer)
    } else if eq("bool") || eq("boolean") {
        Some(TypeFamily::Boolean)
    } else if eq("timestamp with time zone") || eq("timestamptz") {
        Some(TypeFamily::TimestampWithTimeZone)
    } else {
        None
    }
}

fn push_mismatch(out: &mut Vec<SchemaMismatch>, m: SchemaMismatch)
    ensures
        mismatch_views(final(out)@) == mismatch_views(old(out)@).push(m@),
{
    out.push(m);
    assert(mismatch_views(out@) =~= mismatch_views(old(out)@).push(m@));
}

fn ident_chars(v: &Vec<crate::schema::SqlIdentifier>) -> (r: Vec<Vec<char>>)
    ensures
        char_views(r@) == ident_views(v@),
{
    let mut r: Vec<Vec<char>> = Vec::new();
    let mut i: usize = 0;
    while i < v.len()
        invariant
            i <= v.len(),
            r@.len() == i,
            char_views(r@) == ident_views(v@).take(i as int),
        decreases v.len() - i,
    {
        let ghost prev = r@;
        r.push(chars_of(v[i].raw()));
        assert forall|k: int| 0 <= k < i + 1 implies #[trigger] char_views(r@)[k] == ident_views(v@).take(i + 1)[k] by {
            if k < i {
                assert(r@[k] == prev[k]);
                assert(char_views(prev)[k] == ident_views(v@).take(i as int)[k]);
            }
        }
        assert(char_views(r@) =~= ident_views(v@).take(i + 1));
        i += 1;
    }
    assert(ident_views(v@).take(v.len() as int) == ident_views(v@));
    r
}

/// Appends what differs about one column name.
fn push_column_mismatches(
    out: &mut Vec<SchemaMismatch>,
    table: &Vec<char>,
    crt: &TableSchema,
    pgt: &TableSchema,
    name: &Vec<char>,
)
    ensures
        mismatch_views(final(out)@) == mismatch_views(old(out)@) + column_mismatches(
            table@,
            crt@,
            pgt@,
            name@,
        ),
{
    let cc = match find_column(crt, name) {
        Some(c) => c,
        None => {
            push_mismatch(
                out,
                SchemaMismatch::MissingColumn {
                    side: SchemaSide::Cockroach,
                    table: string_of(table),
                    column: string_of(name),
                },
            );
            return ;
        },
    };
    let pc = match find_column(pgt, name) {
        Some(c) => c,
        None => {
            push_mismatch(
                out,
                SchemaMismatch::MissingColumn {
                    side: SchemaSide::Postgres,
                    table: string_of(table),
                    column: string_of(name),
                },
            );
            return ;
        },
    };
    let ghost mid = mismatch_views(out@);
    match (normalize_cockroach_type(cc.raw_type()), normalize_postgres_type(pc.raw_type())) {
        (Some(a), Some(b)) => {
            if a != b {
                push_mismatch(
                    out,
                    SchemaMismatch::ColumnTypeMismatch {
                        table: string_of(table),
                        column: string_of(name),
                        cockroach_type: String::from_str(cc.raw_type()),
                        postgres_type: String::from_str(pc.raw_type()),
                    },
                );
            }
        },
        _ => {
            push_mismatch(
                out,
                SchemaMismatch::UnsupportedTypePair {
                    table: string_of(table),
                    column: string_of(name),
                    cockroach_type: String::from_str(cc.raw_type()),
                    postgres_type: String::from_str(pc.raw_type()),
                },
            );
        },
    }
    let ghost after_types = mismatch_views(out@);
    if cc.nullable() != pc.nullable() {
        push_mismatch(
            out,
            SchemaMismatch::NullabilityMismatch {
                table: string_of(table),
                column: string_of(name),
                cockroach_nullable: cc.nullable(),
                postgres_nullable: pc.nullable(),
            },
        );
    }
    assert(mismatch_views(out@) =~= mismatch_views(old(out)@) + column_mismatches(table@, crt@, pgt@, name@));
}

fn column_name_chars(t: &TableSchema) -> (r: Vec<Vec<char>>)
    ensures
        char_views(r@) == column_names(t@),
{
    let cols = t.columns();
    let mut r: Vec<Vec<char>> = Vec::new();
    let mut i: usize = 0;
    while i < cols.len()
        invariant
            i <= cols.len(),
            r@.len() == i,
            crate::schema::column_views(cols@) == t@.columns,
            char_views(r@) == column_names(t@).take(i as int),
        decreases cols.len() - i,
    {
        let ghost prev = r@;
        r.push(chars_of(cols[i].name().raw()));
        assert(t@.columns[i as int] == cols@[i as int]@);
        assert forall|k: int| 0 <= k < i + 1 implies #[trigger] char_views(r@)[k] == column_names(t@).take(i + 1)[k] by {
            if k < i {
                assert(r@[k] == prev[k]);
                assert(char_views(prev)[k] == column_names(t@).take(i as int)[k]);
            }
        }
        assert(char_views(r@) =~= column_names(t@).take(i + 1));
        i += 1;
    }
    assert(column_names(t@).take(cols.len() as int) == column_names(t@));
    r
}

fn primary_key_chars(t: &TableSchema) -> (r: Vec<Vec<char>>)
    ensures
        char_views(r@) == primary_key_columns(t@),
{
    match t.primary_key() {
        Some(p) => ident_chars(p.columns()),
        None => {
            let r: Vec<Vec<char>> = Vec::new();
            assert(char_views(r@) =~= seq![]);
            r
        },
    }
}

fn unique_line_lists(t: &TableSchema) -> (r: Vec<Vec<Vec<char>>>)
    ensures
        list_views(r@) == unique_lines(t@),
{
    let us = t.unique_constraints();
    let mut r: Vec<Vec<Vec<char>>> = Vec::new();
    let mut i: usize = 0;
    while i < us.len()
        invariant
            i <= us.len(),
            r@.len() == i,
            crate::schema::unique_views(us@) == t@.unique_constraints,
            list_views(r@) == t@.unique_constraints.take(i as int),
        decreases us.len() - i,
    {
        let ghost prev = r@;
        r.push(ident_chars(us[i].columns()));
        assert(t@.unique_constraints[i as int] == us@[i as int]@);
        assert forall|k: int| 0 <= k < i + 1 implies #[trigger] list_views(r@)[k] == t@.unique_constraints.take(i + 1)[k] by {
            if k < i {
                assert(r@[k] == prev[k]);
                assert(list_views(prev)[k] == t@.unique_constraints.take(i as int)[k]);
            }
        }
        assert(list_views(r@) =~= t@.unique_constraints.take(i + 1));
        i += 1;
    }
    assert(t@.unique_constraints.take(us.len() as int) == t@.unique_constraints);
    sort_lists(r)
}

fn action_name(a: ForeignKeyAction) -> (r: &'static str)
    ensures
        r@ == action_label(a),
{
    match a {
        ForeignKeyAction::NoAction => "no_action",
        ForeignKeyAction::Cascade => "cascade",
        ForeignKeyAction::SetNull => "set_null",
        ForeignKeyAction::Restrict => "restrict",
    }
}

fn render_foreign_key_chars(fk: &crate::schema::ForeignKeyShape) -> (r: Vec<char>)
    ensures
        r@ == render_foreign_key(fk@),
{
    let cols = strings_of(&ident_chars(fk.columns()));
    let refs = strings_of(&ident_chars(fk.referenced_columns()));
    let mut s = String::from_str("(");
    s.append(join_strings(&cols, ", ").as_str());
    s.append(")->");
    s.append(fk.referenced_table().label().as_str());
    s.append("(");
    s.append(join_strings(&refs, ", ").as_str());
    s.append(") on_delete=");
    s.append(action_name(fk.on_delete()));
    chars_of(s.as_str())
}

fn foreign_key_line_list(t: &TableSchema) -> (r: Vec<Vec<char>>)
    ensures
        char_views(r@) == foreign_key_lines(t@),
{
    let fks = t.foreign_keys();
    let ghost lines = t@.foreign_keys.map_values(|f: ForeignKeyView| render_foreign_key(f));
    let mut r: Vec<Vec<char>> = Vec::new();
    let mut i: usize = 0;
    while i < fks.len()
        invariant
            i <= fks.len(),
            r@.len() == i,
            crate::schema::foreign_key_views(fks@) == t@.foreign_keys,
            lines == t@.foreign_keys.map_values(|f: ForeignKeyView| render_foreign_key(f)),
            char_views(r@) == lines.take(i as int),
        decreases fks.len() - i,
    {
        let ghost prev = r@;
        r.push(render_foreign_key_chars(&fks[i]));
        assert(t@.foreign_keys[i as int] == fks@[i as int]@);
        assert forall|k: int| 0 <= k < i + 1 implies #[trigger] char_views(r@)[k] == lines.take(i + 1)[k] by {
            if k < i {
                assert(r@[k] == prev[k]);
                assert(char_views(prev)[k] == lines.take(i as int)[k]);
            }
        }
        assert(char_views(r@) =~= lines.take(i + 1));
        i += 1;
    }
    assert(lines.take(fks.len() as int) == lines);
    sort_strings(r)
}

fn render_index_chars(ix: &crate::schema::IndexShape) -> (r: Vec<char>)
    ensures
        r@ == render_index(ix@),
{
    let cols = ix.columns();
    let ghost parts = ix@.map_values(
        |c: (Seq<char>, SortDirection)|
            match c.1 {
                SortDirection::Asc => c.0,
                SortDirection::Desc => c.0 + " DESC"@,
            },
    );
    let mut names: Vec<String> = Vec::new();
    let mut i: usize = 0;
    while i < cols.len()
        invariant
            i <= cols.len(),
            names@.len() == i,
            crate::schema::index_column_views(cols@) == ix@,
            parts == ix@.map_values(
                |c: (Seq<char>, SortDirection)|
                    match c.1 {
                        SortDirection::Asc => c.0,
                        SortDirection::Desc => c.0 + " DESC"@,
                    },
            ),
            views(names@) == parts.take(i as int),
        decreases cols.len() - i,
    {
        let ghost prev = names@;
        let mut n = String::from_str(cols[i].name().raw());
        match cols[i].direction() {
            SortDirection::Asc => {},
            SortDirection::Desc => {
                n.append(" DESC");
            },
        }
        names.push(n);
        assert(ix@[i as int] == cols@[i as int]@);
        assert forall|k: int| 0 <= k < i + 1 implies #[trigger] views(names@)[k] == parts.take(i + 1)[k] by {
            if k < i {
                assert(names@[k] == prev[k]);
                assert(views(prev)[k] == parts.take(i as int)[k]);
            }
        }
        assert(views(names@) =~= parts.take(i + 1));
        i += 1;
    }
    assert(parts.take(cols.len() as int) == parts);
    chars_of(join_strings(&names, ", ").as_str())
}

fn index_line_list(t: &TableSchema) -> (r: Vec<Vec<char>>)
    ensures
        char_views(r@) == index_lines(t@),
{
    let ixs = t.indexes();
    let ghost lines = t@.indexes.map_values(|i: Seq<(Seq<char>, SortDirection)>| render_index(i));
    let mut r: Vec<Vec<char>> = Vec::new();
    let mut i: usize = 0;
    while i < ixs.len()
        invariant
            i <= ixs.len(),
            r@.len() == i,
            crate::schema::index_views(ixs@) == t@.indexes,
            lines == t@.indexes.map_values(|i: Seq<(Seq<char>, SortDirection)>| render_index(i)),
            char_views(r@) == lines.take(i as int),
        decreases ixs.len() - i,
    {
        let ghost prev = r@;
        r.push(render_index_chars(&ixs[i]));
        assert(t@.indexes[i as int] == ixs@[i as int]@);
        assert forall|k: int| 0 <= k < i + 1 implies #[trigger] char_views(r@)[k] == lines.take(i + 1)[k] by {
            if k < i {
                assert(r@[k] == prev[k]);
                assert(char_views(prev)[k] == lines.take(i as int)[k]);
            }
        }
        assert(char_views(r@) =~= lines.take(i + 1));
        i += 1;
    }
    assert(lines.take(ixs.len() as int) == lines);
    sort_strings(r)
}

/// Appends what differs about one selected table.
fn push_table_mismatches(
    out: &mut Vec<SchemaMismatch>,
    name: &QualifiedTableName,
    cr: &ValidatedSchema,
    pg: &ValidatedSchema,
)
    ensures
        mismatch_views(final(out)@) == mismatch_views(old(out)@) + table_mismatches(name@, cr@, pg@),
{
    let label = chars_of(name.label().as_str());
    let crt = match cr.table(name) {
        Some(t) => t,
        None => {
            push_mismatch(out, SchemaMismatch::MissingTable { side: SchemaSide::Cockroach, table: string_of(&label) });
            return ;
        },
    };
    let pgt = match pg.table(name) {
        Some(t) => t,
        None => {
            push_mismatch(out, SchemaMismatch::MissingTable { side: SchemaSide::Postgres, table: string_of(&label) });
            return ;
        },
    };
    let mut all_names = column_name_chars(crt);
    let mut pg_names = column_name_chars(pgt);
    let ghost a = char_views(all_names@);
    let ghost b = char_views(pg_names@);
    all_names.append(&mut pg_names);
    assert(char_views(all_names@) =~= a + b);
    let names = sort_unique_strings(all_names);
    let ghost nv = char_views(names@);
    let ghost start = mismatch_views(out@);
    let mut i: usize = 0;
    assert(nv.take(0) =~= seq![]);
    assert(start + columns_mismatches(label@, crt@, pgt@, nv.take(0)) =~= start);
    while i < names.len()
        invariant
            i <= names.len(),
            nv == char_views(names@),
            mismatch_views(out@) == start + columns_mismatches(label@, crt@, pgt@, nv.take(i as int)),
        decreases names.len() - i,
    {
        push_column_mismatches(out, &label, crt, pgt, &names[i]);
        assert(nv.take(i + 1).drop_last() == nv.take(i as int));
        assert(nv.take(i + 1).last() == names@[i as int]@);
        assert(mismatch_views(out@) =~= start + columns_mismatches(label@, crt@, pgt@, nv.take(i + 1)));
        i += 1;
    }
    assert(nv.take(names.len() as int) == nv);
    let ghost after_columns = mismatch_views(out@);
    let cpk = primary_key_chars(crt);
    let ppk = primary_key_chars(pgt);
    if !same_strings(&cpk, &ppk) {
        push_mismatch(
            out,
            SchemaMismatch::PrimaryKeyMismatch {
                table: string_of(&label),
                cockroach_columns: strings_of(&cpk),
                postgres_columns: strings_of(&ppk),
            },
        );
    }
    let ghost after_pk = mismatch_views(out@);
    let cu = unique_line_lists(crt);
    let pu = unique_line_lists(pgt);
    if !same_lists(&cu, &pu) {
        push_mismatch(
            out,
            SchemaMismatch::UniqueConstraintMismatch {
                table: string_of(&label),
                cockroach_constraints: nested_strings_of(&cu),
                postgres_constraints: nested_strings_of(&pu),
            },
        );
    }
    let ghost after_uq = mismatch_views(out@);
    let cf = foreign_key_line_list(crt);
    let pf = foreign_key_line_list(pgt);
    if !same_strings(&cf, &pf) {
        push_mismatch(
            out,
            SchemaMismatch::ForeignKeyMismatch {
                table: string_of(&label),
                cockroach_foreign_keys: strings_of(&cf),
                postgres_foreign_keys: strings_of(&pf),
            },
        );
    }
    let ghost after_fk = mismatch_views(out@);
    let ci = index_line_list(crt);
    let pi = index_line_list(pgt);
    if !same_strings(&ci, &pi) {
        push_mismatch(
            out,
            SchemaMismatch::IndexMismatch {
                table: string_of(&label),
                cockroach_indexes: strings_of(&ci),
                postgres_indexes: strings_of(&pi),
            },
        );
    }
    assert(mismatch_views(out@) =~= mismatch_views(old(out)@) + table_mismatches(name@, cr@, pg@));
}

/// The list of differences that made two dumps incompatible.
#[derive(Debug)]
pub struct SchemaMismatchError {
    mismatches: Vec<SchemaMismatch>,
}

impl View for SchemaMismatchError {
    type V = Seq<MismatchView>;

    closed spec fn view(&self) -> Seq<MismatchView> {
        mismatch_views(self.mismatches@)
    }
}

impl SchemaMismatchError {
    pub fn new(mismatches: Vec<SchemaMismatch>) -> (r: Self)
        ensures
            r@ == mismatch_views(mismatches@),
    {
        SchemaMismatchError { mismatches }
    }

    pub fn mismatches(&self) -> (r: &Vec<SchemaMismatch>)
        ensures
            mismatch_views(r@) == self@,
    {
        &self.mismatches
    }
}

/// Compares the selected tables of the two dumps: each selected table once, in name order;
/// the result lists every difference found. Since the result is `selection_mismatches`, it
/// does not depend on tables outside the selection nor on the order in which a table lists
/// its unique constraints, foreign keys or indexes
/// (`lemma_comparison_ignores_constraint_order_and_unselected_tables`).
pub fn compare_selected_tables(
    selected: &Vec<QualifiedTableName>,
    cockroach_schema: &ValidatedSchema,
    postgres_schema: &ValidatedSchema,
) -> (r: Result<(), SchemaMismatchError>)
    ensures
        match r {
            Ok(()) => selection_mismatches(name_views(selected@), cockroach_schema@, postgres_schema@).len() == 0,
            Err(e) => e@ == selection_mismatches(name_views(selected@), cockroach_schema@, postgres_schema@)
                && e@.len() > 0,
        },
{
    let names = sort_unique_names(selected);
    let ghost nv = name_views(names@);
    let mut out: Vec<SchemaMismatch> = Vec::new();
    let mut i: usize = 0;
    assert(nv.take(0) =~= seq![]);
    assert(mismatch_views(out@) =~= seq![]);
    while i < names.len()
        invariant
            i <= names.len(),
            nv == name_views(names@),
            mismatch_views(out@) == tables_mismatches(nv.take(i as int), cockroach_schema@, postgres_schema@),
        decreases names.len() - i,
    {
        push_table_mismatches(&mut out, &names[i], cockroach_schema, postgres_schema);
        assert(nv.take(i + 1).drop_last() == nv.take(i as int));
        assert(nv.take(i + 1).last() == names@[i as int]@);
        i += 1;
    }
    assert(nv.take(names.len() as int) == nv);
    if out.len() == 0 {
        Ok(())
    } else {
        Err(SchemaMismatchError::new(out))
    }
}

/// How a report names a column's nullability.
pub open spec fn nullable_label(b: bool) -> Seq<char> {
    if b {
        "nullable"@
    } else {
        "not-null"@
    }
}

/// Lists of columns as `(a, b), (c)`, or `none`.
pub open spec fn nested_text(v: Seq<Seq<Seq<char>>>) -> Seq<char> {
    if v.len() == 0 {
        "none"@
    } else {
        join(v.map_values(|c: Seq<Seq<char>>| "("@ + join(c, ", "@) + ")"@), ", "@)
    }
}

/// Lines joined by `, `, or `none`.
pub open spec fn structures_text(v: Seq<Seq<char>>) -> Seq<char> {
    if v.len() == 0 {
        "none"@
    } else {
        join(v, ", "@)
    }
}

/// One difference, as a report line says it.
pub open spec fn mismatch_text(m: MismatchView) -> Seq<char> {
    match m {
        MismatchView::MissingTable { side, table } => "missing table on "@ + side_label(side)
            + ": "@ + table,
        MismatchView::MissingColumn { side, table, column } => "missing column on "@ + side_label(
            side,
        ) + ": "@ + table + "."@ + column,
        MismatchView::UnsupportedTypePair { table, column, cockroach_type, postgres_type } =>
            "unsupported type pair for "@ + table + "."@ + column + ": cockroach=`"@
            + cockroach_type + "` postgres=`"@ + postgres_type + "`"@,
        MismatchView::ColumnTypeMismatch { table, column, cockroach_type, postgres_type } =>
            "type mismatch for "@ + table + "."@ + column + ": cockroach=`"@ + cockroach_type
            + "` postgres=`"@ + postgres_type + "`"@,
        MismatchView::NullabilityMismatch {
            table,
            column,
            cockroach_nullable,
            postgres_nullable,
        } => "nullability mismatch for "@ + table + "."@ + column + ": cockroach="@
            + nullable_label(cockroach_nullable) + " postgres="@ + nullable_label(postgres_nullable),
        MismatchView::PrimaryKeyMismatch { table, cockroach_columns, postgres_columns } =>
            "primary key mismatch for "@ + table + ": cockroach=("@ + join(cockroach_columns, ", "@)
            + ") postgres=("@ + join(postgres_columns, ", "@) + ")"@,
        MismatchView::UniqueConstraintMismatch {
            table,
            cockroach_constraints,
            postgres_constraints,
        } => "unique constraint mismatch for "@ + table + ": cockroach="@ + nested_text(
            cockroach_constraints,
        ) + " postgres="@ + nested_text(postgres_constraints),
        MismatchView::ForeignKeyMismatch { table, cockroach_foreign_keys, postgres_foreign_keys } =>
            "foreign key mismatch for "@ + table + ": cockroach="@ + structures_text(
            cockroach_foreign_keys,
        ) + " postgres="@ + structures_text(postgres_foreign_keys),
        MismatchView::IndexMismatch { table, cockroach_indexes, postgres_indexes } =>
            "index mismatch for "@ + table + ": cockroach="@ + structures_text(cockroach_indexes)
            + " postgres="@ + structures_text(postgres_indexes),
    }
}

/// Report lines, one `- ` line per difference.
pub open spec fn report_lines(ms: Seq<MismatchView>) -> Seq<char>
    decreases ms.len(),
{
    if ms.len() == 0 {
        seq![]
    } else {
        report_lines(ms.drop_last()) + "- "@ + mismatch_text(ms.last()) + "\n"@
    }
}

/// The whole report of an incompatible pair of dumps.
pub open spec fn report_text(ms: Seq<MismatchView>) -> Seq<char> {
    "schema compare mismatch:\n"@ + report_lines(ms)
}

fn side_name(side: SchemaSide) -> (r: &'static str)
    ensures
        r@ == side_label(side),
{
    match side {
        SchemaSide::Cockroach => "cockroach",
        SchemaSide::Postgres => "postgres",
    }
}

fn nullable_name(b: bool) -> (r: &'static str)
    ensures
        r@ == nullable_label(b),
{
    if b {
        "nullable"
    } else {
        "not-null"
    }
}

fn render_nested_columns(v: &Vec<Vec<String>>) -> (r: String)
    ensures
        r@ == nested_text(nested_views(v@)),
{
    if v.len() == 0 {
        return String::from_str("none");
    }
    let ghost parts = nested_views(v@).map_values(|c: Seq<Seq<char>>| "("@ + join(c, ", "@) + ")"@);
    let mut items: Vec<String> = Vec::new();
    let mut i: usize = 0;
    while i < v.len()
        invariant
            i <= v.len(),
            items@.len() == i,
            parts == nested_views(v@).map_values(|c: Seq<Seq<char>>| "("@ + join(c, ", "@) + ")"@),
            views(items@) == parts.take(i as int),
        decreases v.len() - i,
    {
        let ghost prev = items@;
        let mut item = String::from_str("(");
        item.append(join_strings(&v[i], ", ").as_str());
        item.append(")");
        items.push(item);
        assert forall|k: int| 0 <= k < i + 1 implies #[trigger] views(items@)[k] == parts.take(i + 1)[k] by {
            if k < i {
                assert(items@[k] == prev[k]);
                assert(views(prev)[k] == parts.take(i as int)[k]);
            }
        }
        assert(views(items@) =~= parts.take(i + 1));
        i += 1;
    }
    assert(parts.take(v.len() as int) == parts);
    join_strings(&items, ", ")
}

fn render_structures(v: &Vec<String>) -> (r: String)
    ensures
        r@ == structures_text(views(v@)),
{
    if v.len() == 0 {
        String::from_str("none")
    } else {
        join_strings(v, ", ")
    }
}

impl SchemaMismatch {
    /// The report line for this difference.
    pub fn render(&self) -> (r: String)
        ensures
            r@ == mismatch_text(self@),
    {
        let mut s = String::new();
        match self {
            SchemaMismatch::MissingTable { side, table } => {
                s.append("missing table on ");
                s.append(side_name(*side));
                s.append(": ");
                s.append(table.as_str());
            },
            SchemaMismatch::MissingColumn { side, table, column } => {
                s.append("missing column on ");
                s.append(side_name(*side));
                s.append(": ");
                s.append(table.as_str());
                s.append(".");
                s.append(column.as_str());
            },
            SchemaMismatch::UnsupportedTypePair { table, column, cockroach_type, postgres_type } => {
                s.append("unsupported type pair for ");
                s.append(table.as_str());
                s.append(".");
                s.append(column.as_str());
                s.append(": cockroach=`");
                s.append(cockroach_type.as_str());
                s.append("` postgres=`");
                s.append(postgres_type.as_str());
                s.append("`");
            },
            SchemaMismatch::ColumnTypeMismatch { table, column, cockroach_type, postgres_type } => {
                s.append("type mismatch for ");
                s.append(table.as_str());
                s.append(".");
                s.append(column.as_str());
                s.append(": cockroach=`");
                s.append(cockroach_type.as_str());
                s.append("` postgres=`");
                s.append(postgres_type.as_str());
                s.append("`");
            },
            SchemaMismatch::NullabilityMismatch {
                table,
                column,
                cockroach_nullable,
                postgres_nullable,
            } => {
                s.append("nullability mismatch for ");
                s.append(table.as_str());
                s.append(".");
                s.append(column.as_str());
                s.append(": cockroach=");
                s.append(nullable_name(*cockroach_nullable));
                s.append(" postgres=");
                s.append(nullable_name(*postgres_nullable));
            },
            SchemaMismatch::PrimaryKeyMismatch { table, cockroach_columns, postgres_columns } => {
                s.append("primary key mismatch for ");
                s.append(table.as_str());
                s.append(": cockroach=(");
                s.append(join_strings(cockroach_columns, ", ").as_str());
                s.append(") postgres=(");
                s.append(join_strings(postgres_columns, ", ").as_str());
                s.append(")");
            },
            SchemaMismatch::UniqueConstraintMismatch {
                table,
                cockroach_constraints,
                postgres_constraints,
            } => {
                s.append("unique constraint mismatch for ");
                s.append(table.as_str());
                s.append(": cockroach=");
                s.append(render_nested_columns(cockroach_constraints).as_str());
                s.append(" postgres=");
                s.append(render_nested_columns(postgres_constraints).as_str());
            },
            SchemaMismatch::ForeignKeyMismatch {
                table,
                cockroach_foreign_keys,
                postgres_foreign_keys,
            } => {
                s.append("foreign key mismatch for ");
                s.append(table.as_str());
                s.append(": cockroach=");
                s.append(render_structures(cockroach_foreign_keys).as_str());
                s.append(" postgres=");
                s.append(render_structures(postgres_foreign_keys).as_str());
            },
            SchemaMismatch::IndexMismatch { table, cockroach_indexes, postgres_indexes } => {
                s.append("index mismatch for ");
                s.append(table.as_str());
                s.append(": cockroach=");
                s.append(render_structures(cockroach_indexes).as_str());
                s.append(" postgres=");
                s.append(render_structures(postgres_indexes).as_str());
            },
        }
        s
    }
}

impl SchemaMismatchError {
    /// The report: a header line, then one `- ` line per difference.
    pub fn render(&self) -> (r: String)
        ensures
            r@ == report_text(self@),
    {
        let mut s = String::from_str("schema compare mismatch:\n");
        let ghost ms = self@;
        let mut i: usize = 0;
        assert(ms.take(0) =~= seq![]);
        while i < self.mismatches.len()
            invariant
                i <= self.mismatches.len(),
                ms == mismatch_views(self.mismatches@),
                s@ == "schema compare mismatch:\n"@ + report_lines(ms.take(i as int)),
            decreases self.mismatches.len() - i,
        {
            s.append("- ");
            s.append(self.mismatches[i].render().as_str());
            s.append("\n");
            assert(ms.take(i + 1).drop_last() == ms.take(i as int));
            assert(ms.take(i + 1).last() == self.mismatches@[i as int]@);
            i += 1;
        }
        assert(ms.take(self.mismatches.len() as int) == ms);
        s
    }
}

/// Why two schema dumps could not be compared, or how they differ.
#[derive(Debug)]
pub enum SchemaCompareError {
    ReadFile { format: &'static str, path: String, message: String },
    MissingMapping { config_path: String, mapping_id: String },
    ParseFile { format: &'static str, path: String, message: String },
    Mismatch(SchemaMismatchError),
}

/// A compare error, as contracts speak of it.
pub enum CompareErrorView {
    ReadFile { format: Seq<char>, path: Seq<char>, message: Seq<char> },
    MissingMapping { config_path: Seq<char>, mapping_id: Seq<char> },
    ParseFile { format: Seq<char>, path: Seq<char>, message: Seq<char> },
    Mismatch(Seq<MismatchView>),
}

impl View for SchemaCompareError {
    type V = CompareErrorView;

    open spec fn view(&self) -> CompareErrorView {
        match self {
            SchemaCompareError::ReadFile { format, path, message } => CompareErrorView::ReadFile {
                format: format@,
                path: path@,
                message: message@,
            },
            SchemaCompareError::MissingMapping { config_path, mapping_id } =>
                CompareErrorView::MissingMapping { config_path: config_path@, mapping_id: mapping_id@ },
            SchemaCompareError::ParseFile { format, path, message } => CompareErrorView::ParseFile {
                format: format@,
                path: path@,
                message: message@,
            },
            SchemaCompareError::Mismatch(e) => CompareErrorView::Mismatch(e@),
        }
    }
}

/// The message of a compare error.
pub open spec fn compare_error_text(e: CompareErrorView) -> Seq<char> {
    match e {
        CompareErrorView::ReadFile { format, path, .. } => "failed to read "@ + format
            + " schema file `"@ + path + "`"@,
        CompareErrorView::MissingMapping { config_path, mapping_id } => "missing mapping `"@
            + mapping_id + "` in config `"@ + config_path + "`"@,
        CompareErrorView::ParseFile { format, path, message } => "failed to parse "@ + format
            + " schema file `"@ + path + "`: "@ + message,
        CompareErrorView::Mismatch(ms) => report_text(ms),
    }
}

impl SchemaCompareError {
    /// The error's message.
    pub fn render(&self) -> (r: String)
        ensures
            r@ == compare_error_text(self@),
    {
        match self {
            SchemaCompareError::ReadFile { format, path, .. } => {
                let mut s = String::from_str("failed to read ");
                s.append(format);
                s.append(" schema file `");
                s.append(path.as_str());
                s.append("`");
                s
            },
            SchemaCompareError::MissingMapping { config_path, mapping_id } => {
                let mut s = String::from_str("missing mapping `");
                s.append(mapping_id.as_str());
                s.append("` in config `");
                s.append(config_path.as_str());
                s.append("`");
                s
            },
            SchemaCompareError::ParseFile { format, path, message } => {
                let mut s = String::from_str("failed to parse ");
                s.append(format);
                s.append(" schema file `");
                s.append(path.as_str());
                s.append("`: ");
                s.append(message.as_str());
                s
            },
            SchemaCompareError::Mismatch(e) => e.render(),
        }
    }
}

/// Reads the tables of a CockroachDB schema dump (`path` names the file in errors).
pub fn parse_cockroach_export(contents: &str, path: &str) -> (r: Result<ValidatedSchema, SchemaCompareError>)
    ensures
        match (parsed_cockroach(contents@), r) {
            (Ok(m), Ok(s)) => s@ == m,
            (Err(e), Err(x)) => x@ == (CompareErrorView::ParseFile {
                format: "cockroach"@,
                path: path@,
                message: e,
            }),
            _ => false,
        },
{
    let v = chars_of(contents);
    let stmts = match extract_cockroach_statements(&v) {
        Some(x) => x,
        None => {
            return Err(
                SchemaCompareError::ParseFile {
                    format: "cockroach",
                    path: String::from_str(path),
                    message: String::from_str("unterminated quoted CREATE TABLE statement"),
                },
            );
        },
    };
    match apply_statements(&stmts) {
        Ok(s) => Ok(s),
        Err(message) => Err(
            SchemaCompareError::ParseFile { format: "cockroach", path: String::from_str(path), message },
        ),
    }
}

/// Reads the tables of a PostgreSQL schema dump (`path` names the file in errors).
pub fn parse_postgres_export(contents: &str, path: &str) -> (r: Result<ValidatedSchema, SchemaCompareError>)
    ensures
        match (parsed_postgres(contents@), r) {
            (Ok(m), Ok(s)) => s@ == m,
            (Err(e), Err(x)) => x@ == (CompareErrorView::ParseFile {
                format: "postgres"@,
                path: path@,
                message: e,
            }),
            _ => false,
        },
{
    let v = chars_of(contents);
    let stmts = extract_postgres_statements(&v);
    match apply_statements(&stmts) {
        Ok(s) => Ok(s),
        Err(message) => Err(
            SchemaCompareError::ParseFile { format: "postgres", path: String::from_str(path), message },
        ),
    }
}

/// The outcome of reading a file, as contracts speak of it.
pub open spec fn read_view(r: Result<String, String>) -> Result<Seq<char>, Seq<char>> {
    match r {
        Ok(c) => Ok(c@),
        Err(m) => Err(m@),
    }
}

/// The tables a mapping selects, as names.
pub open spec fn selected_names(m: MappingConfig) -> Seq<(Seq<char>, Seq<char>)> {
    m.source_spec().tables.map_values(|t: Seq<char>| config_table_name(t))
}

/// The number of distinct tables of either dump that the mapping does not select.
pub open spec fn ignored_count(
    crm: SchemaMap,
    pgm: SchemaMap,
    selected: Seq<(Seq<char>, Seq<char>)>,
) -> nat {
    crm.dom().union(pgm.dom()).filter(|k: (Seq<char>, Seq<char>)| !selected.contains(k)).len()
}

/// A mapping whose dumps agree, as contracts speak of it.
pub struct ValidatedMappingView {
    pub mapping_id: Seq<char>,
    pub selected_tables: Seq<(Seq<char>, Seq<char>)>,
    pub postgres_schema: SchemaMap,
    pub ignored_tables: nat,
}

/// What checking a mapping's two dumps gives: the mapping is looked up, the CockroachDB dump
/// read and parsed, then the PostgreSQL one, then the selected tables compared.
pub open spec fn validation_outcome(
    loaded: LoadedRunnerConfig,
    mapping_id: Seq<char>,
    cockroach_path: Seq<char>,
    cockroach_dump: Result<Seq<char>, Seq<char>>,
    postgres_path: Seq<char>,
    postgres_dump: Result<Seq<char>, Seq<char>>,
) -> Result<ValidatedMappingView, CompareErrorView> {
    match mapping_named(loaded.config_spec().mappings_spec(), mapping_id) {
        None => Err(
            CompareErrorView::MissingMapping { config_path: loaded.path_spec(), mapping_id },
        ),
        Some(m) => match cockroach_dump {
            Err(msg) => Err(
                CompareErrorView::ReadFile { format: "cockroach"@, path: cockroach_path, message: msg },
            ),
            Ok(c) => match parsed_cockroach(c) {
                Err(e) => Err(
                    CompareErrorView::ParseFile { format: "cockroach"@, path: cockroach_path, message: e },
                ),
                Ok(crm) => match postgres_dump {
                    Err(msg) => Err(
                        CompareErrorView::ReadFile { format: "postgres"@, path: postgres_path, message: msg },
                    ),
                    Ok(p) => match parsed_postgres(p) {
                        Err(e) => Err(
                            CompareErrorView::ParseFile { format: "postgres"@, path: postgres_path, message: e },
                        ),
                        Ok(pgm) => {
                            let selected = selected_names(m);
                            let mism = selection_mismatches(selected, crm, pgm);
                            if mism.len() > 0 {
                                Err(CompareErrorView::Mismatch(mism))
                            } else {
                                Ok(
                                    ValidatedMappingView {
                                        mapping_id,
                                        selected_tables: selected,
                                        postgres_schema: pgm.restrict(selected.to_set()),
                                        ignored_tables: ignored_count(crm, pgm, selected),
                                    },
                                )
                            }
                        },
                    },
                },
            },
        },
    }
}

/// A mapping whose two dumps agree on the selected tables.
pub struct ValidatedMappingSchema {
    mapping_id: String,
    selected_tables: Vec<QualifiedTableName>,
    postgres_schema: ValidatedSchema,
    ignored_tables: usize,
}

impl View for ValidatedMappingSchema {
    type V = ValidatedMappingView;

    closed spec fn view(&self) -> ValidatedMappingView {
        ValidatedMappingView {
            mapping_id: self.mapping_id@,
            selected_tables: name_views(self.selected_tables@),
            postgres_schema: self.postgres_schema@,
            ignored_tables: self.ignored_tables as nat,
        }
    }
}

impl ValidatedMappingSchema {
    pub fn mapping_id(&self) -> (r: &str)
        ensures
            r@ == self@.mapping_id,
    {
        self.mapping_id.as_str()
    }

    pub fn selected_tables(&self) -> (r: &Vec<QualifiedTableName>)
        ensures
            name_views(r@) == self@.selected_tables,
    {
        &self.selected_tables
    }

    pub fn postgres_schema(&self) -> (r: &ValidatedSchema)
        ensures
            r@ == self@.postgres_schema,
    {
        &self.postgres_schema
    }

    pub fn ignored_tables(&self) -> (r: usize)
        ensures
            r == self@.ignored_tables,
    {
        self.ignored_tables
    }
}

fn contains_name(v: &Vec<QualifiedTableName>, x: &QualifiedTableName) -> (r: bool)
    ensures
        r == name_views(v@).contains(x@),
{
    let mut i: usize = 0;
    while i < v.len()
        invariant
            i <= v.len(),
            forall|k: int| 0 <= k < i ==> name_views(v@)[k] != x@,
        decreases v.len() - i,
    {
        if v[i].same(x) {
            assert(name_views(v@)[i as int] == x@);
            return true;
        }
        i += 1;
    }
    false
}

/// Counts the distinct names of `all` that `selected` does not hold.
fn count_unselected(all: &Vec<QualifiedTableName>, selected: &Vec<QualifiedTableName>) -> (r: usize)
    ensures
        r == name_views(all@).to_set().filter(
            |k: (Seq<char>, Seq<char>)| !name_views(selected@).contains(k),
        ).len(),
{
    let ghost sel = name_views(selected@);
    let ghost p = |k: (Seq<char>, Seq<char>)| !sel.contains(k);
    let ghost av = name_views(all@);
    let mut seen: Vec<QualifiedTableName> = Vec::new();
    let mut i: usize = 0;
    assert(av.take(0).to_set().filter(p) =~= name_views(seen@).to_set());
    while i < all.len()
        invariant
            i <= all.len(),
            sel == name_views(selected@),
            av == name_views(all@),
            p == (|k: (Seq<char>, Seq<char>)| !sel.contains(k)),
            name_views(seen@).no_duplicates(),
            name_views(seen@).to_set() == av.take(i as int).to_set().filter(p),
            seen@.len() <= i,
        decreases all.len() - i,
    {
        let x = &all[i];
        let ghost before = name_views(seen@);
        assert(av[i as int] == x@);
        if !contains_name(selected, x) && !contains_name(&seen, x) {
            seen.push(x.clone());
            assert(name_views(seen@) == before.push(x@));
        }
        assert(name_views(seen@).to_set() =~= av.take(i + 1).to_set().filter(p)) by {
            let t1 = av.take(i + 1);
            let t0 = av.take(i as int);
            assert(t1 == t0.push(x@));
            assert forall|k: (Seq<char>, Seq<char>)| t1.contains(k) == (t0.contains(k) || k == x@) by {
                if t1.contains(k) {
                    let w = choose|w: int| 0 <= w < t1.len() && t1[w] == k;
                    if w < i {
                        assert(t0[w] == k);
                    }
                }
                if t0.contains(k) {
                    let w = choose|w: int| 0 <= w < t0.len() && t0[w] == k;
                    assert(t1[w] == k);
                }
                if k == x@ {
                    assert(t1[i as int] == k);
                }
            }
            let now = name_views(seen@);
            assert forall|k: (Seq<char>, Seq<char>)| now.contains(k) == (before.contains(k) || (k == x@ && p(k))) by {
                if now.contains(k) && !before.contains(k) {
                    let w = choose|w: int| 0 <= w < now.len() && now[w] == k;
                    if w < before.len() {
                        assert(before[w] == k);
                    }
                }
                if before.contains(k) {
                    let w = choose|w: int| 0 <= w < before.len() && before[w] == k;
                    assert(now[w] == k);
                }
                if k == x@ && p(k) && !before.contains(k) {
                    assert(now[before.len() as int] == k);
                }
            }
            assert forall|k: (Seq<char>, Seq<char>)| now.to_set().contains(k) == t1.to_set().filter(p).contains(k) by {
                assert(t1.to_set().filter(p).contains(k) == (t1.contains(k) && p(k)));
                assert(t0.to_set().filter(p).contains(k) == (t0.contains(k) && p(k)));
                assert(before.to_set().contains(k) == t0.to_set().filter(p).contains(k));
            }
        }
        i += 1;
    }
    assert(av.take(all.len() as int) == av);
    proof {
        name_views(seen@).unique_seq_to_set();
    }
    seen.len()
}

/// The tables of `pg` that `names` selects (the rest of `pg` is dropped).
fn select_tables(pg: ValidatedSchema, names: &Vec<QualifiedTableName>) -> (r: ValidatedSchema)
    ensures
        r@ == pg@.restrict(name_views(names@).to_set()),
{
    let ghost pgm = pg@;
    let ghost nv = name_views(names@);
    let mut rest = pg;
    let mut out = ValidatedSchema::new();
    let mut i: usize = 0;
    assert(out@ =~= pgm.restrict(nv.take(0).to_set()));
    while i < names.len()
        invariant
            i <= names.len(),
            nv == name_views(names@),
            out@ == pgm.restrict(nv.take(i as int).to_set()),
            forall|k: (Seq<char>, Seq<char>)| !nv.take(i as int).contains(k) ==> (#[trigger] rest@.contains_key(k)
                == pgm.contains_key(k) && (rest@.contains_key(k) ==> rest@[k] == pgm[k])),
            forall|k: (Seq<char>, Seq<char>)| nv.take(i as int).contains(k) ==> !(#[trigger] rest@.contains_key(k)),
        decreases names.len() - i,
    {
        let name = &names[i];
        let ghost t0 = nv.take(i as int);
        let ghost t1 = nv.take(i + 1);
        assert(t1 == t0.push(name@));
        assert(nv[i as int] == name@);
        assert forall|k: (Seq<char>, Seq<char>)| t1.contains(k) == (t0.contains(k) || k == name@) by {
            if t1.contains(k) {
                let w = choose|w: int| 0 <= w < t1.len() && t1[w] == k;
                if w < i {
                    assert(t0[w] == k);
                }
            }
            if t0.contains(k) {
                let w = choose|w: int| 0 <= w < t0.len() && t0[w] == k;
                assert(t1[w] == k);
            }
            if k == name@ {
                assert(t1[i as int] == k);
            }
        }
        let ghost rest0 = rest@;
        let ghost out0 = out@;
        match rest.take_table(name) {
            Some(t) => {
                let ghost tv = t@;
                let n = name.clone();
                out.insert_table(n, t);
                assert(out@ =~= pgm.restrict(t1.to_set()));
            },
            None => {
                assert(out@ =~= pgm.restrict(t1.to_set()));
            },
        }
        i += 1;
    }
    assert(nv.take(names.len() as int) == nv);
    out
}

/// The tables a mapping selects, read from its config entries.
fn selected_tables_of(m: &MappingConfig) -> (r: Vec<QualifiedTableName>)
    ensures
        name_views(r@) == selected_names(*m),
{
    let tables = m.source().tables();
    let ghost want = selected_names(*m);
    let mut r: Vec<QualifiedTableName> = Vec::new();
    let mut i: usize = 0;
    while i < tables.len()
        invariant
            i <= tables.len(),
            r@.len() == i,
            views(tables@) == m.source_spec().tables,
            want == selected_names(*m),
            name_views(r@) == want.take(i as int),
        decreases tables.len() - i,
    {
        let ghost prev = r@;
        r.push(QualifiedTableName::from_config(tables[i].as_str()));
        assert(m.source_spec().tables[i as int] == tables@[i as int]@);
        assert forall|k: int| 0 <= k < i + 1 implies #[trigger] name_views(r@)[k] == want.take(i + 1)[k] by {
            if k < i {
                assert(r@[k] == prev[k]);
                assert(name_views(prev)[k] == want.take(i as int)[k]);
            }
        }
        assert(name_views(r@) =~= want.take(i + 1));
        i += 1;
    }
    assert(want.take(tables.len() as int) == want);
    r
}

/// Checks a mapping's two schema dumps: finds the mapping, reads the CockroachDB dump, then
/// the PostgreSQL dump (each given as the outcome of reading its file), and compares the
/// selected tables.
pub fn validate_mapping_exports(
    loaded: &LoadedRunnerConfig,
    mapping_id: &str,
    cockroach_path: &str,
    cockroach_dump: Result<String, String>,
    postgres_path: &str,
    postgres_dump: Result<String, String>,
) -> (r: Result<ValidatedMappingSchema, SchemaCompareError>)
    ensures
        match (
            validation_outcome(
                *loaded,
                mapping_id@,
                cockroach_path@,
                read_view(cockroach_dump),
                postgres_path@,
                read_view(postgres_dump),
            ),
            r,
        ) {
            (Ok(v), Ok(x)) => x@ == v,
            (Err(e), Err(x)) => x@ == e,
            _ => false,
        },
{
    let mapping = match loaded.config().mapping(mapping_id) {
        Some(m) => m,
        None => {
            return Err(
                SchemaCompareError::MissingMapping {
                    config_path: String::from_str(loaded.path()),
                    mapping_id: String::from_str(mapping_id),
                },
            );
        },
    };
    let selected = selected_tables_of(mapping);
    let cockroach_schema = match cockroach_dump {
        Err(message) => {
            return Err(
                SchemaCompareError::ReadFile {
                    format: "cockroach",
                    path: String::from_str(cockroach_path),
                    message,
                },
            );
        },
        Ok(contents) => match parse_cockroach_export(contents.as_str(), cockroach_path) {
            Ok(s) => s,
            Err(e) => {
                return Err(e);
            },
        },
    };
    let postgres_schema = match postgres_dump {
        Err(message) => {
            return Err(
                SchemaCompareError::ReadFile {
                    format: "postgres",
                    path: String::from_str(postgres_path),
                    message,
                },
            );
        },
        Ok(contents) => match parse_postgres_export(contents.as_str(), postgres_path) {
            Ok(s) => s,
            Err(e) => {
                return Err(e);
            },
        },
    };
    match compare_selected_tables(&selected, &cockroach_schema, &postgres_schema) {
        Ok(()) => {},
        Err(e) => {
            return Err(SchemaCompareError::Mismatch(e));
        },
    }
    let mut all = cockroach_schema.table_names();
    let mut more = postgres_schema.table_names();
    let ghost a = name_views(all@);
    let ghost b = name_views(more@);
    all.append(&mut more);
    let ignored = count_unselected(&all, &selected);
    proof {
        assert(name_views(all@) =~= a + b);
        assert(name_views(all@).to_set() =~= cockroach_schema@.dom().union(postgres_schema@.dom())) by {
            assert forall|k: (Seq<char>, Seq<char>)| name_views(all@).contains(k) == (a.contains(k) || b.contains(k)) by {
                let ab = name_views(all@);
                if ab.contains(k) {
                    let w = choose|w: int| 0 <= w < ab.len() && ab[w] == k;
                    if w < a.len() {
                        assert(a[w] == k);
                    } else {
                        assert(b[w - a.len()] == k);
                    }
                }
                if a.contains(k) {
                    let w = choose|w: int| 0 <= w < a.len() && a[w] == k;
                    assert(ab[w] == k);
                }
                if b.contains(k) {
                    let w = choose|w: int| 0 <= w < b.len() && b[w] == k;
                    assert(ab[w + a.len()] == k);
                }
            }
        }
    }
    let restricted = select_tables(postgres_schema, &selected);
    Ok(
        ValidatedMappingSchema {
            mapping_id: String::from_str(mapping_id),
            selected_tables: selected,
            postgres_schema: restricted,
            ignored_tables: ignored,
        },
    )
}

/// The outcome of a schema check that passed.
pub struct SchemaCompareSummary {
    mapping_id: String,
    compared_tables: usize,
    ignored_tables: usize,
}

/// `schema compatible: mapping=.. tables=.. ignored_tables=..`
pub open spec fn summary_text(mapping_id: Seq<char>, compared: nat, ignored: nat) -> Seq<char> {
    "schema compatible: mapping="@ + mapping_id + " tables="@ + crate::text::decimal(compared)
        + " ignored_tables="@ + crate::text::decimal(ignored)
}

impl SchemaCompareSummary {
    pub closed spec fn mapping_id_spec(&self) -> Seq<char> {
        self.mapping_id@
    }

    pub closed spec fn compared_spec(&self) -> nat {
        self.compared_tables as nat
    }

    pub closed spec fn ignored_spec(&self) -> nat {
        self.ignored_tables as nat
    }

    /// The summary line.
    pub fn render(&self) -> (r: String)
        ensures
            r@ == summary_text(self.mapping_id_spec(), self.compared_spec(), self.ignored_spec()),
    {
        let mut s = String::from_str("schema compatible: mapping=");
        s.append(self.mapping_id.as_str());
        s.append(" tables=");
        crate::text::push_decimal(&mut s, self.compared_tables as u64);
        s.append(" ignored_tables=");
        crate::text::push_decimal(&mut s, self.ignored_tables as u64);
        s
    }
}

/// Checks a mapping's two schema dumps and summarises the check: the mapping, how many table
/// entries it selects, and how many tables of the dumps it ignores.
pub fn compare_mapping_exports(
    loaded: &LoadedRunnerConfig,
    mapping_id: &str,
    cockroach_path: &str,
    cockroach_dump: Result<String, String>,
    postgres_path: &str,
    postgres_dump: Result<String, String>,
) -> (r: Result<SchemaCompareSummary, SchemaCompareError>)
    ensures
        match (
            validation_outcome(
                *loaded,
                mapping_id@,
                cockroach_path@,
                read_view(cockroach_dump),
                postgres_path@,
                read_view(postgres_dump),
            ),
            r,
        ) {
            (Ok(v), Ok(x)) => x.mapping_id_spec() == v.mapping_id && x.compared_spec()
                == v.selected_tables.len() && x.ignored_spec() == v.ignored_tables,
            (Err(e), Err(x)) => x@ == e,
            _ => false,
        },
{
    match validate_mapping_exports(
        loaded,
        mapping_id,
        cockroach_path,
        cockroach_dump,
        postgres_path,
        postgres_dump,
    ) {
        Ok(v) => Ok(
            SchemaCompareSummary {
                mapping_id: String::from_str(v.mapping_id()),
                compared_tables: v.selected_tables().len(),
                ignored_tables: v.ignored_tables(),
            },
        ),
        Err(e) => Err(e),
    }
}

proof fn lemma_tables_mismatches_include(
    names: Seq<(Seq<char>, Seq<char>)>,
    crm: SchemaMap,
    pgm: SchemaMap,
    n: (Seq<char>, Seq<char>),
    m: MismatchView,
)
    requires
        names.contains(n),
        table_mismatches(n, crm, pgm).contains(m),
    ensures
        tables_mismatches(names, crm, pgm).contains(m),
    decreases names.len(),
{
    let d = names.drop_last();
    let all = tables_mismatches(names, crm, pgm);
    let head = tables_mismatches(d, crm, pgm);
    let tail = table_mismatches(names.last(), crm, pgm);
    assert(all == head + tail);
    if names.last() == n {
        let w = choose|w: int| 0 <= w < tail.len() && tail[w] == m;
        assert(all[head.len() + w] == m);
    } else {
        let w = choose|w: int| 0 <= w < names.len() && names[w] == n;
        assert(w < d.len());
        assert(d[w] == n);
        lemma_tables_mismatches_include(d, crm, pgm, n, m);
        let v = choose|v: int| 0 <= v < head.len() && head[v] == m;
        assert(all[v] == m);
    }
}

/// A selected table that the CockroachDB dump lacks is reported missing on that side; one
/// that only the PostgreSQL dump lacks is reported missing there.
pub proof fn lemma_missing_selected_table_reported(
    selected: Seq<(Seq<char>, Seq<char>)>,
    crm: SchemaMap,
    pgm: SchemaMap,
    n: (Seq<char>, Seq<char>),
)
    requires
        selected.contains(n),
        !crm.contains_key(n) || !pgm.contains_key(n),
    ensures
        selection_mismatches(selected, crm, pgm).contains(
            MismatchView::MissingTable {
                side: if !crm.contains_key(n) {
                    SchemaSide::Cockroach
                } else {
                    SchemaSide::Postgres
                },
                table: table_label(n),
            },
        ),
{
    let names = sort_unique(selected, name_order());
    crate::ordering::lemma_sort_unique_contains(selected, name_order(), n);
    let m = MismatchView::MissingTable {
        side: if !crm.contains_key(n) {
            SchemaSide::Cockroach
        } else {
            SchemaSide::Postgres
        },
        table: table_label(n),
    };
    assert(table_mismatches(n, crm, pgm)[0] == m);
    lemma_tables_mismatches_include(names, crm, pgm, n, m);
}

proof fn lemma_tables_mismatches_local(
    names: Seq<(Seq<char>, Seq<char>)>,
    crm: SchemaMap,
    pgm: SchemaMap,
    crm2: SchemaMap,
    pgm2: SchemaMap,
)
    requires
        forall|k: (Seq<char>, Seq<char>)| #[trigger] names.contains(k) ==> crm.contains_key(k) == crm2.contains_key(k)
            && pgm.contains_key(k) == pgm2.contains_key(k) && (crm.contains_key(k) ==> crm[k] == crm2[k])
            && (pgm.contains_key(k) ==> pgm[k] == pgm2[k]),
    ensures
        tables_mismatches(names, crm, pgm) == tables_mismatches(names, crm2, pgm2),
    decreases names.len(),
{
    if names.len() > 0 {
        let d = names.drop_last();
        assert forall|k: (Seq<char>, Seq<char>)| #[trigger] d.contains(k) implies names.contains(k) by {
            let w = choose|w: int| 0 <= w < d.len() && d[w] == k;
            assert(names[w] == k);
        }
        lemma_tables_mismatches_local(d, crm, pgm, crm2, pgm2);
        assert(names.contains(names.last())) by {
            assert(names[names.len() - 1] == names.last());
        }
        assert(table_mismatches(names.last(), crm, pgm) == table_mismatches(names.last(), crm2, pgm2));
    }
}

/// Tables the mapping does not select never change the outcome: dumps that agree on the
/// selected tables compare alike.
pub proof fn lemma_unselected_tables_ignored(
    selected: Seq<(Seq<char>, Seq<char>)>,
    crm: SchemaMap,
    pgm: SchemaMap,
    crm2: SchemaMap,
    pgm2: SchemaMap,
)
    requires
        forall|k: (Seq<char>, Seq<char>)| #[trigger] selected.contains(k) ==> crm.contains_key(k) == crm2.contains_key(k)
            && pgm.contains_key(k) == pgm2.contains_key(k) && (crm.contains_key(k) ==> crm[k] == crm2[k])
            && (pgm.contains_key(k) ==> pgm[k] == pgm2[k]),
    ensures
        selection_mismatches(selected, crm, pgm) == selection_mismatches(selected, crm2, pgm2),
{
    let names = sort_unique(selected, name_order());
    assert forall|k: (Seq<char>, Seq<char>)| #[trigger] names.contains(k) implies selected.contains(k) by {
        crate::ordering::lemma_sort_unique_contains(selected, name_order(), k);
    }
    lemma_tables_mismatches_local(names, crm, pgm, crm2, pgm2);
}

/// Two tables that are alike but for the order in which they list their unique constraints,
/// foreign keys and indexes. The order of columns, and of primary key columns, still counts.
pub open spec fn alike_but_constraint_order(a: TableView, b: TableView) -> bool {
    &&& a.columns == b.columns
    &&& a.primary_key == b.primary_key
    &&& a.unique_constraints.to_multiset() == b.unique_constraints.to_multiset()
    &&& a.foreign_keys.to_multiset() == b.foreign_keys.to_multiset()
    &&& a.indexes.to_multiset() == b.indexes.to_multiset()
}

proof fn lemma_constraint_lines_alike(a: TableView, b: TableView)
    requires
        alike_but_constraint_order(a, b),
    ensures
        column_names(a) == column_names(b),
        primary_key_columns(a) == primary_key_columns(b),
        unique_lines(a) == unique_lines(b),
        foreign_key_lines(a) == foreign_key_lines(b),
        index_lines(a) == index_lines(b),
{
    lemma_list_order_strict();
    lemma_str_order_strict();
    lemma_sort_by_permutation(a.unique_constraints, b.unique_constraints, list_order());
    let render_fk = |f: ForeignKeyView| render_foreign_key(f);
    lemma_map_values_to_multiset(a.foreign_keys, b.foreign_keys, render_fk);
    lemma_sort_by_permutation(a.foreign_keys.map_values(render_fk), b.foreign_keys.map_values(render_fk), str_order());
    let render_ix = |i: Seq<(Seq<char>, SortDirection)>| render_index(i);
    lemma_map_values_to_multiset(a.indexes, b.indexes, render_ix);
    lemma_sort_by_permutation(a.indexes.map_values(render_ix), b.indexes.map_values(render_ix), str_order());
}

proof fn lemma_columns_mismatches_columns_only(
    table: Seq<char>,
    crt: TableView,
    pgt: TableView,
    crt2: TableView,
    pgt2: TableView,
    names: Seq<Seq<char>>,
)
    requires
        crt.columns == crt2.columns,
        pgt.columns == pgt2.columns,
    ensures
        columns_mismatches(table, crt, pgt, names) == columns_mismatches(table, crt2, pgt2, names),
    decreases names.len(),
{
    if names.len() > 0 {
        lemma_columns_mismatches_columns_only(table, crt, pgt, crt2, pgt2, names.drop_last());
        assert(column_mismatches(table, crt, pgt, names.last()) == column_mismatches(
            table,
            crt2,
            pgt2,
            names.last(),
        ));
    }
}

proof fn lemma_tables_mismatches_alike(
    names: Seq<(Seq<char>, Seq<char>)>,
    crm: SchemaMap,
    pgm: SchemaMap,
    crm2: SchemaMap,
    pgm2: SchemaMap,
)
    requires
        forall|k: (Seq<char>, Seq<char>)| #[trigger] names.contains(k) ==> crm.contains_key(k) == crm2.contains_key(k)
            && pgm.contains_key(k) == pgm2.contains_key(k) && (crm.contains_key(k)
            ==> alike_but_constraint_order(crm[k], crm2[k])) && (pgm.contains_key(k)
            ==> alike_but_constraint_order(pgm[k], pgm2[k])),
    ensures
        tables_mismatches(names, crm, pgm) == tables_mismatches(names, crm2, pgm2),
    decreases names.len(),
{
    if names.len() > 0 {
        let d = names.drop_last();
        assert forall|k: (Seq<char>, Seq<char>)| #[trigger] d.contains(k) implies names.contains(k) by {
            let w = choose|w: int| 0 <= w < d.len() && d[w] == k;
            assert(names[w] == k);
        }
        lemma_tables_mismatches_alike(d, crm, pgm, crm2, pgm2);
        let n = names.last();
        assert(names.contains(n)) by {
            assert(names[names.len() - 1] == n);
        }
        if crm.contains_key(n) && pgm.contains_key(n) {
            lemma_constraint_lines_alike(crm[n], crm2[n]);
            lemma_constraint_lines_alike(pgm[n], pgm2[n]);
            let names_n = sort_unique(column_names(crm[n]) + column_names(pgm[n]), str_order());
            lemma_columns_mismatches_columns_only(table_label(n), crm[n], pgm[n], crm2[n], pgm2[n], names_n);
        }
        assert(table_mismatches(n, crm, pgm) == table_mismatches(n, crm2, pgm2));
    }
}

/// The comparison does not depend on the order in which a selected table lists its unique
/// constraints, foreign keys or indexes, nor on the tables that the mapping does not select.
pub proof fn lemma_comparison_ignores_constraint_order_and_unselected_tables(
    selected: Seq<(Seq<char>, Seq<char>)>,
    crm: SchemaMap,
    pgm: SchemaMap,
    crm2: SchemaMap,
    pgm2: SchemaMap,
)
    requires
        forall|k: (Seq<char>, Seq<char>)| #[trigger] selected.contains(k) ==> crm.contains_key(k) == crm2.contains_key(k)
            && pgm.contains_key(k) == pgm2.contains_key(k) && (crm.contains_key(k)
            ==> alike_but_constraint_order(crm[k], crm2[k])) && (pgm.contains_key(k)
            ==> alike_but_constraint_order(pgm[k], pgm2[k])),
    ensures
        selection_mismatches(selected, crm, pgm) == selection_mismatches(selected, crm2, pgm2),
{
    let names = sort_unique(selected, name_order());
    assert forall|k: (Seq<char>, Seq<char>)| #[trigger] names.contains(k) implies selected.contains(k) by {
        crate::ordering::lemma_sort_unique_contains(selected, name_order(), k);
    }
    lemma_tables_mismatches_alike(names, crm, pgm, crm2, pgm2);
}

} // verus!
