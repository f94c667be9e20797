//! The shape of a destination table, assembled from what PostgreSQL's catalog reports.
use vstd::prelude::*;

use crate::schema::{
    ColumnSchema, ColumnView, ForeignKeyAction, ForeignKeyShape, ForeignKeyView, PrimaryKeyShape,
    QualifiedTableName, SqlIdentifier, TableSchema, TableView, ident_views,
};
use crate::text::{str_eq, views};

verus! {

/// Why a destination table's shape could not be read.
#[derive(Debug)]
pub enum RunnerDestinationCatalogError {
    Connect { mapping_id: String, endpoint: String, message: String },
    ReadCatalog { mapping_id: String, database: String, table: String, message: String },
    MissingTable { mapping_id: String, database: String, table: String },
    UnsupportedForeignKeyAction { mapping_id: String, database: String, table: String, action: String },
    IncompleteForeignKeyMetadata { mapping_id: String, database: String, table: String },
}

/// A column as the catalog lists it.
pub struct CatalogColumn {
    pub name: String,
    pub data_type: String,
    pub nullable: bool,
    pub generated: bool,
}

/// A foreign key as the catalog lists it; `on_delete` is PostgreSQL's action code.
pub struct CatalogForeignKey {
    pub columns: Vec<String>,
    pub referenced_schema: Option<String>,
    pub referenced_table: Option<String>,
    pub referenced_columns: Vec<String>,
    pub on_delete: String,
}

/// The `ON DELETE` action behind PostgreSQL's code; `SET DEFAULT` and unknown codes have none.
pub open spec fn action_of(code: Seq<char>) -> Option<ForeignKeyAction> {
    if code == "a"@ {
        Some(ForeignKeyAction::NoAction)
    } else if code == "r"@ {
        Some(ForeignKeyAction::Restrict)
    } else if code == "c"@ {
        Some(ForeignKeyAction::Cascade)
    } else if code == "n"@ {
        Some(ForeignKeyAction::SetNull)
    } else {
        None
    }
}

/// A foreign key names its referenced table and pairs each column with a referenced one.
pub open spec fn fk_complete(fk: CatalogForeignKey) -> bool {
    &&& fk.referenced_schema is Some
    &&& fk.referenced_table is Some
    &&& fk.columns@.len() > 0
    &&& fk.columns@.len() == fk.referenced_columns@.len()
}

/// What is wrong with a foreign key.
pub enum FkProblem {
    Incomplete,
    Unsupported(Seq<char>),
}

pub open spec fn fk_view(fk: CatalogForeignKey) -> Result<ForeignKeyView, FkProblem> {
    if !fk_complete(fk) {
        Err(FkProblem::Incomplete)
    } else {
        match action_of(fk.on_delete@) {
            None => Err(FkProblem::Unsupported(fk.on_delete@)),
            Some(a) => Ok(
                ForeignKeyView {
                    columns: views(fk.columns@),
                    referenced_table: (fk.referenced_schema->0@, fk.referenced_table->0@),
                    referenced_columns: views(fk.referenced_columns@),
                    on_delete: a,
                },
            ),
        }
    }
}

/// The foreign keys in order, or the problem of the first one that has one.
pub open spec fn fk_views(fks: Seq<CatalogForeignKey>) -> Result<Seq<ForeignKeyView>, FkProblem>
    decreases fks.len(),
{
    if fks.len() == 0 {
        Ok(seq![])
    } else {
        match fk_views(fks.drop_last()) {
            Err(p) => Err(p),
            Ok(prev) => match fk_view(fks.last()) {
                Err(p) => Err(p),
                Ok(v) => Ok(prev.push(v)),
            },
        }
    }
}

pub open spec fn catalog_column_view(c: CatalogColumn) -> ColumnView {
    ColumnView { name: c.name@, raw_type: c.data_type@, nullable: c.nullable, generated: c.generated }
}

/// The table the catalog describes: its columns in order, its primary key when it has
/// key columns, and its foreign keys.
pub open spec fn catalog_table(
    columns: Seq<CatalogColumn>,
    primary_key: Seq<String>,
    foreign_keys: Seq<ForeignKeyView>,
) -> TableView {
    TableView {
        columns: columns.map_values(|c: CatalogColumn| catalog_column_view(c)),
        primary_key: if primary_key.len() > 0 {
            Some(views(primary_key))
        } else {
            None
        },
        foreign_keys,
        unique_constraints: seq![],
        indexes: seq![],
    }
}

fn action_from_code(code: &str) -> (r: Option<ForeignKeyAction>)
    ensures
        r == action_of(code@),
{
    if str_eq(code, "a") {
        Some(ForeignKeyAction::NoAction)
    } else if str_eq(code, "r") {
        Some(ForeignKeyAction::Restrict)
    } else if str_eq(code, "c") {
        Some(ForeignKeyAction::Cascade)
    } else if str_eq(code, "n") {
        Some(ForeignKeyAction::SetNull)
    } else {
        None
    }
}

fn identifiers(names: &Vec<String>) -> (r: Vec<SqlIdentifier>)
    ensures
        ident_views(r@) == views(names@),
{
    let mut r: Vec<SqlIdentifier> = Vec::new();
    let mut i: usize = 0;
    while i < names.len()
        invariant
            i <= names.len(),
            ident_views(r@) == views(names@).take(i as int),
            r@.len() == i,
        decreases names.len() - i,
    {
        let ghost prev = r@;
        r.push(SqlIdentifier::new(names[i].as_str()));
        assert forall|j: int| 0 <= j < i + 1 implies #[trigger] ident_views(r@)[j] == views(names@).take(i + 1)[j] by {
            if j < i {
                assert(r@[j] == prev[j]);
                assert(ident_views(prev)[j] == views(names@).take(i as int)[j]);
            }
        }
        assert(ident_views(r@) =~= views(names@).take(i + 1));
        i += 1;
    }
    assert(views(names@).take(names.len() as int) =~= views(names@));
    r
}

/// Assembles a destination table from the catalog's rows: a table without columns is
/// missing; a foreign key without its referenced table or with unpaired columns is
/// incomplete; an `ON DELETE` action other than no action, restrict, cascade and set null
/// is unsupported.
pub fn table_from_catalog(
    mapping_id: &str,
    database: &str,
    table: &str,
    columns: Vec<CatalogColumn>,
    primary_key: Vec<String>,
    foreign_keys: Vec<CatalogForeignKey>,
) -> (r: Result<TableSchema, RunnerDestinationCatalogError>)
    ensures
        columns@.len() == 0 ==> (r matches Err(RunnerDestinationCatalogError::MissingTable {
            mapping_id: m,
            database: d,
            table: t,
        }) && m@ == mapping_id@ && d@ == database@ && t@ == table@),
        columns@.len() > 0 ==> match fk_views(foreign_keys@) {
            Ok(fks) => r matches Ok(s) && s@ == catalog_table(columns@, primary_key@, fks),
            Err(FkProblem::Incomplete) => r matches Err(
                RunnerDestinationCatalogError::IncompleteForeignKeyMetadata {
                    mapping_id: m,
                    database: d,
                    table: t,
                },
            ) && m@ == mapping_id@ && d@ == database@ && t@ == table@,
            Err(FkProblem::Unsupported(code)) => r matches Err(
                RunnerDestinationCatalogError::UnsupportedForeignKeyAction {
                    mapping_id: m,
                    database: d,
                    table: t,
                    action: a,
                },
            ) && m@ == mapping_id@ && d@ == database@ && t@ == table@ && a@ == code,
        },
{
    if columns.len() == 0 {
        return Err(
            RunnerDestinationCatalogError::MissingTable {
                mapping_id: String::from_str(mapping_id),
                database: String::from_str(database),
                table: String::from_str(table),
            },
        );
    }
    let mut schema = TableSchema::new();
    let ghost col_view = |c: CatalogColumn| catalog_column_view(c);
    let mut i: usize = 0;
    assert(columns@.take(0).map_values(col_view) =~= seq![]);
    while i < columns.len()
        invariant
            i <= columns.len(),
            col_view == (|c: CatalogColumn| catalog_column_view(c)),
            schema@ == (TableView {
                columns: columns@.take(i as int).map_values(col_view),
                ..crate::schema::empty_table()
            }),
        decreases columns.len() - i,
    {
        let c = &columns[i];
        let column = ColumnSchema::new(
            SqlIdentifier::new(c.name.as_str()),
            c.data_type.clone(),
            c.nullable,
            c.generated,
        );
        schema.push_column(column);
        assert(columns@.take(i + 1).map_values(col_view) =~= columns@.take(i as int).map_values(
            col_view,
        ).push(catalog_column_view(columns@[i as int])));
        i += 1;
    }
    assert(columns@.take(columns.len() as int) =~= columns@);
    if primary_key.len() > 0 {
        schema.set_primary_key(PrimaryKeyShape::new(identifiers(&primary_key)));
    }
    let mut k: usize = 0;
    while k < foreign_keys.len()
        invariant
            k <= foreign_keys.len(),
            columns@.len() > 0,
            fk_views(foreign_keys@.take(k as int)) matches Ok(fks) && schema@ == catalog_table(
                columns@,
                primary_key@,
                fks,
            ),
        decreases foreign_keys.len() - k,
    {
        let ghost prefix = foreign_keys@.take(k + 1);
        assert(prefix.drop_last() =~= foreign_keys@.take(k as int));
        assert(prefix.last() == foreign_keys@[k as int]);
        let fk = &foreign_keys[k];
        let complete = match (&fk.referenced_schema, &fk.referenced_table) {
            (Some(_), Some(_)) => fk.columns.len() > 0 && fk.columns.len() == fk.referenced_columns.len(),
            _ => false,
        };
        if !complete {
            proof { lemma_fk_views_stop(foreign_keys@, k as int); }
            return Err(
                RunnerDestinationCatalogError::IncompleteForeignKeyMetadata {
                    mapping_id: String::from_str(mapping_id),
                    database: String::from_str(database),
                    table: String::from_str(table),
                },
            );
        }
        let action = match action_from_code(fk.on_delete.as_str()) {
            Some(a) => a,
            None => {
                proof { lemma_fk_views_stop(foreign_keys@, k as int); }
                return Err(
                    RunnerDestinationCatalogError::UnsupportedForeignKeyAction {
                        mapping_id: String::from_str(mapping_id),
                        database: String::from_str(database),
                        table: String::from_str(table),
                        action: fk.on_delete.clone(),
                    },
                );
            },
        };
        let (rs, rt) = match (&fk.referenced_schema, &fk.referenced_table) {
            (Some(s), Some(t)) => (s, t),
            _ => {
                return Err(
                    RunnerDestinationCatalogError::IncompleteForeignKeyMetadata {
                        mapping_id: String::from_str(mapping_id),
                        database: String::from_str(database),
                        table: String::from_str(table),
                    },
                );
            },
        };
        let referenced = QualifiedTableName::new(SqlIdentifier::new(rs.as_str()), SqlIdentifier::new(rt.as_str()));
        let shape = ForeignKeyShape::new(
            identifiers(&fk.columns),
            referenced,
            identifiers(&fk.referenced_columns),
            action,
        );
        schema.push_foreign_key(shape);
        k += 1;
    }
    assert(foreign_keys@.take(foreign_keys.len() as int) =~= foreign_keys@);
    Ok(schema)
}

/// Once a foreign key has a problem, the whole list has the first problem found.
proof fn lemma_fk_views_stop(fks: Seq<CatalogForeignKey>, k: int)
    requires
        0 <= k < fks.len(),
        fk_views(fks.take(k)) is Ok,
        fk_view(fks[k]) is Err,
    ensures
        fk_views(fks) == Err::<Seq<ForeignKeyView>, FkProblem>(fk_view(fks[k])->Err_0),
    decreases fks.len() - k,
{
    let n = fks.len() as int;
    if k == n - 1 {
        assert(fks.take(n - 1) =~= fks.drop_last());
    } else {
        assert(fks.drop_last().take(k) =~= fks.take(k));
        assert(fks.drop_last()[k] == fks[k]);
        lemma_fk_views_stop(fks.drop_last(), k);
    }
}

/// The message of a catalog error.
pub open spec fn catalog_error_text(e: &RunnerDestinationCatalogError) -> Seq<char> {
    match e {
        RunnerDestinationCatalogError::Connect { mapping_id, endpoint, message } => "failed to connect mapping `"@ + mapping_id@ + "` to `"@ + endpoint@ + "`: "@ + message@,
        RunnerDestinationCatalogError::ReadCatalog { mapping_id, database, table, message } => "failed to read destination table shape for mapping `"@ + mapping_id@ + "` in `"@ + database@ + "` table `"@ + table@ + "`: "@ + message@,
        RunnerDestinationCatalogError::MissingTable { mapping_id, database, table } => "missing mapped destination table `"@ + table@ + "` for mapping `"@ + mapping_id@ + "` in `"@ + database@ + "`"@,
        RunnerDestinationCatalogError::UnsupportedForeignKeyAction { mapping_id, database, table, action } => "unsupported foreign key ON DELETE action `"@ + action@ + "` for mapping `"@ + mapping_id@ + "` in `"@ + database@ + "` table `"@ + table@ + "`"@,
        RunnerDestinationCatalogError::IncompleteForeignKeyMetadata { mapping_id, database, table } => "incomplete foreign key metadata while reading mapping `"@ + mapping_id@ + "` in `"@ + database@ + "` table `"@ + table@ + "`"@,
    }
}

impl RunnerDestinationCatalogError {
    /// The error's message.
    pub fn render(&self) -> (r: String)
        ensures
            r@ == catalog_error_text(self),
    {
        match self {
            RunnerDestinationCatalogError::Connect { mapping_id, endpoint, message } => {
                let mut s = String::from_str("failed to connect mapping `");
                s.append(mapping_id.as_str());
                s.append("` to `");
                s.append(endpoint.as_str());
                s.append("`: ");
                s.append(message.as_str());
                s
            },
            RunnerDestinationCatalogError::ReadCatalog { mapping_id, database, table, message } => {
                let mut s = String::from_str("failed to read destination table shape for mapping `");
                s.append(mapping_id.as_str());
                s.append("` in `");
                s.append(database.as_str());
                s.append("` table `");
                s.append(table.as_str());
                s.append("`: ");
                s.append(message.as_str());
                s
            },
            RunnerDestinationCatalogError::MissingTable { mapping_id, database, table } => {
                let mut s = String::from_str("missing mapped destination table `");
                s.append(table.as_str());
                s.append("` for mapping `");
                s.append(mapping_id.as_str());
                s.append("` in `");
                s.append(database.as_str());
                s.append("`");
                s
            },
            RunnerDestinationCatalogError::UnsupportedForeignKeyAction { mapping_id, database, table, action } => {
                let mut s = String::from_str("unsupported foreign key ON DELETE action `");
                s.append(action.as_str());
                s.append("` for mapping `");
                s.append(mapping_id.as_str());
                s.append("` in `");
                s.append(database.as_str());
                s.append("` table `");
                s.append(table.as_str());
                s.append("`");
                s
            },
            RunnerDestinationCatalogError::IncompleteForeignKeyMetadata { mapping_id, database, table } => {
                let mut s = String::from_str("incomplete foreign key metadata while reading mapping `");
                s.append(mapping_id.as_str());
                s.append("` in `");
                s.append(database.as_str());
                s.append("` table `");
                s.append(table.as_str());
                s.append("`");
                s
            },
        }
    }
}

} // verus!
