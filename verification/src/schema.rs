//! SQL names and the validated shape of destination tables.
use vstd::prelude::*;

use crate::text::{chars_of, push_char};

verus! {

/// A SQL identifier as written by the user, before quoting.
pub struct SqlIdentifier {
    raw: String,
}

impl View for SqlIdentifier {
    type V = Seq<char>;

    closed spec fn view(&self) -> Seq<char> {
        self.raw@
    }
}

/// The identifier written as a double-quoted PostgreSQL identifier.
pub open spec fn quote_ident(raw: Seq<char>) -> Seq<char> {
    seq!['"'] + double_quotes(raw) + seq!['"']
}

/// `raw` with every `"` doubled.
pub open spec fn double_quotes(raw: Seq<char>) -> Seq<char>
    decreases raw.len(),
{
    if raw.len() == 0 {
        seq![]
    } else if raw.last() == '"' {
        double_quotes(raw.drop_last()) + seq!['"', '"']
    } else {
        double_quotes(raw.drop_last()).push(raw.last())
    }
}

impl Clone for SqlIdentifier {
    fn clone(&self) -> (r: Self)
        ensures
            r@ == self@,
    {
        SqlIdentifier { raw: self.raw.clone() }
    }
}

impl SqlIdentifier {
    pub fn new(raw: &str) -> (r: Self)
        ensures
            r@ == raw@,
    {
        SqlIdentifier { raw: String::from_str(raw) }
    }

    pub fn from_string(raw: String) -> (r: Self)
        ensures
            r@ == raw@,
    {
        SqlIdentifier { raw }
    }

    pub fn raw(&self) -> (r: &str)
        ensures
            r@ == self@,
    {
        self.raw.as_str()
    }

    /// Whether both identifiers have the same text.
    pub fn same(&self, other: &SqlIdentifier) -> (r: bool)
        ensures
            r == (self@ == other@),
    {
        self.raw == other.raw
    }

    /// The identifier as a double-quoted SQL identifier.
    pub fn quoted(&self) -> (r: String)
        ensures
            r@ == quote_ident(self@),
    {
        let v = chars_of(self.raw.as_str());
        let mut r = String::new();
        push_char(&mut r, '"');
        let mut i: usize = 0;
        while i < v.len()
            invariant
                i <= v.len(),
                v@ == self@,
                r@ == seq!['"'] + double_quotes(v@.take(i as int)),
            decreases v.len() - i,
        {
            let c = v[i];
            proof {
                assert(v@.take(i + 1).drop_last() == v@.take(i as int));
                assert(v@.take(i + 1).last() == c);
            }
            if c == '"' {
                push_char(&mut r, '"');
                push_char(&mut r, '"');
            } else {
                push_char(&mut r, c);
            }
            i += 1;
        }
        push_char(&mut r, '"');
        assert(v@.take(v.len() as int) == v@);
        r
    }
}

/// A `schema.table` name.
pub struct QualifiedTableName {
    schema: SqlIdentifier,
    table: SqlIdentifier,
}

impl View for QualifiedTableName {
    type V = (Seq<char>, Seq<char>);

    closed spec fn view(&self) -> (Seq<char>, Seq<char>) {
        (self.schema@, self.table@)
    }
}

/// `schema.table`, unquoted.
pub open spec fn table_label(name: (Seq<char>, Seq<char>)) -> Seq<char> {
    name.0 + seq!['.'] + name.1
}

/// `"schema"."table"`, quoted.
pub open spec fn table_quoted(name: (Seq<char>, Seq<char>)) -> Seq<char> {
    quote_ident(name.0) + seq!['.'] + quote_ident(name.1)
}

impl Clone for QualifiedTableName {
    fn clone(&self) -> (r: Self)
        ensures
            r@ == self@,
    {
        QualifiedTableName { schema: self.schema.clone(), table: self.table.clone() }
    }
}

impl QualifiedTableName {
    pub fn new(schema: SqlIdentifier, table: SqlIdentifier) -> (r: Self)
        ensures
            r@ == (schema@, table@),
    {
        QualifiedTableName { schema, table }
    }

    pub fn schema(&self) -> (r: &SqlIdentifier)
        ensures
            r@ == self@.0,
    {
        &self.schema
    }

    pub fn table(&self) -> (r: &SqlIdentifier)
        ensures
            r@ == self@.1,
    {
        &self.table
    }

    /// `schema.table` without quoting.
    pub fn label(&self) -> (r: String)
        ensures
            r@ == table_label(self@),
    {
        let mut r = String::from_str(self.schema.raw());
        push_char(&mut r, '.');
        r.append(self.table.raw());
        r
    }

    /// The name written as quoted SQL.
    pub fn quoted(&self) -> (r: String)
        ensures
            r@ == table_quoted(self@),
    {
        let mut r = self.schema.quoted();
        push_char(&mut r, '.');
        let t = self.table.quoted();
        r.append(t.as_str());
        r
    }

    /// Whether both names denote the same table.
    pub fn same(&self, other: &QualifiedTableName) -> (r: bool)
        ensures
            r == (self@ == other@),
    {
        self.schema.same(&other.schema) && self.table.same(&other.table)
    }
}


/// What a column is, as the rest of the crate reads it.
pub struct ColumnView {
    pub name: Seq<char>,
    pub raw_type: Seq<char>,
    pub nullable: bool,
    pub generated: bool,
}

pub struct ColumnSchema {
    name: SqlIdentifier,
    raw_type: String,
    nullable: bool,
    generated: bool,
}

impl View for ColumnSchema {
    type V = ColumnView;

    closed spec fn view(&self) -> ColumnView {
        ColumnView {
            name: self.name@,
            raw_type: self.raw_type@,
            nullable: self.nullable,
            generated: self.generated,
        }
    }
}

impl Clone for ColumnSchema {
    fn clone(&self) -> (r: Self)
        ensures
            r@ == self@,
    {
        ColumnSchema {
            name: self.name.clone(),
            raw_type: self.raw_type.clone(),
            nullable: self.nullable,
            generated: self.generated,
        }
    }
}

impl ColumnSchema {
    pub fn new(name: SqlIdentifier, raw_type: String, nullable: bool, generated: bool) -> (r: Self)
        ensures
            r@ == (ColumnView { name: name@, raw_type: raw_type@, nullable, generated }),
    {
        ColumnSchema { name, raw_type, nullable, generated }
    }

    pub fn name(&self) -> (r: &SqlIdentifier)
        ensures
            r@ == self@.name,
    {
        &self.name
    }

    pub fn raw_type(&self) -> (r: &str)
        ensures
            r@ == self@.raw_type,
    {
        self.raw_type.as_str()
    }

    pub fn nullable(&self) -> (r: bool)
        ensures
            r == self@.nullable,
    {
        self.nullable
    }

    pub fn generated(&self) -> (r: bool)
        ensures
            r == self@.generated,
    {
        self.generated
    }
}

/// The views of a list of identifiers.
pub open spec fn ident_views(v: Seq<SqlIdentifier>) -> Seq<Seq<char>> {
    v.map_values(|i: SqlIdentifier| i@)
}

/// Clones a list of identifiers.
pub fn clone_idents(v: &Vec<SqlIdentifier>) -> (r: Vec<SqlIdentifier>)
    ensures
        ident_views(r@) == ident_views(v@),
{
    let mut r: Vec<SqlIdentifier> = Vec::new();
    let mut i: usize = 0;
    while i < v.len()
        invariant
            i <= v.len(),
            ident_views(r@) == ident_views(v@).take(i as int),
            r@.len() == i,
        decreases v.len() - i,
    {
        let ghost old_r = r@;
        let c = v[i].clone();
        r.push(c);
        assert forall|k: int| 0 <= k < i + 1 implies ident_views(r@)[k] == ident_views(v@).take(
            i + 1,
        )[k] by {
            if k < i {
                assert(r@[k] == old_r[k]);
                assert(ident_views(old_r)[k] == ident_views(v@).take(i as int)[k]);
            }
        }
        assert(ident_views(r@) =~= ident_views(v@).take(i + 1));
        i += 1;
    }
    assert(ident_views(v@).take(v.len() as int) =~= ident_views(v@));
    r
}

pub struct PrimaryKeyShape {
    columns: Vec<SqlIdentifier>,
}

impl View for PrimaryKeyShape {
    type V = Seq<Seq<char>>;

    closed spec fn view(&self) -> Seq<Seq<char>> {
        ident_views(self.columns@)
    }
}

impl Clone for PrimaryKeyShape {
    fn clone(&self) -> (r: Self)
        ensures
            r@ == self@,
    {
        PrimaryKeyShape { columns: clone_idents(&self.columns) }
    }
}

impl PrimaryKeyShape {
    pub fn new(columns: Vec<SqlIdentifier>) -> (r: Self)
        ensures
            r@ == ident_views(columns@),
    {
        PrimaryKeyShape { columns }
    }

    pub fn columns(&self) -> (r: &Vec<SqlIdentifier>)
        ensures
            ident_views(r@) == self@,
    {
        &self.columns
    }
}

/// What a `UNIQUE` constraint covers.
pub struct UniqueConstraintShape {
    columns: Vec<SqlIdentifier>,
}

impl View for UniqueConstraintShape {
    type V = Seq<Seq<char>>;

    closed spec fn view(&self) -> Seq<Seq<char>> {
        ident_views(self.columns@)
    }
}

impl UniqueConstraintShape {
    pub fn new(columns: Vec<SqlIdentifier>) -> (r: Self)
        ensures
            r@ == ident_views(columns@),
    {
        UniqueConstraintShape { columns }
    }

    pub fn columns(&self) -> (r: &Vec<SqlIdentifier>)
        ensures
            ident_views(r@) == self@,
    {
        &self.columns
    }
}

#[derive(Clone, Copy, Debug, PartialEq, Eq, Structural)]
pub enum SortDirection {
    Asc,
    Desc,
}

/// One column of an index, with its direction.
pub struct IndexColumnShape {
    name: SqlIdentifier,
    direction: SortDirection,
}

impl View for IndexColumnShape {
    type V = (Seq<char>, SortDirection);

    closed spec fn view(&self) -> (Seq<char>, SortDirection) {
        (self.name@, self.direction)
    }
}

impl IndexColumnShape {
    pub fn new(name: SqlIdentifier, direction: SortDirection) -> (r: Self)
        ensures
            r@ == (name@, direction),
    {
        IndexColumnShape { name, direction }
    }

    pub fn name(&self) -> (r: &SqlIdentifier)
        ensures
            r@ == self@.0,
    {
        &self.name
    }

    pub fn direction(&self) -> (r: SortDirection)
        ensures
            r == self@.1,
    {
        self.direction
    }
}

pub struct IndexShape {
    columns: Vec<IndexColumnShape>,
}

pub open spec fn index_column_views(v: Seq<IndexColumnShape>) -> Seq<(Seq<char>, SortDirection)> {
    v.map_values(|c: IndexColumnShape| c@)
}

impl View for IndexShape {
    type V = Seq<(Seq<char>, SortDirection)>;

    closed spec fn view(&self) -> Seq<(Seq<char>, SortDirection)> {
        index_column_views(self.columns@)
    }
}

impl IndexShape {
    pub fn new(columns: Vec<IndexColumnShape>) -> (r: Self)
        ensures
            r@ == index_column_views(columns@),
    {
        IndexShape { columns }
    }

    pub fn columns(&self) -> (r: &Vec<IndexColumnShape>)
        ensures
            index_column_views(r@) == self@,
    {
        &self.columns
    }
}

#[derive(Clone, Copy, Debug, PartialEq, Eq, Structural)]
pub enum ForeignKeyAction {
    NoAction,
    Cascade,
    SetNull,
    Restrict,
}

pub struct ForeignKeyView {
    pub columns: Seq<Seq<char>>,
    pub referenced_table: (Seq<char>, Seq<char>),
    pub referenced_columns: Seq<Seq<char>>,
    pub on_delete: ForeignKeyAction,
}

pub struct ForeignKeyShape {
    columns: Vec<SqlIdentifier>,
    referenced_table: QualifiedTableName,
    referenced_columns: Vec<SqlIdentifier>,
    on_delete: ForeignKeyAction,
}

impl View for ForeignKeyShape {
    type V = ForeignKeyView;

    closed spec fn view(&self) -> ForeignKeyView {
        ForeignKeyView {
            columns: ident_views(self.columns@),
            referenced_table: self.referenced_table@,
            referenced_columns: ident_views(self.referenced_columns@),
            on_delete: self.on_delete,
        }
    }
}

impl ForeignKeyShape {
    pub fn new(
        columns: Vec<SqlIdentifier>,
        referenced_table: QualifiedTableName,
        referenced_columns: Vec<SqlIdentifier>,
        on_delete: ForeignKeyAction,
    ) -> (r: Self)
        ensures
            r@ == (ForeignKeyView {
                columns: ident_views(columns@),
                referenced_table: referenced_table@,
                referenced_columns: ident_views(referenced_columns@),
                on_delete,
            }),
    {
        ForeignKeyShape { columns, referenced_table, referenced_columns, on_delete }
    }

    pub fn columns(&self) -> (r: &Vec<SqlIdentifier>)
        ensures
            ident_views(r@) == self@.columns,
    {
        &self.columns
    }

    pub fn referenced_table(&self) -> (r: &QualifiedTableName)
        ensures
            r@ == self@.referenced_table,
    {
        &self.referenced_table
    }

    pub fn referenced_columns(&self) -> (r: &Vec<SqlIdentifier>)
        ensures
            ident_views(r@) == self@.referenced_columns,
    {
        &self.referenced_columns
    }

    pub fn on_delete(&self) -> (r: ForeignKeyAction)
        ensures
            r == self@.on_delete,
    {
        self.on_delete
    }
}

pub struct TableView {
    pub columns: Seq<ColumnView>,
    pub primary_key: Option<Seq<Seq<char>>>,
    pub foreign_keys: Seq<ForeignKeyView>,
    pub unique_constraints: Seq<Seq<Seq<char>>>,
    pub indexes: Seq<Seq<(Seq<char>, SortDirection)>>,
}

pub open spec fn column_views(v: Seq<ColumnSchema>) -> Seq<ColumnView> {
    v.map_values(|c: ColumnSchema| c@)
}

pub open spec fn foreign_key_views(v: Seq<ForeignKeyShape>) -> Seq<ForeignKeyView> {
    v.map_values(|c: ForeignKeyShape| c@)
}

pub open spec fn unique_views(v: Seq<UniqueConstraintShape>) -> Seq<Seq<Seq<char>>> {
    v.map_values(|c: UniqueConstraintShape| c@)
}

pub open spec fn index_views(v: Seq<IndexShape>) -> Seq<Seq<(Seq<char>, SortDirection)>> {
    v.map_values(|c: IndexShape| c@)
}

pub struct TableSchema {
    columns: Vec<ColumnSchema>,
    primary_key: Option<PrimaryKeyShape>,
    foreign_keys: Vec<ForeignKeyShape>,
    unique_constraints: Vec<UniqueConstraintShape>,
    indexes: Vec<IndexShape>,
}

pub open spec fn option_view<T: View>(o: Option<T>) -> Option<T::V> {
    match o {
        Some(t) => Some(t@),
        None => None,
    }
}

impl View for TableSchema {
    type V = TableView;

    closed spec fn view(&self) -> TableView {
        TableView {
            columns: column_views(self.columns@),
            primary_key: option_view(self.primary_key),
            foreign_keys: foreign_key_views(self.foreign_keys@),
            unique_constraints: unique_views(self.unique_constraints@),
            indexes: index_views(self.indexes@),
        }
    }
}

/// A table with nothing declared yet.
pub open spec fn empty_table() -> TableView {
    TableView {
        columns: seq![],
        primary_key: None,
        foreign_keys: seq![],
        unique_constraints: seq![],
        indexes: seq![],
    }
}

impl TableSchema {
    pub fn new() -> (r: Self)
        ensures
            r@ == empty_table(),
    {
        let r = TableSchema {
            columns: Vec::new(),
            primary_key: None,
            foreign_keys: Vec::new(),
            unique_constraints: Vec::new(),
            indexes: Vec::new(),
        };
        assert(r@.columns =~= seq![]);
        assert(r@.foreign_keys =~= seq![]);
        assert(r@.unique_constraints =~= seq![]);
        assert(r@.indexes =~= seq![]);
        r
    }

    pub fn columns(&self) -> (r: &Vec<ColumnSchema>)
        ensures
            column_views(r@) == self@.columns,
    {
        &self.columns
    }

    pub fn primary_key(&self) -> (r: Option<&PrimaryKeyShape>)
        ensures
            match r {
                Some(p) => self@.primary_key == Some(p@),
                None => self@.primary_key is None,
            },
    {
        match &self.primary_key {
            Some(p) => Some(p),
            None => None,
        }
    }

    pub fn foreign_keys(&self) -> (r: &Vec<ForeignKeyShape>)
        ensures
            foreign_key_views(r@) == self@.foreign_keys,
    {
        &self.foreign_keys
    }

    pub fn unique_constraints(&self) -> (r: &Vec<UniqueConstraintShape>)
        ensures
            unique_views(r@) == self@.unique_constraints,
    {
        &self.unique_constraints
    }

    pub fn indexes(&self) -> (r: &Vec<IndexShape>)
        ensures
            index_views(r@) == self@.indexes,
    {
        &self.indexes
    }

    pub fn push_column(&mut self, column: ColumnSchema)
        ensures
            final(self)@ == (TableView { columns: old(self)@.columns.push(column@), ..old(self)@ }),
    {
        self.columns.push(column);
        assert(column_views(self.columns@) =~= old(self)@.columns.push(column@));
    }

    pub fn set_primary_key(&mut self, primary_key: PrimaryKeyShape)
        ensures
            final(self)@ == (TableView { primary_key: Some(primary_key@), ..old(self)@ }),
    {
        self.primary_key = Some(primary_key);
    }

    pub fn push_foreign_key(&mut self, foreign_key: ForeignKeyShape)
        ensures
            final(self)@ == (TableView {
                foreign_keys: old(self)@.foreign_keys.push(foreign_key@),
                ..old(self)@
            }),
    {
        self.foreign_keys.push(foreign_key);
        assert(foreign_key_views(self.foreign_keys@) =~= old(self)@.foreign_keys.push(
            foreign_key@,
        ));
    }

    pub fn push_unique_constraint(&mut self, constraint: UniqueConstraintShape)
        ensures
            final(self)@ == (TableView {
                unique_constraints: old(self)@.unique_constraints.push(constraint@),
                ..old(self)@
            }),
    {
        self.unique_constraints.push(constraint);
        assert(unique_views(self.unique_constraints@) =~= old(self)@.unique_constraints.push(
            constraint@,
        ));
    }

    pub fn push_index(&mut self, index: IndexShape)
        ensures
            final(self)@ == (TableView { indexes: old(self)@.indexes.push(index@), ..old(self)@ }),
    {
        self.indexes.push(index);
        assert(index_views(self.indexes@) =~= old(self)@.indexes.push(index@));
    }

    /// The column with the given name, if the table has one.
    pub fn column(&self, name: &SqlIdentifier) -> (r: Option<&ColumnSchema>)
        ensures
            match r {
                Some(c) => c@.name == name@ && exists|i: int|
                    0 <= i < self@.columns.len() && #[trigger] self@.columns[i] == c@ && forall|
                        j: int,
                    |
                        0 <= j < i ==> self@.columns[j].name != name@,
                None => forall|i: int|
                    0 <= i < self@.columns.len() ==> #[trigger] self@.columns[i].name != name@,
            },
    {
        let mut i: usize = 0;
        while i < self.columns.len()
            invariant
                i <= self.columns.len(),
                forall|j: int| 0 <= j < i ==> self@.columns[j].name != name@,
            decreases self.columns.len() - i,
        {
            if self.columns[i].name.same(name) {
                assert(self@.columns[i as int] == self.columns@[i as int]@);
                return Some(&self.columns[i]);
            }
            i += 1;
        }
        None
    }
}

/// The tables of a schema, keyed by name; a later entry for a name replaces an earlier one.
pub open spec fn entries_map(entries: Seq<(QualifiedTableName, TableSchema)>) -> Map<
    (Seq<char>, Seq<char>),
    TableView,
>
    decreases entries.len(),
{
    if entries.len() == 0 {
        Map::empty()
    } else {
        entries_map(entries.drop_last()).insert(entries.last().0@, entries.last().1@)
    }
}

pub proof fn lemma_entries_map_lookup(
    entries: Seq<(QualifiedTableName, TableSchema)>,
    key: (Seq<char>, Seq<char>),
    i: int,
)
    requires
        0 <= i < entries.len(),
        entries[i].0@ == key,
        forall|j: int| i < j < entries.len() ==> #[trigger] entries[j].0@ != key,
    ensures
        entries_map(entries).contains_key(key),
        entries_map(entries)[key] == entries[i].1@,
    decreases entries.len(),
{
    if i < entries.len() - 1 {
        lemma_entries_map_lookup(entries.drop_last(), key, i);
    }
}

pub proof fn lemma_entries_map_absent(
    entries: Seq<(QualifiedTableName, TableSchema)>,
    key: (Seq<char>, Seq<char>),
)
    requires
        forall|j: int| 0 <= j < entries.len() ==> #[trigger] entries[j].0@ != key,
    ensures
        !entries_map(entries).contains_key(key),
    decreases entries.len(),
{
    if entries.len() > 0 {
        lemma_entries_map_absent(entries.drop_last(), key);
    }
}

/// The shapes of the destination tables that a mapping reads and writes.
pub struct ValidatedSchema {
    entries: Vec<(QualifiedTableName, TableSchema)>,
}

impl View for ValidatedSchema {
    type V = Map<(Seq<char>, Seq<char>), TableView>;

    closed spec fn view(&self) -> Map<(Seq<char>, Seq<char>), TableView> {
        entries_map(self.entries@)
    }
}

impl ValidatedSchema {
    pub fn new() -> (r: Self)
        ensures
            r@ == Map::<(Seq<char>, Seq<char>), TableView>::empty(),
    {
        ValidatedSchema { entries: Vec::new() }
    }

    /// Index of the entry that holds `name`, if any.
    fn position(&self, name: &QualifiedTableName) -> (r: Option<usize>)
        ensures
            match r {
                Some(i) => i < self.entries@.len() && self.entries@[i as int].0@ == name@
                    && forall|j: int|
                    i < j < self.entries@.len() ==> #[trigger] self.entries@[j].0@ != name@,
                None => forall|j: int|
                    0 <= j < self.entries@.len() ==> #[trigger] self.entries@[j].0@ != name@,
            },
    {
        let mut i = self.entries.len();
        while i > 0
            invariant
                i <= self.entries.len(),
                forall|j: int| i <= j < self.entries@.len() ==> #[trigger] self.entries@[j].0@ != name@,
            decreases i,
        {
            if self.entries[i - 1].0.same(name) {
                return Some(i - 1);
            }
            i -= 1;
        }
        None
    }

    pub fn table(&self, name: &QualifiedTableName) -> (r: Option<&TableSchema>)
        ensures
            match r {
                Some(t) => self@.contains_key(name@) && self@[name@] == t@,
                None => !self@.contains_key(name@),
            },
    {
        match self.position(name) {
            Some(i) => {
                proof {
                    lemma_entries_map_lookup(self.entries@, name@, i as int);
                }
                Some(&self.entries[i].1)
            },
            None => {
                proof {
                    lemma_entries_map_absent(self.entries@, name@);
                }
                None
            },
        }
    }

    pub fn insert_table(&mut self, name: QualifiedTableName, table: TableSchema)
        ensures
            final(self)@ == old(self)@.insert(name@, table@),
    {
        self.entries.push((name, table));
        assert(self.entries@.drop_last() == old(self).entries@);
    }

    /// Takes out the table stored under `name`; the other tables stay as they were.
    pub fn take_table(&mut self, name: &QualifiedTableName) -> (r: Option<TableSchema>)
        ensures
            match r {
                Some(t) => old(self)@.contains_key(name@) && old(self)@[name@] == t@
                    && final(self)@ == old(self)@.remove(name@),
                None => !old(self)@.contains_key(name@) && final(self)@ == old(self)@,
            },
    {
        match self.position(name) {
            Some(i) => {
                proof {
                    lemma_entries_map_lookup(self.entries@, name@, i as int);
                    lemma_entries_map_remove(self.entries@, name@, i as int);
                }
                let (_, t) = self.entries.remove(i);
                loop
                    invariant
                        entries_map(self.entries@).remove(name@) == old(self)@.remove(name@),
                    ensures
                        self@ == old(self)@.remove(name@),
                    decreases self.entries.len(),
                {
                    match self.position(name) {
                        Some(j) => {
                            proof {
                                lemma_entries_map_remove(self.entries@, name@, j as int);
                            }
                            self.entries.remove(j);
                        },
                        None => {
                            proof {
                                lemma_entries_map_absent(self.entries@, name@);
                                assert(self@ =~= old(self)@.remove(name@)) by {
                                    assert(self@.remove(name@) =~= self@);
                                }
                            }
                            break;
                        },
                    }
                }
                Some(t)
            },
            None => {
                proof {
                    lemma_entries_map_absent(self.entries@, name@);
                }
                None
            },
        }
    }
}

pub proof fn lemma_entries_map_remove(
    entries: Seq<(QualifiedTableName, TableSchema)>,
    key: (Seq<char>, Seq<char>),
    i: int,
)
    requires
        0 <= i < entries.len(),
        entries[i].0@ == key,
    ensures
        entries_map(entries.remove(i)).remove(key) == entries_map(entries).remove(key),
    decreases entries.len(),
{
    if i == entries.len() - 1 {
        assert(entries.remove(i) == entries.drop_last());
        assert(entries_map(entries.drop_last()).remove(key) =~= entries_map(entries).remove(key));
    } else {
        let d = entries.drop_last();
        lemma_entries_map_remove(d, key, i);
        assert(entries.remove(i) =~= d.remove(i).push(entries.last()));
        assert(entries.remove(i).drop_last() =~= d.remove(i));
        let m1 = entries_map(d.remove(i));
        let m2 = entries_map(d);
        let l = entries.last();
        assert(m1.remove(key) == m2.remove(key));
        assert forall|k2: (Seq<char>, Seq<char>)| k2 != key implies (m1.contains_key(k2)
            == m2.contains_key(k2) && (m1.contains_key(k2) ==> m1[k2] == m2[k2])) by {
            assert(m1.remove(key).contains_key(k2) == m1.contains_key(k2));
            assert(m2.remove(key).contains_key(k2) == m2.contains_key(k2));
            if m1.contains_key(k2) {
                assert(m1.remove(key)[k2] == m1[k2]);
                assert(m2.remove(key)[k2] == m2[k2]);
            }
        }
        let a = m1.insert(l.0@, l.1@).remove(key);
        let b = m2.insert(l.0@, l.1@).remove(key);
        assert forall|k2: (Seq<char>, Seq<char>)| #[trigger] a.contains_key(k2) == b.contains_key(
            k2,
        ) && (a.contains_key(k2) ==> a[k2] == b[k2]) by {
            if k2 != key && k2 != l.0@ {
                assert(a.contains_key(k2) == m1.contains_key(k2));
                assert(b.contains_key(k2) == m2.contains_key(k2));
                assert(m1.remove(key).contains_key(k2) == m1.contains_key(k2));
                assert(m2.remove(key).contains_key(k2) == m2.contains_key(k2));
                if m1.contains_key(k2) {
                    assert(m1.remove(key)[k2] == m1[k2]);
                    assert(m2.remove(key)[k2] == m2[k2]);
                    assert(a[k2] == m1[k2]);
                    assert(b[k2] == m2[k2]);
                }
            }
        }
        assert(a =~= b);
    }
}


/// Index of the first `c` in `s`, or -1.
pub open spec fn first_index_of(s: Seq<char>, c: char) -> int
    decreases s.len(),
{
    if s.len() == 0 {
        -1
    } else if s[0] == c {
        0
    } else if first_index_of(s.drop_first(), c) < 0 {
        -1
    } else {
        first_index_of(s.drop_first(), c) + 1
    }
}

pub proof fn lemma_first_index_of(s: Seq<char>, c: char, i: int)
    requires
        0 <= i <= s.len(),
        forall|j: int| 0 <= j < i ==> s[j] != c,
        i == s.len() || s[i] == c,
    ensures
        first_index_of(s, c) == if i == s.len() {
            -1
        } else {
            i
        },
    decreases i,
{
    if i > 0 {
        assert forall|j: int| 0 <= j < i - 1 implies s.drop_first()[j] != c by {
            assert(s.drop_first()[j] == s[j + 1]);
        }
        if i < s.len() {
            assert(s.drop_first()[i - 1] == s[i]);
        }
        lemma_first_index_of(s.drop_first(), c, i - 1);
    }
}

/// The table named by a config entry: the text before the first dot is the schema, the rest
/// the table; an entry without a dot names a table of schema `public`.
pub open spec fn config_table_name(t: Seq<char>) -> (Seq<char>, Seq<char>) {
    let d = first_index_of(t, '.');
    if d < 0 {
        ("public"@, t)
    } else {
        (t.take(d), t.skip(d + 1))
    }
}

impl QualifiedTableName {
    pub fn from_config(value: &str) -> (r: Self)
        ensures
            r@ == config_table_name(value@),
    {
        let v = crate::text::chars_of(value);
        let mut i: usize = 0;
        while i < v.len() && v[i] != '.'
            invariant
                i <= v.len(),
                forall|j: int| 0 <= j < i ==> v@[j] != '.',
            decreases v.len() - i,
        {
            i += 1;
        }
        proof {
            lemma_first_index_of(v@, '.', i as int);
        }
        if i == v.len() {
            QualifiedTableName {
                schema: SqlIdentifier::new("public"),
                table: SqlIdentifier::new(value),
            }
        } else {
            let schema = crate::text::string_of_range(&v, 0, i);
            let table = crate::text::string_of_range(&v, i + 1, v.len());
            assert(v@.subrange(0, i as int) == v@.take(i as int));
            assert(v@.subrange(i + 1, v.len() as int) == v@.skip(i + 1));
            QualifiedTableName {
                schema: SqlIdentifier::from_string(schema),
                table: SqlIdentifier::from_string(table),
            }
        }
    }
}

/// The names of the entries, in order.
pub open spec fn entry_names(entries: Seq<(QualifiedTableName, TableSchema)>) -> Seq<(Seq<char>, Seq<char>)> {
    entries.map_values(|e: (QualifiedTableName, TableSchema)| e.0@)
}

pub proof fn lemma_entries_map_dom(entries: Seq<(QualifiedTableName, TableSchema)>)
    ensures
        entries_map(entries).dom() == entry_names(entries).to_set(),
    decreases entries.len(),
{
    if entries.len() > 0 {
        let d = entries.drop_last();
        lemma_entries_map_dom(d);
        assert forall|k: (Seq<char>, Seq<char>)| entry_names(entries).to_set().contains(k) == entries_map(entries).dom().contains(k) by {
            if entry_names(entries).contains(k) {
                let w = choose|w: int| 0 <= w < entry_names(entries).len() && entry_names(entries)[w] == k;
                if w < d.len() {
                    assert(entry_names(d)[w] == k);
                }
            }
            if entry_names(d).contains(k) {
                let w = choose|w: int| 0 <= w < entry_names(d).len() && entry_names(d)[w] == k;
                assert(entry_names(entries)[w] == k);
            }
            if k == entries.last().0@ {
                assert(entry_names(entries)[entries.len() - 1] == k);
            }
        }
        assert(entries_map(entries).dom() =~= entry_names(entries).to_set());
    }
}

impl ValidatedSchema {
    /// The names of the tables, each at least once.
    pub fn table_names(&self) -> (r: Vec<QualifiedTableName>)
        ensures
            r@.map_values(|n: QualifiedTableName| n@).to_set() == self@.dom(),
    {
        let mut r: Vec<QualifiedTableName> = Vec::new();
        let mut i: usize = 0;
        while i < self.entries.len()
            invariant
                i <= self.entries.len(),
                r@.len() == i,
                forall|k: int| 0 <= k < i ==> #[trigger] r@[k]@ == self.entries@[k].0@,
            decreases self.entries.len() - i,
        {
            r.push(self.entries[i].0.clone());
            i += 1;
        }
        proof {
            lemma_entries_map_dom(self.entries@);
            assert(r@.map_values(|n: QualifiedTableName| n@) =~= entry_names(self.entries@));
        }
        r
    }
}

} // verus!
