//! Reading table shapes out of the schema dumps that CockroachDB and PostgreSQL write.
use vstd::prelude::*;

use crate::schema::{
    config_table_name, table_label, ColumnSchema, ColumnView, ForeignKeyAction, ForeignKeyShape,
    ForeignKeyView, IndexColumnShape, IndexShape, PrimaryKeyShape, QualifiedTableName,
    SortDirection, SqlIdentifier, TableSchema, TableView, UniqueConstraintShape, ValidatedSchema,
    empty_table, ident_views, index_column_views,
};
use crate::sql_text::{
    ascii_upper, char_views, contains, contains_chars, extract_parenthesized, find, find_char,
    find_char_exec, find_chars, find_first_top_level_keyword, first_token, matching_paren,
    parenthesized, slice_chars, split_csv, split_first_token, split_top_level_csv, starts_with_chars,
    strip_all_prefix, strip_all_suffix, strip_prefix, strip_prefix_chars, to_upper,
    top_keyword_from, trim_chars, trim_end_matches, trim_start_matches, find_matching_paren,
};
use crate::text::{chars_of, ends_with, starts_with, string_of, trim};
use crate::sql_text::lines;

verus! {

/// The table named by SQL text: `schema.table`, or a bare table of schema `public`.
pub open spec fn sql_table_name(t: Seq<char>) -> (Seq<char>, Seq<char>) {
    config_table_name(t)
}

impl QualifiedTableName {
    /// The table named by SQL text, as a dump writes it.
    pub fn from_sql(value: &str) -> (r: Self)
        ensures
            r@ == sql_table_name(value@),
    {
        QualifiedTableName::from_config(value)
    }
}

/// `prefix`, then `x`, then a closing backtick.
pub open spec fn ticked(prefix: Seq<char>, x: Seq<char>) -> Seq<char> {
    prefix + x + "`"@
}

/// Clauses after which a column's type ends.
pub open spec fn column_keywords() -> Seq<Seq<char>> {
    seq![
        " NOT NULL"@,
        " NULL"@,
        " DEFAULT "@,
        " GENERATED ALWAYS AS "@,
        " PRIMARY KEY"@,
        " UNIQUE"@,
        " REFERENCES "@,
        " CHECK "@,
    ]
}

/// Where a column definition's type ends and its clauses begin.
pub open spec fn type_split(s: Seq<char>) -> int {
    let k = top_keyword_from(ascii_upper(s), column_keywords(), 0);
    if k < 0 {
        s.len() as int
    } else {
        k
    }
}

/// A column definition `name type clauses..`: the type is the text before the first clause
/// outside parentheses; the column is nullable unless its clauses say `NOT NULL`.
pub open spec fn column_of(item: Seq<char>) -> ColumnView {
    let (name, rest) = first_token(item);
    let split = type_split(rest);
    let clauses = trim(rest.skip(split));
    ColumnView {
        name,
        raw_type: trim(rest.take(split)),
        nullable: !contains(ascii_upper(clauses), "NOT NULL"@),
        generated: false,
    }
}

/// The names in a comma-separated identifier list (first token of each item).
pub open spec fn identifier_list(s: Seq<char>) -> Seq<Seq<char>> {
    split_csv(s).map_values(|item: Seq<char>| first_token(item).0)
}

/// One index column: its name, descending when its second token is `DESC` in any case.
pub open spec fn index_column(item: Seq<char>) -> (Seq<char>, SortDirection) {
    let (name, rest) = first_token(item);
    (
        name,
        if ascii_upper(first_token(rest).0) == "DESC"@ {
            SortDirection::Desc
        } else {
            SortDirection::Asc
        },
    )
}

/// The columns of an index list, or `None` when an item is empty.
pub open spec fn index_columns(s: Seq<char>) -> Option<Seq<(Seq<char>, SortDirection)>> {
    let items = split_csv(s);
    if exists|i: int| 0 <= i < items.len() && #[trigger] items[i].len() == 0 {
        None
    } else {
        Some(items.map_values(|item: Seq<char>| index_column(item)))
    }
}

/// The delete action named after a foreign key's referenced columns.
pub open spec fn on_delete_of(trailing: Seq<char>) -> ForeignKeyAction {
    if contains(trailing, "ON DELETE SET NULL"@) {
        ForeignKeyAction::SetNull
    } else if contains(trailing, "ON DELETE CASCADE"@) {
        ForeignKeyAction::Cascade
    } else if contains(trailing, "ON DELETE RESTRICT"@) {
        ForeignKeyAction::Restrict
    } else {
        ForeignKeyAction::NoAction
    }
}

/// A `FOREIGN KEY (..) REFERENCES t (..) ..` clause (the text after `FOREIGN KEY `).
pub open spec fn foreign_key_effect(t: TableView, rest: Seq<char>, label: Seq<char>) -> Result<
    TableView,
    Seq<char>,
> {
    match parenthesized(rest) {
        None => Err(ticked("missing foreign key source columns on `"@, label)),
        Some(src) => {
            let after_source = trim(rest.skip(src.len() + 2int));
            match strip_prefix(after_source, "REFERENCES "@) {
                None => Err(ticked("missing REFERENCES clause on `"@, label)),
                Some(after) => {
                    let ro = find_char(after, '(');
                    if ro < 0 {
                        Err(ticked("missing referenced columns on `"@, label))
                    } else {
                        match parenthesized(after.skip(ro)) {
                            None => Err(ticked("unterminated referenced columns on `"@, label)),
                            Some(refc) => {
                                let trailing = trim(after.skip(ro + refc.len() + 2int));
                                Ok(
                                    TableView {
                                        foreign_keys: t.foreign_keys.push(
                                            ForeignKeyView {
                                                columns: identifier_list(src),
                                                referenced_table: sql_table_name(
                                                    trim(after.take(ro)),
                                                ),
                                                referenced_columns: identifier_list(refc),
                                                on_delete: on_delete_of(trailing),
                                            },
                                        ),
                                        ..t
                                    },
                                )
                            },
                        }
                    }
                },
            }
        },
    }
}

/// A table constraint: primary key, unique constraint or index, foreign key; anything else
/// leaves the table as it is.
pub open spec fn constraint_effect(t: TableView, body: Seq<char>, label: Seq<char>) -> Result<
    TableView,
    Seq<char>,
> {
    if strip_prefix(body, "PRIMARY KEY "@) is Some && parenthesized(
        strip_prefix(body, "PRIMARY KEY "@)->0,
    ) is Some {
        Ok(
            TableView {
                primary_key: Some(
                    identifier_list(parenthesized(strip_prefix(body, "PRIMARY KEY "@)->0)->0),
                ),
                ..t
            },
        )
    } else if strip_prefix(body, "UNIQUE INDEX "@) is Some {
        let rest = strip_prefix(body, "UNIQUE INDEX "@)->0;
        let open = find_char(rest, '(');
        if open < 0 {
            Err(ticked("missing unique index columns on `"@, label))
        } else {
            match parenthesized(rest.skip(open)) {
                None => Err(ticked("unterminated unique index columns on `"@, label)),
                Some(cols) => Ok(
                    TableView {
                        unique_constraints: t.unique_constraints.push(identifier_list(cols)),
                        ..t
                    },
                ),
            }
        }
    } else if strip_prefix(body, "UNIQUE "@) is Some && parenthesized(
        strip_prefix(body, "UNIQUE "@)->0,
    ) is Some {
        Ok(
            TableView {
                unique_constraints: t.unique_constraints.push(
                    identifier_list(parenthesized(strip_prefix(body, "UNIQUE "@)->0)->0),
                ),
                ..t
            },
        )
    } else if strip_prefix(body, "INDEX "@) is Some {
        let rest = strip_prefix(body, "INDEX "@)->0;
        let open = find_char(rest, '(');
        if open < 0 {
            Err(ticked("missing index columns on `"@, label))
        } else {
            match parenthesized(rest.skip(open)) {
                None => Err(ticked("unterminated index columns on `"@, label)),
                Some(cols) => match index_columns(cols) {
                    None => Err(ticked("index column without a name on `"@, label)),
                    Some(ic) => Ok(TableView { indexes: t.indexes.push(ic), ..t }),
                },
            }
        }
    } else if strip_prefix(body, "FOREIGN KEY "@) is Some {
        foreign_key_effect(t, strip_prefix(body, "FOREIGN KEY "@)->0, label)
    } else {
        Ok(t)
    }
}

/// Whether an item of a `CREATE TABLE` column list is a table constraint.
pub open spec fn is_constraint_item(item: Seq<char>) -> bool {
    ||| starts_with(item, "PRIMARY KEY "@)
    ||| starts_with(item, "UNIQUE "@)
    ||| starts_with(item, "UNIQUE INDEX "@)
    ||| starts_with(item, "INDEX "@)
    ||| starts_with(item, "FOREIGN KEY "@)
}

/// One item of a `CREATE TABLE` column list: a named constraint, a constraint, or a column.
pub open spec fn item_effect(t: TableView, item: Seq<char>, label: Seq<char>) -> Result<
    TableView,
    Seq<char>,
> {
    let item = trim(item);
    if item.len() == 0 {
        Ok(t)
    } else if starts_with(item, "CONSTRAINT "@) {
        constraint_effect(t, first_token(strip_all_prefix(item, "CONSTRAINT "@)).1, label)
    } else if is_constraint_item(item) {
        constraint_effect(t, item, label)
    } else {
        Ok(TableView { columns: t.columns.push(column_of(item)), ..t })
    }
}

/// The items of a column list, read in order; the first error stops the reading.
pub open spec fn items_effect(t: TableView, items: Seq<Seq<char>>, label: Seq<char>) -> Result<
    TableView,
    Seq<char>,
>
    decreases items.len(),
{
    if items.len() == 0 {
        Ok(t)
    } else {
        match items_effect(t, items.drop_last(), label) {
            Err(e) => Err(e),
            Ok(t2) => item_effect(t2, items.last(), label),
        }
    }
}

/// A schema map, keyed by `(schema, table)`.
pub type SchemaMap = Map<(Seq<char>, Seq<char>), TableView>;

/// `CREATE TABLE name (items..)`: the table, as its items describe it, replaces any table of
/// that name.
pub open spec fn create_table_effect(m: SchemaMap, stmt: Seq<char>) -> Result<SchemaMap, Seq<char>> {
    let rest = trim(strip_all_prefix(stmt, "CREATE TABLE "@));
    let open = find_char(rest, '(');
    if open < 0 {
        Err(ticked("missing column list in statement `"@, stmt))
    } else {
        let close = matching_paren(rest, open);
        if close < 0 {
            Err(ticked("unterminated column list in statement `"@, stmt))
        } else {
            let name = sql_table_name(trim(rest.take(open)));
            match items_effect(empty_table(), split_csv(rest.subrange(open + 1, close)), table_label(name)) {
                Err(e) => Err(e),
                Ok(t) => Ok(m.insert(name, t)),
            }
        }
    }
}

/// `ALTER TABLE name ADD CONSTRAINT c body`: the constraint is added to a table read before.
pub open spec fn alter_table_effect(m: SchemaMap, stmt: Seq<char>) -> Result<SchemaMap, Seq<char>> {
    if contains(stmt, " VALIDATE CONSTRAINT "@) {
        Ok(m)
    } else {
        let rest = trim(strip_all_prefix(stmt, "ALTER TABLE "@));
        let idx = find(rest, " ADD CONSTRAINT "@);
        if idx < 0 {
            Ok(m)
        } else {
            let name = sql_table_name(trim(rest.take(idx)));
            let body = first_token(trim(rest.skip(idx + " ADD CONSTRAINT "@.len()))).1;
            if !m.contains_key(name) {
                Err(ticked("constraint references missing table `"@, table_label(name)))
            } else {
                match constraint_effect(m[name], body, table_label(name)) {
                    Err(e) => Err(e),
                    Ok(t) => Ok(m.insert(name, t)),
                }
            }
        }
    }
}

/// The text after `CREATE [UNIQUE] INDEX`, and whether the index is unique.
pub open spec fn index_head(stmt: Seq<char>) -> (Seq<char>, bool) {
    match strip_prefix(stmt, "CREATE UNIQUE INDEX "@) {
        Some(r) => (trim(r), true),
        None => (trim(strip_all_prefix(stmt, "CREATE INDEX "@)), false),
    }
}

/// `CREATE [UNIQUE] INDEX name ON table (columns..)`: a unique index becomes a unique
/// constraint on the column names, any other an index.
pub open spec fn create_index_effect(m: SchemaMap, stmt: Seq<char>) -> Result<SchemaMap, Seq<char>> {
    let (rest, unique) = index_head(stmt);
    let on = find(rest, " ON "@);
    if on < 0 {
        Err(ticked("missing ON clause in statement `"@, stmt))
    } else {
        let after_on = rest.skip(on + " ON "@.len());
        let cs = find_char(after_on, '(');
        if cs < 0 {
            Err(ticked("missing index column list in statement `"@, stmt))
        } else {
            let close = matching_paren(after_on, cs);
            if close < 0 {
                Err(ticked("unterminated index column list in statement `"@, stmt))
            } else {
                let name = sql_table_name(
                    trim(strip_all_suffix(trim(after_on.take(cs)), "USING btree"@)),
                );
                match index_columns(after_on.subrange(cs + 1, close)) {
                    None => Err(ticked("index column without a name on `"@, table_label(name))),
                    Some(cols) => if !m.contains_key(name) {
                        Err(ticked("index references missing table `"@, table_label(name)))
                    } else if unique {
                        Ok(
                            m.insert(
                                name,
                                TableView {
                                    unique_constraints: m[name].unique_constraints.push(
                                        cols.map_values(|c: (Seq<char>, SortDirection)| c.0),
                                    ),
                                    ..m[name]
                                },
                            ),
                        )
                    } else {
                        Ok(
                            m.insert(
                                name,
                                TableView { indexes: m[name].indexes.push(cols), ..m[name] },
                            ),
                        )
                    },
                }
            }
        }
    }
}

/// Whether a statement says nothing about table shapes.
pub open spec fn ignored_statement(st: Seq<char>) -> bool {
    ||| st.len() == 0
    ||| st == "SET"@
    ||| starts_with(st, "SET "@)
    ||| starts_with(st, "SELECT "@)
    ||| (starts_with(st, "ALTER TABLE "@) && contains(st, " VALIDATE CONSTRAINT "@))
}

/// What one statement of a dump does to the schema read so far.
pub open spec fn statement_effect(m: SchemaMap, stmt: Seq<char>) -> Result<SchemaMap, Seq<char>> {
    let st = trim(stmt);
    if ignored_statement(st) {
        Ok(m)
    } else if starts_with(st, "CREATE TABLE "@) {
        create_table_effect(m, st)
    } else if starts_with(st, "ALTER TABLE "@) {
        alter_table_effect(m, st)
    } else if starts_with(st, "CREATE INDEX "@) || starts_with(st, "CREATE UNIQUE INDEX "@) {
        create_index_effect(m, st)
    } else {
        Ok(m)
    }
}

/// The statements of a dump, applied in order; the first error stops the reading.
pub open spec fn statements_effect(m: SchemaMap, stmts: Seq<Seq<char>>) -> Result<SchemaMap, Seq<char>>
    decreases stmts.len(),
{
    if stmts.len() == 0 {
        Ok(m)
    } else {
        match statements_effect(m, stmts.drop_last()) {
            Err(e) => Err(e),
            Ok(m2) => statement_effect(m2, stmts.last()),
        }
    }
}

/// The characters of a literal.
fn lit(s: &str) -> (v: Vec<char>)
    ensures
        v@ == s@,
{
    chars_of(s)
}

/// `prefix`, then `x`, then a backtick.
fn ticked_msg(prefix: &str, x: &Vec<char>) -> (r: String)
    ensures
        r@ == ticked(prefix@, x@),
{
    let mut r = String::from_str(prefix);
    let xs = string_of(x);
    r.append(xs.as_str());
    r.append("`");
    r
}

fn column_keyword_list() -> (r: Vec<Vec<char>>)
    ensures
        char_views(r@) == column_keywords(),
{
    let mut r: Vec<Vec<char>> = Vec::new();
    r.push(lit(" NOT NULL"));
    r.push(lit(" NULL"));
    r.push(lit(" DEFAULT "));
    r.push(lit(" GENERATED ALWAYS AS "));
    r.push(lit(" PRIMARY KEY"));
    r.push(lit(" UNIQUE"));
    r.push(lit(" REFERENCES "));
    r.push(lit(" CHECK "));
    assert(char_views(r@) =~= column_keywords());
    r
}

/// Names of a comma-separated identifier list.
fn parse_identifier_list(v: &Vec<char>) -> (r: Vec<SqlIdentifier>)
    ensures
        ident_views(r@) == identifier_list(v@),
{
    let items = split_top_level_csv(v);
    let ghost iv = char_views(items@);
    let mut r: Vec<SqlIdentifier> = Vec::new();
    let mut i: usize = 0;
    while i < items.len()
        invariant
            i <= items.len(),
            iv == char_views(items@),
            iv == split_csv(v@),
            r@.len() == i,
            ident_views(r@) == iv.take(i as int).map_values(|item: Seq<char>| first_token(item).0),
        decreases items.len() - i,
    {
        let (name, _) = split_first_token(&items[i]);
        assert(iv[i as int] == items@[i as int]@);
        let ghost prev = r@;
        r.push(SqlIdentifier::from_string(string_of(&name)));
        assert forall|k: int| 0 <= k < i + 1 implies #[trigger] ident_views(r@)[k] == iv.take(i + 1).map_values(|item: Seq<char>| first_token(item).0)[k] by {
            if k < i {
                assert(r@[k] == prev[k]);
                assert(ident_views(prev)[k] == iv.take(i as int).map_values(|item: Seq<char>| first_token(item).0)[k]);
            }
        }
        assert(ident_views(r@) =~= iv.take(i + 1).map_values(|item: Seq<char>| first_token(item).0));
        i += 1;
    }
    assert(iv.take(items.len() as int) == iv);
    r
}

/// One index column.
fn parse_index_column(item: &Vec<char>) -> (r: IndexColumnShape)
    ensures
        r@ == index_column(item@),
{
    let (name, rest) = split_first_token(item);
    let (second, _) = split_first_token(&rest);
    let upper = to_upper(&second);
    let desc = lit("DESC");
    let direction = if crate::sql_text::same_chars(&upper, &desc) {
        SortDirection::Desc
    } else {
        SortDirection::Asc
    };
    IndexColumnShape::new(SqlIdentifier::from_string(string_of(&name)), direction)
}

/// The columns of an index list; `None` when an item is empty.
fn parse_index_columns(v: &Vec<char>) -> (r: Option<Vec<IndexColumnShape>>)
    ensures
        match r {
            Some(x) => index_columns(v@) == Some(index_column_views(x@)),
            None => index_columns(v@) is None,
        },
{
    let items = split_top_level_csv(v);
    let ghost iv = char_views(items@);
    let mut r: Vec<IndexColumnShape> = Vec::new();
    let mut i: usize = 0;
    while i < items.len()
        invariant
            i <= items.len(),
            iv == char_views(items@),
            iv == split_csv(v@),
            forall|k: int| 0 <= k < i ==> #[trigger] iv[k].len() != 0,
            r@.len() == i,
            index_column_views(r@) == iv.take(i as int).map_values(|item: Seq<char>| index_column(item)),
        decreases items.len() - i,
    {
        assert(iv[i as int] == items@[i as int]@);
        if items[i].len() == 0 {
            return None;
        }
        let c = parse_index_column(&items[i]);
        let ghost prev = r@;
        r.push(c);
        assert forall|k: int| 0 <= k < i + 1 implies #[trigger] index_column_views(r@)[k] == iv.take(i + 1).map_values(|item: Seq<char>| index_column(item))[k] by {
            if k < i {
                assert(r@[k] == prev[k]);
                assert(index_column_views(prev)[k] == iv.take(i as int).map_values(|item: Seq<char>| index_column(item))[k]);
            }
        }
        assert(index_column_views(r@) =~= iv.take(i + 1).map_values(|item: Seq<char>| index_column(item)));
        i += 1;
    }
    assert(iv.take(items.len() as int) == iv);
    Some(r)
}

/// A column definition.
fn parse_column(item: &Vec<char>) -> (r: ColumnSchema)
    ensures
        r@ == column_of(item@),
{
    let (name, rest) = split_first_token(item);
    let upper = to_upper(&rest);
    let kws = column_keyword_list();
    let split = match find_first_top_level_keyword(&upper, &kws) {
        Some(k) => k,
        None => rest.len(),
    };
    let ty = slice_chars(&rest, 0, split);
    let ty = trim_chars(&ty);
    let clauses = slice_chars(&rest, split, rest.len());
    let clauses = trim_chars(&clauses);
    let not_null = lit("NOT NULL");
    let clauses_upper = to_upper(&clauses);
    let nullable = !contains_chars(&clauses_upper, &not_null);
    assert(rest@.subrange(0, split as int) == rest@.take(split as int));
    assert(rest@.subrange(split as int, rest@.len() as int) == rest@.skip(split as int));
    ColumnSchema::new(SqlIdentifier::from_string(string_of(&name)), string_of(&ty), nullable, false)
}

/// Adds a `FOREIGN KEY` clause (the text after `FOREIGN KEY `) to `t`.
pub fn apply_foreign_key(t: &mut TableSchema, rest: &Vec<char>, label: &Vec<char>) -> (r: Result<(), String>)
    ensures
        match (foreign_key_effect(old(t)@, rest@, label@), r) {
            (Ok(tv), Ok(_)) => final(t)@ == tv,
            (Err(e), Err(m)) => m@ == e,
            _ => false,
        },
        r is Err ==> final(t)@ == old(t)@,
{
    let src = match extract_parenthesized(rest) {
        Some(x) => x,
        None => return Err(ticked_msg("missing foreign key source columns on `", label)),
    };
    let rl: usize = rest.len();
    let n: usize = src.len();
    assert(n + 2 <= rl);
    let after_source = slice_chars(rest, n + 2, rl);
    let after_source = trim_chars(&after_source);
    assert(after_source@ == trim(rest@.skip(src@.len() + 2int)));
    let references = lit("REFERENCES ");
    let after = match strip_prefix_chars(&after_source, &references) {
        Some(x) => x,
        None => return Err(ticked_msg("missing REFERENCES clause on `", label)),
    };
    let ro = match find_char_exec(&after, '(') {
        Some(i) => i,
        None => return Err(ticked_msg("missing referenced columns on `", label)),
    };
    let head = slice_chars(&after, 0, ro);
    let head = trim_chars(&head);
    assert(after@.subrange(0, ro as int) == after@.take(ro as int));
    let referenced_table = QualifiedTableName::from_sql(string_of(&head).as_str());
    let tail = slice_chars(&after, ro, after.len());
    assert(tail@ == after@.skip(ro as int));
    let refc = match extract_parenthesized(&tail) {
        Some(x) => x,
        None => return Err(ticked_msg("unterminated referenced columns on `", label)),
    };
    let al: usize = after.len();
    let tl: usize = tail.len();
    assert(refc@.len() + 2 <= tl);
    let trailing = slice_chars(&after, ro + refc.len() + 2, al);
    let trailing = trim_chars(&trailing);
    assert(trailing@ == trim(after@.skip(ro + refc@.len() + 2int)));
    let set_null = lit("ON DELETE SET NULL");
    let cascade = lit("ON DELETE CASCADE");
    let restrict = lit("ON DELETE RESTRICT");
    let on_delete = if contains_chars(&trailing, &set_null) {
        ForeignKeyAction::SetNull
    } else if contains_chars(&trailing, &cascade) {
        ForeignKeyAction::Cascade
    } else if contains_chars(&trailing, &restrict) {
        ForeignKeyAction::Restrict
    } else {
        ForeignKeyAction::NoAction
    };
    let columns = parse_identifier_list(&src);
    let referenced_columns = parse_identifier_list(&refc);
    t.push_foreign_key(ForeignKeyShape::new(columns, referenced_table, referenced_columns, on_delete));
    Ok(())
}

/// Adds a table constraint to `t` (unknown constraints change nothing).
pub fn apply_constraint_body(t: &mut TableSchema, body: &Vec<char>, label: &Vec<char>) -> (r: Result<(), String>)
    ensures
        match (constraint_effect(old(t)@, body@, label@), r) {
            (Ok(tv), Ok(_)) => final(t)@ == tv,
            (Err(e), Err(m)) => m@ == e,
            _ => false,
        },
        r is Err ==> final(t)@ == old(t)@,
{
    let pk = lit("PRIMARY KEY ");
    if let Some(rest) = strip_prefix_chars(body, &pk) {
        if let Some(cols) = extract_parenthesized(&rest) {
            t.set_primary_key(PrimaryKeyShape::new(parse_identifier_list(&cols)));
            return Ok(());
        }
    }
    let unique_index = lit("UNIQUE INDEX ");
    if let Some(rest) = strip_prefix_chars(body, &unique_index) {
        let open = match find_char_exec(&rest, '(') {
            Some(i) => i,
            None => return Err(ticked_msg("missing unique index columns on `", label)),
        };
        let tail = slice_chars(&rest, open, rest.len());
        assert(tail@ == rest@.skip(open as int));
        return match extract_parenthesized(&tail) {
            Some(cols) => {
                t.push_unique_constraint(UniqueConstraintShape::new(parse_identifier_list(&cols)));
                Ok(())
            },
            None => Err(ticked_msg("unterminated unique index columns on `", label)),
        };
    }
    let unique = lit("UNIQUE ");
    if let Some(rest) = strip_prefix_chars(body, &unique) {
        if let Some(cols) = extract_parenthesized(&rest) {
            t.push_unique_constraint(UniqueConstraintShape::new(parse_identifier_list(&cols)));
            return Ok(());
        }
    }
    let index = lit("INDEX ");
    if let Some(rest) = strip_prefix_chars(body, &index) {
        let open = match find_char_exec(&rest, '(') {
            Some(i) => i,
            None => return Err(ticked_msg("missing index columns on `", label)),
        };
        let tail = slice_chars(&rest, open, rest.len());
        assert(tail@ == rest@.skip(open as int));
        return match extract_parenthesized(&tail) {
            Some(cols) => match parse_index_columns(&cols) {
                Some(ic) => {
                    t.push_index(IndexShape::new(ic));
                    Ok(())
                },
                None => Err(ticked_msg("index column without a name on `", label)),
            },
            None => Err(ticked_msg("unterminated index columns on `", label)),
        };
    }
    let foreign_key = lit("FOREIGN KEY ");
    if let Some(rest) = strip_prefix_chars(body, &foreign_key) {
        return apply_foreign_key(t, &rest, label);
    }
    Ok(())
}

/// Putting back under `k0` a table taken out of `mid` gives what inserting into `old` gives.
pub proof fn lemma_reinsert(old: SchemaMap, mid: SchemaMap, k0: (Seq<char>, Seq<char>), v: TableView)
    requires
        mid.remove(k0) == old.remove(k0),
    ensures
        mid.insert(k0, v) == old.insert(k0, v),
{
    let a = mid.insert(k0, v);
    let b = old.insert(k0, v);
    assert forall|k: (Seq<char>, Seq<char>)| #[trigger] a.contains_key(k) == b.contains_key(k) by {
        if k != k0 {
            assert(mid.remove(k0).contains_key(k) == mid.contains_key(k));
            assert(old.remove(k0).contains_key(k) == old.contains_key(k));
        }
    }
    assert forall|k: (Seq<char>, Seq<char>)| #[trigger] a.contains_key(k) implies a[k] == b[k] by {
        if k != k0 {
            assert(mid.remove(k0).contains_key(k) == mid.contains_key(k));
            assert(mid.remove(k0)[k] == mid[k]);
            assert(old.remove(k0)[k] == old[k]);
        }
    }
    assert(a =~= b);
}

pub proof fn lemma_items_effect_err(t: TableView, items: Seq<Seq<char>>, label: Seq<char>, k: int)
    requires
        0 <= k <= items.len(),
        items_effect(t, items.take(k), label) is Err,
    ensures
        items_effect(t, items, label) == items_effect(t, items.take(k), label),
    decreases items.len() - k,
{
    if k < items.len() {
        assert(items.take(k + 1).drop_last() == items.take(k));
        lemma_items_effect_err(t, items, label, k + 1);
    } else {
        assert(items.take(k) == items);
    }
}

pub proof fn lemma_statements_effect_err(m: SchemaMap, stmts: Seq<Seq<char>>, k: int)
    requires
        0 <= k <= stmts.len(),
        statements_effect(m, stmts.take(k)) is Err,
    ensures
        statements_effect(m, stmts) == statements_effect(m, stmts.take(k)),
    decreases stmts.len() - k,
{
    if k < stmts.len() {
        assert(stmts.take(k + 1).drop_last() == stmts.take(k));
        lemma_statements_effect_err(m, stmts, k + 1);
    } else {
        assert(stmts.take(k) == stmts);
    }
}

/// Reads one item of a `CREATE TABLE` column list into `t`.
pub fn apply_item(t: &mut TableSchema, item: &Vec<char>, label: &Vec<char>) -> (r: Result<(), String>)
    ensures
        match (item_effect(old(t)@, item@, label@), r) {
            (Ok(tv), Ok(_)) => final(t)@ == tv,
            (Err(e), Err(m)) => m@ == e,
            _ => false,
        },
        r is Err ==> final(t)@ == old(t)@,
{
    let item = trim_chars(item);
    if item.len() == 0 {
        return Ok(());
    }
    let constraint = lit("CONSTRAINT ");
    if starts_with_chars(&item, &constraint) {
        let rest = trim_start_matches(&item, &constraint);
        let (_, body) = split_first_token(&rest);
        return apply_constraint_body(t, &body, label);
    }
    let pk = lit("PRIMARY KEY ");
    let unique = lit("UNIQUE ");
    let unique_index = lit("UNIQUE INDEX ");
    let index = lit("INDEX ");
    let foreign_key = lit("FOREIGN KEY ");
    if starts_with_chars(&item, &pk) || starts_with_chars(&item, &unique) || starts_with_chars(
        &item,
        &unique_index,
    ) || starts_with_chars(&item, &index) || starts_with_chars(&item, &foreign_key) {
        return apply_constraint_body(t, &item, label);
    }
    t.push_column(parse_column(&item));
    Ok(())
}

/// Reads a `CREATE TABLE` statement into `schema`.
pub fn apply_create_table(schema: &mut ValidatedSchema, stmt: &Vec<char>) -> (r: Result<(), String>)
    ensures
        match (create_table_effect(old(schema)@, stmt@), r) {
            (Ok(m), Ok(_)) => final(schema)@ == m,
            (Err(e), Err(x)) => x@ == e,
            _ => false,
        },
        r is Err ==> final(schema)@ == old(schema)@,
{
    let prefix = lit("CREATE TABLE ");
    let rest = trim_start_matches(stmt, &prefix);
    let rest = trim_chars(&rest);
    let open = match find_char_exec(&rest, '(') {
        Some(i) => i,
        None => return Err(ticked_msg("missing column list in statement `", stmt)),
    };
    let close = match find_matching_paren(&rest, open) {
        Some(k) => k,
        None => return Err(ticked_msg("unterminated column list in statement `", stmt)),
    };
    let head = slice_chars(&rest, 0, open);
    let head = trim_chars(&head);
    assert(rest@.subrange(0, open as int) == rest@.take(open as int));
    let name = QualifiedTableName::from_sql(string_of(&head).as_str());
    let label = chars_of(name.label().as_str());
    let body = slice_chars(&rest, open + 1, close);
    let items = split_top_level_csv(&body);
    let ghost iv = char_views(items@);
    let mut table = TableSchema::new();
    let mut i: usize = 0;
    assert(iv.take(0) =~= seq![]);
    while i < items.len()
        invariant
            i <= items.len(),
            iv == char_views(items@),
            iv == split_csv(rest@.subrange(open + 1, close as int)),
            label@ == table_label(name@),
            name@ == sql_table_name(trim(rest@.take(open as int))),
            rest@ == trim(strip_all_prefix(stmt@, "CREATE TABLE "@)),
            find_char(rest@, '(') == open,
            matching_paren(rest@, open as int) == close,
            items_effect(empty_table(), iv.take(i as int), label@) == Ok::<TableView, Seq<char>>(table@),
        decreases items.len() - i,
    {
        assert(iv.take(i + 1).drop_last() == iv.take(i as int));
        assert(iv.take(i + 1).last() == items@[i as int]@);
        match apply_item(&mut table, &items[i], &label) {
            Ok(()) => {},
            Err(e) => {
                proof {
                    assert(items_effect(empty_table(), iv.take(i + 1), label@) == Err::<TableView, Seq<char>>(e@));
                    lemma_items_effect_err(empty_table(), iv, label@, i + 1);
                }
                return Err(e);
            },
        }
        i += 1;
    }
    assert(iv.take(items.len() as int) == iv);
    schema.insert_table(name, table);
    Ok(())
}

/// Reads an `ALTER TABLE .. ADD CONSTRAINT ..` statement into `schema`.
pub fn apply_alter_table(schema: &mut ValidatedSchema, stmt: &Vec<char>) -> (r: Result<(), String>)
    ensures
        match (alter_table_effect(old(schema)@, stmt@), r) {
            (Ok(m), Ok(_)) => final(schema)@ == m,
            (Err(e), Err(x)) => x@ == e,
            _ => false,
        },
        r is Err ==> final(schema)@ == old(schema)@,
{
    let validate = lit(" VALIDATE CONSTRAINT ");
    if contains_chars(stmt, &validate) {
        return Ok(());
    }
    let prefix = lit("ALTER TABLE ");
    let rest = trim_start_matches(stmt, &prefix);
    let rest = trim_chars(&rest);
    let add = lit(" ADD CONSTRAINT ");
    let idx = match find_chars(&rest, &add) {
        Some(i) => i,
        None => return Ok(()),
    };
    let head = slice_chars(&rest, 0, idx);
    let head = trim_chars(&head);
    assert(rest@.subrange(0, idx as int) == rest@.take(idx as int));
    let name = QualifiedTableName::from_sql(string_of(&head).as_str());
    let label = chars_of(name.label().as_str());
    let rl: usize = rest.len();
    let al: usize = add.len();
    assert(idx + al <= rl);
    let after = slice_chars(&rest, idx + al, rl);
    assert(after@ == rest@.skip(idx + add@.len()));
    let after = trim_chars(&after);
    let (_, body) = split_first_token(&after);
    match schema.take_table(&name) {
        None => Err(ticked_msg("constraint references missing table `", &label)),
        Some(mut t) => {
            let r = apply_constraint_body(&mut t, &body, &label);
            let ghost mid = schema@;
            let ghost tv = t@;
            schema.insert_table(name, t);
            match r {
                Ok(()) => {
                    proof {
                        assert(mid.remove(name@) =~= old(schema)@.remove(name@));
                        lemma_reinsert(old(schema)@, mid, name@, tv);
                    }
                    Ok(())
                },
                Err(e) => {
                    assert(schema@ =~= old(schema)@);
                    Err(e)
                },
            }
        },
    }
}

/// Reads a `CREATE [UNIQUE] INDEX` statement into `schema`.
pub fn apply_create_index(schema: &mut ValidatedSchema, stmt: &Vec<char>) -> (r: Result<(), String>)
    ensures
        match (create_index_effect(old(schema)@, stmt@), r) {
            (Ok(m), Ok(_)) => final(schema)@ == m,
            (Err(e), Err(x)) => x@ == e,
            _ => false,
        },
        r is Err ==> final(schema)@ == old(schema)@,
{
    let unique_prefix = lit("CREATE UNIQUE INDEX ");
    let plain_prefix = lit("CREATE INDEX ");
    let (rest, unique) = match strip_prefix_chars(stmt, &unique_prefix) {
        Some(r) => (trim_chars(&r), true),
        None => {
            let r = trim_start_matches(stmt, &plain_prefix);
            (trim_chars(&r), false)
        },
    };
    assert((rest@, unique) == index_head(stmt@));
    let on = lit(" ON ");
    let on_index = match find_chars(&rest, &on) {
        Some(i) => i,
        None => return Err(ticked_msg("missing ON clause in statement `", stmt)),
    };
    let rl: usize = rest.len();
    let ol: usize = on.len();
    assert(on_index + ol <= rl);
    let after_on = slice_chars(&rest, on_index + ol, rl);
    assert(after_on@ == rest@.skip(on_index + on@.len()));
    let cs = match find_char_exec(&after_on, '(') {
        Some(i) => i,
        None => return Err(ticked_msg("missing index column list in statement `", stmt)),
    };
    let close = match find_matching_paren(&after_on, cs) {
        Some(k) => k,
        None => return Err(ticked_msg("unterminated index column list in statement `", stmt)),
    };
    let head = slice_chars(&after_on, 0, cs);
    assert(after_on@.subrange(0, cs as int) == after_on@.take(cs as int));
    let head = trim_chars(&head);
    let btree = lit("USING btree");
    let head = trim_end_matches(&head, &btree);
    let head = trim_chars(&head);
    let name = QualifiedTableName::from_sql(string_of(&head).as_str());
    let label = chars_of(name.label().as_str());
    let cols_text = slice_chars(&after_on, cs + 1, close);
    let columns = match parse_index_columns(&cols_text) {
        Some(c) => c,
        None => return Err(ticked_msg("index column without a name on `", &label)),
    };
    match schema.take_table(&name) {
        None => Err(ticked_msg("index references missing table `", &label)),
        Some(mut t) => {
            let ghost mid = schema@;
            let ghost cv = index_column_views(columns@);
            if unique {
                let mut names: Vec<SqlIdentifier> = Vec::new();
                let mut j: usize = 0;
                while j < columns.len()
                    invariant
                        j <= columns.len(),
                        cv == index_column_views(columns@),
                        names@.len() == j,
                        ident_views(names@) == cv.take(j as int).map_values(|c: (Seq<char>, SortDirection)| c.0),
                    decreases columns.len() - j,
                {
                    let ghost prev = names@;
                    names.push(columns[j].name().clone());
                    assert forall|k: int| 0 <= k < j + 1 implies #[trigger] ident_views(names@)[k]
                        == cv.take(j + 1).map_values(|c: (Seq<char>, SortDirection)| c.0)[k] by {
                        if k < j {
                            assert(names@[k] == prev[k]);
                            assert(ident_views(prev)[k] == cv.take(j as int).map_values(|c: (Seq<char>, SortDirection)| c.0)[k]);
                        } else {
                            assert(cv[k] == columns@[k]@);
                        }
                    }
                    assert(ident_views(names@) =~= cv.take(j + 1).map_values(|c: (Seq<char>, SortDirection)| c.0));
                    j += 1;
                }
                assert(cv.take(columns.len() as int) == cv);
                t.push_unique_constraint(UniqueConstraintShape::new(names));
            } else {
                t.push_index(IndexShape::new(columns));
            }
            let ghost tv = t@;
            schema.insert_table(name, t);
            proof {
                assert(mid.remove(name@) =~= old(schema)@.remove(name@));
                lemma_reinsert(old(schema)@, mid, name@, tv);
            }
            Ok(())
        },
    }
}

/// Reads one statement of a dump into `schema`.
pub fn apply_statement(schema: &mut ValidatedSchema, stmt: &Vec<char>) -> (r: Result<(), String>)
    ensures
        match (statement_effect(old(schema)@, stmt@), r) {
            (Ok(m), Ok(_)) => final(schema)@ == m,
            (Err(e), Err(x)) => x@ == e,
            _ => false,
        },
        r is Err ==> final(schema)@ == old(schema)@,
{
    let st = trim_chars(stmt);
    let set_word = lit("SET");
    let set_prefix = lit("SET ");
    let select_prefix = lit("SELECT ");
    let alter_prefix = lit("ALTER TABLE ");
    let validate = lit(" VALIDATE CONSTRAINT ");
    if st.len() == 0 || crate::sql_text::same_chars(&st, &set_word) || starts_with_chars(&st, &set_prefix)
        || starts_with_chars(&st, &select_prefix) || (starts_with_chars(&st, &alter_prefix)
        && contains_chars(&st, &validate)) {
        return Ok(());
    }
    let create_prefix = lit("CREATE TABLE ");
    if starts_with_chars(&st, &create_prefix) {
        return apply_create_table(schema, &st);
    }
    if starts_with_chars(&st, &alter_prefix) {
        return apply_alter_table(schema, &st);
    }
    let index_prefix = lit("CREATE INDEX ");
    let unique_prefix = lit("CREATE UNIQUE INDEX ");
    if starts_with_chars(&st, &index_prefix) || starts_with_chars(&st, &unique_prefix) {
        return apply_create_index(schema, &st);
    }
    Ok(())
}

/// Reads the statements of a dump, in order, into an empty schema.
pub fn apply_statements(stmts: &Vec<Vec<char>>) -> (r: Result<ValidatedSchema, String>)
    ensures
        match (statements_effect(Map::empty(), char_views(stmts@)), r) {
            (Ok(m), Ok(s)) => s@ == m,
            (Err(e), Err(x)) => x@ == e,
            _ => false,
        },
{
    let ghost sv = char_views(stmts@);
    let mut schema = ValidatedSchema::new();
    let mut i: usize = 0;
    assert(sv.take(0) =~= seq![]);
    while i < stmts.len()
        invariant
            i <= stmts.len(),
            sv == char_views(stmts@),
            statements_effect(Map::empty(), sv.take(i as int)) == Ok::<SchemaMap, Seq<char>>(schema@),
        decreases stmts.len() - i,
    {
        assert(sv.take(i + 1).drop_last() == sv.take(i as int));
        assert(sv.take(i + 1).last() == stmts@[i as int]@);
        match apply_statement(&mut schema, &stmts[i]) {
            Ok(()) => {},
            Err(e) => {
                proof {
                    assert(statements_effect(Map::empty(), sv.take(i + 1)) == Err::<SchemaMap, Seq<char>>(e@));
                    lemma_statements_effect_err(Map::empty(), sv, i + 1);
                }
                return Err(e);
            },
        }
        i += 1;
    }
    assert(sv.take(stmts.len() as int) == sv);
    Ok(schema)
}

/// Whether a line of a PostgreSQL dump carries no statement text (blank, comment, meta-command).
pub open spec fn pg_skip_line(t: Seq<char>) -> bool {
    t.len() == 0 || starts_with(t, "--"@) || starts_with(t, "\\"@)
}

/// Statements finished, and the one being collected, after reading the lines `ls`.
pub open spec fn pg_state(ls: Seq<Seq<char>>) -> (Seq<Seq<char>>, Seq<char>)
    decreases ls.len(),
{
    if ls.len() == 0 {
        (seq![], seq![])
    } else {
        let prev = pg_state(ls.drop_last());
        let t = trim(ls.last());
        if pg_skip_line(t) {
            prev
        } else {
            let buf = if prev.1.len() > 0 {
                prev.1.push(' ') + t
            } else {
                t
            };
            if ends_with(t, ";"@) {
                (prev.0.push(trim(buf)), seq![])
            } else {
                (prev.0, buf)
            }
        }
    }
}

/// The statements of a PostgreSQL dump: lines joined by single spaces up to a line that ends
/// in `;`; a trailing unfinished statement counts too.
pub open spec fn postgres_statements(contents: Seq<char>) -> Seq<Seq<char>> {
    let st = pg_state(lines(contents));
    if st.1.len() > 0 {
        st.0.push(trim(st.1))
    } else {
        st.0
    }
}

/// `s` with each `""` read, left to right, as one `"`.
pub open spec fn collapse_quotes(s: Seq<char>) -> Seq<char>
    decreases s.len(),
{
    if s.len() < 2 {
        s
    } else if s[0] == '"' && s[1] == '"' {
        seq!['"'] + collapse_quotes(s.skip(2))
    } else {
        seq![s[0]] + collapse_quotes(s.drop_first())
    }
}

/// A quoted statement of a CockroachDB dump, without its quotes.
pub open spec fn unquote(v: Seq<char>) -> Seq<char> {
    trim(collapse_quotes(strip_all_suffix(strip_all_prefix(trim(v), "\""@), "\""@)))
}

/// Whether a line of a CockroachDB dump carries no statement text.
pub open spec fn crdb_skip_line(t: Seq<char>) -> bool {
    t.len() == 0 || t == "SET"@ || t == "create_statement"@
}

/// Statements finished, and the quoted one being collected, after reading the lines `ls`.
pub open spec fn crdb_state(ls: Seq<Seq<char>>) -> (Seq<Seq<char>>, Option<Seq<char>>)
    decreases ls.len(),
{
    if ls.len() == 0 {
        (seq![], None)
    } else {
        let prev = crdb_state(ls.drop_last());
        let t = trim(ls.last());
        if crdb_skip_line(t) {
            prev
        } else {
            match prev.1 {
                Some(q) => {
                    let q2 = q.push('\n') + t;
                    if ends_with(t, ";\""@) {
                        (prev.0.push(unquote(q2)), None)
                    } else {
                        (prev.0, Some(q2))
                    }
                },
                None => if starts_with(t, "\""@) {
                    if ends_with(t, ";\""@) {
                        (prev.0.push(unquote(t)), None)
                    } else {
                        (prev.0, Some(t))
                    }
                } else {
                    (prev.0.push(t), None)
                },
            }
        }
    }
}

/// The statements of a CockroachDB dump (each line a statement, or a quoted statement over
/// several lines); `None` when a quoted statement is never closed.
pub open spec fn cockroach_statements(contents: Seq<char>) -> Option<Seq<Seq<char>>> {
    let st = crdb_state(lines(contents));
    if st.1 is Some {
        None
    } else {
        Some(st.0)
    }
}

/// The schema a PostgreSQL dump describes, or the first error in it.
pub open spec fn parsed_postgres(contents: Seq<char>) -> Result<SchemaMap, Seq<char>> {
    statements_effect(Map::empty(), postgres_statements(contents))
}

/// The schema a CockroachDB dump describes, or the first error in it.
pub open spec fn parsed_cockroach(contents: Seq<char>) -> Result<SchemaMap, Seq<char>> {
    match cockroach_statements(contents) {
        None => Err("unterminated quoted CREATE TABLE statement"@),
        Some(st) => statements_effect(Map::empty(), st),
    }
}

fn collapse_quotes_exec(v: &Vec<char>) -> (r: Vec<char>)
    ensures
        r@ == collapse_quotes(v@),
{
    let mut out: Vec<char> = Vec::new();
    let mut i: usize = 0;
    assert(v@.skip(0) == v@);
    while i < v.len()
        invariant
            i <= v.len(),
            out@ + collapse_quotes(v@.skip(i as int)) == collapse_quotes(v@),
        decreases v.len() - i,
    {
        let ghost rest = v@.skip(i as int);
        if i + 1 < v.len() && v[i] == '"' && v[i + 1] == '"' {
            assert(rest[0] == v@[i as int] && rest[1] == v@[i + 1]);
            assert(rest.skip(2) == v@.skip(i + 2));
            out.push('"');
            assert(out@ + collapse_quotes(v@.skip(i + 2)) == collapse_quotes(v@)) by {
                assert(collapse_quotes(rest) == seq!['"'] + collapse_quotes(rest.skip(2)));
                assert(out@ + collapse_quotes(v@.skip(i + 2)) =~= out@.drop_last() + collapse_quotes(rest));
            }
            i += 2;
        } else {
            assert(rest[0] == v@[i as int]);
            if i + 1 < v.len() {
                assert(rest[1] == v@[i + 1]);
            }
            assert(rest.drop_first() == v@.skip(i + 1));
            out.push(v[i]);
            assert(out@ + collapse_quotes(v@.skip(i + 1)) == collapse_quotes(v@)) by {
                if rest.len() < 2 {
                    assert(rest.len() == 1);
                    assert(collapse_quotes(rest) == rest);
                    assert(rest.drop_first() =~= seq![]);
                    assert(collapse_quotes(rest.drop_first()) == rest.drop_first());
                    assert(rest =~= seq![rest[0]] + rest.drop_first());
                } else {
                    assert(collapse_quotes(rest) == seq![rest[0]] + collapse_quotes(rest.drop_first()));
                }
                assert(out@ + collapse_quotes(v@.skip(i + 1)) =~= out@.drop_last() + collapse_quotes(rest));
            }
            i += 1;
        }
    }
    assert(v@.skip(v.len() as int) =~= seq![]);
    assert(out@ + collapse_quotes(v@.skip(v.len() as int)) =~= out@);
    out
}

fn unquote_statement(v: &Vec<char>) -> (r: Vec<char>)
    ensures
        r@ == unquote(v@),
{
    let quote = lit("\"");
    let t = trim_chars(v);
    let t = trim_start_matches(&t, &quote);
    let t = trim_end_matches(&t, &quote);
    let t = collapse_quotes_exec(&t);
    trim_chars(&t)
}

/// The statements of a PostgreSQL dump.
pub fn extract_postgres_statements(contents: &Vec<char>) -> (r: Vec<Vec<char>>)
    ensures
        char_views(r@) == postgres_statements(contents@),
{
    let ls = crate::sql_text::split_lines(contents);
    let ghost lv = char_views(ls@);
    let comment = lit("--");
    let backslash = lit("\\");
    let semicolon = lit(";");
    let mut stmts: Vec<Vec<char>> = Vec::new();
    let mut buffer: Vec<char> = Vec::new();
    let mut i: usize = 0;
    assert(lv.take(0) =~= seq![]);
    while i < ls.len()
        invariant
            i <= ls.len(),
            lv == char_views(ls@),
            comment@ == "--"@,
            backslash@ == "\\"@,
            semicolon@ == ";"@,
            (char_views(stmts@), buffer@) == pg_state(lv.take(i as int)),
        decreases ls.len() - i,
    {
        assert(lv.take(i + 1).drop_last() == lv.take(i as int));
        assert(lv.take(i + 1).last() == ls@[i as int]@);
        let t = trim_chars(&ls[i]);
        if t.len() == 0 || starts_with_chars(&t, &comment) || starts_with_chars(&t, &backslash) {
            i += 1;
            continue;
        }
        if buffer.len() > 0 {
            buffer.push(' ');
        }
        let ghost before = buffer@;
        let mut k: usize = 0;
        while k < t.len()
            invariant
                k <= t.len(),
                buffer@ == before + t@.take(k as int),
            decreases t.len() - k,
        {
            buffer.push(t[k]);
            assert(t@.take(k + 1) == t@.take(k as int).push(t@[k as int]));
            k += 1;
        }
        assert(t@.take(t.len() as int) == t@);
        if crate::sql_text::ends_with_chars(&t, &semicolon) {
            let done = trim_chars(&buffer);
            stmts.push(done);
            assert(char_views(stmts@) =~= pg_state(lv.take(i + 1)).0);
            buffer = Vec::new();
            assert(buffer@ =~= seq![]);
        }
        i += 1;
    }
    assert(lv.take(ls.len() as int) == lv);
    if buffer.len() > 0 {
        let done = trim_chars(&buffer);
        stmts.push(done);
        assert(char_views(stmts@) =~= postgres_statements(contents@));
    }
    stmts
}

/// The statements of a CockroachDB dump; `None` when a quoted statement is never closed.
pub fn extract_cockroach_statements(contents: &Vec<char>) -> (r: Option<Vec<Vec<char>>>)
    ensures
        match r {
            Some(x) => cockroach_statements(contents@) == Some(char_views(x@)),
            None => cockroach_statements(contents@) is None,
        },
{
    let ls = crate::sql_text::split_lines(contents);
    let ghost lv = char_views(ls@);
    let set_word = lit("SET");
    let header = lit("create_statement");
    let quote = lit("\"");
    let closing = lit(";\"");
    let mut stmts: Vec<Vec<char>> = Vec::new();
    let mut quoted: Option<Vec<char>> = None;
    let mut i: usize = 0;
    assert(lv.take(0) =~= seq![]);
    while i < ls.len()
        invariant
            i <= ls.len(),
            lv == char_views(ls@),
            set_word@ == "SET"@,
            header@ == "create_statement"@,
            quote@ == "\""@,
            closing@ == ";\""@,
            char_views(stmts@) == crdb_state(lv.take(i as int)).0,
            match quoted {
                Some(q) => crdb_state(lv.take(i as int)).1 == Some(q@),
                None => crdb_state(lv.take(i as int)).1 is None,
            },
        decreases ls.len() - i,
    {
        assert(lv.take(i + 1).drop_last() == lv.take(i as int));
        assert(lv.take(i + 1).last() == ls@[i as int]@);
        let t = trim_chars(&ls[i]);
        if t.len() == 0 || crate::sql_text::same_chars(&t, &set_word) || crate::sql_text::same_chars(&t, &header) {
            i += 1;
            continue;
        }
        let ends = crate::sql_text::ends_with_chars(&t, &closing);
        match quoted {
            Some(mut q) => {
                let ghost q0 = q@;
                q.push('\n');
                let mut k: usize = 0;
                while k < t.len()
                    invariant
                        k <= t.len(),
                        q@ == q0.push('\n') + t@.take(k as int),
                    decreases t.len() - k,
                {
                    q.push(t[k]);
                    assert(t@.take(k + 1) == t@.take(k as int).push(t@[k as int]));
                    k += 1;
                }
                assert(t@.take(t.len() as int) == t@);
                if ends {
                    let done = unquote_statement(&q);
                    stmts.push(done);
                    assert(char_views(stmts@) =~= crdb_state(lv.take(i + 1)).0);
                    quoted = None;
                } else {
                    quoted = Some(q);
                }
            },
            None => {
                if starts_with_chars(&t, &quote) {
                    if ends {
                        let done = unquote_statement(&t);
                        stmts.push(done);
                        assert(char_views(stmts@) =~= crdb_state(lv.take(i + 1)).0);
                    } else {
                        quoted = Some(t);
                    }
                } else {
                    stmts.push(t);
                    assert(char_views(stmts@) =~= crdb_state(lv.take(i + 1)).0);
                }
            },
        }
        i += 1;
    }
    assert(lv.take(ls.len() as int) == lv);
    match quoted {
        Some(_) => None,
        None => Some(stmts),
    }
}

} // verus!
