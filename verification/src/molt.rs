//! Row-level verification of a mapping with MOLT: the command to run and how its report reads.
use vstd::prelude::*;

use crate::config::{mapping_named, opt_view, LoadedRunnerConfig, MappingConfig};
use crate::cutover::clone_strings;
use crate::schema::first_index_of;
use crate::sql_text::{char_views, lines, split_lines, trim_chars};
use crate::text::{chars_of, decimal, join, join_strings, string_of, string_of_range, trim, views};

verus! {

/// Why a verification run could not pass.
#[derive(Debug)]
pub enum RunnerVerifyError {
    UnknownMapping { mapping_id: String, config_path: String },
    InvalidMappedTable { mapping_id: String, table: String },
    SpawnCommand { command: String, message: String },
    CommandFailed { command: String, status: i32 },
    MissingSummary { mapping_id: String },
    MissingCompletion { mapping_id: String },
    DataMismatch { mapping_id: String, details: String },
    Artifact { message: String },
}

/// A verification error, as contracts speak of it.
pub enum VerifyErrorView {
    UnknownMapping { mapping_id: Seq<char>, config_path: Seq<char> },
    InvalidMappedTable { mapping_id: Seq<char>, table: Seq<char> },
    SpawnCommand { command: Seq<char>, message: Seq<char> },
    CommandFailed { command: Seq<char>, status: i32 },
    MissingSummary { mapping_id: Seq<char> },
    MissingCompletion { mapping_id: Seq<char> },
    DataMismatch { mapping_id: Seq<char>, details: Seq<char> },
    Artifact { message: Seq<char> },
}

impl View for RunnerVerifyError {
    type V = VerifyErrorView;

    open spec fn view(&self) -> VerifyErrorView {
        match self {
            RunnerVerifyError::UnknownMapping { mapping_id, config_path } =>
                VerifyErrorView::UnknownMapping { mapping_id: mapping_id@, config_path: config_path@ },
            RunnerVerifyError::InvalidMappedTable { mapping_id, table } =>
                VerifyErrorView::InvalidMappedTable { mapping_id: mapping_id@, table: table@ },
            RunnerVerifyError::SpawnCommand { command, message } => VerifyErrorView::SpawnCommand {
                command: command@,
                message: message@,
            },
            RunnerVerifyError::CommandFailed { command, status } => VerifyErrorView::CommandFailed {
                command: command@,
                status: *status,
            },
            RunnerVerifyError::MissingSummary { mapping_id } => VerifyErrorView::MissingSummary {
                mapping_id: mapping_id@,
            },
            RunnerVerifyError::MissingCompletion { mapping_id } => VerifyErrorView::MissingCompletion {
                mapping_id: mapping_id@,
            },
            RunnerVerifyError::DataMismatch { mapping_id, details } => VerifyErrorView::DataMismatch {
                mapping_id: mapping_id@,
                details: details@,
            },
            RunnerVerifyError::Artifact { message } => VerifyErrorView::Artifact { message: message@ },
        }
    }
}

/// `schema.table` split at its first dot; `None` when there is no dot.
pub open spec fn split_table(t: Seq<char>) -> Option<(Seq<char>, Seq<char>)> {
    let d = first_index_of(t, '.');
    if d < 0 {
        None
    } else {
        Some((t.take(d), t.skip(d + 1)))
    }
}

/// Splits a mapped table entry into schema and table.
pub fn split_table_name(mapping_id: &str, table: &str) -> (r: Result<(String, String), RunnerVerifyError>)
    ensures
        match (split_table(table@), r) {
            (Some(p), Ok(q)) => q.0@ == p.0 && q.1@ == p.1,
            (None, Err(e)) => e@ == (VerifyErrorView::InvalidMappedTable {
                mapping_id: mapping_id@,
                table: table@,
            }),
            _ => false,
        },
{
    let v = chars_of(table);
    let mut i: usize = 0;
    while i < v.len() && v[i] != '.'
        invariant
            i <= v.len(),
            forall|j: int| 0 <= j < i ==> v@[j] != '.',
        decreases v.len() - i,
    {
        i += 1;
    }
    proof {
        crate::schema::lemma_first_index_of(v@, '.', i as int);
    }
    if i == v.len() {
        return Err(
            RunnerVerifyError::InvalidMappedTable {
                mapping_id: String::from_str(mapping_id),
                table: String::from_str(table),
            },
        );
    }
    let schema = string_of_range(&v, 0, i);
    let name = string_of_range(&v, i + 1, v.len());
    assert(v@.subrange(0, i as int) == v@.take(i as int));
    assert(v@.subrange(i + 1, v.len() as int) == v@.skip(i + 1));
    Ok((schema, name))
}

/// The distinct schemas of the tables, in first-seen order; `None` when an entry has no dot.
pub open spec fn schema_list(tables: Seq<Seq<char>>) -> Option<Seq<Seq<char>>>
    decreases tables.len(),
{
    if tables.len() == 0 {
        Some(seq![])
    } else {
        match schema_list(tables.drop_last()) {
            None => None,
            Some(prev) => match split_table(tables.last()) {
                None => None,
                Some(p) => if prev.contains(p.0) {
                    Some(prev)
                } else {
                    Some(prev.push(p.0))
                },
            },
        }
    }
}

/// The table parts of the entries; `None` when an entry has no dot.
pub open spec fn table_list(tables: Seq<Seq<char>>) -> Option<Seq<Seq<char>>>
    decreases tables.len(),
{
    if tables.len() == 0 {
        Some(seq![])
    } else {
        match table_list(tables.drop_last()) {
            None => None,
            Some(prev) => match split_table(tables.last()) {
                None => None,
                Some(p) => Some(prev.push(p.1)),
            },
        }
    }
}

/// The first entry without a dot.
pub open spec fn first_undotted(tables: Seq<Seq<char>>) -> Seq<char>
    decreases tables.len(),
{
    if tables.len() == 0 {
        seq![]
    } else if split_table(tables[0]) is None {
        tables[0]
    } else {
        first_undotted(tables.drop_first())
    }
}

proof fn lemma_lists_fail(tables: Seq<Seq<char>>, k: int)
    requires
        0 <= k < tables.len(),
        split_table(tables[k]) is None,
        forall|j: int| 0 <= j < k ==> split_table(#[trigger] tables[j]) is Some,
    ensures
        schema_list(tables) is None,
        table_list(tables) is None,
        first_undotted(tables) == tables[k],
    decreases tables.len(),
{
    if k < tables.len() - 1 {
        lemma_lists_fail(tables.drop_last(), k);
    }
    if k > 0 {
        let t = tables.drop_first();
        assert forall|j: int| 0 <= j < k - 1 implies split_table(#[trigger] t[j]) is Some by {
            assert(t[j] == tables[j + 1]);
        }
        assert(t[k - 1] == tables[k]);
        lemma_lists_fail_first(t, k - 1);
    }
}

proof fn lemma_lists_fail_first(tables: Seq<Seq<char>>, k: int)
    requires
        0 <= k < tables.len(),
        split_table(tables[k]) is None,
        forall|j: int| 0 <= j < k ==> split_table(#[trigger] tables[j]) is Some,
    ensures
        first_undotted(tables) == tables[k],
    decreases k,
{
    if k > 0 {
        let t = tables.drop_first();
        assert forall|j: int| 0 <= j < k - 1 implies split_table(#[trigger] t[j]) is Some by {
            assert(t[j] == tables[j + 1]);
        }
        assert(t[k - 1] == tables[k]);
        lemma_lists_fail_first(t, k - 1);
    }
}

/// The schema filter of a mapping: its distinct schemas joined by `|`.
pub fn build_schema_filter(mapping: &MappingConfig) -> (r: Result<String, RunnerVerifyError>)
    ensures
        match (schema_list(mapping.source_spec().tables), r) {
            (Some(l), Ok(s)) => s@ == join(l, "|"@),
            (None, Err(e)) => e@ == (VerifyErrorView::InvalidMappedTable {
                mapping_id: mapping.id_spec(),
                table: first_undotted(mapping.source_spec().tables),
            }),
            _ => false,
        },
{
    let tables = mapping.source().tables();
    let ghost tv = views(tables@);
    let mut schemas: Vec<String> = Vec::new();
    let mut i: usize = 0;
    assert(tv.take(0) =~= seq![]);
    while i < tables.len()
        invariant
            i <= tables.len(),
            tv == views(tables@),
            tv == mapping.source_spec().tables,
            forall|j: int| 0 <= j < i ==> split_table(#[trigger] tv[j]) is Some,
            schema_list(tv.take(i as int)) == Some(views(schemas@)),
        decreases tables.len() - i,
    {
        assert(tv[i as int] == tables@[i as int]@);
        assert(tv.take(i + 1).drop_last() == tv.take(i as int));
        assert(tv.take(i + 1).last() == tv[i as int]);
        let (schema, _) = match split_table_name(mapping.id(), tables[i].as_str()) {
            Ok(p) => p,
            Err(e) => {
                proof {
                    lemma_lists_fail(tv, i as int);
                }
                return Err(e);
            },
        };
        let mut seen = false;
        let mut k: usize = 0;
        while k < schemas.len()
            invariant
                k <= schemas.len(),
                seen == views(schemas@).take(k as int).contains(schema@),
            decreases schemas.len() - k,
        {
            if crate::text::str_eq(schemas[k].as_str(), schema.as_str()) {
                seen = true;
            }
            proof {
                let a = views(schemas@).take(k as int);
                let b = views(schemas@).take(k + 1);
                assert(b == a.push(schemas@[k as int]@));
                assert(b.contains(schema@) == (a.contains(schema@) || schemas@[k as int]@ == schema@)) by {
                    if b.contains(schema@) {
                        let w = choose|w: int| 0 <= w < b.len() && b[w] == schema@;
                        if w < k {
                            assert(a[w] == schema@);
                        }
                    }
                    if a.contains(schema@) {
                        let w = choose|w: int| 0 <= w < a.len() && a[w] == schema@;
                        assert(b[w] == schema@);
                    }
                    if schemas@[k as int]@ == schema@ {
                        assert(b[k as int] == schema@);
                    }
                }
            }
            k += 1;
        }
        assert(views(schemas@).take(schemas.len() as int) == views(schemas@));
        if !seen {
            let ghost prev = views(schemas@);
            schemas.push(schema);
            assert(views(schemas@) =~= prev.push(schema@));
        }
        i += 1;
    }
    assert(tv.take(tables.len() as int) == tv);
    Ok(join_strings(&schemas, "|"))
}

/// The table filter of a mapping: its table names joined by `|`.
pub fn build_table_filter(mapping: &MappingConfig) -> (r: Result<String, RunnerVerifyError>)
    ensures
        match (table_list(mapping.source_spec().tables), r) {
            (Some(l), Ok(s)) => s@ == join(l, "|"@),
            (None, Err(e)) => e@ == (VerifyErrorView::InvalidMappedTable {
                mapping_id: mapping.id_spec(),
                table: first_undotted(mapping.source_spec().tables),
            }),
            _ => false,
        },
{
    let tables = mapping.source().tables();
    let ghost tv = views(tables@);
    let mut names: Vec<String> = Vec::new();
    let mut i: usize = 0;
    assert(tv.take(0) =~= seq![]);
    while i < tables.len()
        invariant
            i <= tables.len(),
            tv == views(tables@),
            tv == mapping.source_spec().tables,
            forall|j: int| 0 <= j < i ==> split_table(#[trigger] tv[j]) is Some,
            table_list(tv.take(i as int)) == Some(views(names@)),
        decreases tables.len() - i,
    {
        assert(tv[i as int] == tables@[i as int]@);
        assert(tv.take(i + 1).drop_last() == tv.take(i as int));
        assert(tv.take(i + 1).last() == tv[i as int]);
        let (_, name) = match split_table_name(mapping.id(), tables[i].as_str()) {
            Ok(p) => p,
            Err(e) => {
                proof {
                    lemma_lists_fail(tv, i as int);
                }
                return Err(e);
            },
        };
        let ghost prev = views(names@);
        names.push(name);
        assert(views(names@) =~= prev.push(views(names@).last()));
        i += 1;
    }
    assert(tv.take(tables.len() as int) == tv);
    Ok(join_strings(&names, "|"))
}

/// A signed number in decimal.
pub open spec fn int_text(n: int) -> Seq<char> {
    if n < 0 {
        "-"@ + decimal((-n) as nat)
    } else {
        decimal(n as nat)
    }
}

fn push_int(s: &mut String, n: i32)
    ensures
        final(s)@ == old(s)@ + int_text(n as int),
{
    if n < 0 {
        s.append("-");
        let m: u64 = (0i64 - (n as i64)) as u64;
        crate::text::push_decimal(s, m);
    } else {
        crate::text::push_decimal(s, n as u64);
    }
}

/// The `--target` URL that MOLT connects to.
pub open spec fn target_url_spec(
    user: Seq<char>,
    password: Seq<char>,
    host: Seq<char>,
    port: u16,
    database: Seq<char>,
) -> Seq<char> {
    "postgresql://"@ + user + ":"@ + password + "@"@ + host + ":"@ + decimal(port as nat) + "/"@
        + database
}

pub fn molt_target_url(user: &str, password: &str, host: &str, port: u16, database: &str) -> (r: String)
    ensures
        r@ == target_url_spec(user@, password@, host@, port, database@),
{
    let mut s = String::from_str("postgresql://");
    s.append(user);
    s.append(":");
    s.append(password);
    s.append("@");
    s.append(host);
    s.append(":");
    crate::text::push_decimal(&mut s, port as u64);
    s.append("/");
    s.append(database);
    s
}

/// One verification run of a mapping.
pub struct MoltVerifyRequest {
    command: String,
    mapping_id: String,
    report_dir: String,
    source_url: String,
    target_url: String,
    schema_filter: String,
    table_filter: String,
    selected_tables: Vec<String>,
    allow_tls_mode_disable: bool,
}

pub struct RequestView {
    pub command: Seq<char>,
    pub mapping_id: Seq<char>,
    pub report_dir: Seq<char>,
    pub source_url: Seq<char>,
    pub target_url: Seq<char>,
    pub schema_filter: Seq<char>,
    pub table_filter: Seq<char>,
    pub selected_tables: Seq<Seq<char>>,
    pub allow_tls_mode_disable: bool,
}

impl View for MoltVerifyRequest {
    type V = RequestView;

    closed spec fn view(&self) -> RequestView {
        RequestView {
            command: self.command@,
            mapping_id: self.mapping_id@,
            report_dir: self.report_dir@,
            source_url: self.source_url@,
            target_url: self.target_url@,
            schema_filter: self.schema_filter@,
            table_filter: self.table_filter@,
            selected_tables: views(self.selected_tables@),
            allow_tls_mode_disable: self.allow_tls_mode_disable,
        }
    }
}

/// The request for a mapping of the loaded config, or why there is none.
pub open spec fn request_outcome(
    loaded: LoadedRunnerConfig,
    mapping_id: Seq<char>,
    command: Seq<char>,
    report_dir: Seq<char>,
    source_url: Seq<char>,
    target_url: Seq<char>,
    allow_tls_mode_disable: bool,
) -> Result<RequestView, VerifyErrorView> {
    match mapping_named(loaded.config_spec().mappings_spec(), mapping_id) {
        None => Err(VerifyErrorView::UnknownMapping { mapping_id, config_path: loaded.path_spec() }),
        Some(m) => {
            let tables = m.source_spec().tables;
            match schema_list(tables) {
                None => Err(
                    VerifyErrorView::InvalidMappedTable {
                        mapping_id: m.id_spec(),
                        table: first_undotted(tables),
                    },
                ),
                Some(schemas) => match table_list(tables) {
                    None => Err(
                        VerifyErrorView::InvalidMappedTable {
                            mapping_id: m.id_spec(),
                            table: first_undotted(tables),
                        },
                    ),
                    Some(names) => Ok(
                        RequestView {
                            command,
                            mapping_id: m.id_spec(),
                            report_dir,
                            source_url,
                            target_url,
                            schema_filter: join(schemas, "|"@),
                            table_filter: join(names, "|"@),
                            selected_tables: tables,
                            allow_tls_mode_disable,
                        },
                    ),
                },
            }
        },
    }
}

/// The arguments MOLT runs with.
pub open spec fn arguments_spec(r: RequestView) -> Seq<Seq<char>> {
    let base = seq![
        "verify"@,
        "--source"@,
        r.source_url,
        "--target"@,
        r.target_url,
        "--schema-filter"@,
        r.schema_filter,
        "--table-filter"@,
        r.table_filter,
    ];
    if r.allow_tls_mode_disable {
        base.push("--allow-tls-mode-disable"@)
    } else {
        base
    }
}

impl MoltVerifyRequest {
    /// The request for a mapping: the MOLT command and report directory to use, the source
    /// URL, and the destination URL.
    pub fn from_loaded_config(
        loaded: &LoadedRunnerConfig,
        mapping_id: &str,
        command: &str,
        report_dir: &str,
        source_url: &str,
        target_url: String,
        allow_tls_mode_disable: bool,
    ) -> (r: Result<Self, RunnerVerifyError>)
        ensures
            match (
                request_outcome(
                    *loaded,
                    mapping_id@,
                    command@,
                    report_dir@,
                    source_url@,
                    target_url@,
                    allow_tls_mode_disable,
                ),
                r,
            ) {
                (Ok(v), Ok(x)) => x@ == v,
                (Err(e), Err(x)) => x@ == e,
                _ => false,
            },
    {
        let mapping = match loaded.config().mapping(mapping_id) {
            Some(m) => m,
            None => {
                return Err(
                    RunnerVerifyError::UnknownMapping {
                        mapping_id: String::from_str(mapping_id),
                        config_path: String::from_str(loaded.path()),
                    },
                );
            },
        };
        let selected_tables = clone_strings(mapping.source().tables());
        let schema_filter = match build_schema_filter(mapping) {
            Ok(s) => s,
            Err(e) => {
                return Err(e);
            },
        };
        let table_filter = match build_table_filter(mapping) {
            Ok(s) => s,
            Err(e) => {
                return Err(e);
            },
        };
        Ok(
            MoltVerifyRequest {
                command: String::from_str(command),
                mapping_id: String::from_str(mapping.id()),
                report_dir: String::from_str(report_dir),
                source_url: String::from_str(source_url),
                target_url,
                schema_filter,
                table_filter,
                selected_tables,
                allow_tls_mode_disable,
            },
        )
    }

    pub fn command(&self) -> (r: &str)
        ensures
            r@ == self@.command,
    {
        self.command.as_str()
    }

    pub fn mapping_id(&self) -> (r: &str)
        ensures
            r@ == self@.mapping_id,
    {
        self.mapping_id.as_str()
    }

    pub fn report_dir(&self) -> (r: &str)
        ensures
            r@ == self@.report_dir,
    {
        self.report_dir.as_str()
    }

    pub fn selected_tables(&self) -> (r: &Vec<String>)
        ensures
            views(r@) == self@.selected_tables,
    {
        &self.selected_tables
    }

    /// The arguments to run MOLT with.
    pub fn arguments(&self) -> (r: Vec<String>)
        ensures
            views(r@) == arguments_spec(self@),
    {
        let mut r: Vec<String> = Vec::new();
        r.push(String::from_str("verify"));
        r.push(String::from_str("--source"));
        r.push(self.source_url.clone());
        r.push(String::from_str("--target"));
        r.push(self.target_url.clone());
        r.push(String::from_str("--schema-filter"));
        r.push(self.schema_filter.clone());
        r.push(String::from_str("--table-filter"));
        r.push(self.table_filter.clone());
        if self.allow_tls_mode_disable {
            r.push(String::from_str("--allow-tls-mode-disable"));
        }
        assert(views(r@) =~= arguments_spec(self@));
        r
    }
}

/// One JSON line of MOLT's output (only the fields the runner reads).
pub struct MoltLogRecord {
    pub record_type: Option<String>,
    pub table_schema: Option<String>,
    pub table_name: Option<String>,
    pub message: Option<String>,
    pub num_missing: Option<u64>,
    pub num_mismatch: Option<u64>,
    pub num_extraneous: Option<u64>,
    pub num_column_mismatch: Option<u64>,
}

/// The per-table counts of a MOLT summary line.
pub struct MoltTableSummary {
    pub table_name: String,
    pub num_missing: u64,
    pub num_mismatch: u64,
    pub num_extraneous: u64,
    pub num_column_mismatch: u64,
}

pub struct TableSummaryView {
    pub table_name: Seq<char>,
    pub num_missing: u64,
    pub num_mismatch: u64,
    pub num_extraneous: u64,
    pub num_column_mismatch: u64,
}

impl View for MoltTableSummary {
    type V = TableSummaryView;

    open spec fn view(&self) -> TableSummaryView {
        TableSummaryView {
            table_name: self.table_name@,
            num_missing: self.num_missing,
            num_mismatch: self.num_mismatch,
            num_extraneous: self.num_extraneous,
            num_column_mismatch: self.num_column_mismatch,
        }
    }
}

/// The table summary a record carries: a `summary` record with schema, table and all counts.
pub open spec fn record_summary(r: MoltLogRecord) -> Option<TableSummaryView> {
    if opt_view(r.record_type) == Some("summary"@) && r.table_schema is Some && r.table_name
        is Some && r.num_missing is Some && r.num_mismatch is Some && r.num_extraneous is Some
        && r.num_column_mismatch is Some {
        Some(
            TableSummaryView {
                table_name: r.table_schema->0@ + "."@ + r.table_name->0@,
                num_missing: r.num_missing->0,
                num_mismatch: r.num_mismatch->0,
                num_extraneous: r.num_extraneous->0,
                num_column_mismatch: r.num_column_mismatch->0,
            },
        )
    } else {
        None
    }
}

pub open spec fn record_completes(r: MoltLogRecord) -> bool {
    opt_view(r.message) == Some("verification complete"@)
}

fn opt_is(o: &Option<String>, lit: &str) -> (r: bool)
    ensures
        r == (opt_view(*o) == Some(lit@)),
{
    match o {
        Some(s) => crate::text::str_eq(s.as_str(), lit),
        None => false,
    }
}

impl MoltLogRecord {
    /// The table summary this record carries, if it is a complete `summary` record.
    pub fn summary(&self) -> (r: Option<MoltTableSummary>)
        ensures
            match r {
                Some(s) => record_summary(*self) == Some(s@),
                None => record_summary(*self) is None,
            },
    {
        if !opt_is(&self.record_type, "summary") {
            return None;
        }
        let schema = match &self.table_schema {
            Some(s) => s,
            None => return None,
        };
        let table = match &self.table_name {
            Some(s) => s,
            None => return None,
        };
        let num_missing = match self.num_missing {
            Some(n) => n,
            None => return None,
        };
        let num_mismatch = match self.num_mismatch {
            Some(n) => n,
            None => return None,
        };
        let num_extraneous = match self.num_extraneous {
            Some(n) => n,
            None => return None,
        };
        let num_column_mismatch = match self.num_column_mismatch {
            Some(n) => n,
            None => return None,
        };
        let mut name = schema.clone();
        name.append(".");
        name.append(table.as_str());
        Some(MoltTableSummary { table_name: name, num_missing, num_mismatch, num_extraneous, num_column_mismatch })
    }

    /// Whether this record says the run is complete.
    pub fn is_completion(&self) -> (r: bool)
        ensures
            r == record_completes(*self),
    {
        opt_is(&self.message, "verification complete")
    }
}

pub open spec fn summary_mismatches(s: TableSummaryView) -> bool {
    s.num_missing > 0 || s.num_mismatch > 0 || s.num_extraneous > 0 || s.num_column_mismatch > 0
}

/// `table(num_missing=.., num_mismatch=.., num_extraneous=.., num_column_mismatch=..)`.
pub open spec fn counts_text(s: TableSummaryView) -> Seq<char> {
    s.table_name + "(num_missing="@ + decimal(s.num_missing as nat) + ", num_mismatch="@ + decimal(
        s.num_mismatch as nat,
    ) + ", num_extraneous="@ + decimal(s.num_extraneous as nat) + ", num_column_mismatch="@
        + decimal(s.num_column_mismatch as nat) + ")"@
}

impl MoltTableSummary {
    /// Whether any row count is off.
    pub fn has_mismatch(&self) -> (r: bool)
        ensures
            r == summary_mismatches(self@),
    {
        self.num_missing > 0 || self.num_mismatch > 0 || self.num_extraneous > 0
            || self.num_column_mismatch > 0
    }

    /// The counts, as a report names them.
    pub fn render_counts(&self) -> (r: String)
        ensures
            r@ == counts_text(self@),
    {
        let mut s = self.table_name.clone();
        s.append("(num_missing=");
        crate::text::push_decimal(&mut s, self.num_missing);
        s.append(", num_mismatch=");
        crate::text::push_decimal(&mut s, self.num_mismatch);
        s.append(", num_extraneous=");
        crate::text::push_decimal(&mut s, self.num_extraneous);
        s.append(", num_column_mismatch=");
        crate::text::push_decimal(&mut s, self.num_column_mismatch);
        s.append(")");
        s
    }
}

/// The table summaries among the records, in order.
pub open spec fn summaries_of(records: Seq<MoltLogRecord>) -> Seq<TableSummaryView>
    decreases records.len(),
{
    if records.len() == 0 {
        seq![]
    } else {
        match record_summary(records.last()) {
            Some(s) => summaries_of(records.drop_last()).push(s),
            None => summaries_of(records.drop_last()),
        }
    }
}

/// The mismatch lines of the summaries, in order.
pub open spec fn mismatch_lines(s: Seq<TableSummaryView>) -> Seq<Seq<char>>
    decreases s.len(),
{
    if s.len() == 0 {
        seq![]
    } else if summary_mismatches(s.last()) {
        mismatch_lines(s.drop_last()).push(counts_text(s.last()))
    } else {
        mismatch_lines(s.drop_last())
    }
}

/// What MOLT's records say: they must hold a table summary and a completion record.
pub struct MoltAssessment {
    summaries: Vec<MoltTableSummary>,
    mismatch_details: Vec<String>,
}

pub open spec fn summary_views(v: Seq<MoltTableSummary>) -> Seq<TableSummaryView> {
    v.map_values(|s: MoltTableSummary| s@)
}

impl MoltAssessment {
    pub closed spec fn summaries_spec(&self) -> Seq<TableSummaryView> {
        summary_views(self.summaries@)
    }

    pub closed spec fn details_spec(&self) -> Seq<Seq<char>> {
        views(self.mismatch_details@)
    }

    /// Reads the records: no summary and no completion record are errors (in that order).
    pub fn from_records(mapping_id: &str, records: &Vec<MoltLogRecord>) -> (r: Result<Self, RunnerVerifyError>)
        ensures
            match r {
                Ok(a) => summaries_of(records@).len() > 0 && (exists|i: int|
                    0 <= i < records@.len() && record_completes(#[trigger] records@[i]))
                    && a.summaries_spec() == summaries_of(records@) && a.details_spec()
                    == mismatch_lines(summaries_of(records@)),
                Err(e) => if summaries_of(records@).len() == 0 {
                    e@ == (VerifyErrorView::MissingSummary { mapping_id: mapping_id@ })
                } else {
                    e@ == (VerifyErrorView::MissingCompletion { mapping_id: mapping_id@ }) && forall|
                        i: int,
                    |
                        0 <= i < records@.len() ==> !record_completes(#[trigger] records@[i])
                },
            },
    {
        let mut summaries: Vec<MoltTableSummary> = Vec::new();
        let mut details: Vec<String> = Vec::new();
        let mut completed = false;
        let mut i: usize = 0;
        assert(records@.take(0) =~= seq![]);
        while i < records.len()
            invariant
                i <= records.len(),
                summary_views(summaries@) == summaries_of(records@.take(i as int)),
                views(details@) == mismatch_lines(summaries_of(records@.take(i as int))),
                completed == exists|j: int| 0 <= j < i && record_completes(#[trigger] records@[j]),
            decreases records.len() - i,
        {
            assert(records@.take(i + 1).drop_last() == records@.take(i as int));
            assert(records@.take(i + 1).last() == records@[i as int]);
            match records[i].summary() {
                Some(s) => {
                    let ghost prev_s = summary_views(summaries@);
                    let ghost prev_d = views(details@);
                    assert(summaries_of(records@.take(i + 1)) == prev_s.push(s@));
                    assert(prev_s.push(s@).drop_last() =~= prev_s);
                    assert(prev_s.push(s@).last() == s@);
                    if s.has_mismatch() {
                        details.push(s.render_counts());
                        assert(views(details@) =~= prev_d.push(counts_text(s@)));
                    }
                    summaries.push(s);
                    assert(summary_views(summaries@) =~= prev_s.push(summaries@.last()@));
                },
                None => {},
            }
            if records[i].is_completion() {
                completed = true;
            }
            i += 1;
        }
        assert(records@.take(records.len() as int) == records@);
        if summaries.len() == 0 {
            return Err(RunnerVerifyError::MissingSummary { mapping_id: String::from_str(mapping_id) });
        }
        if !completed {
            return Err(RunnerVerifyError::MissingCompletion { mapping_id: String::from_str(mapping_id) });
        }
        Ok(MoltAssessment { summaries, mismatch_details: details })
    }

    /// `matched`, or `mismatch` when some table's counts are off.
    pub fn verdict(&self) -> (r: &'static str)
        ensures
            r@ == if self.details_spec().len() == 0 {
                "matched"@
            } else {
                "mismatch"@
            },
    {
        if self.mismatch_details.len() == 0 {
            "matched"
        } else {
            "mismatch"
        }
    }

    pub fn summaries(&self) -> (r: &Vec<MoltTableSummary>)
        ensures
            summary_views(r@) == self.summaries_spec(),
    {
        &self.summaries
    }
}

/// A verification run that matched.
pub struct MoltVerifySummary {
    mapping_id: String,
    selected_tables: Vec<String>,
    status: i32,
    report_dir: String,
}

pub struct VerifySummaryView {
    pub mapping_id: Seq<char>,
    pub selected_tables: Seq<Seq<char>>,
    pub status: i32,
    pub report_dir: Seq<char>,
}

impl View for MoltVerifySummary {
    type V = VerifySummaryView;

    closed spec fn view(&self) -> VerifySummaryView {
        VerifySummaryView {
            mapping_id: self.mapping_id@,
            selected_tables: views(self.selected_tables@),
            status: self.status,
            report_dir: self.report_dir@,
        }
    }
}

/// The summary line of a matched run.
pub open spec fn verify_summary_text(v: VerifySummaryView) -> Seq<char> {
    "verification mapping="@ + v.mapping_id + " tables="@ + join(v.selected_tables, ","@)
        + " process_exit="@ + int_text(v.status as int) + " verdict=matched artifacts="@
        + v.report_dir
}

impl MoltVerifySummary {
    /// The outcome of a run: a data mismatch, or the summary of a matched run.
    pub fn from_assessment(request: &MoltVerifyRequest, status: i32, assessment: &MoltAssessment) -> (r: Result<
        Self,
        RunnerVerifyError,
    >)
        ensures
            match r {
                Ok(s) => assessment.details_spec().len() == 0 && s@ == (VerifySummaryView {
                    mapping_id: request@.mapping_id,
                    selected_tables: request@.selected_tables,
                    status,
                    report_dir: request@.report_dir,
                }),
                Err(e) => assessment.details_spec().len() > 0 && e@ == (VerifyErrorView::DataMismatch {
                    mapping_id: request@.mapping_id,
                    details: join(assessment.details_spec(), ", "@),
                }),
            },
    {
        if assessment.mismatch_details.len() > 0 {
            return Err(
                RunnerVerifyError::DataMismatch {
                    mapping_id: request.mapping_id.clone(),
                    details: join_strings(&assessment.mismatch_details, ", "),
                },
            );
        }
        Ok(
            MoltVerifySummary {
                mapping_id: request.mapping_id.clone(),
                selected_tables: clone_strings(&request.selected_tables),
                status,
                report_dir: request.report_dir.clone(),
            },
        )
    }

    /// The summary line.
    pub fn render(&self) -> (r: String)
        ensures
            r@ == verify_summary_text(self@),
    {
        let mut s = String::from_str("verification mapping=");
        s.append(self.mapping_id.as_str());
        s.append(" tables=");
        s.append(join_strings(&self.selected_tables, ",").as_str());
        s.append(" process_exit=");
        push_int(&mut s, self.status);
        s.append(" verdict=matched artifacts=");
        s.append(self.report_dir.as_str());
        s
    }
}

/// The lines of MOLT's output, each trimmed: every one of them may hold a JSON log record.
pub open spec fn molt_log_lines_spec(raw: Seq<char>) -> Seq<Seq<char>> {
    lines(raw).map_values(|l: Seq<char>| trim(l))
}

/// Cuts MOLT's output into trimmed lines.
pub fn molt_log_lines(raw: &str) -> (r: Vec<String>)
    ensures
        views(r@) == molt_log_lines_spec(raw@),
{
    let parts = split_lines(&chars_of(raw));
    let ghost pv = char_views(parts@);
    let mut out: Vec<String> = Vec::new();
    let mut i: usize = 0;
    while i < parts.len()
        invariant
            i <= parts.len(),
            pv == char_views(parts@),
            pv == lines(raw@),
            views(out@) == pv.take(i as int).map_values(|l: Seq<char>| trim(l)),
        decreases parts.len() - i,
    {
        let line = string_of(&trim_chars(&parts[i]));
        let ghost prev = out@;
        out.push(line);
        assert(pv[i as int] == parts@[i as int]@);
        assert(out@ == prev.push(line));
        assert(views(out@) =~= views(prev).push(line@));
        assert(pv.take(i + 1).map_values(|l: Seq<char>| trim(l)) =~= pv.take(i as int).map_values(
            |l: Seq<char>| trim(l),
        ).push(trim(pv[i as int])));
        i += 1;
    }
    assert(pv.take(parts.len() as int) == pv);
    out
}

/// All four counts of a table summary are zero.
pub open spec fn counts_all_zero(s: TableSummaryView) -> bool {
    s.num_missing == 0 && s.num_mismatch == 0 && s.num_extraneous == 0 && s.num_column_mismatch == 0
}

/// The mismatch details list one line, the table's counts, for each summary with a non-zero
/// count (missing, mismatched, extraneous or column-mismatched rows), and nothing for the
/// others; so there are none exactly when every count of every table is zero.
pub proof fn lemma_mismatch_lines_exactly_nonzero(s: Seq<TableSummaryView>)
    ensures
        mismatch_lines(s).len() == 0 <==> forall|i: int| 0 <= i < s.len() ==> counts_all_zero(#[trigger] s[i]),
        forall|i: int| 0 <= i < s.len() && !counts_all_zero(#[trigger] s[i]) ==> mismatch_lines(s).contains(
            counts_text(s[i]),
        ),
        forall|j: int| #![trigger mismatch_lines(s)[j]] 0 <= j < mismatch_lines(s).len() ==> exists|i: int|
            0 <= i < s.len() && !counts_all_zero(#[trigger] s[i]) && mismatch_lines(s)[j] == counts_text(s[i]),
    decreases s.len(),
{
    if s.len() > 0 {
        let d = s.drop_last();
        lemma_mismatch_lines_exactly_nonzero(d);
        let prev = mismatch_lines(d);
        let last = s.last();
        assert forall|i: int| 0 <= i < d.len() implies #[trigger] d[i] == s[i] by {}
        if !counts_all_zero(last) {
            assert(mismatch_lines(s) == prev.push(counts_text(last)));
            assert(mismatch_lines(s)[prev.len() as int] == counts_text(last));
            assert forall|i: int| 0 <= i < s.len() && !counts_all_zero(#[trigger] s[i]) implies mismatch_lines(s).contains(
                counts_text(s[i]),
            ) by {
                if i < d.len() {
                    assert(d[i] == s[i]);
                    assert(prev.contains(counts_text(d[i])));
                    let w = choose|w: int| 0 <= w < prev.len() && prev[w] == counts_text(d[i]);
                    assert(mismatch_lines(s)[w] == prev[w]);
                }
            }
            assert forall|j: int| #![trigger mismatch_lines(s)[j]] 0 <= j < mismatch_lines(s).len() implies exists|i: int|
                0 <= i < s.len() && !counts_all_zero(#[trigger] s[i]) && mismatch_lines(s)[j] == counts_text(s[i]) by {
                if j < prev.len() {
                    assert(mismatch_lines(s)[j] == prev[j]);
                    let i = choose|i: int| 0 <= i < d.len() && !counts_all_zero(#[trigger] d[i]) && prev[j] == counts_text(d[i]);
                    assert(s[i] == d[i]);
                } else {
                    assert(s[s.len() - 1] == last);
                }
            }
        } else {
            assert(mismatch_lines(s) == prev);
            assert(s[s.len() - 1] == last);
            assert forall|i: int| 0 <= i < s.len() && !counts_all_zero(#[trigger] s[i]) implies mismatch_lines(s).contains(
                counts_text(s[i]),
            ) by {
                assert(i < d.len());
                assert(d[i] == s[i]);
            }
            assert forall|j: int| #![trigger mismatch_lines(s)[j]] 0 <= j < mismatch_lines(s).len() implies exists|i: int|
                0 <= i < s.len() && !counts_all_zero(#[trigger] s[i]) && mismatch_lines(s)[j] == counts_text(s[i]) by {
                let i = choose|i: int| 0 <= i < d.len() && !counts_all_zero(#[trigger] d[i]) && prev[j] == counts_text(d[i]);
                assert(s[i] == d[i]);
            }
        }
    }
}

/// The verdict of a read report is `matched` exactly when every count of every table summary
/// is zero.
pub proof fn lemma_verdict_matched_iff_all_zero(records: Seq<MoltLogRecord>)
    ensures
        mismatch_lines(summaries_of(records)).len() == 0 <==> forall|i: int|
            0 <= i < summaries_of(records).len() ==> counts_all_zero(#[trigger] summaries_of(records)[i]),
{
    lemma_mismatch_lines_exactly_nonzero(summaries_of(records));
}

} // verus!
