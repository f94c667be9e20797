//! Whether a mapping is ready for cutover: watermarks caught up, tables drained, data verified.
use vstd::prelude::*;

use crate::config::{opt_view, MappingConfig};
use crate::text::{join, join_strings, views};

verus! {

/// The tracking state of one selected table.
pub struct TableCutoverSnapshot {
    pub source_table_name: String,
    pub last_successful_sync_watermark: Option<String>,
    pub last_error: Option<String>,
}

pub struct TableSnapshotView {
    pub source_table_name: Seq<char>,
    pub last_successful_sync_watermark: Option<Seq<char>>,
    pub last_error: Option<Seq<char>>,
}

impl View for TableCutoverSnapshot {
    type V = TableSnapshotView;

    open spec fn view(&self) -> TableSnapshotView {
        TableSnapshotView {
            source_table_name: self.source_table_name@,
            last_successful_sync_watermark: opt_view(self.last_successful_sync_watermark),
            last_error: opt_view(self.last_error),
        }
    }
}

/// The mapping's stream and table tracking state, as read from the destination.
pub struct CutoverSnapshot {
    pub latest_received_resolved_watermark: Option<String>,
    pub latest_reconciled_resolved_watermark: Option<String>,
    pub table_states: Vec<TableCutoverSnapshot>,
}

pub open spec fn table_snapshot_views(v: Seq<TableCutoverSnapshot>) -> Seq<TableSnapshotView> {
    v.map_values(|t: TableCutoverSnapshot| t@)
}

/// What a readiness check needs to know of a mapping.
pub struct CutoverReadinessRequest {
    mapping_id: String,
    database: String,
    endpoint: String,
    selected_tables: Vec<String>,
}

impl CutoverReadinessRequest {
    pub closed spec fn mapping_id_spec(&self) -> Seq<char> {
        self.mapping_id@
    }

    pub closed spec fn database_spec(&self) -> Seq<char> {
        self.database@
    }

    pub closed spec fn endpoint_spec(&self) -> Seq<char> {
        self.endpoint@
    }

    pub closed spec fn selected_spec(&self) -> Seq<Seq<char>> {
        views(self.selected_tables@)
    }

    /// The request for a mapping: its id, destination database and endpoint, and tables.
    pub fn from_mapping(mapping: &MappingConfig) -> (r: Self)
        ensures
            r.mapping_id_spec() == mapping.id_spec(),
            r.database_spec() == mapping.destination_spec().database,
            r.endpoint_spec() == crate::config::endpoint_label_spec(
                mapping.destination_spec().host,
                mapping.destination_spec().port,
                mapping.destination_spec().database,
            ),
            r.selected_spec() == mapping.source_spec().tables,
    {
        let destination = mapping.destination();
        CutoverReadinessRequest {
            mapping_id: String::from_str(mapping.id()),
            database: String::from_str(destination.database()),
            endpoint: destination.endpoint_label(),
            selected_tables: clone_strings(mapping.source().tables()),
        }
    }

    pub fn mapping_id(&self) -> (r: &str)
        ensures
            r@ == self.mapping_id_spec(),
    {
        self.mapping_id.as_str()
    }

    pub fn database(&self) -> (r: &str)
        ensures
            r@ == self.database_spec(),
    {
        self.database.as_str()
    }

    pub fn endpoint(&self) -> (r: &str)
        ensures
            r@ == self.endpoint_spec(),
    {
        self.endpoint.as_str()
    }
}

/// A copy of a list of strings.
pub fn clone_strings(v: &Vec<String>) -> (r: Vec<String>)
    ensures
        views(r@) == views(v@),
{
    let mut r: Vec<String> = Vec::new();
    let mut i: usize = 0;
    while i < v.len()
        invariant
            i <= v.len(),
            r@.len() == i,
            views(r@) == views(v@).take(i as int),
        decreases v.len() - i,
    {
        let ghost prev = r@;
        r.push(v[i].clone());
        assert forall|k: int| 0 <= k < i + 1 implies #[trigger] views(r@)[k] == views(v@).take(i + 1)[k] by {
            if k < i {
                assert(r@[k] == prev[k]);
                assert(views(prev)[k] == views(v@).take(i as int)[k]);
            }
        }
        assert(views(r@) =~= views(v@).take(i + 1));
        i += 1;
    }
    assert(views(v@).take(v.len() as int) == views(v@));
    r
}

/// Whether the data check of a readiness run was done, and what it found.
#[derive(Clone, Copy, Debug, PartialEq, Eq, Structural)]
pub enum VerificationStatus {
    Skipped,
    Matched,
    Mismatch,
}

pub open spec fn verification_label(v: VerificationStatus) -> Seq<char> {
    match v {
        VerificationStatus::Skipped => "skipped"@,
        VerificationStatus::Matched => "matched"@,
        VerificationStatus::Mismatch => "mismatch"@,
    }
}

/// Why a readiness check could not finish.
#[derive(Debug)]
pub enum CutoverReadinessError {
    UnknownMapping { mapping_id: String, config_path: String },
    Connect { mapping_id: String, endpoint: String, message: String },
    ReadStreamState { mapping_id: String, database: String, message: String },
    MissingTrackingState { mapping_id: String, database: String },
    ReadTableSyncState { mapping_id: String, database: String, message: String },
    MissingTableTrackingState { mapping_id: String, database: String, table: String },
    InvalidState { mapping_id: String, message: String },
    Verify { message: String },
}

/// A readiness error, as contracts speak of it.
pub enum CutoverErrorView {
    UnknownMapping { mapping_id: Seq<char>, config_path: Seq<char> },
    Connect { mapping_id: Seq<char>, endpoint: Seq<char>, message: Seq<char> },
    ReadStreamState { mapping_id: Seq<char>, database: Seq<char>, message: Seq<char> },
    MissingTrackingState { mapping_id: Seq<char>, database: Seq<char> },
    ReadTableSyncState { mapping_id: Seq<char>, database: Seq<char>, message: Seq<char> },
    MissingTableTrackingState { mapping_id: Seq<char>, database: Seq<char>, table: Seq<char> },
    InvalidState { mapping_id: Seq<char>, message: Seq<char> },
    Verify { message: Seq<char> },
}

impl View for CutoverReadinessError {
    type V = CutoverErrorView;

    open spec fn view(&self) -> CutoverErrorView {
        match self {
            CutoverReadinessError::UnknownMapping { mapping_id, config_path } =>
                CutoverErrorView::UnknownMapping { mapping_id: mapping_id@, config_path: config_path@ },
            CutoverReadinessError::Connect { mapping_id, endpoint, message } =>
                CutoverErrorView::Connect { mapping_id: mapping_id@, endpoint: endpoint@, message: message@ },
            CutoverReadinessError::ReadStreamState { mapping_id, database, message } =>
                CutoverErrorView::ReadStreamState {
                mapping_id: mapping_id@,
                database: database@,
                message: message@,
            },
            CutoverReadinessError::MissingTrackingState { mapping_id, database } =>
                CutoverErrorView::MissingTrackingState { mapping_id: mapping_id@, database: database@ },
            CutoverReadinessError::ReadTableSyncState { mapping_id, database, message } =>
                CutoverErrorView::ReadTableSyncState {
                mapping_id: mapping_id@,
                database: database@,
                message: message@,
            },
            CutoverReadinessError::MissingTableTrackingState { mapping_id, database, table } =>
                CutoverErrorView::MissingTableTrackingState {
                mapping_id: mapping_id@,
                database: database@,
                table: table@,
            },
            CutoverReadinessError::InvalidState { mapping_id, message } =>
                CutoverErrorView::InvalidState { mapping_id: mapping_id@, message: message@ },
            CutoverReadinessError::Verify { message } => CutoverErrorView::Verify { message: message@ },
        }
    }
}

/// The outcome of a readiness check.
pub struct CutoverReadinessSummary {
    mapping_id: String,
    ready: bool,
    latest_received_resolved_watermark: Option<String>,
    latest_reconciled_resolved_watermark: Option<String>,
    watermarks_aligned: bool,
    tables_drained: bool,
    verification: VerificationStatus,
    reasons: Vec<String>,
}

pub struct ReadinessView {
    pub mapping_id: Seq<char>,
    pub ready: bool,
    pub received: Option<Seq<char>>,
    pub reconciled: Option<Seq<char>>,
    pub watermarks_aligned: bool,
    pub tables_drained: bool,
    pub verification: VerificationStatus,
    pub reasons: Seq<Seq<char>>,
}

impl View for CutoverReadinessSummary {
    type V = ReadinessView;

    closed spec fn view(&self) -> ReadinessView {
        ReadinessView {
            mapping_id: self.mapping_id@,
            ready: self.ready,
            received: opt_view(self.latest_received_resolved_watermark),
            reconciled: opt_view(self.latest_reconciled_resolved_watermark),
            watermarks_aligned: self.watermarks_aligned,
            tables_drained: self.tables_drained,
            verification: self.verification,
            reasons: views(self.reasons@),
        }
    }
}

/// The first tracking row of the given table.
pub open spec fn table_row(rows: Seq<TableSnapshotView>, table: Seq<char>) -> Option<TableSnapshotView>
    decreases rows.len(),
{
    if rows.len() == 0 {
        None
    } else if rows[0].source_table_name == table {
        Some(rows[0])
    } else {
        table_row(rows.drop_first(), table)
    }
}

/// What one table's row says about draining: the reasons it gives, and whether it is drained.
pub open spec fn table_drain(row: TableSnapshotView, table: Seq<char>, reconciled: Option<Seq<char>>) -> (
    bool,
    Seq<Seq<char>>,
) {
    let e = match row.last_error {
        Some(err) => seq!["table drain is incomplete: "@ + table + " has reconcile error: "@ + err],
        None => seq![],
    };
    let w = if row.last_successful_sync_watermark != reconciled {
        seq!["table drain is incomplete: "@ + table + " has not drained to reconciled watermark"@]
    } else {
        seq![]
    };
    (row.last_error is None && row.last_successful_sync_watermark == reconciled, e + w)
}

/// The selected tables, read in order: drained or not, the reasons, or the first table that
/// has no tracking row.
pub open spec fn tables_drain(
    selected: Seq<Seq<char>>,
    rows: Seq<TableSnapshotView>,
    reconciled: Option<Seq<char>>,
) -> Result<(bool, Seq<Seq<char>>), Seq<char>>
    decreases selected.len(),
{
    if selected.len() == 0 {
        Ok((true, seq![]))
    } else {
        match tables_drain(selected.drop_last(), rows, reconciled) {
            Err(t) => Err(t),
            Ok(prev) => match table_row(rows, selected.last()) {
                None => Err(selected.last()),
                Some(row) => {
                    let d = table_drain(row, selected.last(), reconciled);
                    Ok((prev.0 && d.0, prev.1 + d.1))
                },
            },
        }
    }
}

/// The reasons the watermarks give.
pub open spec fn watermark_reasons(received: Option<Seq<char>>, reconciled: Option<Seq<char>>) -> Seq<
    Seq<char>,
> {
    let ahead = match (received, reconciled) {
        (Some(a), Some(b)) => if a != b {
            seq![
                "cdc/reconcile has not drained yet: received watermark is ahead of reconciled watermark"@,
            ]
        } else {
            seq![]
        },
        _ => seq![],
    };
    let no_received = if received is None {
        seq!["no received resolved watermark yet"@]
    } else {
        seq![]
    };
    let no_reconciled = if reconciled is None {
        seq!["no reconciled resolved watermark yet"@]
    } else {
        seq![]
    };
    ahead + no_received + no_reconciled
}

/// What a snapshot says, before any data check: watermarks aligned when both exist and are
/// equal; tables drained when each selected table has no error and synced to the reconciled
/// watermark. A selected table without tracking row, or a reconciled watermark without a
/// received one, is an error.
pub open spec fn readiness_from_snapshot(
    mapping_id: Seq<char>,
    database: Seq<char>,
    selected: Seq<Seq<char>>,
    received: Option<Seq<char>>,
    reconciled: Option<Seq<char>>,
    rows: Seq<TableSnapshotView>,
) -> Result<ReadinessView, CutoverErrorView> {
    match tables_drain(selected, rows, reconciled) {
        Err(t) => Err(
            CutoverErrorView::MissingTableTrackingState { mapping_id, database, table: t },
        ),
        Ok(d) => if received is None && reconciled is Some {
            Err(
                CutoverErrorView::InvalidState {
                    mapping_id,
                    message: "reconciled watermark exists before a received watermark"@,
                },
            )
        } else {
            Ok(
                ReadinessView {
                    mapping_id,
                    ready: false,
                    received,
                    reconciled,
                    watermarks_aligned: received is Some && received == reconciled,
                    tables_drained: d.0,
                    verification: VerificationStatus::Skipped,
                    reasons: watermark_reasons(received, reconciled) + d.1,
                },
            )
        },
    }
}

/// The outcome of the data check, when one was run.
pub enum VerifyOutcome {
    Matched,
    Mismatch { details: String },
    Failed { message: String },
}

/// The readiness once the data check (run only when watermarks are aligned and tables
/// drained) has answered: ready exactly when it matched.
pub open spec fn readiness_after_verify(r: ReadinessView, outcome: VerifyOutcome) -> Result<
    ReadinessView,
    CutoverErrorView,
> {
    if !(r.tables_drained && r.watermarks_aligned) {
        Ok(r)
    } else {
        match outcome {
            VerifyOutcome::Matched => Ok(
                ReadinessView { verification: VerificationStatus::Matched, ready: true, ..r },
            ),
            VerifyOutcome::Mismatch { details } => Ok(
                ReadinessView {
                    verification: VerificationStatus::Mismatch,
                    ready: false,
                    reasons: r.reasons.push("verification found mismatches: "@ + details@),
                    ..r
                },
            ),
            VerifyOutcome::Failed { message } => Err(CutoverErrorView::Verify { message: message@ }),
        }
    }
}

fn opt_clone(o: &Option<String>) -> (r: Option<String>)
    ensures
        opt_view(r) == opt_view(*o),
{
    match o {
        Some(s) => Some(s.clone()),
        None => None,
    }
}

fn opt_same(a: &Option<String>, b: &Option<String>) -> (r: bool)
    ensures
        r == (opt_view(*a) == opt_view(*b)),
{
    match (a, b) {
        (Some(x), Some(y)) => crate::text::str_eq(x.as_str(), y.as_str()),
        (None, None) => true,
        _ => false,
    }
}

proof fn lemma_table_row(rows: Seq<TableSnapshotView>, table: Seq<char>, i: int)
    requires
        0 <= i <= rows.len(),
        forall|j: int| 0 <= j < i ==> (#[trigger] rows[j]).source_table_name != table,
        i == rows.len() || rows[i].source_table_name == table,
    ensures
        table_row(rows, table) == if i == rows.len() {
            None
        } else {
            Some(rows[i])
        },
    decreases i,
{
    if i > 0 {
        let t = rows.drop_first();
        assert forall|j: int| 0 <= j < i - 1 implies (#[trigger] t[j]).source_table_name != table by {
            assert(t[j] == rows[j + 1]);
        }
        if i < rows.len() {
            assert(t[i - 1] == rows[i]);
        }
        lemma_table_row(t, table, i - 1);
    }
}

fn find_table_row<'a>(rows: &'a Vec<TableCutoverSnapshot>, table: &str) -> (r: Option<&'a TableCutoverSnapshot>)
    ensures
        match r {
            Some(x) => table_row(table_snapshot_views(rows@), table@) == Some(x@),
            None => table_row(table_snapshot_views(rows@), table@) is None,
        },
{
    let ghost rv = table_snapshot_views(rows@);
    let mut i: usize = 0;
    while i < rows.len()
        invariant
            i <= rows.len(),
            rv == table_snapshot_views(rows@),
            forall|j: int| 0 <= j < i ==> (#[trigger] rv[j]).source_table_name != table@,
        decreases rows.len() - i,
    {
        assert(rv[i as int] == rows@[i as int]@);
        if crate::text::str_eq(rows[i].source_table_name.as_str(), table) {
            proof {
                lemma_table_row(rv, table@, i as int);
            }
            return Some(&rows[i]);
        }
        i += 1;
    }
    proof {
        lemma_table_row(rv, table@, rows.len() as int);
    }
    None
}

fn push_reason(reasons: &mut Vec<String>, r: String)
    ensures
        views(final(reasons)@) == views(old(reasons)@).push(r@),
{
    reasons.push(r);
    assert(views(reasons@) =~= views(old(reasons)@).push(r@));
}

pub proof fn lemma_tables_drain_err(
    selected: Seq<Seq<char>>,
    rows: Seq<TableSnapshotView>,
    reconciled: Option<Seq<char>>,
    k: int,
)
    requires
        0 <= k <= selected.len(),
        tables_drain(selected.take(k), rows, reconciled) is Err,
    ensures
        tables_drain(selected, rows, reconciled) == tables_drain(selected.take(k), rows, reconciled),
    decreases selected.len() - k,
{
    if k < selected.len() {
        assert(selected.take(k + 1).drop_last() == selected.take(k));
        lemma_tables_drain_err(selected, rows, reconciled, k + 1);
    } else {
        assert(selected.take(k) == selected);
    }
}

impl CutoverReadinessSummary {
    /// What a tracking snapshot says of the mapping, before any data check.
    pub fn from_snapshot(request: &CutoverReadinessRequest, snapshot: CutoverSnapshot) -> (r: Result<
        Self,
        CutoverReadinessError,
    >)
        ensures
            match (
                readiness_from_snapshot(
                    request.mapping_id_spec(),
                    request.database_spec(),
                    request.selected_spec(),
                    opt_view(snapshot.latest_received_resolved_watermark),
                    opt_view(snapshot.latest_reconciled_resolved_watermark),
                    table_snapshot_views(snapshot.table_states@),
                ),
                r,
            ) {
                (Ok(v), Ok(s)) => s@ == v,
                (Err(e), Err(x)) => x@ == e,
                _ => false,
            },
    {
        let received = &snapshot.latest_received_resolved_watermark;
        let reconciled = &snapshot.latest_reconciled_resolved_watermark;
        let mut reasons: Vec<String> = Vec::new();
        let aligned = match (received, reconciled) {
            (Some(a), Some(b)) => {
                if crate::text::str_eq(a.as_str(), b.as_str()) {
                    true
                } else {
                    push_reason(
                        &mut reasons,
                        String::from_str(
                            "cdc/reconcile has not drained yet: received watermark is ahead of reconciled watermark",
                        ),
                    );
                    false
                }
            },
            _ => false,
        };
        if received.is_none() {
            push_reason(&mut reasons, String::from_str("no received resolved watermark yet"));
        }
        if reconciled.is_none() {
            push_reason(&mut reasons, String::from_str("no reconciled resolved watermark yet"));
        }
        let ghost base = views(reasons@);
        assert(base =~= watermark_reasons(opt_view(*received), opt_view(*reconciled)));
        let ghost sel = request.selected_spec();
        let ghost rows = table_snapshot_views(snapshot.table_states@);
        let mut drained = true;
        let mut i: usize = 0;
        assert(sel.take(0) =~= seq![]);
        assert(views(reasons@).skip(base.len() as int) =~= seq![]);
        assert(views(reasons@).take(base.len() as int) =~= base);
        while i < request.selected_tables.len()
            invariant
                i <= request.selected_tables.len(),
                sel == views(request.selected_tables@),
                sel == request.selected_spec(),
                rows == table_snapshot_views(snapshot.table_states@),
                tables_drain(sel.take(i as int), rows, opt_view(snapshot.latest_reconciled_resolved_watermark)) == Ok::<
                    (bool, Seq<Seq<char>>),
                    Seq<char>,
                >((drained, views(reasons@).skip(base.len() as int))),
                views(reasons@).take(base.len() as int) == base,
                base.len() <= views(reasons@).len(),
            decreases request.selected_tables.len() - i,
        {
            let table = request.selected_tables[i].as_str();
            assert(sel[i as int] == table@);
            assert(sel.take(i + 1).drop_last() == sel.take(i as int));
            assert(sel.take(i + 1).last() == table@);
            let row = match find_table_row(&snapshot.table_states, table) {
                Some(row) => row,
                None => {
                    proof {
                        assert(tables_drain(sel.take(i + 1), rows, opt_view(snapshot.latest_reconciled_resolved_watermark)) == Err::<
                            (bool, Seq<Seq<char>>),
                            Seq<char>,
                        >(table@));
                        lemma_tables_drain_err(sel, rows, opt_view(snapshot.latest_reconciled_resolved_watermark), i + 1);
                    }
                    return Err(
                        CutoverReadinessError::MissingTableTrackingState {
                            mapping_id: request.mapping_id.clone(),
                            database: request.database.clone(),
                            table: String::from_str(table),
                        },
                    );
                },
            };
            let ghost before = views(reasons@);
            match &row.last_error {
                Some(err) => {
                    drained = false;
                    let mut m = String::from_str("table drain is incomplete: ");
                    m.append(table);
                    m.append(" has reconcile error: ");
                    m.append(err.as_str());
                    push_reason(&mut reasons, m);
                },
                None => {},
            }
            if !opt_same(&row.last_successful_sync_watermark, &snapshot.latest_reconciled_resolved_watermark) {
                drained = false;
                let mut m = String::from_str("table drain is incomplete: ");
                m.append(table);
                m.append(" has not drained to reconciled watermark");
                push_reason(&mut reasons, m);
            }
            proof {
                let d = table_drain(row@, table@, opt_view(snapshot.latest_reconciled_resolved_watermark));
                assert(views(reasons@) =~= before + d.1);
                assert(views(reasons@).take(base.len() as int) =~= base);
                assert(views(reasons@).skip(base.len() as int) =~= before.skip(base.len() as int) + d.1);
            }
            i += 1;
        }
        assert(sel.take(request.selected_tables.len() as int) == sel);
        if snapshot.latest_received_resolved_watermark.is_none() && snapshot.latest_reconciled_resolved_watermark.is_some() {
            return Err(
                CutoverReadinessError::InvalidState {
                    mapping_id: request.mapping_id.clone(),
                    message: String::from_str("reconciled watermark exists before a received watermark"),
                },
            );
        }
        assert(views(reasons@) =~= base + views(reasons@).skip(base.len() as int));
        Ok(
            CutoverReadinessSummary {
                mapping_id: request.mapping_id.clone(),
                ready: false,
                latest_received_resolved_watermark: opt_clone(&snapshot.latest_received_resolved_watermark),
                latest_reconciled_resolved_watermark: opt_clone(&snapshot.latest_reconciled_resolved_watermark),
                watermarks_aligned: aligned,
                tables_drained: drained,
                verification: VerificationStatus::Skipped,
                reasons,
            },
        )
    }

    /// Whether the data check should run: watermarks aligned and tables drained.
    pub fn needs_verification(&self) -> (r: bool)
        ensures
            r == (self@.tables_drained && self@.watermarks_aligned),
    {
        self.tables_drained && self.watermarks_aligned
    }

    /// Takes the data check's answer into account.
    pub fn with_verification(self, outcome: VerifyOutcome) -> (r: Result<Self, CutoverReadinessError>)
        ensures
            match (readiness_after_verify(self@, outcome), r) {
                (Ok(v), Ok(s)) => s@ == v,
                (Err(e), Err(x)) => x@ == e,
                _ => false,
            },
    {
        let mut s = self;
        if !(s.tables_drained && s.watermarks_aligned) {
            return Ok(s);
        }
        match outcome {
            VerifyOutcome::Matched => {
                s.verification = VerificationStatus::Matched;
                s.ready = true;
                Ok(s)
            },
            VerifyOutcome::Mismatch { details } => {
                s.ready = false;
                let mut m = String::from_str("verification found mismatches: ");
                m.append(details.as_str());
                push_reason(&mut s.reasons, m);
                s.verification = VerificationStatus::Mismatch;
                Ok(s)
            },
            VerifyOutcome::Failed { message } => Err(CutoverReadinessError::Verify { message }),
        }
    }

    pub fn ready(&self) -> (r: bool)
        ensures
            r == self@.ready,
    {
        self.ready
    }

    /// The summary line.
    pub fn render(&self) -> (r: String)
        ensures
            r@ == readiness_text(self@),
    {
        let mut s = String::from_str("cutover readiness mapping=");
        s.append(self.mapping_id.as_str());
        s.append(" ready=");
        s.append(bool_name(self.ready));
        s.append(" received=");
        match &self.latest_received_resolved_watermark {
            Some(w) => s.append(w.as_str()),
            None => s.append("<none>"),
        }
        s.append(" reconciled=");
        match &self.latest_reconciled_resolved_watermark {
            Some(w) => s.append(w.as_str()),
            None => s.append("<none>"),
        }
        s.append(" watermarks_aligned=");
        s.append(bool_name(self.watermarks_aligned));
        s.append(" tables_drained=");
        s.append(bool_name(self.tables_drained));
        s.append(" verification=");
        s.append(
            match self.verification {
                VerificationStatus::Skipped => "skipped",
                VerificationStatus::Matched => "matched",
                VerificationStatus::Mismatch => "mismatch",
            },
        );
        s.append(" reasons=");
        if self.reasons.len() == 0 {
            s.append("none");
        } else {
            s.append(join_strings(&self.reasons, " | ").as_str());
        }
        s
    }
}

pub open spec fn bool_text(b: bool) -> Seq<char> {
    if b {
        "true"@
    } else {
        "false"@
    }
}

pub fn bool_name(b: bool) -> (r: &'static str)
    ensures
        r@ == bool_text(b),
{
    if b {
        "true"
    } else {
        "false"
    }
}

pub open spec fn or_none(o: Option<Seq<char>>) -> Seq<char> {
    match o {
        Some(s) => s,
        None => "<none>"@,
    }
}

/// The summary line of a readiness check.
pub open spec fn readiness_text(r: ReadinessView) -> Seq<char> {
    "cutover readiness mapping="@ + r.mapping_id + " ready="@ + bool_text(r.ready) + " received="@
        + or_none(r.received) + " reconciled="@ + or_none(r.reconciled) + " watermarks_aligned="@
        + bool_text(r.watermarks_aligned) + " tables_drained="@ + bool_text(r.tables_drained)
        + " verification="@ + verification_label(r.verification) + " reasons="@ + if r.reasons.len()
        == 0 {
        "none"@
    } else {
        join(r.reasons, " | "@)
    }
}

/// A mapping is declared ready only when its watermarks are aligned, its tables drained, and
/// the data check matched.
pub proof fn lemma_ready_requires_everything(
    mapping_id: Seq<char>,
    database: Seq<char>,
    selected: Seq<Seq<char>>,
    received: Option<Seq<char>>,
    reconciled: Option<Seq<char>>,
    rows: Seq<TableSnapshotView>,
    outcome: VerifyOutcome,
)
    requires
        readiness_from_snapshot(mapping_id, database, selected, received, reconciled, rows) is Ok,
    ensures
        ({
            let r = readiness_from_snapshot(mapping_id, database, selected, received, reconciled, rows)->Ok_0;
            &&& !r.ready
            &&& (readiness_after_verify(r, outcome) is Ok && readiness_after_verify(r, outcome)->Ok_0.ready
                ==> ({
                let v = readiness_after_verify(r, outcome)->Ok_0;
                v.watermarks_aligned && v.tables_drained && v.verification == VerificationStatus::Matched
                    && received is Some && received == reconciled
            }))
        }),
{
}

/// A selected table is drained when its tracking row has no error and has synced to the
/// reconciled watermark.
pub open spec fn table_synced(rows: Seq<TableSnapshotView>, table: Seq<char>, reconciled: Option<Seq<char>>) -> bool {
    table_row(rows, table) matches Some(row) && row.last_error is None
        && row.last_successful_sync_watermark == reconciled
}

/// Reading the selected tables says they are drained exactly when every one of them has no
/// error and has synced to the reconciled watermark.
pub proof fn lemma_tables_drained_iff_all_synced(
    selected: Seq<Seq<char>>,
    rows: Seq<TableSnapshotView>,
    reconciled: Option<Seq<char>>,
)
    ensures
        tables_drain(selected, rows, reconciled) matches Ok(d) ==> (d.0 <==> forall|i: int|
            0 <= i < selected.len() ==> table_synced(rows, #[trigger] selected[i], reconciled)),
        tables_drain(selected, rows, reconciled) matches Ok(d) ==> forall|i: int|
            0 <= i < selected.len() ==> table_row(rows, #[trigger] selected[i]) is Some,
    decreases selected.len(),
{
    if selected.len() > 0 {
        let d0 = selected.drop_last();
        lemma_tables_drained_iff_all_synced(d0, rows, reconciled);
        if let Ok(d) = tables_drain(selected, rows, reconciled) {
            let prev = tables_drain(d0, rows, reconciled)->Ok_0;
            let row = table_row(rows, selected.last())->0;
            assert(d.0 == (prev.0 && table_drain(row, selected.last(), reconciled).0));
            assert forall|i: int| 0 <= i < selected.len() - 1 implies #[trigger] selected[i] == d0[i] by {}
            if d.0 {
                assert forall|i: int| 0 <= i < selected.len() implies table_synced(rows, #[trigger] selected[i], reconciled) by {
                    if i < selected.len() - 1 {
                        assert(selected[i] == d0[i]);
                    }
                }
            } else {
                if !prev.0 {
                    let j = choose|j: int| 0 <= j < d0.len() && !table_synced(rows, #[trigger] d0[j], reconciled);
                    assert(selected[j] == d0[j]);
                } else {
                    assert(!table_synced(rows, selected[selected.len() - 1], reconciled));
                }
            }
            assert forall|i: int| 0 <= i < selected.len() implies table_row(rows, #[trigger] selected[i]) is Some by {
                if i < selected.len() - 1 {
                    assert(selected[i] == d0[i]);
                }
            }
        }
    }
}

/// A readiness check ends ready only when the watermarks are aligned, every selected table
/// has no error and has synced to the reconciled watermark, and the data check matched.
pub proof fn lemma_ready_only_when_drained(
    mapping_id: Seq<char>,
    database: Seq<char>,
    selected: Seq<Seq<char>>,
    received: Option<Seq<char>>,
    reconciled: Option<Seq<char>>,
    rows: Seq<TableSnapshotView>,
    outcome: VerifyOutcome,
)
    ensures
        readiness_from_snapshot(mapping_id, database, selected, received, reconciled, rows) matches Ok(v) ==> {
            &&& (v.tables_drained <==> forall|i: int|
                0 <= i < selected.len() ==> table_synced(rows, #[trigger] selected[i], reconciled))
            &&& !v.ready
            &&& (readiness_after_verify(v, outcome) matches Ok(w) ==> (w.ready ==> {
                &&& outcome is Matched
                &&& received is Some && received == reconciled
                &&& forall|i: int| 0 <= i < selected.len() ==> table_synced(rows, #[trigger] selected[i], reconciled)
            }))
        },
{
    lemma_tables_drained_iff_all_synced(selected, rows, reconciled);
}

} // verus!
