//! Metric names, label sets, and the text exposition format the runner serves.
use vstd::prelude::*;

use crate::text::{decimal, join, join_strings, views};

verus! {

/// The prefix of every metric name.
pub open spec fn metric_prefix() -> Seq<char> {
    "cockroach_migration_tool_"@
}

/// The kind of change-feed request.
#[derive(Clone, Copy, Debug, PartialEq, Eq, PartialOrd, Ord, Structural)]
pub enum WebhookKind {
    RowBatch,
    Resolved,
}

/// How a change-feed request was answered.
#[derive(Clone, Copy, Debug, PartialEq, Eq, PartialOrd, Ord, Structural)]
pub enum WebhookOutcome {
    Accepted,
    BadRequest,
    InternalError,
}

/// The step in which rows were applied.
#[derive(Clone, Copy, Debug, PartialEq, Eq, PartialOrd, Ord, Structural)]
pub enum ApplyStage {
    WebhookApply,
    ReconcileUpsert,
    ReconcileDelete,
}

/// Whether an apply attempt succeeded.
#[derive(Clone, Copy, Debug, PartialEq, Eq, PartialOrd, Ord, Structural)]
pub enum AttemptOutcome {
    Success,
    Error,
}

/// The half of a reconcile pass: copying rows in, or removing rows gone from the source.
#[derive(Clone, Copy, Debug, PartialEq, Eq, PartialOrd, Ord, Structural)]
pub enum ReconcilePhase {
    Upsert,
    Delete,
}

pub open spec fn kind_label(k: WebhookKind) -> Seq<char> {
    match k {
        WebhookKind::RowBatch => "row_batch"@,
        WebhookKind::Resolved => "resolved"@,
    }
}

pub open spec fn outcome_label(o: WebhookOutcome) -> Seq<char> {
    match o {
        WebhookOutcome::Accepted => "ok"@,
        WebhookOutcome::BadRequest => "bad_request"@,
        WebhookOutcome::InternalError => "internal_error"@,
    }
}

pub open spec fn stage_label(s: ApplyStage) -> Seq<char> {
    match s {
        ApplyStage::WebhookApply => "webhook_apply"@,
        ApplyStage::ReconcileUpsert => "reconcile_upsert"@,
        ApplyStage::ReconcileDelete => "reconcile_delete"@,
    }
}

pub open spec fn attempt_label(o: AttemptOutcome) -> Seq<char> {
    match o {
        AttemptOutcome::Success => "success"@,
        AttemptOutcome::Error => "error"@,
    }
}

pub open spec fn phase_label(p: ReconcilePhase) -> Seq<char> {
    match p {
        ReconcilePhase::Upsert => "upsert"@,
        ReconcilePhase::Delete => "delete"@,
    }
}

impl WebhookKind {
    pub fn as_label(self) -> (r: &'static str)
        ensures
            r@ == kind_label(self),
    {
        match self {
            WebhookKind::RowBatch => "row_batch",
            WebhookKind::Resolved => "resolved",
        }
    }
}

impl WebhookOutcome {
    pub fn as_label(self) -> (r: &'static str)
        ensures
            r@ == outcome_label(self),
    {
        match self {
            WebhookOutcome::Accepted => "ok",
            WebhookOutcome::BadRequest => "bad_request",
            WebhookOutcome::InternalError => "internal_error",
        }
    }
}

impl ApplyStage {
    pub fn as_label(self) -> (r: &'static str)
        ensures
            r@ == stage_label(self),
    {
        match self {
            ApplyStage::WebhookApply => "webhook_apply",
            ApplyStage::ReconcileUpsert => "reconcile_upsert",
            ApplyStage::ReconcileDelete => "reconcile_delete",
        }
    }

    /// The stage of a reconcile phase.
    pub fn for_reconcile_phase(phase: ReconcilePhase) -> (r: Self)
        ensures
            r == match phase {
                ReconcilePhase::Upsert => ApplyStage::ReconcileUpsert,
                ReconcilePhase::Delete => ApplyStage::ReconcileDelete,
            },
    {
        match phase {
            ReconcilePhase::Upsert => ApplyStage::ReconcileUpsert,
            ReconcilePhase::Delete => ApplyStage::ReconcileDelete,
        }
    }
}

impl AttemptOutcome {
    pub fn as_label(self) -> (r: &'static str)
        ensures
            r@ == attempt_label(self),
    {
        match self {
            AttemptOutcome::Success => "success",
            AttemptOutcome::Error => "error",
        }
    }
}

impl ReconcilePhase {
    pub fn as_label(self) -> (r: &'static str)
        ensures
            r@ == phase_label(self),
    {
        match self {
            ReconcilePhase::Upsert => "upsert",
            ReconcilePhase::Delete => "delete",
        }
    }
}

/// `name="value"`.
pub open spec fn label_pair(name: Seq<char>, value: Seq<char>) -> Seq<char> {
    name + "=\""@ + value + "\""@
}

/// `{a="..",b=".."}`.
pub open spec fn label_set(pairs: Seq<Seq<char>>) -> Seq<char> {
    "{"@ + join(pairs, ","@) + "}"@
}

fn render_label_set(pairs: Vec<(&'static str, String)>) -> (r: String)
    ensures
        r@ == label_set(pairs@.map_values(|p: (&'static str, String)| label_pair(p.0@, p.1@))),
{
    let ghost want = pairs@.map_values(|p: (&'static str, String)| label_pair(p.0@, p.1@));
    let mut items: Vec<String> = Vec::new();
    let mut i: usize = 0;
    while i < pairs.len()
        invariant
            i <= pairs.len(),
            items@.len() == i,
            want == pairs@.map_values(|p: (&'static str, String)| label_pair(p.0@, p.1@)),
            views(items@) == want.take(i as int),
        decreases pairs.len() - i,
    {
        let ghost prev = items@;
        let mut s = String::from_str(pairs[i].0);
        s.append("=\"");
        s.append(pairs[i].1.as_str());
        s.append("\"");
        items.push(s);
        assert forall|k: int| 0 <= k < i + 1 implies #[trigger] views(items@)[k] == want.take(i + 1)[k] by {
            if k < i {
                assert(items@[k] == prev[k]);
                assert(views(prev)[k] == want.take(i as int)[k]);
            }
        }
        assert(views(items@) =~= want.take(i + 1));
        i += 1;
    }
    assert(want.take(pairs.len() as int) == want);
    let mut r = String::from_str("{");
    r.append(join_strings(&items, ",").as_str());
    r.append("}");
    r
}

/// Labels of a change-feed request counter.
#[derive(Clone, Debug, PartialEq, Eq, PartialOrd, Ord)]
pub struct WebhookRequestLabels {
    pub destination_database: String,
    pub kind: WebhookKind,
    pub outcome: WebhookOutcome,
}

/// Labels of the last-request gauge.
#[derive(Clone, Debug, PartialEq, Eq, PartialOrd, Ord)]
pub struct WebhookLastRequestLabels {
    pub destination_database: String,
}

/// Labels of per-table metrics.
#[derive(Clone, Debug, PartialEq, Eq, PartialOrd, Ord)]
pub struct TableMetricLabels {
    pub destination_database: String,
    pub destination_table: String,
}

/// Labels of per-table, per-phase reconcile metrics.
#[derive(Clone, Debug, PartialEq, Eq, PartialOrd, Ord)]
pub struct PhaseMetricLabels {
    pub destination_database: String,
    pub destination_table: String,
    pub phase: ReconcilePhase,
}

/// Labels of per-table, per-stage failure counters.
#[derive(Clone, Debug, PartialEq, Eq, PartialOrd, Ord)]
pub struct TableStageMetricLabels {
    pub destination_database: String,
    pub destination_table: String,
    pub stage: ApplyStage,
}

/// Labels of the last-outcome gauge.
#[derive(Clone, Debug, PartialEq, Eq, PartialOrd, Ord)]
pub struct TableStageOutcomeMetricLabels {
    pub destination_database: String,
    pub destination_table: String,
    pub stage: ApplyStage,
    pub outcome: AttemptOutcome,
}

impl WebhookRequestLabels {
    pub fn render(&self) -> (r: String)
        ensures
            r@ == label_set(
                seq![
                    label_pair("destination_database"@, self.destination_database@),
                    label_pair("kind"@, kind_label(self.kind)),
                    label_pair("outcome"@, outcome_label(self.outcome)),
                ],
            ),
    {
        let mut pairs: Vec<(&'static str, String)> = Vec::new();
        pairs.push(("destination_database", self.destination_database.clone()));
        pairs.push(("kind", String::from_str(self.kind.as_label())));
        pairs.push(("outcome", String::from_str(self.outcome.as_label())));
        let r = render_label_set(pairs);
        assert(pairs@.map_values(|p: (&'static str, String)| label_pair(p.0@, p.1@)) =~= seq![
            label_pair("destination_database"@, self.destination_database@),
            label_pair("kind"@, kind_label(self.kind)),
            label_pair("outcome"@, outcome_label(self.outcome)),
        ]);
        r
    }
}

impl WebhookLastRequestLabels {
    pub fn render(&self) -> (r: String)
        ensures
            r@ == label_set(seq![label_pair("destination_database"@, self.destination_database@)]),
    {
        let mut pairs: Vec<(&'static str, String)> = Vec::new();
        pairs.push(("destination_database", self.destination_database.clone()));
        let r = render_label_set(pairs);
        assert(pairs@.map_values(|p: (&'static str, String)| label_pair(p.0@, p.1@)) =~= seq![
            label_pair("destination_database"@, self.destination_database@),
        ]);
        r
    }
}

impl TableMetricLabels {
    pub fn render(&self) -> (r: String)
        ensures
            r@ == label_set(
                seq![
                    label_pair("destination_database"@, self.destination_database@),
                    label_pair("destination_table"@, self.destination_table@),
                ],
            ),
    {
        let mut pairs: Vec<(&'static str, String)> = Vec::new();
        pairs.push(("destination_database", self.destination_database.clone()));
        pairs.push(("destination_table", self.destination_table.clone()));
        let r = render_label_set(pairs);
        assert(pairs@.map_values(|p: (&'static str, String)| label_pair(p.0@, p.1@)) =~= seq![
            label_pair("destination_database"@, self.destination_database@),
            label_pair("destination_table"@, self.destination_table@),
        ]);
        r
    }
}

impl PhaseMetricLabels {
    pub fn render(&self) -> (r: String)
        ensures
            r@ == label_set(
                seq![
                    label_pair("destination_database"@, self.destination_database@),
                    label_pair("destination_table"@, self.destination_table@),
                    label_pair("phase"@, phase_label(self.phase)),
                ],
            ),
    {
        let mut pairs: Vec<(&'static str, String)> = Vec::new();
        pairs.push(("destination_database", self.destination_database.clone()));
        pairs.push(("destination_table", self.destination_table.clone()));
        pairs.push(("phase", String::from_str(self.phase.as_label())));
        let r = render_label_set(pairs);
        assert(pairs@.map_values(|p: (&'static str, String)| label_pair(p.0@, p.1@)) =~= seq![
            label_pair("destination_database"@, self.destination_database@),
            label_pair("destination_table"@, self.destination_table@),
            label_pair("phase"@, phase_label(self.phase)),
        ]);
        r
    }
}

impl TableStageMetricLabels {
    pub fn render(&self) -> (r: String)
        ensures
            r@ == label_set(
                seq![
                    label_pair("destination_database"@, self.destination_database@),
                    label_pair("destination_table"@, self.destination_table@),
                    label_pair("stage"@, stage_label(self.stage)),
                ],
            ),
    {
        let mut pairs: Vec<(&'static str, String)> = Vec::new();
        pairs.push(("destination_database", self.destination_database.clone()));
        pairs.push(("destination_table", self.destination_table.clone()));
        pairs.push(("stage", String::from_str(self.stage.as_label())));
        let r = render_label_set(pairs);
        assert(pairs@.map_values(|p: (&'static str, String)| label_pair(p.0@, p.1@)) =~= seq![
            label_pair("destination_database"@, self.destination_database@),
            label_pair("destination_table"@, self.destination_table@),
            label_pair("stage"@, stage_label(self.stage)),
        ]);
        r
    }
}

impl TableStageOutcomeMetricLabels {
    pub fn render(&self) -> (r: String)
        ensures
            r@ == label_set(
                seq![
                    label_pair("destination_database"@, self.destination_database@),
                    label_pair("destination_table"@, self.destination_table@),
                    label_pair("stage"@, stage_label(self.stage)),
                    label_pair("outcome"@, attempt_label(self.outcome)),
                ],
            ),
    {
        let mut pairs: Vec<(&'static str, String)> = Vec::new();
        pairs.push(("destination_database", self.destination_database.clone()));
        pairs.push(("destination_table", self.destination_table.clone()));
        pairs.push(("stage", String::from_str(self.stage.as_label())));
        pairs.push(("outcome", String::from_str(self.outcome.as_label())));
        let r = render_label_set(pairs);
        assert(pairs@.map_values(|p: (&'static str, String)| label_pair(p.0@, p.1@)) =~= seq![
            label_pair("destination_database"@, self.destination_database@),
            label_pair("destination_table"@, self.destination_table@),
            label_pair("stage"@, stage_label(self.stage)),
            label_pair("outcome"@, attempt_label(self.outcome)),
        ]);
        r
    }
}

/// One sample of a metric family: its rendered label set and value.
pub struct MetricSample {
    pub labels: String,
    pub value: String,
}

/// A metric family: its name (without the prefix), its type, and its samples in order.
pub struct MetricFamily {
    pub name: &'static str,
    pub kind: &'static str,
    pub samples: Vec<MetricSample>,
}

pub struct FamilyView {
    pub name: Seq<char>,
    pub kind: Seq<char>,
    pub samples: Seq<(Seq<char>, Seq<char>)>,
}

impl View for MetricFamily {
    type V = FamilyView;

    open spec fn view(&self) -> FamilyView {
        FamilyView {
            name: self.name@,
            kind: self.kind@,
            samples: self.samples@.map_values(|s: MetricSample| (s.labels@, s.value@)),
        }
    }
}

/// The lines of one family: a `# TYPE` line, then one line per sample.
pub open spec fn family_lines(f: FamilyView) -> Seq<Seq<char>> {
    seq!["# TYPE "@ + metric_prefix() + f.name + " "@ + f.kind] + f.samples.map_values(
        |s: (Seq<char>, Seq<char>)| metric_prefix() + f.name + s.0 + " "@ + s.1,
    )
}

/// The lines of all families, in order.
pub open spec fn exposition_lines(fs: Seq<FamilyView>) -> Seq<Seq<char>>
    decreases fs.len(),
{
    if fs.len() == 0 {
        seq![]
    } else {
        exposition_lines(fs.drop_last()) + family_lines(fs.last())
    }
}

/// The exposition text: every line, each ended by a newline.
pub open spec fn exposition_text(fs: Seq<FamilyView>) -> Seq<char> {
    join(exposition_lines(fs), "\n"@) + "\n"@
}

pub open spec fn family_views(v: Seq<MetricFamily>) -> Seq<FamilyView> {
    v.map_values(|f: MetricFamily| f@)
}

/// Renders metric families in the text exposition format.
pub fn render_exposition(families: &Vec<MetricFamily>) -> (r: String)
    ensures
        r@ == exposition_text(family_views(families@)),
{
    let ghost fv = family_views(families@);
    let mut lines: Vec<String> = Vec::new();
    let mut i: usize = 0;
    assert(fv.take(0) =~= seq![]);
    while i < families.len()
        invariant
            i <= families.len(),
            fv == family_views(families@),
            views(lines@) == exposition_lines(fv.take(i as int)),
        decreases families.len() - i,
    {
        let f = &families[i];
        let ghost before = views(lines@);
        let mut head = String::from_str("# TYPE ");
        head.append("cockroach_migration_tool_");
        head.append(f.name);
        head.append(" ");
        head.append(f.kind);
        lines.push(head);
        let mut k: usize = 0;
        let ghost samples = f@.samples.map_values(
            |s: (Seq<char>, Seq<char>)| metric_prefix() + f.name@ + s.0 + " "@ + s.1,
        );
        while k < f.samples.len()
            invariant
                k <= f.samples.len(),
                samples == f@.samples.map_values(
                    |s: (Seq<char>, Seq<char>)| metric_prefix() + f.name@ + s.0 + " "@ + s.1,
                ),
                views(lines@) == before + seq!["# TYPE "@ + metric_prefix() + f@.name + " "@ + f@.kind]
                    + samples.take(k as int),
            decreases f.samples.len() - k,
        {
            let mut line = String::from_str("cockroach_migration_tool_");
            line.append(f.name);
            line.append(f.samples[k].labels.as_str());
            line.append(" ");
            line.append(f.samples[k].value.as_str());
            let ghost prev = views(lines@);
            lines.push(line);
            assert(samples[k as int] == metric_prefix() + f.name@ + f.samples@[k as int].labels@ + " "@
                + f.samples@[k as int].value@);
            assert(views(lines@) =~= prev.push(samples[k as int]));
            assert(samples.take(k + 1) =~= samples.take(k as int).push(samples[k as int]));
            k += 1;
        }
        assert(samples.take(f.samples.len() as int) =~= samples);
        assert(fv.take(i + 1).drop_last() == fv.take(i as int));
        assert(fv.take(i + 1).last() == f@);
        assert(views(lines@) =~= exposition_lines(fv.take(i + 1)));
        i += 1;
    }
    assert(fv.take(families.len() as int) == fv);
    let mut r = join_strings(&lines, "\n");
    r.append("\n");
    r
}

/// A counter value in decimal.
pub fn counter_value(n: u64) -> (r: String)
    ensures
        r@ == decimal(n as nat),
{
    crate::text::decimal_string(n)
}

} // verus!
