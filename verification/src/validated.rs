//! The outcome of `validate-config`, and the failures of a reconcile pass, as operators see them.
use vstd::prelude::*;

use crate::config::{effective_mode_spec, material_label_spec, LoadedRunnerConfig, TlsView};
use crate::log::{field_map, FieldValue, FieldView, LogEvent, EventView};
use crate::metrics::{phase_label, ReconcilePhase};
use crate::text::decimal;

verus! {

/// Whether the destinations were checked too.
#[derive(Clone, Copy, Debug, PartialEq, Eq, Structural)]
pub enum DeepValidationStatus {
    Skipped,
    Passed,
}

impl DeepValidationStatus {
    /// The value of the `deep` field, when there is one.
    pub fn field_value(self) -> (r: Option<&'static str>)
        ensures
            match self {
                DeepValidationStatus::Skipped => r is None,
                DeepValidationStatus::Passed => r matches Some(s) && s@ == "ok"@,
            },
    {
        match self {
            DeepValidationStatus::Skipped => None,
            DeepValidationStatus::Passed => Some("ok"),
        }
    }
}

/// A config that passed validation.
pub struct ValidatedConfig {
    config_path: String,
    mappings: usize,
    webhook_bind_addr: String,
    webhook_mode: &'static str,
    webhook_tls_files: Option<String>,
    deep_validation: DeepValidationStatus,
}

pub struct ValidatedView {
    pub config_path: Seq<char>,
    pub mappings: nat,
    pub webhook_bind_addr: Seq<char>,
    pub webhook_mode: Seq<char>,
    pub webhook_tls_files: Option<Seq<char>>,
    pub deep: DeepValidationStatus,
}

impl View for ValidatedConfig {
    type V = ValidatedView;

    closed spec fn view(&self) -> ValidatedView {
        ValidatedView {
            config_path: self.config_path@,
            mappings: self.mappings as nat,
            webhook_bind_addr: self.webhook_bind_addr@,
            webhook_mode: self.webhook_mode@,
            webhook_tls_files: crate::config::opt_view(self.webhook_tls_files),
            deep: self.deep_validation,
        }
    }
}

/// What a loaded config says about itself.
pub open spec fn validated_of(loaded: LoadedRunnerConfig, deep: DeepValidationStatus) -> ValidatedView {
    let c = loaded.config_spec();
    ValidatedView {
        config_path: loaded.path_spec(),
        mappings: c.mappings_spec().len(),
        webhook_bind_addr: c.webhook_spec().bind_addr_spec(),
        webhook_mode: effective_mode_spec(c.webhook_spec().tls_spec()),
        webhook_tls_files: match c.webhook_spec().tls_spec() {
            Some(t) => Some(material_label_spec(t)),
            None => None,
        },
        deep,
    }
}

/// The text summary.
pub open spec fn validated_text(v: ValidatedView) -> Seq<char> {
    "config valid: config="@ + v.config_path + " mappings="@ + decimal(v.mappings) + " webhook="@
        + v.webhook_bind_addr + " mode="@ + v.webhook_mode + match v.webhook_tls_files {
        Some(t) => " tls="@ + t,
        None => seq![],
    } + match v.deep {
        DeepValidationStatus::Passed => " deep="@ + "ok"@,
        DeepValidationStatus::Skipped => seq![],
    }
}

/// The fields of the JSON event.
pub open spec fn validated_fields(v: ValidatedView) -> Map<Seq<char>, FieldView> {
    let base = Map::<Seq<char>, FieldView>::empty().insert("config"@, FieldView::Text(v.config_path)).insert(
        "mappings"@,
        FieldView::Count(v.mappings as u64),
    ).insert("webhook"@, FieldView::Text(v.webhook_bind_addr)).insert(
        "mode"@,
        FieldView::Text(v.webhook_mode),
    );
    let with_tls = match v.webhook_tls_files {
        Some(t) => base.insert("tls"@, FieldView::Text(t)),
        None => base,
    };
    match v.deep {
        DeepValidationStatus::Passed => with_tls.insert("deep"@, FieldView::Text("ok"@)),
        DeepValidationStatus::Skipped => with_tls,
    }
}

impl ValidatedConfig {
    pub fn from_loaded_config(loaded: &LoadedRunnerConfig, deep: DeepValidationStatus) -> (r: Self)
        ensures
            r@ == validated_of(*loaded, deep),
    {
        let config = loaded.config();
        let webhook = config.webhook();
        ValidatedConfig {
            config_path: String::from_str(loaded.path()),
            mappings: config.mapping_count(),
            webhook_bind_addr: String::from_str(webhook.bind_addr()),
            webhook_mode: webhook.effective_mode(),
            webhook_tls_files: match webhook.tls() {
                Some(t) => Some(t.material_label()),
                None => None,
            },
            deep_validation: deep,
        }
    }

    /// The summary line.
    pub fn text_output(&self) -> (r: String)
        ensures
            r@ == validated_text(self@),
    {
        let mut s = String::from_str("config valid: config=");
        s.append(self.config_path.as_str());
        s.append(" mappings=");
        crate::text::push_decimal(&mut s, self.mappings as u64);
        s.append(" webhook=");
        s.append(self.webhook_bind_addr.as_str());
        s.append(" mode=");
        s.append(self.webhook_mode);
        if let Some(tls) = &self.webhook_tls_files {
            s.append(" tls=");
            s.append(tls.as_str());
        }
        if let Some(deep) = self.deep_validation.field_value() {
            s.append(" deep=");
            s.append(deep);
        }
        s
    }

    /// The JSON event.
    pub fn event(&self) -> (r: LogEvent)
        ensures
            r@ == (EventView {
                service: "runner"@,
                event: "config.validated"@,
                level: "info"@,
                message: "runner config validated"@,
                fields: validated_fields(self@),
            }),
    {
        let e = LogEvent::info("runner", "config.validated", String::from_str("runner config validated"));
        let e = e.with_field("config", FieldValue::Text(self.config_path.clone()));
        let e = e.with_field("mappings", FieldValue::Count(self.mappings as u64));
        let e = e.with_field("webhook", FieldValue::Text(self.webhook_bind_addr.clone()));
        let e = e.with_field("mode", FieldValue::Text(String::from_str(self.webhook_mode)));
        let e = match &self.webhook_tls_files {
            Some(tls) => e.with_field("tls", FieldValue::Text(tls.clone())),
            None => e,
        };
        let e = match self.deep_validation.field_value() {
            Some(d) => e.with_field("deep", FieldValue::Text(String::from_str(d))),
            None => e,
        };
        e
    }
}

/// What a command prints when it completes.
pub enum CommandOutput {
    Validated(ValidatedConfig),
}

impl CommandOutput {
    /// The event printed under JSON logs.
    pub fn event(&self) -> (r: LogEvent)
        ensures
            match self {
                CommandOutput::Validated(c) => r@ == (EventView {
                    service: "runner"@,
                    event: "config.validated"@,
                    level: "info"@,
                    message: "runner config validated"@,
                    fields: validated_fields(c@),
                }),
            },
    {
        match self {
            CommandOutput::Validated(c) => c.event(),
        }
    }

    /// The line printed under text logs.
    pub fn text_output(&self) -> (r: String)
        ensures
            match self {
                CommandOutput::Validated(c) => r@ == validated_text(c@),
            },
    {
        match self {
            CommandOutput::Validated(c) => c.text_output(),
        }
    }
}

/// Why one table of a reconcile pass could not be applied.
#[derive(Debug)]
pub enum ReconcileApplyFailure {
    MissingPrimaryKey { phase: ReconcilePhase, table: String },
    Apply { phase: ReconcilePhase, table: String, source: String },
}

pub open spec fn failure_phase(f: ReconcileApplyFailure) -> ReconcilePhase {
    match f {
        ReconcileApplyFailure::MissingPrimaryKey { phase, .. } => phase,
        ReconcileApplyFailure::Apply { phase, .. } => phase,
    }
}

pub open spec fn failure_table(f: ReconcileApplyFailure) -> Seq<char> {
    match f {
        ReconcileApplyFailure::MissingPrimaryKey { table, .. } => table@,
        ReconcileApplyFailure::Apply { table, .. } => table@,
    }
}

pub open spec fn failure_detail(f: ReconcileApplyFailure) -> Seq<char> {
    match f {
        ReconcileApplyFailure::MissingPrimaryKey { .. } => "primary-key metadata is missing"@,
        ReconcileApplyFailure::Apply { source, .. } => source@,
    }
}

/// The message of a failure's operator event.
pub open spec fn failure_message(f: ReconcileApplyFailure, mapping_id: Seq<char>, database: Seq<char>) -> Seq<char> {
    "failed to apply reconcile "@ + phase_label(failure_phase(f)) + " for mapping `"@ + mapping_id
        + "` in `"@ + database + "` real table `"@ + failure_table(f) + "`: "@ + failure_detail(f)
}

impl ReconcileApplyFailure {
    pub fn missing_upsert_primary_key(table: String) -> (r: Self)
        ensures
            r == (ReconcileApplyFailure::MissingPrimaryKey { phase: ReconcilePhase::Upsert, table }),
    {
        ReconcileApplyFailure::MissingPrimaryKey { phase: ReconcilePhase::Upsert, table }
    }

    pub fn missing_delete_primary_key(table: String) -> (r: Self)
        ensures
            r == (ReconcileApplyFailure::MissingPrimaryKey { phase: ReconcilePhase::Delete, table }),
    {
        ReconcileApplyFailure::MissingPrimaryKey { phase: ReconcilePhase::Delete, table }
    }

    pub fn apply_upsert(table: String, source: String) -> (r: Self)
        ensures
            r == (ReconcileApplyFailure::Apply { phase: ReconcilePhase::Upsert, table, source }),
    {
        ReconcileApplyFailure::Apply { phase: ReconcilePhase::Upsert, table, source }
    }

    pub fn apply_delete(table: String, source: String) -> (r: Self)
        ensures
            r == (ReconcileApplyFailure::Apply { phase: ReconcilePhase::Delete, table, source }),
    {
        ReconcileApplyFailure::Apply { phase: ReconcilePhase::Delete, table, source }
    }

    pub fn phase(&self) -> (r: ReconcilePhase)
        ensures
            r == failure_phase(*self),
    {
        match self {
            ReconcileApplyFailure::MissingPrimaryKey { phase, .. } => *phase,
            ReconcileApplyFailure::Apply { phase, .. } => *phase,
        }
    }

    pub fn table(&self) -> (r: &str)
        ensures
            r@ == failure_table(*self),
    {
        match self {
            ReconcileApplyFailure::MissingPrimaryKey { table, .. } => table.as_str(),
            ReconcileApplyFailure::Apply { table, .. } => table.as_str(),
        }
    }

    pub fn error_detail(&self) -> (r: String)
        ensures
            r@ == failure_detail(*self),
    {
        match self {
            ReconcileApplyFailure::MissingPrimaryKey { .. } => String::from_str(
                "primary-key metadata is missing",
            ),
            ReconcileApplyFailure::Apply { source, .. } => source.clone(),
        }
    }

    /// The operator event for the failure.
    pub fn operator_event(&self, mapping_id: &str, database: &str) -> (r: LogEvent)
        ensures
            r@ == (EventView {
                service: "runner"@,
                event: "reconcile.apply_failed"@,
                level: "error"@,
                message: failure_message(*self, mapping_id@, database@),
                fields: Map::<Seq<char>, FieldView>::empty().insert(
                    "mapping_id"@,
                    FieldView::Text(mapping_id@),
                ).insert("database"@, FieldView::Text(database@)).insert(
                    "table"@,
                    FieldView::Text(failure_table(*self)),
                ).insert("phase"@, FieldView::Text(phase_label(failure_phase(*self)))).insert(
                    "error"@,
                    FieldView::Text(failure_detail(*self)),
                ),
            }),
    {
        let phase = self.phase().as_label();
        let table = self.table();
        let detail = self.error_detail();
        let mut m = String::from_str("failed to apply reconcile ");
        m.append(phase);
        m.append(" for mapping `");
        m.append(mapping_id);
        m.append("` in `");
        m.append(database);
        m.append("` real table `");
        m.append(table);
        m.append("`: ");
        m.append(detail.as_str());
        LogEvent::error("runner", "reconcile.apply_failed", m).with_field(
            "mapping_id",
            FieldValue::Text(String::from_str(mapping_id)),
        ).with_field("database", FieldValue::Text(String::from_str(database))).with_field(
            "table",
            FieldValue::Text(String::from_str(table)),
        ).with_field("phase", FieldValue::Text(String::from_str(phase))).with_field(
            "error",
            FieldValue::Text(detail),
        )
    }
}

/// A failed reconcile pass, as recorded in the tracking state.
pub struct ReconcileFailure {
    pub mapping_id: String,
    pub database: String,
    pub table: String,
    pub phase: ReconcilePhase,
    pub error_detail: String,
}

impl ReconcileFailure {
    pub fn new(
        mapping_id: String,
        database: String,
        table: String,
        phase: ReconcilePhase,
        error_message: String,
    ) -> (r: Self)
        ensures
            r == (ReconcileFailure { mapping_id, database, table, phase, error_detail: error_message }),
    {
        ReconcileFailure { mapping_id, database, table, phase, error_detail: error_message }
    }

    /// `reconcile <phase> failed for <table>: <detail>`.
    pub fn rendered_error(&self) -> (r: String)
        ensures
            r@ == "reconcile "@ + phase_label(self.phase) + " failed for "@ + self.table@ + ": "@
                + self.error_detail@,
    {
        let mut s = String::from_str("reconcile ");
        s.append(self.phase.as_label());
        s.append(" failed for ");
        s.append(self.table.as_str());
        s.append(": ");
        s.append(self.error_detail.as_str());
        s
    }
}

} // verus!
