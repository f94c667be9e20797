use runner::apply_sql::{webhook_row_statement, RunnerWebhookPersistenceError};
use runner::config::{
    RawDecomposedPostgresTargetConfig, RawMappingConfig, RawPostgresTargetConfig, RawReconcileConfig,
    RawRunnerConfig, RawSourceConfig, RawWebhookConfig, RawWebhookMode,
};
use runner::helper_plan::MappingHelperPlan;
use runner::ingress::{request_outcome, RunnerIngressRequestError};
use runner::metrics::{WebhookKind, WebhookOutcome};
use runner::routing::{route_request, DispatchTarget, RunnerWebhookRoutingError};
use runner::runtime_plan::RunnerRuntimePlan;
use runner::schema::{ColumnSchema, PrimaryKeyShape, QualifiedTableName, SqlIdentifier, TableSchema, ValidatedSchema};
use runner::startup_plan::RunnerStartupPlan;
use runner::webhook_payload::{
    parse_webhook_request, JsonNumber, JsonObject, JsonValue, RowKey, RowOperation, RunnerWebhookPayloadError,
    WebhookRequest,
};

fn wf_text(s: &str) -> JsonValue {
    JsonValue::String(s.to_string())
}

fn wf_num(n: u64) -> JsonValue {
    JsonValue::Number(JsonNumber { text: n.to_string(), as_u64: Some(n) })
}

fn wf_obj(entries: Vec<(&str, JsonValue)>) -> JsonValue {
    JsonValue::Object(JsonObject { entries: entries.into_iter().map(|(k, v)| (k.to_string(), v)).collect() })
}

fn wf_source(database: &str, table: &str) -> JsonValue {
    wf_obj(vec![
        ("database_name", wf_text(database)),
        ("schema_name", wf_text("public")),
        ("table_name", wf_text(table)),
    ])
}

fn wf_row(op: &str, database: &str, table: &str, key: JsonValue) -> JsonValue {
    wf_obj(vec![
        ("source", wf_source(database, table)),
        ("op", wf_text(op)),
        ("key", key),
        ("after", wf_obj(vec![("id", wf_num(7)), ("email", wf_text("a@example.com"))])),
    ])
}

fn wf_batch(rows: Vec<JsonValue>) -> JsonValue {
    let n = rows.len() as u64;
    wf_obj(vec![("payload", JsonValue::Array(rows)), ("length", wf_num(n))])
}

fn wf_runtime() -> RunnerRuntimePlan {
    let raw = RawRunnerConfig {
        webhook: RawWebhookConfig {
            bind_addr: "127.0.0.1:9000".to_string(),
            bind_addr_parsed: Some("127.0.0.1:9000".to_string()),
            mode: RawWebhookMode::Http,
            tls: None,
        },
        reconcile: RawReconcileConfig { interval_secs: 15 },
        mappings: vec![RawMappingConfig {
            id: "app-a".to_string(),
            source: RawSourceConfig { database: "demo_a".to_string(), tables: vec!["public.customers".to_string()] },
            destination: RawPostgresTargetConfig::Decomposed(RawDecomposedPostgresTargetConfig {
                host: "pg-a".to_string(),
                port: 5432,
                database: "app_a".to_string(),
                user: "u".to_string(),
                password: "p".to_string(),
                tls: None,
            }),
        }],
    };
    let Ok(config) = raw.validate() else { panic!("config is valid") };
    let Ok(startup) = RunnerStartupPlan::from_config(&config) else { panic!("startup plan") };
    let mut table = TableSchema::new();
    table.push_column(ColumnSchema::new(SqlIdentifier::new("id"), "bigint".to_string(), false, false));
    table.push_column(ColumnSchema::new(SqlIdentifier::new("email"), "text".to_string(), true, false));
    table.set_primary_key(PrimaryKeyShape::new(vec![SqlIdentifier::new("id")]));
    let mut schema = ValidatedSchema::new();
    let name = QualifiedTableName::new(SqlIdentifier::new("public"), SqlIdentifier::new("customers"));
    schema.insert_table(name, table);
    let selected = startup.mappings()[0].selected_tables();
    let Ok(plan) = MappingHelperPlan::from_validated_schema("app-a", selected, &schema) else { panic!("helper plan") };
    let Ok(runtime) = RunnerRuntimePlan::from_startup_plan(&startup, vec![("app-a".to_string(), plan)]) else {
        panic!("runtime plan");
    };
    runtime
}

#[test]
fn resolved_watermark_is_trimmed() {
    let Ok(request) = parse_webhook_request(wf_obj(vec![("resolved", wf_text(" 1700000000.0 "))])) else {
        panic!("resolved requests parse");
    };
    assert_eq!(request.kind(), WebhookKind::Resolved);
    let WebhookRequest::Resolved(resolved) = request else { panic!("resolved") };
    assert_eq!(resolved.resolved(), "1700000000.0");
}

#[test]
fn payload_shape_errors_are_specific() {
    assert!(matches!(parse_webhook_request(JsonValue::Null), Err(RunnerWebhookPayloadError::ExpectedObject)));
    assert!(matches!(
        parse_webhook_request(wf_obj(vec![("resolved", wf_text("  "))])),
        Err(RunnerWebhookPayloadError::InvalidResolved)
    ));
    assert!(matches!(parse_webhook_request(wf_obj(vec![])), Err(RunnerWebhookPayloadError::UnsupportedShape)));
    assert!(matches!(
        parse_webhook_request(wf_obj(vec![("payload", wf_num(1))])),
        Err(RunnerWebhookPayloadError::MissingPayload)
    ));
    assert!(matches!(
        parse_webhook_request(wf_obj(vec![("payload", JsonValue::Array(vec![]))])),
        Err(RunnerWebhookPayloadError::MissingLength)
    ));
    assert!(matches!(
        parse_webhook_request(wf_obj(vec![("payload", JsonValue::Array(vec![])), ("length", wf_num(2))])),
        Err(RunnerWebhookPayloadError::LengthMismatch)
    ));
    assert!(matches!(parse_webhook_request(wf_batch(vec![])), Err(RunnerWebhookPayloadError::EmptyPayload)));
}

#[test]
fn row_event_errors_are_specific() {
    assert!(matches!(
        parse_webhook_request(wf_batch(vec![wf_num(3)])),
        Err(RunnerWebhookPayloadError::InvalidRowEvent)
    ));
    let no_source = wf_obj(vec![("op", wf_text("c"))]);
    assert!(matches!(parse_webhook_request(wf_batch(vec![no_source])), Err(RunnerWebhookPayloadError::MissingSource)));
    let blank_db = wf_obj(vec![("source", wf_source(" ", "customers")), ("op", wf_text("c"))]);
    assert!(matches!(
        parse_webhook_request(wf_batch(vec![blank_db])),
        Err(RunnerWebhookPayloadError::MissingSourceField { field: "database_name" })
    ));
    let bad_op = wf_row("x", "demo_a", "customers", wf_obj(vec![("id", wf_num(7))]));
    assert!(matches!(
        parse_webhook_request(wf_batch(vec![bad_op])),
        Err(RunnerWebhookPayloadError::UnsupportedOperation { op }) if op == "x"
    ));
    let bad_key = wf_row("c", "demo_a", "customers", wf_text("7"));
    assert!(matches!(parse_webhook_request(wf_batch(vec![bad_key])), Err(RunnerWebhookPayloadError::InvalidKey)));
    let no_after = wf_obj(vec![
        ("source", wf_source("demo_a", "customers")),
        ("op", wf_text("u")),
        ("key", wf_obj(vec![("id", wf_num(7))])),
    ]);
    assert!(matches!(parse_webhook_request(wf_batch(vec![no_after])), Err(RunnerWebhookPayloadError::MissingAfter)));
}

#[test]
fn row_batch_operations_are_read() {
    let rows = vec![
        wf_row("c", "demo_a", "customers", wf_obj(vec![("id", wf_num(7))])),
        wf_row("d", "demo_a", "customers", wf_obj(vec![("id", wf_num(8))])),
    ];
    let Ok(request) = parse_webhook_request(wf_batch(rows)) else { panic!("batch parses") };
    assert_eq!(request.kind(), WebhookKind::RowBatch);
    let WebhookRequest::RowBatch(batch) = request else { panic!("row batch") };
    assert_eq!(batch.rows().len(), 2);
    assert_eq!(batch.rows()[0].source().database_name(), "demo_a");
    assert_eq!(batch.rows()[0].source().source_table().label(), "public.customers");
    let mut rows = batch.into_rows();
    let second = rows.pop().unwrap().into_mutation();
    let first = rows.pop().unwrap().into_mutation();
    assert_eq!(first.operation(), RowOperation::Upsert);
    assert!(first.values().is_some());
    assert_eq!(second.operation(), RowOperation::Delete);
    assert!(second.values().is_none());
    assert!(matches!(second.key(), RowKey::Named(k) if k.entries.len() == 1));
    let positional = wf_row("d", "demo_a", "customers", JsonValue::Array(vec![wf_num(8)]));
    assert!(matches!(parse_webhook_request(wf_batch(vec![positional])), Err(RunnerWebhookPayloadError::InvalidKey)));
}

#[test]
fn routed_batch_keeps_the_mapped_table() {
    let runtime = wf_runtime();
    let Some(mapping) = runtime.require_mapping("app-a") else { panic!("app-a is planned") };
    assert!(runtime.require_mapping("app-b").is_none());
    let rows = vec![
        wf_row("d", "demo_a", "customers", wf_obj(vec![("id", wf_num(8))])),
        wf_row("u", "demo_a", "customers", wf_obj(vec![("id", wf_num(9))])),
    ];
    let Ok(request) = parse_webhook_request(wf_batch(rows)) else { panic!("batch parses") };
    let Ok(DispatchTarget::RowBatch(batch)) = route_request(mapping, request) else { panic!("routes") };
    assert_eq!(batch.mapping_id, "app-a");
    assert_eq!(batch.table.source_table().label(), "public.customers");
    assert_eq!(batch.rows.len(), 2);
    assert_eq!(batch.rows[1].operation(), RowOperation::Upsert);
    let RowKey::Named(key) = batch.rows[0].key() else { panic!("keys are named after routing") };
    assert_eq!(key.entries.len(), 1);
    assert_eq!(key.entries[0].0, "id");
}

#[test]
fn routing_refuses_foreign_rows() {
    let runtime = wf_runtime();
    let Some(mapping) = runtime.require_mapping("app-a") else { panic!("app-a is planned") };
    let wrong_db = vec![wf_row("c", "demo_b", "customers", wf_obj(vec![("id", wf_num(1))]))];
    let Ok(request) = parse_webhook_request(wf_batch(wrong_db)) else { panic!("parses") };
    assert!(matches!(
        route_request(mapping, request),
        Err(RunnerWebhookRoutingError::SourceDatabaseMismatch { expected, database, .. })
            if expected == "demo_a" && database == "demo_b"
    ));
    let unmapped = vec![wf_row("c", "demo_a", "orders", wf_obj(vec![("id", wf_num(1))]))];
    let Ok(request) = parse_webhook_request(wf_batch(unmapped)) else { panic!("parses") };
    assert!(matches!(
        route_request(mapping, request),
        Err(RunnerWebhookRoutingError::SourceTableNotMapped { table, .. }) if table == "public.orders"
    ));
    let mixed = vec![
        wf_row("c", "demo_a", "customers", wf_obj(vec![("id", wf_num(1))])),
        wf_obj(vec![
            ("source", wf_obj(vec![
                ("database_name", wf_text("demo_a")),
                ("schema_name", wf_text("billing")),
                ("table_name", wf_text("customers")),
            ])),
            ("op", wf_text("d")),
            ("key", wf_obj(vec![("id", wf_num(2))])),
        ]),
    ];
    let Ok(request) = parse_webhook_request(wf_batch(mixed)) else { panic!("parses") };
    assert!(matches!(
        route_request(mapping, request),
        Err(RunnerWebhookRoutingError::SourceTableNotMapped { table, .. }) if table == "billing.customers"
    ));
}

#[test]
fn resolved_requests_route_to_tracking_state() {
    let runtime = wf_runtime();
    let Some(mapping) = runtime.require_mapping("app-a") else { panic!("app-a is planned") };
    let Ok(request) = parse_webhook_request(wf_obj(vec![("resolved", wf_text("42.0"))])) else { panic!("parses") };
    let Ok(DispatchTarget::Resolved(target)) = route_request(mapping, request) else { panic!("routes") };
    assert_eq!(target.mapping_id, "app-a");
    assert_eq!(target.resolved_watermark, "42.0");
    assert_eq!(target.destination.database(), "app_a");
}

#[test]
fn webhook_rows_become_shadow_table_statements() {
    let runtime = wf_runtime();
    let Some(mapping) = runtime.require_mapping("app-a") else { panic!("app-a is planned") };
    let rows = vec![
        wf_row("c", "demo_a", "customers", wf_obj(vec![("id", wf_num(7))])),
        wf_row("d", "demo_a", "customers", wf_obj(vec![("id", wf_num(7))])),
    ];
    let Ok(request) = parse_webhook_request(wf_batch(rows)) else { panic!("parses") };
    let Ok(DispatchTarget::RowBatch(batch)) = route_request(mapping, request) else { panic!("routes") };
    let mut rows = batch.rows;
    let delete = rows.pop().unwrap();
    let upsert = rows.pop().unwrap();
    let Ok((sql, bound)) = webhook_row_statement("app-a", &batch.table, upsert) else { panic!("upsert") };
    assert_eq!(
        sql,
        "INSERT INTO \"_cockroach_migration_tool\".\"app-a__public__customers\" (\"id\", \"email\") SELECT row_data.\"id\", row_data.\"email\" FROM jsonb_populate_record(NULL::\"_cockroach_migration_tool\".\"app-a__public__customers\", $1::jsonb) AS row_data ON CONFLICT (\"id\") DO UPDATE SET \"id\" = EXCLUDED.\"id\", \"email\" = EXCLUDED.\"email\""
    );
    assert_eq!(bound.entries.len(), 2);
    let Ok((sql, bound)) = webhook_row_statement("app-a", &batch.table, delete) else { panic!("delete") };
    assert_eq!(
        sql,
        "DELETE FROM \"_cockroach_migration_tool\".\"app-a__public__customers\" AS target USING jsonb_populate_record(NULL::\"_cockroach_migration_tool\".\"app-a__public__customers\", $1::jsonb) AS key_data WHERE target.\"id\" IS NOT DISTINCT FROM key_data.\"id\""
    );
    assert_eq!(bound.entries.len(), 1);
}

#[test]
fn refused_requests_are_answered_by_cause() {
    let unknown = RunnerIngressRequestError::Routing(RunnerWebhookRoutingError::UnknownMapping {
        mapping_id: "app-z".to_string(),
    });
    assert_eq!(unknown.status_code(), 404);
    assert_eq!(unknown.outcome(), WebhookOutcome::BadRequest);
    let payload = RunnerIngressRequestError::Payload(RunnerWebhookPayloadError::EmptyPayload);
    assert_eq!(payload.status_code(), 400);
    let stored = RunnerIngressRequestError::Persistence(RunnerWebhookPersistenceError::Commit {
        mapping_id: "app-a".to_string(),
        database: "app_a".to_string(),
        message: "connection reset".to_string(),
    });
    assert_eq!(stored.status_code(), 500);
    assert_eq!(stored.outcome(), WebhookOutcome::InternalError);
    assert_eq!(request_outcome(&Ok(())), WebhookOutcome::Accepted);
    assert_eq!(request_outcome(&Err(stored)), WebhookOutcome::InternalError);
}

#[test]
fn runtime_plan_keeps_interval_and_groups() {
    let runtime = wf_runtime();
    assert_eq!(runtime.reconcile_interval_secs(), 15);
    assert_eq!(runtime.destination_groups().len(), 1);
    let mapping = &runtime.destination_groups()[0].mappings()[0];
    assert_eq!(mapping.mapping_id(), "app-a");
    assert_eq!(mapping.source_database(), "demo_a");
    assert_eq!(mapping.reconcile_upsert_tables().len(), 1);
    assert_eq!(mapping.reconcile_delete_tables().len(), 1);
    assert_eq!(mapping.snapshot_tables().len(), 1);
}
