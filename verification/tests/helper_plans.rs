use runner::bootstrap::{
    count_rows_sql, create_helper_schema_sql, mapping_bootstrap_statements, scaffold_statements,
    update_received_watermark_sql,
};
use runner::helper_plan::{helper_schema_name, render_helper_table_name, MappingHelperPlan};
use runner::apply_sql::{reconcile_delete_statement, reconcile_upsert_statement};
use runner::error::RunnerHelperPlanError;
use runner::reconcile_order::reconcile_order_from_schema;
use runner::schema::{
    ColumnSchema, ForeignKeyAction, ForeignKeyShape, PrimaryKeyShape, QualifiedTableName, SqlIdentifier,
    TableSchema, ValidatedSchema,
};
use runner::validated::ReconcileApplyFailure;

fn hp_name(table: &str) -> QualifiedTableName {
    QualifiedTableName::new(SqlIdentifier::new("public"), SqlIdentifier::new(table))
}

fn hp_table(columns: &[(&str, &str, bool)], pk: &[&str], fks: &[&str]) -> TableSchema {
    let mut t = TableSchema::new();
    for (name, ty, nullable) in columns {
        t.push_column(ColumnSchema::new(SqlIdentifier::new(name), ty.to_string(), *nullable, false));
    }
    if !pk.is_empty() {
        t.set_primary_key(PrimaryKeyShape::new(pk.iter().map(|c| SqlIdentifier::new(c)).collect()));
    }
    for parent in fks {
        t.push_foreign_key(ForeignKeyShape::new(
            vec![SqlIdentifier::new("parent_id")],
            hp_name(parent),
            vec![SqlIdentifier::new("id")],
            ForeignKeyAction::Cascade,
        ));
    }
    t
}

fn hp_schema() -> ValidatedSchema {
    let mut schema = ValidatedSchema::new();
    schema.insert_table(hp_name("customers"), hp_table(&[("id", "bigint", false), ("email", "text", true)], &["id"], &[]));
    schema.insert_table(
        hp_name("orders"),
        hp_table(&[("id", "bigint", false), ("parent_id", "bigint", false)], &["id"], &["customers"]),
    );
    schema.insert_table(hp_name("notes"), hp_table(&[("body", "text", true)], &[], &[]));
    schema
}

#[test]
fn reconcile_order_puts_parents_first_and_deletes_in_reverse() {
    let selected = vec![hp_name("orders"), hp_name("customers")];
    let Ok(order) = reconcile_order_from_schema("app-a", &selected, &hp_schema()) else {
        panic!("no cycle");
    };
    let upsert: Vec<String> = order.upsert_order().iter().map(|t| t.label()).collect();
    let delete: Vec<String> = order.delete_order().iter().map(|t| t.label()).collect();
    assert_eq!(upsert, vec!["public.customers", "public.orders"]);
    assert_eq!(delete, vec!["public.orders", "public.customers"]);
}

#[test]
fn reconcile_order_reports_foreign_key_cycles() {
    let mut schema = ValidatedSchema::new();
    schema.insert_table(hp_name("a"), hp_table(&[("id", "bigint", false)], &["id"], &["b"]));
    schema.insert_table(hp_name("b"), hp_table(&[("id", "bigint", false)], &["id"], &["a"]));
    schema.insert_table(hp_name("c"), hp_table(&[("id", "bigint", false)], &["id"], &[]));
    let selected = vec![hp_name("a"), hp_name("b"), hp_name("c")];
    match reconcile_order_from_schema("app-a", &selected, &schema) {
        Err(RunnerHelperPlanError::DependencyCycle { mapping_id, tables }) => {
            assert_eq!(mapping_id, "app-a");
            assert_eq!(tables, "public.a, public.b");
        }
        _ => panic!("a and b reference each other"),
    }
}

#[test]
fn helper_plan_reports_missing_selected_table() {
    let selected = vec![hp_name("customers"), hp_name("ghost")];
    match MappingHelperPlan::from_validated_schema("app-a", &selected, &hp_schema()) {
        Err(RunnerHelperPlanError::MissingValidatedTable { mapping_id, table }) => {
            assert_eq!(mapping_id, "app-a");
            assert_eq!(table, "public.ghost");
        }
        _ => panic!("ghost is not in the schema"),
    }
}

#[test]
fn shadow_tables_are_named_after_mapping_and_table() {
    let selected = vec![hp_name("customers"), hp_name("notes")];
    let Ok(plan) = MappingHelperPlan::from_validated_schema("app-a", &selected, &hp_schema()) else {
        panic!("tables exist");
    };
    let tables = plan.helper_tables();
    assert_eq!(tables.len(), 2);
    assert_eq!(tables[0].helper_table_name(), "app-a__public__customers");
    assert_eq!(
        tables[0].create_shadow_table_sql(),
        "CREATE TABLE IF NOT EXISTS \"_cockroach_migration_tool\".\"app-a__public__customers\" (\n    \"id\" bigint NOT NULL,\n    \"email\" text\n);\n"
    );
    assert_eq!(
        tables[0].create_primary_key_index_sql(),
        Some("CREATE UNIQUE INDEX IF NOT EXISTS \"app-a__public__customers__pk\" ON \"_cockroach_migration_tool\".\"app-a__public__customers\" (\"id\")".to_string())
    );
    assert_eq!(tables[1].create_primary_key_index_sql(), None);
    let ddl = mapping_bootstrap_statements(&plan);
    assert_eq!(ddl.len(), 3);
    assert_eq!(ddl[0], tables[0].create_shadow_table_sql());
    assert_eq!(ddl[2], tables[1].create_shadow_table_sql());
}

#[test]
fn helper_schema_statements_use_the_helper_schema() {
    assert_eq!(helper_schema_name(), "_cockroach_migration_tool");
    assert_eq!(render_helper_table_name("t\"x"), "\"_cockroach_migration_tool\".\"t\"\"x\"");
    assert_eq!(create_helper_schema_sql(), "CREATE SCHEMA IF NOT EXISTS _cockroach_migration_tool");
    let scaffold = scaffold_statements();
    assert_eq!(scaffold.len(), 3);
    assert!(scaffold[1].starts_with("CREATE TABLE IF NOT EXISTS _cockroach_migration_tool.stream_state ("));
    assert!(scaffold[2].starts_with("CREATE TABLE IF NOT EXISTS _cockroach_migration_tool.table_sync_state ("));
    assert!(update_received_watermark_sql().starts_with("UPDATE _cockroach_migration_tool.stream_state\n"));
    assert_eq!(count_rows_sql("public.t"), "SELECT count(*) AS row_count FROM public.t");
}

#[test]
fn reconcile_statements_copy_and_prune_rows() {
    let selected = vec![hp_name("customers")];
    let Ok(plan) = MappingHelperPlan::from_validated_schema("app-a", &selected, &hp_schema()) else {
        panic!("customers exists");
    };
    let table = &plan.helper_tables()[0];
    let Ok(upsert) = reconcile_upsert_statement(table) else { panic!("customers has a key") };
    assert_eq!(
        upsert,
        "INSERT INTO \"public\".\"customers\" (\"id\", \"email\") SELECT helper.\"id\", helper.\"email\" FROM \"_cockroach_migration_tool\".\"app-a__public__customers\" AS helper ON CONFLICT (\"id\") DO UPDATE SET \"email\" = EXCLUDED.\"email\""
    );
    let Ok(delete) = reconcile_delete_statement(table) else { panic!("customers has a key") };
    assert_eq!(
        delete,
        "DELETE FROM \"public\".\"customers\" AS target WHERE NOT EXISTS (SELECT 1 FROM \"_cockroach_migration_tool\".\"app-a__public__customers\" AS helper WHERE helper.\"id\" IS NOT DISTINCT FROM target.\"id\")"
    );
}

#[test]
fn reconcile_statements_need_a_primary_key() {
    let selected = vec![hp_name("notes")];
    let Ok(plan) = MappingHelperPlan::from_validated_schema("app-a", &selected, &hp_schema()) else {
        panic!("notes exists");
    };
    let table = &plan.helper_tables()[0];
    let Err(failure) = reconcile_upsert_statement(table) else { panic!("notes has no key") };
    assert!(matches!(failure, ReconcileApplyFailure::MissingPrimaryKey { .. }));
    assert_eq!(failure.table(), "public.notes");
    assert_eq!(failure.error_detail(), "primary-key metadata is missing");
    assert!(reconcile_delete_statement(table).is_err());
}
