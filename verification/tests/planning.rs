use runner::catalog::{table_from_catalog, CatalogColumn, CatalogForeignKey, RunnerDestinationCatalogError};
use runner::config::{
    RawDecomposedPostgresTargetConfig, RawMappingConfig, RawPostgresTargetConfig, RawReconcileConfig,
    RawRunnerConfig, RawSourceConfig, RawWebhookConfig, RawWebhookMode, RunnerConfig,
};
use runner::schema::ForeignKeyAction;
use runner::startup_plan::{RunnerStartupPlan, RunnerStartupPlanError};

fn pl_mapping(id: &str, user: &str, database: &str, tables: &[&str]) -> RawMappingConfig {
    RawMappingConfig {
        id: id.to_string(),
        source: RawSourceConfig {
            database: "demo".to_string(),
            tables: tables.iter().map(|t| t.to_string()).collect(),
        },
        destination: RawPostgresTargetConfig::Decomposed(RawDecomposedPostgresTargetConfig {
            host: "pg".to_string(),
            port: 5432,
            database: database.to_string(),
            user: user.to_string(),
            password: "p".to_string(),
            tls: None,
        }),
    }
}

fn pl_config(mappings: Vec<RawMappingConfig>) -> RunnerConfig {
    let raw = RawRunnerConfig {
        webhook: RawWebhookConfig {
            bind_addr: "0.0.0.0:8443".to_string(),
            bind_addr_parsed: Some("0.0.0.0:8443".to_string()),
            mode: RawWebhookMode::Http,
            tls: None,
        },
        reconcile: RawReconcileConfig { interval_secs: 5 },
        mappings,
    };
    let Ok(config) = raw.validate() else { panic!("config is valid") };
    config
}

fn pl_column(name: &str) -> CatalogColumn {
    CatalogColumn { name: name.to_string(), data_type: "bigint".to_string(), nullable: false, generated: false }
}

#[test]
fn startup_plan_groups_mappings_by_destination_database() {
    let config = pl_config(vec![
        pl_mapping("b", "u", "db_two", &["public.t"]),
        pl_mapping("a", "u", "db_one", &["public.t"]),
        pl_mapping("c", "u", "db_one", &["public.u"]),
    ]);
    let Ok(plan) = RunnerStartupPlan::from_config(&config) else { panic!("groups are consistent") };
    let groups = plan.destination_groups();
    assert_eq!(groups.len(), 2);
    assert_eq!(groups[0].target().database(), "db_one");
    assert_eq!(groups[0].mappings().len(), 2);
    assert_eq!(groups[0].mappings()[0].mapping_id(), "a");
    assert_eq!(groups[0].mappings()[1].mapping_id(), "c");
    assert_eq!(groups[1].mappings()[0].mapping_id(), "b");
    assert_eq!(plan.mappings().len(), 3);
    assert_eq!(plan.reconcile_interval_secs(), 5);
    assert_eq!(plan.webhook_listener().bind_addr(), "0.0.0.0:8443");
    assert_eq!(plan.webhook_listener().transport().effective_mode(), "http");
}

#[test]
fn startup_plan_refuses_conflicting_contracts() {
    let config = pl_config(vec![
        pl_mapping("a", "first_user", "db_one", &["public.t"]),
        pl_mapping("b", "second_user", "db_one", &["public.u"]),
    ]);
    match RunnerStartupPlan::from_config(&config) {
        Err(RunnerStartupPlanError::InconsistentDestinationTarget { destination, first_mapping_id, second_mapping_id }) => {
            assert_eq!(destination, "pg:5432/db_one");
            assert_eq!(first_mapping_id, "a");
            assert_eq!(second_mapping_id, "b");
        }
        _ => panic!("the two mappings connect differently to one database"),
    }
}

#[test]
fn startup_plan_refuses_a_table_claimed_twice() {
    let config = pl_config(vec![
        pl_mapping("a", "u", "db_one", &["public.t", "public.x"]),
        pl_mapping("b", "u", "db_one", &["public.y", "public.t"]),
    ]);
    match RunnerStartupPlan::from_config(&config) {
        Err(RunnerStartupPlanError::OverlappingDestinationTable { destination, table, first_mapping_id, second_mapping_id }) => {
            assert_eq!(destination, "pg:5432/db_one");
            assert_eq!(table, "public.t");
            assert_eq!(first_mapping_id, "a");
            assert_eq!(second_mapping_id, "b");
        }
        _ => panic!("public.t is claimed by both mappings"),
    }
}

#[test]
fn catalog_rows_become_a_table() {
    let fk = CatalogForeignKey {
        columns: vec!["parent_id".to_string()],
        referenced_schema: Some("public".to_string()),
        referenced_table: Some("parents".to_string()),
        referenced_columns: vec!["id".to_string()],
        on_delete: "c".to_string(),
    };
    let Ok(table) = table_from_catalog(
        "app-a", "app_a", "public.children",
        vec![pl_column("id"), pl_column("parent_id")],
        vec!["id".to_string()],
        vec![fk],
    ) else {
        panic!("catalog rows are complete");
    };
    assert_eq!(table.columns().len(), 2);
    assert!(table.primary_key().is_some());
    assert_eq!(table.foreign_keys().len(), 1);
    assert_eq!(table.foreign_keys()[0].on_delete(), ForeignKeyAction::Cascade);
    assert_eq!(table.foreign_keys()[0].referenced_table().label(), "public.parents");
}

#[test]
fn catalog_refuses_missing_tables_and_odd_foreign_keys() {
    assert!(matches!(
        table_from_catalog("app-a", "app_a", "public.ghost", vec![], vec![], vec![]),
        Err(RunnerDestinationCatalogError::MissingTable { table, .. }) if table == "public.ghost"
    ));
    let set_default = CatalogForeignKey {
        columns: vec!["parent_id".to_string()],
        referenced_schema: Some("public".to_string()),
        referenced_table: Some("parents".to_string()),
        referenced_columns: vec!["id".to_string()],
        on_delete: "d".to_string(),
    };
    assert!(matches!(
        table_from_catalog("app-a", "app_a", "public.c", vec![pl_column("id")], vec![], vec![set_default]),
        Err(RunnerDestinationCatalogError::UnsupportedForeignKeyAction { action, .. }) if action == "d"
    ));
    let unpaired = CatalogForeignKey {
        columns: vec!["a".to_string(), "b".to_string()],
        referenced_schema: Some("public".to_string()),
        referenced_table: Some("parents".to_string()),
        referenced_columns: vec!["id".to_string()],
        on_delete: "a".to_string(),
    };
    assert!(matches!(
        table_from_catalog("app-a", "app_a", "public.c", vec![pl_column("id")], vec![], vec![unpaired]),
        Err(RunnerDestinationCatalogError::IncompleteForeignKeyMetadata { .. })
    ));
}
