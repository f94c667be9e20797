use runner::config::{
    LoadedRunnerConfig, RawDecomposedPostgresTargetConfig, RawMappingConfig, RawPostgresTargetConfig,
    RawReconcileConfig, RawRunnerConfig, RawSourceConfig, RawWebhookConfig, RawWebhookMode,
};
use runner::schema::{QualifiedTableName, SqlIdentifier};
use runner::schema_compare::{
    compare_mapping_exports, normalize_cockroach_type, normalize_postgres_type, parse_cockroach_export,
    parse_postgres_export, validate_mapping_exports, SchemaCompareError, TypeFamily,
};

fn sc_loaded(tables: &[&str]) -> LoadedRunnerConfig {
    let raw = RawRunnerConfig {
        webhook: RawWebhookConfig {
            bind_addr: "127.0.0.1:8080".to_string(),
            bind_addr_parsed: Some("127.0.0.1:8080".to_string()),
            mode: RawWebhookMode::Http,
            tls: None,
        },
        reconcile: RawReconcileConfig { interval_secs: 10 },
        mappings: vec![RawMappingConfig {
            id: "app-a".to_string(),
            source: RawSourceConfig {
                database: "demo_a".to_string(),
                tables: tables.iter().map(|t| t.to_string()).collect(),
            },
            destination: RawPostgresTargetConfig::Decomposed(RawDecomposedPostgresTargetConfig {
                host: "pg-a".to_string(),
                port: 5432,
                database: "app_a".to_string(),
                user: "u".to_string(),
                password: "p".to_string(),
                tls: None,
            }),
        }],
    };
    let Ok(config) = raw.validate() else { panic!("config is valid") };
    LoadedRunnerConfig::new("runner.yml".to_string(), config)
}

const COCKROACH_DUMP: &str = "create_statement
\"CREATE TABLE public.customers (
\tid INT8 NOT NULL,
\temail STRING NULL,
\tCONSTRAINT customers_pkey PRIMARY KEY (id ASC)
);\"
\"CREATE TABLE public.orders (
\tid INT8 NOT NULL,
\tcustomer_id INT8 NOT NULL,
\tCONSTRAINT orders_pkey PRIMARY KEY (id ASC),
\tINDEX orders_customer_idx (customer_id DESC)
);\"
\"CREATE TABLE public.audit_log (
\tid INT8 NOT NULL,
\tCONSTRAINT audit_log_pkey PRIMARY KEY (id ASC)
);\"
ALTER TABLE public.orders ADD CONSTRAINT orders_customer_fk FOREIGN KEY (customer_id) REFERENCES public.customers(id) ON DELETE CASCADE;
ALTER TABLE public.orders VALIDATE CONSTRAINT orders_customer_fk;
";

const POSTGRES_DUMP: &str = "-- dumped by pg_dump
SET statement_timeout = 0;
\\connect app_a
CREATE TABLE public.customers (
    id bigint NOT NULL,
    email text
);
CREATE TABLE public.orders (
    id bigint NOT NULL,
    customer_id bigint NOT NULL
);
ALTER TABLE public.customers
    ADD CONSTRAINT customers_pkey PRIMARY KEY (id);
ALTER TABLE public.orders
    ADD CONSTRAINT orders_pkey PRIMARY KEY (id);
CREATE INDEX orders_customer_idx ON public.orders USING btree (customer_id DESC);
ALTER TABLE public.orders
    ADD CONSTRAINT orders_customer_fk FOREIGN KEY (customer_id) REFERENCES public.customers(id) ON DELETE CASCADE;
";

#[test]
fn type_families_follow_each_dialect() {
    assert_eq!(normalize_cockroach_type(" string "), Some(TypeFamily::String));
    assert_eq!(normalize_cockroach_type("INT8"), Some(TypeFamily::Integer));
    assert_eq!(normalize_cockroach_type("TIMESTAMPTZ"), Some(TypeFamily::TimestampWithTimeZone));
    assert_eq!(normalize_cockroach_type("JSONB"), None);
    assert_eq!(normalize_postgres_type("character varying(255)"), Some(TypeFamily::String));
    assert_eq!(normalize_postgres_type("BIGINT"), Some(TypeFamily::Integer));
    assert_eq!(normalize_postgres_type("boolean"), Some(TypeFamily::Boolean));
    assert_eq!(normalize_postgres_type("timestamp with time zone"), Some(TypeFamily::TimestampWithTimeZone));
    assert_eq!(normalize_postgres_type("numeric"), None);
}

#[test]
fn cockroach_dump_reads_tables_keys_indexes_and_foreign_keys() {
    let Ok(schema) = parse_cockroach_export(COCKROACH_DUMP, "crdb.sql") else { panic!("dump parses") };
    let orders = QualifiedTableName::new(SqlIdentifier::new("public"), SqlIdentifier::new("orders"));
    let Some(table) = schema.table(&orders) else { panic!("orders is in the dump") };
    assert_eq!(table.columns().len(), 2);
    assert_eq!(table.columns()[1].name().raw(), "customer_id");
    assert_eq!(table.columns()[1].raw_type(), "INT8");
    assert!(!table.columns()[1].nullable());
    let Some(pk) = table.primary_key() else { panic!("orders has a primary key") };
    assert_eq!(pk.columns().len(), 1);
    assert_eq!(pk.columns()[0].raw(), "id");
    assert_eq!(table.indexes().len(), 1);
    assert_eq!(table.foreign_keys().len(), 1);
    assert_eq!(table.foreign_keys()[0].referenced_table().label(), "public.customers");
    assert_eq!(schema.table_names().len(), 3);
}

#[test]
fn cockroach_dump_with_unterminated_statement_is_refused() {
    let dump = "\"CREATE TABLE public.t (\n\tid INT8 NOT NULL\n";
    let Err(error) = parse_cockroach_export(dump, "crdb.sql") else { panic!("statement is unterminated") };
    assert_eq!(
        error.render(),
        "failed to parse cockroach schema file `crdb.sql`: unterminated quoted CREATE TABLE statement"
    );
}

#[test]
fn postgres_dump_reads_alter_table_constraints() {
    let Ok(schema) = parse_postgres_export(POSTGRES_DUMP, "pg.sql") else { panic!("dump parses") };
    let customers = QualifiedTableName::new(SqlIdentifier::new("public"), SqlIdentifier::new("customers"));
    let Some(table) = schema.table(&customers) else { panic!("customers is in the dump") };
    assert!(table.primary_key().is_some());
    assert!(table.columns()[1].nullable());
    assert_eq!(table.columns()[1].raw_type(), "text");
}

#[test]
fn postgres_constraint_on_missing_table_is_refused() {
    let dump = "ALTER TABLE public.ghost ADD CONSTRAINT ghost_pkey PRIMARY KEY (id);\n";
    let Err(error) = parse_postgres_export(dump, "pg.sql") else { panic!("table is missing") };
    assert_eq!(
        error.render(),
        "failed to parse postgres schema file `pg.sql`: constraint references missing table `public.ghost`"
    );
}

#[test]
fn compatible_dumps_are_summarised() {
    let loaded = sc_loaded(&["public.customers", "public.orders"]);
    let Ok(summary) = compare_mapping_exports(
        &loaded,
        "app-a",
        "crdb.sql",
        Ok(COCKROACH_DUMP.to_string()),
        "pg.sql",
        Ok(POSTGRES_DUMP.to_string()),
    ) else {
        panic!("the dumps agree on the selected tables");
    };
    assert_eq!(summary.render(), "schema compatible: mapping=app-a tables=2 ignored_tables=1");
}

#[test]
fn validated_mapping_keeps_selected_postgres_tables() {
    let loaded = sc_loaded(&["public.orders", "public.customers"]);
    let Ok(validated) = validate_mapping_exports(
        &loaded,
        "app-a",
        "crdb.sql",
        Ok(COCKROACH_DUMP.to_string()),
        "pg.sql",
        Ok(POSTGRES_DUMP.to_string()),
    ) else {
        panic!("the dumps agree");
    };
    assert_eq!(validated.mapping_id(), "app-a");
    assert_eq!(validated.selected_tables().len(), 2);
    assert_eq!(validated.ignored_tables(), 1);
    let audit = QualifiedTableName::new(SqlIdentifier::new("public"), SqlIdentifier::new("audit_log"));
    assert!(validated.postgres_schema().table(&audit).is_none());
}

#[test]
fn missing_mapping_is_reported() {
    let loaded = sc_loaded(&["public.customers"]);
    let Err(error) = compare_mapping_exports(&loaded, "app-z", "c", Ok(String::new()), "p", Ok(String::new())) else {
        panic!("there is no mapping app-z");
    };
    assert!(matches!(error, SchemaCompareError::MissingMapping { .. }));
    assert_eq!(error.render(), "missing mapping `app-z` in config `runner.yml`");
}

#[test]
fn unreadable_dump_is_reported() {
    let loaded = sc_loaded(&["public.customers"]);
    let Err(error) = compare_mapping_exports(
        &loaded,
        "app-a",
        "crdb.sql",
        Err("no such file".to_string()),
        "pg.sql",
        Ok(POSTGRES_DUMP.to_string()),
    ) else {
        panic!("the cockroach dump could not be read");
    };
    assert_eq!(error.render(), "failed to read cockroach schema file `crdb.sql`");
}

#[test]
fn missing_selected_table_is_a_mismatch() {
    let loaded = sc_loaded(&["public.customers", "public.audit_log"]);
    let Err(error) = compare_mapping_exports(
        &loaded,
        "app-a",
        "crdb.sql",
        Ok(COCKROACH_DUMP.to_string()),
        "pg.sql",
        Ok(POSTGRES_DUMP.to_string()),
    ) else {
        panic!("audit_log is missing on postgres");
    };
    assert_eq!(error.render(), "schema compare mismatch:\n- missing table on postgres: public.audit_log\n");
}

#[test]
fn column_differences_are_each_reported() {
    let crdb = "\"CREATE TABLE public.items (\n\tid INT8 NOT NULL,\n\tname STRING NOT NULL,\n\tflag BOOL NULL,\n\tdoc JSONB NULL,\n\tCONSTRAINT items_pkey PRIMARY KEY (id ASC)\n);\"\n";
    let pg = "CREATE TABLE public.items (\n    id bigint NOT NULL,\n    name integer,\n    flag boolean,\n    doc jsonb,\n    extra text\n);\nALTER TABLE public.items ADD CONSTRAINT items_pkey PRIMARY KEY (id);\n";
    let loaded = sc_loaded(&["public.items"]);
    let Err(error) = compare_mapping_exports(&loaded, "app-a", "c", Ok(crdb.to_string()), "p", Ok(pg.to_string())) else {
        panic!("the tables differ");
    };
    assert_eq!(
        error.render(),
        "schema compare mismatch:\n\
- unsupported type pair for public.items.doc: cockroach=`JSONB` postgres=`jsonb`\n\
- missing column on cockroach: public.items.extra\n\
- type mismatch for public.items.name: cockroach=`STRING` postgres=`integer`\n\
- nullability mismatch for public.items.name: cockroach=not-null postgres=nullable\n"
    );
}

#[test]
fn primary_key_difference_is_reported() {
    let crdb = "\"CREATE TABLE public.k (\n\ta INT8 NOT NULL,\n\tb INT8 NOT NULL,\n\tCONSTRAINT k_pkey PRIMARY KEY (a ASC, b ASC)\n);\"\n";
    let pg = "CREATE TABLE public.k (\n    a bigint NOT NULL,\n    b bigint NOT NULL\n);\nALTER TABLE public.k ADD CONSTRAINT k_pkey PRIMARY KEY (a);\n";
    let loaded = sc_loaded(&["public.k"]);
    let Err(error) = compare_mapping_exports(&loaded, "app-a", "c", Ok(crdb.to_string()), "p", Ok(pg.to_string())) else {
        panic!("the keys differ");
    };
    assert_eq!(
        error.render(),
        "schema compare mismatch:\n- primary key mismatch for public.k: cockroach=(a, b) postgres=(a)\n"
    );
}

#[test]
fn foreign_key_and_index_differences_are_reported() {
    let pg = "CREATE TABLE public.customers (\n    id bigint NOT NULL,\n    email text\n);\n\
CREATE TABLE public.orders (\n    id bigint NOT NULL,\n    customer_id bigint NOT NULL\n);\n\
ALTER TABLE public.customers ADD CONSTRAINT customers_pkey PRIMARY KEY (id);\n\
ALTER TABLE public.orders ADD CONSTRAINT orders_pkey PRIMARY KEY (id);\n";
    let loaded = sc_loaded(&["public.orders", "public.customers"]);
    let Err(error) = compare_mapping_exports(&loaded, "app-a", "c", Ok(COCKROACH_DUMP.to_string()), "p", Ok(pg.to_string())) else {
        panic!("postgres lacks the foreign key and the index");
    };
    assert_eq!(
        error.render(),
        "schema compare mismatch:\n\
- foreign key mismatch for public.orders: cockroach=(customer_id)->public.customers(id) on_delete=cascade postgres=none\n\
- index mismatch for public.orders: cockroach=customer_id DESC postgres=none\n"
    );
}

#[test]
fn unique_constraint_difference_is_reported() {
    let crdb = "\"CREATE TABLE public.u (\n\tid INT8 NOT NULL,\n\temail STRING NOT NULL,\n\tCONSTRAINT u_pkey PRIMARY KEY (id ASC),\n\tUNIQUE INDEX u_email_key (email ASC)\n);\"\n";
    let pg = "CREATE TABLE public.u (\n    id bigint NOT NULL,\n    email text NOT NULL\n);\nALTER TABLE public.u ADD CONSTRAINT u_pkey PRIMARY KEY (id);\n";
    let loaded = sc_loaded(&["public.u"]);
    let Err(error) = compare_mapping_exports(&loaded, "app-a", "c", Ok(crdb.to_string()), "p", Ok(pg.to_string())) else {
        panic!("postgres lacks the unique constraint");
    };
    assert_eq!(
        error.render(),
        "schema compare mismatch:\n- unique constraint mismatch for public.u: cockroach=(email) postgres=none\n"
    );
}
