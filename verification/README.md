# runner

A destination runner for moving data from CockroachDB to PostgreSQL. It accepts
CockroachDB change-feed batches over HTTP(S), stores them in per-mapping shadow tables
inside PostgreSQL, and periodically reconciles the shadow tables into the real tables
(upserts parents first, deletes children first). Around that runtime it offers config
validation, schema-dump comparison, grant artifacts, MOLT verification and a cutover
readiness check.

## Layout

- `src/` is the library, verified with Verus. Every function states its result in
  `ensures` over spec functions; laws that span functions are public `proof fn`s.
  - `config`, `startup_plan`, `runtime_plan`: the config model, its validation, and the
    plans built from it (destination groups, shadow tables, reconcile order).
  - `schema`, `schema_dump`, `schema_compare`, `sql_text`, `ordering`: table shapes, the
    two dump readers, and the comparison report.
  - `reconcile_order`, `helper_plan`, `apply_sql`, `bootstrap`, `catalog`: the SQL the
    runner runs against PostgreSQL and the order it runs in.
  - `webhook_payload`, `routing`, `ingress`: change-feed requests, how they are routed to a
    shadow table, and how a refused request is answered.
  - `cutover`, `molt`, `postgres_setup`, `metrics`, `log`, `validated`, `cli`, `ingest`:
    reports, command line, metric exposition and operator events.
  - `tls`: the listener's certificate chain and private key, read from PEM with
    rustls-pemfile, and the ALPN protocols it offers.
  - `pg`: the trusted wrappers around sqlx's `PgConnectOptions`; `conn_url`: when the
    `postgres://user@host:port` text that sqlx writes a destination as parses.
- `tests/` exercise the library on concrete values.
- `app/` is the binary: argument handling, file and network I/O, PostgreSQL access with
  sqlx, the axum/rustls listener, the reconcile loop, and the float-valued metric state.
