//! The runner config: the values that the YAML file holds, and the rules that turn them
//! into a validated config.
use vstd::prelude::*;

use sqlx::postgres::PgConnectOptions;

use crate::conn_url::{url_target_ok, url_target_ok_exec};
use crate::error::{ConfigErrorView, RunnerConfigError, invalid_field};
use crate::pg::{
    pg_clone, pg_get_database, pg_get_host, pg_get_port, pg_has_socket, pg_new,
    pg_parse_url, pg_url_lossy, pg_url_parse_error, pg_with_database, pg_with_host,
    pg_with_password, pg_with_port, pg_with_ssl_client_cert, pg_with_ssl_client_key,
    pg_with_ssl_mode, pg_with_ssl_root_cert, pg_with_username, pg_get_username,
};
use crate::text::{
    chars_of, is_whitespace, lemma_trim_idempotent, string_of_range, trim, trim_bounds, views,
};

verus! {

// ---------------------------------------------------------------------------------------
// Field rules
// ---------------------------------------------------------------------------------------

/// A text field: surrounding whitespace is dropped and nothing may remain empty.
pub open spec fn validate_text_spec(value: Seq<char>, field: Seq<char>) -> Result<
    Seq<char>,
    ConfigErrorView,
> {
    if trim(value).len() == 0 {
        Err(invalid_field(field, "must not be empty"@))
    } else {
        Ok(trim(value))
    }
}

/// A path field: it may not be empty.
pub open spec fn validate_path_spec(value: Seq<char>, field: Seq<char>) -> Result<
    Seq<char>,
    ConfigErrorView,
> {
    if value.len() == 0 {
        Err(invalid_field(field, "must not be empty"@))
    } else {
        Ok(value)
    }
}

pub fn validate_text(value: String, field: &'static str) -> (r: Result<String, RunnerConfigError>)
    ensures
        match r {
            Ok(t) => validate_text_spec(value@, field@) == Ok::<Seq<char>, ConfigErrorView>(t@),
            Err(e) => validate_text_spec(value@, field@) == Err::<Seq<char>, ConfigErrorView>(e@),
        },
{
    let v = chars_of(value.as_str());
    let (lo, hi) = trim_bounds(&v);
    if lo == hi {
        return Err(RunnerConfigError::InvalidField { field, message: "must not be empty" });
    }
    Ok(string_of_range(&v, lo, hi))
}

pub fn validate_path(value: String, field: &'static str) -> (r: Result<String, RunnerConfigError>)
    ensures
        match r {
            Ok(t) => validate_path_spec(value@, field@) == Ok::<Seq<char>, ConfigErrorView>(t@),
            Err(e) => validate_path_spec(value@, field@) == Err::<Seq<char>, ConfigErrorView>(e@),
        },
{
    let v = chars_of(value.as_str());
    if v.len() == 0 {
        return Err(RunnerConfigError::InvalidField { field, message: "must not be empty" });
    }
    Ok(value)
}

/// An optional path field.
pub open spec fn validate_opt_path_spec(value: Option<Seq<char>>, field: Seq<char>) -> Result<
    Option<Seq<char>>,
    ConfigErrorView,
> {
    match value {
        None => Ok(None),
        Some(p) => match validate_path_spec(p, field) {
            Ok(q) => Ok(Some(q)),
            Err(e) => Err(e),
        },
    }
}

pub open spec fn opt_view(o: Option<String>) -> Option<Seq<char>> {
    match o {
        Some(s) => Some(s@),
        None => None,
    }
}

fn validate_opt_path(value: Option<String>, field: &'static str) -> (r: Result<
    Option<String>,
    RunnerConfigError,
>)
    ensures
        match r {
            Ok(t) => validate_opt_path_spec(opt_view(value), field@) == Ok::<
                Option<Seq<char>>,
                ConfigErrorView,
            >(opt_view(t)),
            Err(e) => validate_opt_path_spec(opt_view(value), field@) == Err::<
                Option<Seq<char>>,
                ConfigErrorView,
            >(e@),
        },
{
    match value {
        None => Ok(None),
        Some(p) => {
            let q = validate_path(p, field)?;
            Ok(Some(q))
        },
    }
}

/// `schema.table`: exactly one dot, with text on both sides.
pub open spec fn schema_table_shape(t: Seq<char>) -> bool {
    exists|i: int|
        0 < i < t.len() - 1 && t[i] == '.' && forall|j: int|
            0 <= j < t.len() && j != i ==> #[trigger] t[j] != '.'
}

pub open spec fn validate_table_name_spec(value: Seq<char>) -> Result<Seq<char>, ConfigErrorView> {
    match validate_text_spec(value, "mappings.source.tables"@) {
        Err(e) => Err(e),
        Ok(t) => if schema_table_shape(t) {
            Ok(t)
        } else {
            Err(invalid_field("mappings.source.tables"@, "entries must use schema.table"@))
        },
    }
}

fn has_schema_table_shape(t: &String) -> (b: bool)
    ensures
        b == schema_table_shape(t@),
{
    let v = chars_of(t.as_str());
    let mut dot: Option<usize> = None;
    let mut i: usize = 0;
    while i < v.len()
        invariant
            v@ == t@,
            i <= v.len(),
            match dot {
                None => forall|j: int| 0 <= j < i ==> #[trigger] v@[j] != '.',
                Some(d) => d < i && v@[d as int] == '.' && forall|j: int|
                    0 <= j < i && j != d ==> #[trigger] v@[j] != '.',
            },
        decreases v.len() - i,
    {
        if v[i] == '.' {
            match dot {
                Some(d) => {
                    assert(!schema_table_shape(t@)) by {
                        if schema_table_shape(t@) {
                            let w = choose|w: int|
                                0 < w < t@.len() - 1 && t@[w] == '.' && forall|j: int|
                                    0 <= j < t@.len() && j != w ==> #[trigger] t@[j] != '.';
                            assert(t@[d as int] == '.');
                            assert(t@[i as int] == '.');
                        }
                    }
                    return false;
                },
                None => {
                    dot = Some(i);
                },
            }
        }
        i += 1;
    }
    match dot {
        None => {
            assert(!schema_table_shape(t@)) by {
                if schema_table_shape(t@) {
                    let w = choose|w: int|
                        0 < w < t@.len() - 1 && t@[w] == '.' && forall|j: int|
                            0 <= j < t@.len() && j != w ==> #[trigger] t@[j] != '.';
                    assert(v@[w] == '.');
                }
            }
            false
        },
        Some(d) => {
            let ok = d > 0 && d + 1 < v.len();
            assert(ok == schema_table_shape(t@)) by {
                if schema_table_shape(t@) {
                    let w = choose|w: int|
                        0 < w < t@.len() - 1 && t@[w] == '.' && forall|j: int|
                            0 <= j < t@.len() && j != w ==> #[trigger] t@[j] != '.';
                    if w != d {
                        assert(v@[w] == '.');
                    }
                }
            }
            ok
        },
    }
}

pub fn validate_table_name(value: String) -> (r: Result<String, RunnerConfigError>)
    ensures
        match r {
            Ok(t) => validate_table_name_spec(value@) == Ok::<Seq<char>, ConfigErrorView>(t@),
            Err(e) => validate_table_name_spec(value@) == Err::<Seq<char>, ConfigErrorView>(e@),
        },
{
    let table = validate_text(value, "mappings.source.tables")?;
    if has_schema_table_shape(&table) {
        Ok(table)
    } else {
        Err(
            RunnerConfigError::InvalidField {
                field: "mappings.source.tables",
                message: "entries must use schema.table",
            },
        )
    }
}

/// The first `n` table entries, validated one by one; a repeated entry is refused.
pub open spec fn tables_prefix_spec(values: Seq<Seq<char>>, n: int) -> Result<
    Seq<Seq<char>>,
    ConfigErrorView,
>
    decreases n,
{
    if n <= 0 {
        Ok(seq![])
    } else {
        match tables_prefix_spec(values, n - 1) {
            Err(e) => Err(e),
            Ok(acc) => match validate_table_name_spec(values[n - 1]) {
                Err(e) => Err(e),
                Ok(t) => if acc.contains(t) {
                    Err(invalid_field("mappings.source.tables"@, "must not contain duplicates"@))
                } else {
                    Ok(acc.push(t))
                },
            },
        }
    }
}

pub proof fn lemma_tables_prefix_err(values: Seq<Seq<char>>, i: int, n: int)
    requires
        0 <= i <= n,
        tables_prefix_spec(values, i) is Err,
    ensures
        tables_prefix_spec(values, n) == tables_prefix_spec(values, i),
    decreases n - i,
{
    if n > i {
        lemma_tables_prefix_err(values, i, n - 1);
    }
}

/// A table entry as validation leaves it: trimmed, in the form `schema.table`.
pub open spec fn table_entry_ok(t: Seq<char>) -> bool {
    t == trim(t) && schema_table_shape(t)
}

/// What validation leaves of the first `n` entries: `n` distinct entries, each one well formed.
pub proof fn lemma_tables_prefix_ok(values: Seq<Seq<char>>, n: int)
    requires
        0 <= n <= values.len(),
    ensures
        tables_prefix_spec(values, n) matches Ok(acc) ==> acc.len() == n && acc.no_duplicates()
            && forall|i: int| 0 <= i < acc.len() ==> #[trigger] table_entry_ok(acc[i]),
    decreases n,
{
    if n > 0 {
        lemma_tables_prefix_ok(values, n - 1);
        lemma_trim_idempotent(values[n - 1]);
        if let Ok(acc) = tables_prefix_spec(values, n - 1) {
            if let Ok(t) = validate_table_name_spec(values[n - 1]) {
                if !acc.contains(t) {
                    let next = acc.push(t);
                    assert forall|i: int| 0 <= i < next.len() implies #[trigger] table_entry_ok(next[i]) by {
                        if i < acc.len() {
                            assert(next[i] == acc[i]);
                        }
                    }
                    assert forall|i: int, j: int| 0 <= i < next.len() && 0 <= j < next.len() && i != j
                        implies next[i] != next[j] by {
                        if i < acc.len() && j < acc.len() {
                            assert(next[i] == acc[i] && next[j] == acc[j]);
                        } else if i < acc.len() {
                            assert(next[i] == acc[i]);
                        } else {
                            assert(next[j] == acc[j]);
                        }
                    }
                }
            }
        }
    }
}

pub open spec fn validate_tables_spec(values: Seq<Seq<char>>) -> Result<
    Seq<Seq<char>>,
    ConfigErrorView,
> {
    if values.len() == 0 {
        Err(invalid_field("mappings.source.tables"@, "must contain at least one table"@))
    } else {
        tables_prefix_spec(values, values.len() as int)
    }
}

/// Whether one of the first `n` strings has the same text as `s`.
fn contains_string(v: &Vec<String>, s: &String) -> (b: bool)
    ensures
        b == views(v@).contains(s@),
{
    let mut i: usize = 0;
    while i < v.len()
        invariant
            i <= v.len(),
            forall|j: int| 0 <= j < i ==> views(v@)[j] != s@,
        decreases v.len() - i,
    {
        if v[i] == *s {
            assert(views(v@)[i as int] == s@);
            return true;
        }
        i += 1;
    }
    false
}

pub fn validate_tables(values: Vec<String>) -> (r: Result<Vec<String>, RunnerConfigError>)
    ensures
        match r {
            Ok(t) => validate_tables_spec(views(values@)) == Ok::<
                Seq<Seq<char>>,
                ConfigErrorView,
            >(views(t@)),
            Err(e) => validate_tables_spec(views(values@)) == Err::<
                Seq<Seq<char>>,
                ConfigErrorView,
            >(e@),
        },
{
    if values.len() == 0 {
        return Err(
            RunnerConfigError::InvalidField {
                field: "mappings.source.tables",
                message: "must contain at least one table",
            },
        );
    }
    let ghost vs = views(values@);
    let mut tables: Vec<String> = Vec::new();
    let mut i: usize = 0;
    assert(views(tables@) =~= seq![]);
    while i < values.len()
        invariant
            vs == views(values@),
            i <= values.len(),
            tables_prefix_spec(vs, i as int) == Ok::<Seq<Seq<char>>, ConfigErrorView>(views(tables@)),
        decreases values.len() - i,
    {
        let table = match validate_table_name(values[i].clone()) {
            Ok(t) => t,
            Err(e) => {
                proof {
                    lemma_tables_prefix_err(vs, i + 1, vs.len() as int);
                }
                return Err(e);
            },
        };
        if contains_string(&tables, &table) {
            proof {
                lemma_tables_prefix_err(vs, i + 1, vs.len() as int);
            }
            return Err(
                RunnerConfigError::InvalidField {
                    field: "mappings.source.tables",
                    message: "must not contain duplicates",
                },
            );
        }
        let ghost prev = tables@;
        tables.push(table);
        assert(views(tables@) =~= views(prev).push(table@));
        i += 1;
    }
    Ok(tables)
}


// ---------------------------------------------------------------------------------------
// Validated config
// ---------------------------------------------------------------------------------------

#[derive(Clone, Copy, Debug, PartialEq, Eq, Structural)]
pub enum PostgresTlsMode {
    Require,
    VerifyCa,
    VerifyFull,
}

pub struct PostgresTlsView {
    pub mode: PostgresTlsMode,
    pub ca_cert_path: Option<Seq<char>>,
    pub client_cert_path: Option<Seq<char>>,
    pub client_key_path: Option<Seq<char>>,
}

/// How the runner reaches a destination over TLS.
pub struct PostgresTlsConfig {
    mode: PostgresTlsMode,
    ca_cert_path: Option<String>,
    client_cert_path: Option<String>,
    client_key_path: Option<String>,
}

impl View for PostgresTlsConfig {
    type V = PostgresTlsView;

    closed spec fn view(&self) -> PostgresTlsView {
        PostgresTlsView {
            mode: self.mode,
            ca_cert_path: opt_view(self.ca_cert_path),
            client_cert_path: opt_view(self.client_cert_path),
            client_key_path: opt_view(self.client_key_path),
        }
    }
}

impl PostgresTlsConfig {
    fn apply_to(&self, options: PgConnectOptions) -> PgConnectOptions {
        let mut options = pg_with_ssl_mode(options, self.mode);
        if let Some(path) = &self.ca_cert_path {
            options = pg_with_ssl_root_cert(options, path.as_str());
        }
        if let Some(path) = &self.client_cert_path {
            options = pg_with_ssl_client_cert(options, path.as_str());
        }
        if let Some(path) = &self.client_key_path {
            options = pg_with_ssl_client_key(options, path.as_str());
        }
        options
    }
}

impl Clone for PostgresTlsConfig {
    fn clone(&self) -> (r: Self)
        ensures
            r@ == self@,
    {
        PostgresTlsConfig {
            mode: self.mode,
            ca_cert_path: self.ca_cert_path.clone(),
            client_cert_path: self.client_cert_path.clone(),
            client_key_path: self.client_key_path.clone(),
        }
    }
}

pub open spec fn tls_opt_view(t: Option<PostgresTlsConfig>) -> Option<PostgresTlsView> {
    match t {
        Some(c) => Some(c@),
        None => None,
    }
}

/// How a destination was given, as the contracts speak of it.
pub enum TargetSourceView {
    Url(Seq<char>),
    Parts { password: Seq<char>, tls: Option<PostgresTlsView> },
}

/// How a destination was given: a connection URL, or parts with their password and TLS.
pub enum TargetSource {
    Url(String),
    Parts { password: String, tls: Option<PostgresTlsConfig> },
}

impl View for TargetSource {
    type V = TargetSourceView;

    open spec fn view(&self) -> TargetSourceView {
        match self {
            TargetSource::Url(u) => TargetSourceView::Url(u@),
            TargetSource::Parts { password, tls } => TargetSourceView::Parts {
                password: password@,
                tls: tls_opt_view(*tls),
            },
        }
    }
}

impl Clone for TargetSource {
    fn clone(&self) -> (r: Self)
        ensures
            r@ == self@,
    {
        match self {
            TargetSource::Url(u) => TargetSource::Url(u.clone()),
            TargetSource::Parts { password, tls } => TargetSource::Parts {
                password: password.clone(),
                tls: match tls {
                    Some(t) => Some(t.clone()),
                    None => None,
                },
            },
        }
    }
}

/// What a destination is, as the contracts speak of it.
pub struct TargetView {
    pub host: Seq<char>,
    pub port: u16,
    pub database: Seq<char>,
    pub user: Seq<char>,
    pub target_contract: Seq<char>,
    pub source: TargetSourceView,
}

/// The PostgreSQL database a mapping writes into.
pub struct PostgresTargetConfig {
    connect_options: PgConnectOptions,
    host: String,
    port: u16,
    database: String,
    user: String,
    target_contract: String,
    source: TargetSource,
}

impl View for PostgresTargetConfig {
    type V = TargetView;

    closed spec fn view(&self) -> TargetView {
        TargetView {
            host: self.host@,
            port: self.port,
            database: self.database@,
            user: self.user@,
            target_contract: self.target_contract@,
            source: self.source@,
        }
    }
}

/// The checks that a destination's host and database pass, in order.
pub open spec fn target_check_spec(
    has_socket: bool,
    host: Seq<char>,
    database: Option<Seq<char>>,
    user: Seq<char>,
    field: Seq<char>,
) -> Option<ConfigErrorView> {
    if has_socket || (host.len() > 0 && host[0] == '/') {
        Some(
            invalid_field(
                field,
                "must target a TCP host; unix socket destinations are not supported"@,
            ),
        )
    } else if host.len() == 0 {
        Some(invalid_field(field, "must include a host"@))
    } else if database is None {
        Some(invalid_field(field, "must include a database name"@))
    } else if !url_target_ok(user, host) {
        Some(invalid_field(field, "host and user must form a `postgres://user@host:port` URL"@))
    } else {
        None
    }
}

impl Clone for PostgresTargetConfig {
    fn clone(&self) -> (r: Self)
        ensures
            r@ == self@,
            r.connect_options_spec() == self.connect_options_spec(),
    {
        PostgresTargetConfig {
            connect_options: pg_clone(&self.connect_options),
            host: self.host.clone(),
            port: self.port,
            database: self.database.clone(),
            user: self.user.clone(),
            target_contract: self.target_contract.clone(),
            source: self.source.clone(),
        }
    }
}

impl PostgresTargetConfig {
    /// Checks what sqlx made of a destination and keeps it.
    fn from_facts(
        connect_options: PgConnectOptions,
        has_socket: bool,
        host: String,
        port: u16,
        database: Option<String>,
        user: String,
        source: TargetSource,
        field: &'static str,
    ) -> (r: Result<Self, RunnerConfigError>)
        ensures
            match target_check_spec(has_socket, host@, opt_view(database), user@, field@) {
                Some(e) => r matches Err(x) && x@ == e,
                None => r matches Ok(t) && t@.host == host@ && t@.port == port && t@.database
                    == database->0@ && t@.user == user@ && t@.source == source@
                    && t.connect_options_spec() == connect_options,
            },
    {
        let hv = chars_of(host.as_str());
        if has_socket || (hv.len() > 0 && hv[0] == '/') {
            return Err(
                RunnerConfigError::InvalidField {
                    field,
                    message: "must target a TCP host; unix socket destinations are not supported",
                },
            );
        }
        if hv.len() == 0 {
            return Err(RunnerConfigError::InvalidField { field, message: "must include a host" });
        }
        let database = match database {
            None => {
                return Err(
                    RunnerConfigError::InvalidField { field, message: "must include a database name" },
                );
            },
            Some(database) => database,
        };
        if !url_target_ok_exec(user.as_str(), host.as_str()) {
            return Err(
                RunnerConfigError::InvalidField {
                    field,
                    message: "host and user must form a `postgres://user@host:port` URL",
                },
            );
        }
        let target_contract = pg_url_lossy(&connect_options, host.as_str(), user.as_str());
        Ok(PostgresTargetConfig { connect_options, host, port, database, user, target_contract, source })
    }

    /// A destination given as a connection URL, which sqlx parses. A URL that sqlx refuses
    /// is reported with sqlx's message; the host, port and database come from sqlx.
    pub fn from_url(url: &str) -> (r: Result<Self, RunnerConfigError>)
        ensures
            match pg_url_parse_error(url@) {
                Some(m) => r matches Err(e) && e@ == ConfigErrorView::InvalidFieldDetail {
                    field: "mappings.destination.url"@,
                    message: m,
                },
                None => match r {
                    Ok(t) => target_check_spec(false, t@.host, Some(t@.database), t@.user, "mappings.destination.url"@) is None
                        && t@.source == TargetSourceView::Url(url@),
                    Err(e) => exists|s: bool, h: Seq<char>, d: Option<Seq<char>>, u: Seq<char>|
                        target_check_spec(s, h, d, u, "mappings.destination.url"@) == Some(e@),
                },
            },
    {
        let options = match pg_parse_url(url) {
            Ok(options) => options,
            Err(message) => {
                return Err(
                    RunnerConfigError::InvalidFieldDetail {
                        field: "mappings.destination.url",
                        message,
                    },
                );
            },
        };
        let has_socket = pg_has_socket(&options);
        let host = pg_get_host(&options);
        let port = pg_get_port(&options);
        let database = pg_get_database(&options);
        let user = pg_get_username(&options);
        let r = Self::from_facts(
            options,
            has_socket,
            host,
            port,
            database,
            user,
            TargetSource::Url(String::from_str(url)),
            "mappings.destination.url",
        );
        r
    }

    /// A destination given by its parts. sqlx builds the connection options from them; the
    /// host, port and database are the ones given, and a host that names a directory (starts
    /// with `/`) is refused as a unix socket.
    pub fn from_parts(
        host: String,
        port: u16,
        database: String,
        user: String,
        password: String,
        tls: Option<PostgresTlsConfig>,
    ) -> (r: Result<Self, RunnerConfigError>)
        ensures
            match target_check_spec(false, host@, Some(database@), user@, "mappings.destination"@) {
                Some(e) => r matches Err(x) && x@ == e,
                None => r matches Ok(t) && t@.host == host@ && t@.port == port && t@.database
                    == database@ && t@.user == user@ && t@.source == (TargetSourceView::Parts {
                    password: password@,
                    tls: tls_opt_view(tls),
                }),
            },
    {
        let options = pg_new();
        let options = pg_with_host(options, host.as_str());
        let options = pg_with_port(options, port);
        let options = pg_with_database(options, database.as_str());
        let options = pg_with_username(options, user.as_str());
        let user_name = user.clone();
        let options = pg_with_password(options, password.as_str());
        let options = match &tls {
            Some(tls) => tls.apply_to(options),
            None => options,
        };
        let source = TargetSource::Parts { password, tls };
        Self::from_facts(options, false, host, port, Some(database), user_name, source, "mappings.destination")
    }

    /// The sqlx options this destination was built with.
    pub closed spec fn connect_options_spec(&self) -> PgConnectOptions {
        self.connect_options
    }

    /// The options sqlx connects with: a copy of those the destination was built with.
    pub fn connect_options(&self) -> (r: PgConnectOptions)
        ensures
            r == self.connect_options_spec(),
    {
        pg_clone(&self.connect_options)
    }

    pub fn endpoint_label(&self) -> (r: String)
        ensures
            r@ == endpoint_label_spec(self@.host, self@.port, self@.database),
    {
        endpoint_label(self.host.as_str(), self.port, self.database.as_str())
    }

    /// Whether two destinations were given the same connection contract.
    pub fn same_target_contract(&self, other: &Self) -> (r: bool)
        ensures
            r == (self@.target_contract == other@.target_contract),
    {
        self.target_contract == other.target_contract
    }

    pub fn database(&self) -> (r: &str)
        ensures
            r@ == self@.database,
    {
        self.database.as_str()
    }

    pub fn host(&self) -> (r: &str)
        ensures
            r@ == self@.host,
    {
        self.host.as_str()
    }

    pub fn user(&self) -> (r: &str)
        ensures
            r@ == self@.user,
    {
        self.user.as_str()
    }

    pub fn port(&self) -> (r: u16)
        ensures
            r == self@.port,
    {
        self.port
    }
}

/// `host:port/database`.
pub open spec fn endpoint_label_spec(host: Seq<char>, port: u16, database: Seq<char>) -> Seq<char> {
    host + ":"@ + crate::text::decimal(port as nat) + "/"@ + database
}

pub fn endpoint_label(host: &str, port: u16, database: &str) -> (r: String)
    ensures
        r@ == endpoint_label_spec(host@, port, database@),
{
    let mut r = String::from_str(host);
    r.append(":");
    crate::text::push_decimal(&mut r, port as u64);
    r.append("/");
    r.append(database);
    r
}

pub struct SourceView {
    pub database: Seq<char>,
    pub tables: Seq<Seq<char>>,
}

/// The CockroachDB database and tables that a mapping follows.
pub struct SourceConfig {
    database: String,
    tables: Vec<String>,
}

impl View for SourceConfig {
    type V = SourceView;

    closed spec fn view(&self) -> SourceView {
        SourceView { database: self.database@, tables: views(self.tables@) }
    }
}

/// What every validated source holds: a trimmed, non-empty database, and a non-empty list
/// of distinct, trimmed `schema.table` entries.
pub open spec fn source_ok(v: SourceView) -> bool {
    &&& v.database.len() > 0
    &&& v.database == trim(v.database)
    &&& v.tables.len() > 0
    &&& v.tables.no_duplicates()
    &&& forall|i: int| 0 <= i < v.tables.len() ==> #[trigger] table_entry_ok(v.tables[i])
}

impl SourceConfig {
    #[verifier::type_invariant]
    spec fn validated(self) -> bool {
        source_ok(self@)
    }

    /// The database, never blank and already trimmed.
    pub fn database(&self) -> (r: &str)
        ensures
            r@ == self@.database,
            r@.len() > 0,
            r@ == trim(r@),
    {
        proof {
            use_type_invariant(self);
        }
        self.database.as_str()
    }

    /// The tables: at least one, no two alike, each a trimmed `schema.table`.
    pub fn tables(&self) -> (r: &Vec<String>)
        ensures
            views(r@) == self@.tables,
            r@.len() > 0,
            views(r@).no_duplicates(),
            forall|i: int| 0 <= i < r@.len() ==> #[trigger] table_entry_ok(views(r@)[i]),
    {
        proof {
            use_type_invariant(self);
        }
        &self.tables
    }
}

/// One mapping from a CockroachDB database to a PostgreSQL destination.
pub struct MappingConfig {
    id: String,
    source: SourceConfig,
    destination: PostgresTargetConfig,
}

impl MappingConfig {
    pub closed spec fn id_spec(&self) -> Seq<char> {
        self.id@
    }

    pub closed spec fn source_spec(&self) -> SourceView {
        self.source@
    }

    pub closed spec fn destination_spec(&self) -> TargetView {
        self.destination@
    }

    pub fn id(&self) -> (r: &str)
        ensures
            r@ == self.id_spec(),
    {
        self.id.as_str()
    }

    pub fn source(&self) -> (r: &SourceConfig)
        ensures
            r@ == self.source_spec(),
    {
        &self.source
    }

    pub fn destination(&self) -> (r: &PostgresTargetConfig)
        ensures
            r@ == self.destination_spec(),
    {
        &self.destination
    }
}

pub struct TlsView {
    pub cert_path: Seq<char>,
    pub key_path: Seq<char>,
    pub client_ca_path: Option<Seq<char>>,
}

/// The certificate and key that the webhook listener serves with.
pub struct TlsConfig {
    cert_path: String,
    key_path: String,
    client_ca_path: Option<String>,
}

impl View for TlsConfig {
    type V = TlsView;

    closed spec fn view(&self) -> TlsView {
        TlsView {
            cert_path: self.cert_path@,
            key_path: self.key_path@,
            client_ca_path: opt_view(self.client_ca_path),
        }
    }
}

/// `cert+key`, or `cert+key+client_ca`.
pub open spec fn material_label_spec(t: TlsView) -> Seq<char> {
    match t.client_ca_path {
        Some(ca) => t.cert_path + "+"@ + t.key_path + "+"@ + ca,
        None => t.cert_path + "+"@ + t.key_path,
    }
}

impl TlsConfig {
    pub fn cert_path(&self) -> (r: &str)
        ensures
            r@ == self@.cert_path,
    {
        self.cert_path.as_str()
    }

    pub fn key_path(&self) -> (r: &str)
        ensures
            r@ == self@.key_path,
    {
        self.key_path.as_str()
    }

    pub fn client_ca_path(&self) -> (r: Option<&str>)
        ensures
            match r {
                Some(p) => self@.client_ca_path == Some(p@),
                None => self@.client_ca_path is None,
            },
    {
        match &self.client_ca_path {
            Some(p) => Some(p.as_str()),
            None => None,
        }
    }

    pub fn material_label(&self) -> (r: String)
        ensures
            r@ == material_label_spec(self@),
    {
        let mut r = self.cert_path.clone();
        r.append("+");
        r.append(self.key_path.as_str());
        if let Some(ca) = &self.client_ca_path {
            r.append("+");
            r.append(ca.as_str());
        }
        r
    }
}

/// Whether the webhook listener speaks plain HTTP or HTTPS.
pub enum WebhookTransport {
    Http,
    Https(TlsConfig),
}

/// `http`, `https`, or `https+mtls` when client certificates are checked.
pub open spec fn effective_mode_spec(tls: Option<TlsView>) -> Seq<char> {
    match tls {
        None => "http"@,
        Some(t) => if t.client_ca_path is Some {
            "https+mtls"@
        } else {
            "https"@
        },
    }
}

/// The webhook listener.
pub struct WebhookConfig {
    bind_addr: String,
    transport: WebhookTransport,
}

impl WebhookConfig {
    pub closed spec fn bind_addr_spec(&self) -> Seq<char> {
        self.bind_addr@
    }

    pub closed spec fn tls_spec(&self) -> Option<TlsView> {
        match self.transport {
            WebhookTransport::Http => None,
            WebhookTransport::Https(t) => Some(t@),
        }
    }

    /// The socket address the listener binds, as std's `SocketAddr` writes it.
    pub fn bind_addr(&self) -> (r: &str)
        ensures
            r@ == self.bind_addr_spec(),
    {
        self.bind_addr.as_str()
    }

    pub fn tls(&self) -> (r: Option<&TlsConfig>)
        ensures
            match r {
                Some(t) => self.tls_spec() == Some(t@),
                None => self.tls_spec() is None,
            },
    {
        match &self.transport {
            WebhookTransport::Http => None,
            WebhookTransport::Https(tls) => Some(tls),
        }
    }

    pub fn effective_mode(&self) -> (r: &'static str)
        ensures
            r@ == effective_mode_spec(self.tls_spec()),
    {
        match &self.transport {
            WebhookTransport::Http => "http",
            WebhookTransport::Https(tls) => if tls.client_ca_path.is_some() {
                "https+mtls"
            } else {
                "https"
            },
        }
    }
}

/// How often each mapping is reconciled.
pub struct ReconcileConfig {
    interval_secs: u64,
}

impl ReconcileConfig {
    #[verifier::type_invariant]
    spec fn validated(self) -> bool {
        self.interval_secs > 0
    }

    pub closed spec fn interval_spec(&self) -> u64 {
        self.interval_secs
    }

    /// The interval in seconds, never zero.
    pub fn interval_secs(&self) -> (r: u64)
        ensures
            r == self.interval_spec(),
            r > 0,
    {
        proof {
            use_type_invariant(self);
        }
        self.interval_secs
    }
}

/// A validated runner config.
pub struct RunnerConfig {
    webhook: WebhookConfig,
    reconcile: ReconcileConfig,
    mappings: Vec<MappingConfig>,
}

impl RunnerConfig {
    pub closed spec fn mappings_spec(&self) -> Seq<MappingConfig> {
        self.mappings@
    }

    pub closed spec fn webhook_spec(&self) -> WebhookConfig {
        self.webhook
    }

    pub closed spec fn reconcile_spec(&self) -> ReconcileConfig {
        self.reconcile
    }

    pub fn webhook(&self) -> (r: &WebhookConfig)
        ensures
            *r == self.webhook_spec(),
    {
        &self.webhook
    }

    pub fn reconcile(&self) -> (r: &ReconcileConfig)
        ensures
            *r == self.reconcile_spec(),
    {
        &self.reconcile
    }

    pub fn mapping_count(&self) -> (r: usize)
        ensures
            r == self.mappings_spec().len(),
    {
        self.mappings.len()
    }

    pub fn mappings(&self) -> (r: &Vec<MappingConfig>)
        ensures
            r@ == self.mappings_spec(),
    {
        &self.mappings
    }

    /// The mapping with the given id (the first, if several share it).
    pub fn mapping(&self, mapping_id: &str) -> (r: Option<&MappingConfig>)
        ensures
            match r {
                Some(m) => mapping_named(self.mappings_spec(), mapping_id@) == Some(*m),
                None => mapping_named(self.mappings_spec(), mapping_id@) is None,
            },
    {
        let target = String::from_str(mapping_id);
        let mut i: usize = 0;
        while i < self.mappings.len()
            invariant
                target@ == mapping_id@,
                i <= self.mappings.len(),
                forall|j: int| 0 <= j < i ==> (#[trigger] self.mappings@[j]).id@ != mapping_id@,
            decreases self.mappings.len() - i,
        {
            if self.mappings[i].id == target {
                proof {
                    lemma_mapping_named(self.mappings@, mapping_id@, i as int);
                }
                return Some(&self.mappings[i]);
            }
            i += 1;
        }
        proof {
            lemma_mapping_named(self.mappings@, mapping_id@, self.mappings@.len() as int);
        }
        None
    }
}

/// The first mapping of `ms` with the given id.
pub open spec fn mapping_named(ms: Seq<MappingConfig>, id: Seq<char>) -> Option<MappingConfig>
    decreases ms.len(),
{
    if ms.len() == 0 {
        None
    } else if ms[0].id_spec() == id {
        Some(ms[0])
    } else {
        mapping_named(ms.drop_first(), id)
    }
}

proof fn lemma_mapping_named(ms: Seq<MappingConfig>, id: Seq<char>, i: int)
    requires
        0 <= i <= ms.len(),
        forall|j: int| 0 <= j < i ==> (#[trigger] ms[j]).id_spec() != id,
        i == ms.len() || ms[i].id_spec() == id,
    ensures
        mapping_named(ms, id) == if i == ms.len() {
            None
        } else {
            Some(ms[i])
        },
    decreases i,
{
    if i > 0 {
        let t = ms.drop_first();
        assert forall|j: int| 0 <= j < i - 1 implies (#[trigger] t[j]).id_spec() != id by {
            assert(t[j] == ms[j + 1]);
        }
        if i < ms.len() {
            assert(t[i - 1] == ms[i]);
        }
        lemma_mapping_named(t, id, i - 1);
    }
}

/// A validated config and the file it came from.
pub struct LoadedRunnerConfig {
    path: String,
    config: RunnerConfig,
}

impl LoadedRunnerConfig {
    pub fn new(path: String, config: RunnerConfig) -> (r: Self)
        ensures
            r.path_spec() == path@,
            r.config_spec() == config,
    {
        LoadedRunnerConfig { path, config }
    }

    pub closed spec fn path_spec(&self) -> Seq<char> {
        self.path@
    }

    pub closed spec fn config_spec(&self) -> RunnerConfig {
        self.config
    }

    pub fn path(&self) -> (r: &str)
        ensures
            r@ == self.path_spec(),
    {
        self.path.as_str()
    }

    pub fn config(&self) -> (r: &RunnerConfig)
        ensures
            *r == self.config_spec(),
    {
        &self.config
    }
}


// ---------------------------------------------------------------------------------------
// Raw config, as the YAML file gives it
// ---------------------------------------------------------------------------------------

#[derive(Clone, Copy, Debug, PartialEq, Eq, Structural)]
pub enum RawPostgresTlsMode {
    Require,
    VerifyCa,
    VerifyFull,
}

impl RawPostgresTlsMode {
    /// The modes that verify the server certificate need a CA certificate.
    pub fn requires_ca_cert(&self) -> (r: bool)
        ensures
            r == (*self == RawPostgresTlsMode::VerifyCa || *self == RawPostgresTlsMode::VerifyFull),
    {
        match self {
            RawPostgresTlsMode::Require => false,
            RawPostgresTlsMode::VerifyCa => true,
            RawPostgresTlsMode::VerifyFull => true,
        }
    }

    pub fn to_mode(self) -> (r: PostgresTlsMode)
        ensures
            r == mode_of(self),
    {
        match self {
            RawPostgresTlsMode::Require => PostgresTlsMode::Require,
            RawPostgresTlsMode::VerifyCa => PostgresTlsMode::VerifyCa,
            RawPostgresTlsMode::VerifyFull => PostgresTlsMode::VerifyFull,
        }
    }
}

pub open spec fn mode_of(m: RawPostgresTlsMode) -> PostgresTlsMode {
    match m {
        RawPostgresTlsMode::Require => PostgresTlsMode::Require,
        RawPostgresTlsMode::VerifyCa => PostgresTlsMode::VerifyCa,
        RawPostgresTlsMode::VerifyFull => PostgresTlsMode::VerifyFull,
    }
}

pub struct RawPostgresTlsConfig {
    pub mode: RawPostgresTlsMode,
    pub ca_cert_path: Option<String>,
    pub client_cert_path: Option<String>,
    pub client_key_path: Option<String>,
}

pub open spec fn tls_validate_spec(raw: RawPostgresTlsConfig) -> Result<PostgresTlsView, ConfigErrorView> {
    match validate_opt_path_spec(opt_view(raw.ca_cert_path), "mappings.destination.tls.ca_cert_path"@) {
        Err(e) => Err(e),
        Ok(ca) => match validate_opt_path_spec(
            opt_view(raw.client_cert_path),
            "mappings.destination.tls.client_cert_path"@,
        ) {
            Err(e) => Err(e),
            Ok(cert) => match validate_opt_path_spec(
                opt_view(raw.client_key_path),
                "mappings.destination.tls.client_key_path"@,
            ) {
                Err(e) => Err(e),
                Ok(key) => if (raw.mode == RawPostgresTlsMode::VerifyCa || raw.mode
                    == RawPostgresTlsMode::VerifyFull) && ca is None {
                    Err(
                        invalid_field(
                            "mappings.destination.tls.ca_cert_path"@,
                            "must be set when mappings.destination.tls.mode verifies the server certificate"@,
                        ),
                    )
                } else if (cert is Some) != (key is Some) {
                    Err(
                        invalid_field(
                            "mappings.destination.tls"@,
                            "client_cert_path and client_key_path must be set together"@,
                        ),
                    )
                } else {
                    Ok(
                        PostgresTlsView {
                            mode: mode_of(raw.mode),
                            ca_cert_path: ca,
                            client_cert_path: cert,
                            client_key_path: key,
                        },
                    )
                },
            },
        },
    }
}

impl RawPostgresTlsConfig {
    pub fn validate(self) -> (r: Result<PostgresTlsConfig, RunnerConfigError>)
        ensures
            match r {
                Ok(t) => tls_validate_spec(self) == Ok::<PostgresTlsView, ConfigErrorView>(t@),
                Err(e) => tls_validate_spec(self) == Err::<PostgresTlsView, ConfigErrorView>(e@),
            },
    {
        let ghost raw = self;
        let ca_cert_path = validate_opt_path(self.ca_cert_path, "mappings.destination.tls.ca_cert_path")?;
        let client_cert_path = validate_opt_path(
            self.client_cert_path,
            "mappings.destination.tls.client_cert_path",
        )?;
        let client_key_path = validate_opt_path(
            self.client_key_path,
            "mappings.destination.tls.client_key_path",
        )?;
        if self.mode.requires_ca_cert() && ca_cert_path.is_none() {
            return Err(
                RunnerConfigError::InvalidField {
                    field: "mappings.destination.tls.ca_cert_path",
                    message: "must be set when mappings.destination.tls.mode verifies the server certificate",
                },
            );
        }
        if client_cert_path.is_some() != client_key_path.is_some() {
            return Err(
                RunnerConfigError::InvalidField {
                    field: "mappings.destination.tls",
                    message: "client_cert_path and client_key_path must be set together",
                },
            );
        }
        Ok(
            PostgresTlsConfig {
                mode: self.mode.to_mode(),
                ca_cert_path,
                client_cert_path,
                client_key_path,
            },
        )
    }
}

pub struct RawDecomposedPostgresTargetConfig {
    pub host: String,
    pub port: u16,
    pub database: String,
    pub user: String,
    pub password: String,
    pub tls: Option<RawPostgresTlsConfig>,
}

/// The text fields and TLS block of a destination given by parts, checked in order.
pub open spec fn decomposed_fields_spec(raw: RawDecomposedPostgresTargetConfig) -> Result<
    (Seq<char>, Seq<char>, Seq<char>, Seq<char>, Option<PostgresTlsView>),
    ConfigErrorView,
> {
    match validate_text_spec(raw.host@, "mappings.destination.host"@) {
        Err(e) => Err(e),
        Ok(host) => match validate_text_spec(raw.database@, "mappings.destination.database"@) {
            Err(e) => Err(e),
            Ok(database) => match validate_text_spec(raw.user@, "mappings.destination.user"@) {
                Err(e) => Err(e),
                Ok(user) => match validate_text_spec(raw.password@, "mappings.destination.password"@) {
                    Err(e) => Err(e),
                    Ok(password) => match raw.tls {
                        Some(t) => match tls_validate_spec(t) {
                            Err(e) => Err(e),
                            Ok(tv) => Ok((host, database, user, password, Some(tv))),
                        },
                        None => Ok((host, database, user, password, None)),
                    },
                },
            },
        },
    }
}

/// What validating a destination given by parts returns: the destination keeps its
/// password and TLS settings as validated.
pub open spec fn decomposed_outcome(
    raw: RawDecomposedPostgresTargetConfig,
    r: Result<PostgresTargetConfig, RunnerConfigError>,
) -> bool {
    match decomposed_fields_spec(raw) {
        Err(e) => r matches Err(x) && x@ == e,
        Ok((host, database, user, password, tls)) => match target_check_spec(false, host, Some(database), user, "mappings.destination"@) {
            Some(e) => r matches Err(x) && x@ == e,
            None => r matches Ok(t) && t@.host == host && t@.port == raw.port && t@.database == database
                && t@.user == user && t@.source == (TargetSourceView::Parts { password, tls }),
        },
    }
}

impl RawDecomposedPostgresTargetConfig {
    pub fn validate(self) -> (r: Result<PostgresTargetConfig, RunnerConfigError>)
        ensures
            decomposed_outcome(self, r),
    {
        let host = validate_text(self.host, "mappings.destination.host")?;
        let database = validate_text(self.database, "mappings.destination.database")?;
        let user = validate_text(self.user, "mappings.destination.user")?;
        let password = validate_text(self.password, "mappings.destination.password")?;
        let tls = match self.tls {
            Some(t) => Some(t.validate()?),
            None => None,
        };
        PostgresTargetConfig::from_parts(host, self.port, database, user, password, tls)
    }
}

/// A destination as written: a URL, parts, or (refused) both.
pub enum RawPostgresTargetConfig {
    Mixed,
    Url(String),
    Decomposed(RawDecomposedPostgresTargetConfig),
}

/// What validating a destination URL returns.
pub open spec fn url_outcome(url: Seq<char>, r: Result<PostgresTargetConfig, RunnerConfigError>) -> bool {
    match validate_text_spec(url, "mappings.destination.url"@) {
        Err(e) => r matches Err(x) && x@ == e,
        Ok(u) => match pg_url_parse_error(u) {
            Some(m) => r matches Err(e) && e@ == ConfigErrorView::InvalidFieldDetail {
                field: "mappings.destination.url"@,
                message: m,
            },
            None => match r {
                Ok(t) => target_check_spec(false, t@.host, Some(t@.database), t@.user, "mappings.destination.url"@) is None
                    && t@.source == TargetSourceView::Url(u),
                Err(e) => exists|s: bool, h: Seq<char>, d: Option<Seq<char>>, u: Seq<char>|
                    target_check_spec(s, h, d, u, "mappings.destination.url"@) == Some(e@),
            },
        },
    }
}

pub open spec fn destination_outcome(
    raw: RawPostgresTargetConfig,
    r: Result<PostgresTargetConfig, RunnerConfigError>,
) -> bool {
    match raw {
        RawPostgresTargetConfig::Mixed => r matches Err(e) && e@ == invalid_field(
            "mappings.destination"@,
            "`url` cannot be combined with `host`, `port`, `database`, `user`, `password`, or `tls`"@,
        ),
        RawPostgresTargetConfig::Url(u) => url_outcome(u@, r),
        RawPostgresTargetConfig::Decomposed(d) => decomposed_outcome(d, r),
    }
}

impl RawPostgresTargetConfig {
    pub fn validate(self) -> (r: Result<PostgresTargetConfig, RunnerConfigError>)
        ensures
            destination_outcome(self, r),
    {
        match self {
            RawPostgresTargetConfig::Mixed => Err(
                RunnerConfigError::InvalidField {
                    field: "mappings.destination",
                    message: "`url` cannot be combined with `host`, `port`, `database`, `user`, `password`, or `tls`",
                },
            ),
            RawPostgresTargetConfig::Url(url) => {
                let url = validate_text(url, "mappings.destination.url")?;
                PostgresTargetConfig::from_url(url.as_str())
            },
            RawPostgresTargetConfig::Decomposed(raw) => raw.validate(),
        }
    }
}

/// Which form a destination block takes, judged by its keys.
#[derive(Clone, Copy, Debug, PartialEq, Eq, Structural)]
pub enum DestinationShape {
    Mixed,
    Url,
    Decomposed,
}

pub open spec fn is_decomposed_key(k: Seq<char>) -> bool {
    k == "host"@ || k == "port"@ || k == "database"@ || k == "user"@ || k == "password"@ || k
        == "tls"@
}

pub open spec fn destination_shape_spec(keys: Seq<Seq<char>>) -> DestinationShape {
    let has_url = keys.contains("url"@);
    let has_parts = exists|i: int| 0 <= i < keys.len() && is_decomposed_key(#[trigger] keys[i]);
    if has_url && has_parts {
        DestinationShape::Mixed
    } else if has_url {
        DestinationShape::Url
    } else {
        DestinationShape::Decomposed
    }
}

/// Sorts a destination block by its keys: `url` together with any of `host`, `port`,
/// `database`, `user`, `password`, `tls` is refused later; `url` alone is a URL; anything
/// else is read by parts.
pub fn classify_destination_keys(keys: &Vec<String>) -> (r: DestinationShape)
    ensures
        r == destination_shape_spec(views(keys@)),
{
    let url = String::from_str("url");
    let host = String::from_str("host");
    let port = String::from_str("port");
    let database = String::from_str("database");
    let user = String::from_str("user");
    let password = String::from_str("password");
    let tls = String::from_str("tls");
    let mut has_url = false;
    let mut has_parts = false;
    let mut i: usize = 0;
    while i < keys.len()
        invariant
            i <= keys.len(),
            url@ == "url"@,
            host@ == "host"@,
            port@ == "port"@,
            database@ == "database"@,
            user@ == "user"@,
            password@ == "password"@,
            tls@ == "tls"@,
            has_url == views(keys@).take(i as int).contains("url"@),
            has_parts == exists|j: int| 0 <= j < i && is_decomposed_key(#[trigger] views(keys@)[j]),
        decreases keys.len() - i,
    {
        let k = &keys[i];
        assert(views(keys@)[i as int] == k@);
        assert(views(keys@).take(i + 1) == views(keys@).take(i as int).push(k@));
        let ghost before_url = has_url;
        if *k == url {
            has_url = true;
        }
        proof {
            let t = views(keys@).take(i as int);
            if k@ == "url"@ {
                assert(t.push(k@)[i as int] == "url"@);
            } else if t.push(k@).contains("url"@) {
                let w = choose|w: int| 0 <= w < t.push(k@).len() && t.push(k@)[w] == "url"@;
                assert(t[w] == "url"@);
            }
            if before_url {
                let w = choose|w: int| 0 <= w < t.len() && t[w] == "url"@;
                assert(t.push(k@)[w] == "url"@);
            }
        }
        if *k == host || *k == port || *k == database || *k == user || *k == password || *k == tls {
            has_parts = true;
        }
        i += 1;
    }
    assert(views(keys@).take(keys.len() as int) == views(keys@));
    if has_url && has_parts {
        DestinationShape::Mixed
    } else if has_url {
        DestinationShape::Url
    } else {
        DestinationShape::Decomposed
    }
}

pub struct RawSourceConfig {
    pub database: String,
    pub tables: Vec<String>,
}

pub open spec fn source_validate_spec(raw: RawSourceConfig) -> Result<SourceView, ConfigErrorView> {
    match validate_text_spec(raw.database@, "mappings.source.database"@) {
        Err(e) => Err(e),
        Ok(d) => match validate_tables_spec(views(raw.tables@)) {
            Err(e) => Err(e),
            Ok(t) => Ok(SourceView { database: d, tables: t }),
        },
    }
}

impl RawSourceConfig {
    pub fn validate(self) -> (r: Result<SourceConfig, RunnerConfigError>)
        ensures
            match r {
                Ok(s) => source_validate_spec(self) == Ok::<SourceView, ConfigErrorView>(s@),
                Err(e) => source_validate_spec(self) == Err::<SourceView, ConfigErrorView>(e@),
            },
    {
        let ghost raw_tables = views(self.tables@);
        let ghost raw_database = self.database@;
        let database = validate_text(self.database, "mappings.source.database")?;
        let tables = validate_tables(self.tables)?;
        proof {
            lemma_trim_idempotent(raw_database);
            lemma_tables_prefix_ok(raw_tables, raw_tables.len() as int);
        }
        Ok(SourceConfig { database, tables })
    }
}

pub struct RawMappingConfig {
    pub id: String,
    pub source: RawSourceConfig,
    pub destination: RawPostgresTargetConfig,
}

/// What validating one mapping returns: its id, then its source, then its destination.
pub open spec fn mapping_outcome(raw: RawMappingConfig, r: Result<MappingConfig, RunnerConfigError>) -> bool {
    match validate_text_spec(raw.id@, "mappings.id"@) {
        Err(e) => r matches Err(x) && x@ == e,
        Ok(id) => match source_validate_spec(raw.source) {
            Err(e) => r matches Err(x) && x@ == e,
            Ok(src) => exists|d: Result<PostgresTargetConfig, RunnerConfigError>|
                #![trigger destination_outcome(raw.destination, d)]
                destination_outcome(raw.destination, d) && match d {
                    Err(e) => r matches Err(x) && x@ == e@,
                    Ok(t) => r matches Ok(m) && m.id_spec() == id && m.source_spec() == src
                        && m.destination_spec() == t@,
                },
        },
    }
}

impl RawMappingConfig {
    pub fn validate(self) -> (r: Result<MappingConfig, RunnerConfigError>)
        ensures
            mapping_outcome(self, r),
    {
        let ghost raw = self;
        let id = validate_text(self.id, "mappings.id")?;
        let source = self.source.validate()?;
        let d = self.destination.validate();
        assert(destination_outcome(raw.destination, d));
        match d {
            Ok(destination) => Ok(MappingConfig { id, source, destination }),
            Err(e) => Err(e),
        }
    }
}

/// The ids of validated mappings.
pub open spec fn mapping_ids(v: Seq<MappingConfig>) -> Seq<Seq<char>> {
    v.map_values(|m: MappingConfig| m.id_spec())
}

/// No two mappings share an id.
pub open spec fn distinct_ids(v: Seq<MappingConfig>) -> bool {
    forall|i: int, j: int| 0 <= i < j < v.len() ==> v[i].id_spec() != v[j].id_spec()
}

/// What validating the list of mappings returns: the mappings in order, each validated, and
/// an id that repeats an earlier one refused.
pub open spec fn mappings_outcome(
    raws: Seq<RawMappingConfig>,
    r: Result<Vec<MappingConfig>, RunnerConfigError>,
) -> bool {
    if raws.len() == 0 {
        r matches Err(e) && e@ == invalid_field("mappings"@, "must contain at least one mapping"@)
    } else {
        match r {
            Ok(v) => v@.len() == raws.len() && distinct_ids(v@) && forall|i: int|
                0 <= i < raws.len() ==> mapping_outcome(
                    #[trigger] raws[i],
                    Ok::<MappingConfig, RunnerConfigError>(v@[i]),
                ),
            Err(e) => exists|prefix: Seq<MappingConfig>|
                #![trigger distinct_ids(prefix)]
                prefix.len() < raws.len() && distinct_ids(prefix) && (forall|j: int|
                    0 <= j < prefix.len() ==> mapping_outcome(
                        #[trigger] raws[j],
                        Ok::<MappingConfig, RunnerConfigError>(prefix[j]),
                    )) && (mapping_outcome(
                    raws[prefix.len() as int],
                    Err::<MappingConfig, RunnerConfigError>(e),
                ) || (exists|m: MappingConfig|
                    #![trigger mapping_outcome(raws[prefix.len() as int], Ok::<MappingConfig, RunnerConfigError>(m))]
                    mapping_outcome(raws[prefix.len() as int], Ok::<MappingConfig, RunnerConfigError>(m))
                        && mapping_ids(prefix).contains(m.id_spec()) && e@ == invalid_field(
                        "mappings.id"@,
                        "must be unique"@,
                    ))),
        }
    }
}

pub fn validate_mappings(raw_mappings: Vec<RawMappingConfig>) -> (r: Result<
    Vec<MappingConfig>,
    RunnerConfigError,
>)
    ensures
        mappings_outcome(raw_mappings@, r),
{
    if raw_mappings.len() == 0 {
        return Err(
            RunnerConfigError::InvalidField {
                field: "mappings",
                message: "must contain at least one mapping",
            },
        );
    }
    let ghost raws = raw_mappings@;
    let mut rest = raw_mappings;
    let mut mappings: Vec<MappingConfig> = Vec::new();
    while rest.len() > 0
        invariant
            raws.len() > 0,
            raws == raw_mappings@,
            rest@.len() + mappings@.len() == raws.len(),
            forall|k: int| 0 <= k < rest@.len() ==> rest@[k] == raws[mappings@.len() + k],
            distinct_ids(mappings@),
            forall|j: int|
                0 <= j < mappings@.len() ==> mapping_outcome(
                    #[trigger] raws[j],
                    Ok::<MappingConfig, RunnerConfigError>(mappings@[j]),
                ),
        decreases rest.len(),
    {
        let i = mappings.len();
        let raw = rest.remove(0);
        assert(raw == raws[i as int]);
        let r = raw.validate();
        assert(mapping_outcome(raws[i as int], r));
        assert(i < raws.len());
        match r {
            Err(e) => {
                assert(distinct_ids(mappings@));
                assert(mapping_outcome(raws[mappings@.len() as int], Err::<MappingConfig, RunnerConfigError>(e)));
                return Err(e);
            },
            Ok(mapping) => {
                let mut k: usize = 0;
                while k < mappings.len()
                    invariant
                        k <= mappings.len(),
                        i == mappings.len(),
                        i < raws.len(),
                        raws == raw_mappings@,
                        distinct_ids(mappings@),
                        mapping_outcome(raws[i as int], Ok::<MappingConfig, RunnerConfigError>(mapping)),
                        forall|j: int|
                            0 <= j < mappings@.len() ==> mapping_outcome(
                                #[trigger] raws[j],
                                Ok::<MappingConfig, RunnerConfigError>(mappings@[j]),
                            ),
                        forall|j: int| 0 <= j < k ==> mappings@[j].id_spec() != mapping.id_spec(),
                    decreases mappings.len() - k,
                {
                    if mappings[k].id == mapping.id {
                        assert(mapping_ids(mappings@)[k as int] == mapping.id_spec());
                        assert(distinct_ids(mappings@));
                        assert(mapping_outcome(raws[mappings@.len() as int], Ok::<MappingConfig, RunnerConfigError>(mapping)));
                        return Err(
                            RunnerConfigError::InvalidField {
                                field: "mappings.id",
                                message: "must be unique",
                            },
                        );
                    }
                    k += 1;
                }
                mappings.push(mapping);
            },
        }
    }
    Ok(mappings)
}


pub struct RawTlsConfig {
    pub cert_path: String,
    pub key_path: String,
    pub client_ca_path: Option<String>,
}

pub open spec fn webhook_tls_spec(raw: RawTlsConfig) -> Result<TlsView, ConfigErrorView> {
    match validate_path_spec(raw.cert_path@, "webhook.tls.cert_path"@) {
        Err(e) => Err(e),
        Ok(cert) => match validate_path_spec(raw.key_path@, "webhook.tls.key_path"@) {
            Err(e) => Err(e),
            Ok(key) => match validate_opt_path_spec(
                opt_view(raw.client_ca_path),
                "webhook.tls.client_ca_path"@,
            ) {
                Err(e) => Err(e),
                Ok(ca) => Ok(TlsView { cert_path: cert, key_path: key, client_ca_path: ca }),
            },
        },
    }
}

impl RawTlsConfig {
    pub fn validate(self) -> (r: Result<TlsConfig, RunnerConfigError>)
        ensures
            match r {
                Ok(t) => webhook_tls_spec(self) == Ok::<TlsView, ConfigErrorView>(t@),
                Err(e) => webhook_tls_spec(self) == Err::<TlsView, ConfigErrorView>(e@),
            },
    {
        let cert_path = validate_path(self.cert_path, "webhook.tls.cert_path")?;
        let key_path = validate_path(self.key_path, "webhook.tls.key_path")?;
        let client_ca_path = validate_opt_path(self.client_ca_path, "webhook.tls.client_ca_path")?;
        Ok(TlsConfig { cert_path, key_path, client_ca_path })
    }
}

#[derive(Clone, Copy, Debug, PartialEq, Eq, Structural)]
pub enum RawWebhookMode {
    Http,
    Https,
}

/// The webhook block. `bind_addr_parsed` is what std's `SocketAddr` parser made of
/// `bind_addr` (written back as text), or `None` where it refused it.
pub struct RawWebhookConfig {
    pub bind_addr: String,
    pub bind_addr_parsed: Option<String>,
    pub mode: RawWebhookMode,
    pub tls: Option<RawTlsConfig>,
}

pub struct WebhookView {
    pub bind_addr: Seq<char>,
    pub tls: Option<TlsView>,
}

pub open spec fn webhook_validate_spec(raw: RawWebhookConfig) -> Result<WebhookView, ConfigErrorView> {
    match raw.bind_addr_parsed {
        None => Err(ConfigErrorView::InvalidSocketAddr { field: "webhook.bind_addr"@ }),
        Some(addr) => match (raw.mode, raw.tls) {
            (RawWebhookMode::Http, Some(_)) => Err(
                invalid_field("webhook.tls"@, "must not be set when webhook.mode is `http`"@),
            ),
            (RawWebhookMode::Http, None) => Ok(WebhookView { bind_addr: addr@, tls: None }),
            (RawWebhookMode::Https, Some(t)) => match webhook_tls_spec(t) {
                Err(e) => Err(e),
                Ok(tv) => Ok(WebhookView { bind_addr: addr@, tls: Some(tv) }),
            },
            (RawWebhookMode::Https, None) => Err(
                invalid_field("webhook.tls"@, "must be set when webhook.mode is `https`"@),
            ),
        },
    }
}

impl RawWebhookConfig {
    pub fn validate(self) -> (r: Result<WebhookConfig, RunnerConfigError>)
        ensures
            match r {
                Ok(w) => webhook_validate_spec(self) == Ok::<WebhookView, ConfigErrorView>(
                    WebhookView { bind_addr: w.bind_addr_spec(), tls: w.tls_spec() },
                ),
                Err(e) => webhook_validate_spec(self) == Err::<WebhookView, ConfigErrorView>(e@),
            },
    {
        let bind_addr = match self.bind_addr_parsed {
            Some(addr) => addr,
            None => {
                return Err(RunnerConfigError::InvalidSocketAddr { field: "webhook.bind_addr" });
            },
        };
        let transport = match (self.mode, self.tls) {
            (RawWebhookMode::Http, Some(_)) => {
                return Err(
                    RunnerConfigError::InvalidField {
                        field: "webhook.tls",
                        message: "must not be set when webhook.mode is `http`",
                    },
                );
            },
            (RawWebhookMode::Http, None) => WebhookTransport::Http,
            (RawWebhookMode::Https, Some(tls)) => WebhookTransport::Https(tls.validate()?),
            (RawWebhookMode::Https, None) => {
                return Err(
                    RunnerConfigError::InvalidField {
                        field: "webhook.tls",
                        message: "must be set when webhook.mode is `https`",
                    },
                );
            },
        };
        Ok(WebhookConfig { bind_addr, transport })
    }
}

pub struct RawReconcileConfig {
    pub interval_secs: u64,
}

impl RawReconcileConfig {
    pub fn validate(self) -> (r: Result<ReconcileConfig, RunnerConfigError>)
        ensures
            self.interval_secs == 0 ==> (r matches Err(e) && e@ == invalid_field(
                "reconcile.interval_secs"@,
                "must be greater than zero"@,
            )),
            self.interval_secs != 0 ==> (r matches Ok(c) && c.interval_spec() == self.interval_secs),
    {
        if self.interval_secs == 0 {
            return Err(
                RunnerConfigError::InvalidField {
                    field: "reconcile.interval_secs",
                    message: "must be greater than zero",
                },
            );
        }
        Ok(ReconcileConfig { interval_secs: self.interval_secs })
    }
}

pub struct RawRunnerConfig {
    pub webhook: RawWebhookConfig,
    pub reconcile: RawReconcileConfig,
    pub mappings: Vec<RawMappingConfig>,
}

impl RawRunnerConfig {
    /// Validates the mappings, then the webhook block, then the reconcile block; the first
    /// error found is returned.
    pub fn validate(self) -> (r: Result<RunnerConfig, RunnerConfigError>)
        ensures
            exists|m: Result<Vec<MappingConfig>, RunnerConfigError>|
                #![trigger mappings_outcome(self.mappings@, m)]
                mappings_outcome(self.mappings@, m) && match m {
                    Err(e) => r matches Err(x) && x@ == e@,
                    Ok(ms) => match webhook_validate_spec(self.webhook) {
                        Err(e) => r matches Err(x) && x@ == e,
                        Ok(w) => if self.reconcile.interval_secs == 0 {
                            r matches Err(x) && x@ == invalid_field(
                                "reconcile.interval_secs"@,
                                "must be greater than zero"@,
                            )
                        } else {
                            r matches Ok(c) && c.mappings_spec() == ms@ && c.webhook_spec().bind_addr_spec()
                                == w.bind_addr && c.webhook_spec().tls_spec() == w.tls
                                && c.reconcile_spec().interval_spec() == self.reconcile.interval_secs
                        },
                    },
                },
    {
        let ghost raw = self;
        let m = validate_mappings(self.mappings);
        assert(mappings_outcome(raw.mappings@, m));
        let mappings = match m {
            Ok(ms) => ms,
            Err(e) => {
                return Err(e);
            },
        };
        let webhook = self.webhook.validate()?;
        let reconcile = self.reconcile.validate()?;
        Ok(RunnerConfig { webhook, reconcile, mappings })
    }
}

} // verus!
