//! The PostgreSQL connection options that sqlx builds and parses. Each item below calls
//! one outside function.
use vstd::prelude::*;

use sqlx::postgres::{PgConnectOptions, PgSslMode};
use sqlx::ConnectOptions;

use crate::config::PostgresTlsMode;
use crate::conn_url::url_target_ok;

verus! {

#[verifier::external_type_specification]
#[verifier::external_body]
pub struct ExPgConnectOptions(PgConnectOptions);

/// The message with which sqlx refuses a connection URL, without its
/// `error with configuration: ` prefix; `None` where sqlx accepts the URL.
pub uninterp spec fn pg_url_parse_error(url: Seq<char>) -> Option<Seq<char>>;

/// `url.parse::<PgConnectOptions>()` (`FromStr` of sqlx's `PgConnectOptions`). Whether it
/// fails, and its message, depend on the URL alone; the options it builds also read the
/// environment (`PGHOST`, `PGUSER`, ...) for what the URL leaves out, so nothing is stated
/// of them.
#[verifier::external_body]
pub(crate) fn pg_parse_url(url: &str) -> (r: Result<PgConnectOptions, String>)
    ensures
        r is Err <==> pg_url_parse_error(url@) is Some,
        r matches Err(m) ==> pg_url_parse_error(url@) == Some(m@),
{
    match url.parse::<PgConnectOptions>() {
        Ok(options) => Ok(options),
        Err(source) => {
            let message = source.to_string();
            Err(message.strip_prefix("error with configuration: ").unwrap_or(&message).to_owned())
        },
    }
}

/// `PgConnectOptions::new()`: defaults read from the environment and the password file.
#[verifier::external_body]
pub(crate) fn pg_new() -> PgConnectOptions {
    PgConnectOptions::new()
}

/// `PgConnectOptions::host`.
#[verifier::external_body]
pub(crate) fn pg_with_host(options: PgConnectOptions, host: &str) -> PgConnectOptions {
    options.host(host)
}

/// `PgConnectOptions::port`.
#[verifier::external_body]
pub(crate) fn pg_with_port(options: PgConnectOptions, port: u16) -> PgConnectOptions {
    options.port(port)
}

/// `PgConnectOptions::database`.
#[verifier::external_body]
pub(crate) fn pg_with_database(options: PgConnectOptions, database: &str) -> PgConnectOptions {
    options.database(database)
}

/// `PgConnectOptions::username`.
#[verifier::external_body]
pub(crate) fn pg_with_username(options: PgConnectOptions, user: &str) -> PgConnectOptions {
    options.username(user)
}

/// `PgConnectOptions::password`.
#[verifier::external_body]
pub(crate) fn pg_with_password(options: PgConnectOptions, password: &str) -> PgConnectOptions {
    options.password(password)
}

/// `PgConnectOptions::ssl_mode`, with the library's mode turned into sqlx's.
#[verifier::external_body]
pub(crate) fn pg_with_ssl_mode(options: PgConnectOptions, mode: PostgresTlsMode) -> PgConnectOptions {
    options.ssl_mode(
        match mode {
            PostgresTlsMode::Require => PgSslMode::Require,
            PostgresTlsMode::VerifyCa => PgSslMode::VerifyCa,
            PostgresTlsMode::VerifyFull => PgSslMode::VerifyFull,
        },
    )
}

/// `PgConnectOptions::ssl_root_cert`.
#[verifier::external_body]
pub(crate) fn pg_with_ssl_root_cert(options: PgConnectOptions, path: &str) -> PgConnectOptions {
    options.ssl_root_cert(path)
}

/// `PgConnectOptions::ssl_client_cert`.
#[verifier::external_body]
pub(crate) fn pg_with_ssl_client_cert(options: PgConnectOptions, path: &str) -> PgConnectOptions {
    options.ssl_client_cert(path)
}

/// `PgConnectOptions::ssl_client_key`.
#[verifier::external_body]
pub(crate) fn pg_with_ssl_client_key(options: PgConnectOptions, path: &str) -> PgConnectOptions {
    options.ssl_client_key(path)
}

/// `PgConnectOptions::get_socket().is_some()`.
#[verifier::external_body]
pub(crate) fn pg_has_socket(options: &PgConnectOptions) -> bool {
    options.get_socket().is_some()
}

/// `PgConnectOptions::get_host`.
#[verifier::external_body]
pub(crate) fn pg_get_host(options: &PgConnectOptions) -> String {
    options.get_host().to_owned()
}

/// `PgConnectOptions::get_username`.
#[verifier::external_body]
pub(crate) fn pg_get_username(options: &PgConnectOptions) -> String {
    options.get_username().to_owned()
}

/// `PgConnectOptions::get_port`.
#[verifier::external_body]
pub(crate) fn pg_get_port(options: &PgConnectOptions) -> u16 {
    options.get_port()
}

/// `PgConnectOptions::get_database`.
#[verifier::external_body]
pub(crate) fn pg_get_database(options: &PgConnectOptions) -> Option<String> {
    options.get_database().map(|d| d.to_owned())
}

/// `ConnectOptions::to_url_lossy` of sqlx's `PgConnectOptions`, as text, for a copy of the
/// options whose host and username are set (`PgConnectOptions::host`, `::username`) to the
/// given `host` and `user`. sqlx's `build_url` parses `postgres://<user>@<host>:<port>` from
/// exactly those two fields and panics where url's parser refuses it; the `requires`
/// (`url_target_ok`) is a condition under which that text parses. For options that name a
/// socket (sqlx sets one only from a path that starts with `/`), the percent-encoded path
/// stands in place of the host and always parses. The callers pass the options' own host and
/// username, so the copy equals the options. Nothing is stated of the text, which also holds
/// what the environment gave the options.
#[verifier::external_body]
pub(crate) fn pg_url_lossy(options: &PgConnectOptions, host: &str, user: &str) -> String
    requires
        url_target_ok(user@, host@),
{
    options.clone().host(host).username(user).to_url_lossy().to_string()
}

/// `Clone::clone` of sqlx's `PgConnectOptions`, which is derived: every field (strings,
/// numbers, paths, enums, certificate inputs) is copied, so the copy equals the original.
#[verifier::external_body]
pub(crate) fn pg_clone(options: &PgConnectOptions) -> (r: PgConnectOptions)
    ensures
        r == *options,
{
    options.clone()
}

} // verus!
