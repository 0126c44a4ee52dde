//! The service's configuration: which file it comes from, the defaults that
//! fill what a file leaves out, and the messages of a failed start.
use vstd::prelude::*;

use crate::catalog::{db_error_text, DbError};
use crate::text::{chars_of, contains, contains_chars, decimal, push_decimal, push_str, string_of};

verus! {

/// The configuration the service runs with.
pub struct AppConfig {
    pub host: String,
    pub port: u16,
    pub connection_string: String,
    pub output_dir: String,
}

impl View for AppConfig {
    type V = (Seq<char>, u16, Seq<char>, Seq<char>);

    open spec fn view(&self) -> (Seq<char>, u16, Seq<char>, Seq<char>) {
        (self.host@, self.port, self.connection_string@, self.output_dir@)
    }
}

/// The legacy `stocktake.toml`: flat keys.
pub struct LegacyConfig {
    pub listen_addr: Option<String>,
    pub port: Option<u16>,
    pub connection_string: Option<String>,
}

/// The `[server]` table of `config.toml`.
pub struct ServerConfig {
    pub host: Option<String>,
    pub port: Option<u16>,
    pub output_dir: Option<String>,
}

/// The `[database]` table of `config.toml`.
pub struct DbConfig {
    pub connection_string: Option<String>,
}

/// The `[output]` table of `config.toml`.
pub struct OutputConfig {
    /// Where saved stock takes go.
    pub dir: Option<String>,
}

/// `config.toml`: the `[server]`, `[database]` and `[output]` tables.
pub struct NewConfig {
    pub server: Option<ServerConfig>,
    pub database: Option<DbConfig>,
    pub output: Option<OutputConfig>,
}

/// Where the configuration comes from.
pub enum ConfigSource {
    /// `config.toml`.
    New,
    /// `stocktake.toml`.
    Legacy,
    /// Neither file exists: the defaults.
    Defaults,
}

/// `config.toml` wins when it exists, then `stocktake.toml`, else the
/// defaults.
pub fn config_source(new_exists: bool, legacy_exists: bool) -> (r: ConfigSource)
    ensures
        new_exists ==> r is New,
        !new_exists && legacy_exists ==> r is Legacy,
        !new_exists && !legacy_exists ==> r is Defaults,
{
    if new_exists {
        ConfigSource::New
    } else if legacy_exists {
        ConfigSource::Legacy
    } else {
        ConfigSource::Defaults
    }
}

pub open spec fn or_text(o: Option<String>, d: Seq<char>) -> Seq<char> {
    match o {
        Some(s) => s@,
        None => d,
    }
}

pub open spec fn or_port(o: Option<u16>) -> u16 {
    match o {
        Some(p) => p,
        None => 8080,
    }
}

fn text_or(o: Option<String>, d: &str) -> (r: String)
    ensures
        r@ == or_text(o, d@),
{
    match o {
        Some(s) => s,
        None => string_of(&chars_of(d)),
    }
}

fn text_or_empty(o: Option<String>) -> (r: String)
    ensures
        r@ == or_text(o, Seq::empty()),
{
    match o {
        Some(s) => s,
        None => String::new(),
    }
}

/// The configuration when no file exists: `127.0.0.1:8080`, no connection
/// string, output in `stocktake_output`.
pub fn default_config() -> (c: AppConfig)
    ensures
        c@ == ("127.0.0.1"@, 8080u16, Seq::<char>::empty(), "stocktake_output"@),
{
    AppConfig {
        host: string_of(&chars_of("127.0.0.1")),
        port: 8080,
        connection_string: String::new(),
        output_dir: string_of(&chars_of("stocktake_output")),
    }
}

/// The output directory a `config.toml` gives: `[output] dir`, else
/// `[server] output_dir`, else `stocktake_output`.
pub open spec fn new_config_output_dir(cfg: NewConfig) -> Seq<char> {
    let server_dir = match cfg.server {
        Some(sv) => or_text(sv.output_dir, "stocktake_output"@),
        None => "stocktake_output"@,
    };
    match cfg.output {
        Some(o) => or_text(o.dir, server_dir),
        None => server_dir,
    }
}

/// The configuration of a `config.toml`: what it gives, the defaults for
/// the rest; the output directory comes from `[output] dir` or, failing
/// that, `[server] output_dir`.
pub fn from_new_config(cfg: NewConfig) -> (c: AppConfig)
    ensures
        c@ == (
            match cfg.server {
                Some(sv) => or_text(sv.host, "127.0.0.1"@),
                None => "127.0.0.1"@,
            },
            match cfg.server {
                Some(sv) => or_port(sv.port),
                None => 8080u16,
            },
            match cfg.database {
                Some(d) => or_text(d.connection_string, Seq::empty()),
                None => Seq::empty(),
            },
            new_config_output_dir(cfg),
        ),
{
    let server = match cfg.server {
        Some(s) => s,
        None => ServerConfig { host: None, port: None, output_dir: None },
    };
    let db = match cfg.database {
        Some(d) => d,
        None => DbConfig { connection_string: None },
    };
    let server_dir = text_or(server.output_dir, "stocktake_output");
    let output_dir = match cfg.output {
        Some(o) => match o.dir {
            Some(d) => d,
            None => server_dir,
        },
        None => server_dir,
    };
    AppConfig {
        host: text_or(server.host, "127.0.0.1"),
        port: match server.port {
            Some(p) => p,
            None => 8080,
        },
        connection_string: text_or_empty(db.connection_string),
        output_dir,
    }
}

/// Where a `config.toml` sends saved stock takes: `[output] dir` when it is
/// given; otherwise `[server] output_dir` when that is given; the default
/// `stocktake_output` only when neither is.
pub proof fn law_new_config_output_dir(cfg: NewConfig)
    ensures
        (cfg.output matches Some(o) && o.dir is Some) ==> new_config_output_dir(cfg) == cfg.output->0.dir->0@,
        !(cfg.output matches Some(o) && o.dir is Some) && (cfg.server matches Some(sv) && sv.output_dir is Some)
            ==> new_config_output_dir(cfg) == cfg.server->0.output_dir->0@,
        !(cfg.output matches Some(o) && o.dir is Some) && !(cfg.server matches Some(sv) && sv.output_dir is Some)
            ==> new_config_output_dir(cfg) == "stocktake_output"@,
{
}

/// The configuration of a legacy `stocktake.toml`; its output directory is
/// always `stocktake_output`.
pub fn from_legacy_config(cfg: LegacyConfig) -> (c: AppConfig)
    ensures
        c@ == (
            or_text(cfg.listen_addr, "127.0.0.1"@),
            or_port(cfg.port),
            or_text(cfg.connection_string, Seq::empty()),
            "stocktake_output"@,
        ),
{
    AppConfig {
        host: text_or(cfg.listen_addr, "127.0.0.1"),
        port: match cfg.port {
            Some(p) => p,
            None => 8080,
        },
        connection_string: text_or_empty(cfg.connection_string),
        output_dir: string_of(&chars_of("stocktake_output")),
    }
}

fn message_around(before: &str, detail: &str, after: &str) -> (r: String)
    ensures
        r@ == before@ + detail@ + after@,
{
    let mut out: Vec<char> = Vec::new();
    push_str(&mut out, before);
    push_str(&mut out, detail);
    push_str(&mut out, after);
    assert(out@ =~= before@ + detail@ + after@);
    string_of(&out)
}

/// The error of a `config.toml` that exists but does not parse, with the
/// parser's own message and the common cause.
pub fn new_config_parse_error(detail: &str) -> (r: String)
    ensures
        r@ == "config.toml exists but could not be parsed: "@ + detail@
            + "\n   Common cause: a backslash in a Windows path or password. In TOML, \\\n   inside \"...\" is an escape character — write paths as C:\\\\StockTakes \\\n   (doubled backslashes) or use single quotes: 'C:\\StockTakes'."@,
{
    message_around(
        "config.toml exists but could not be parsed: ",
        detail,
        "\n   Common cause: a backslash in a Windows path or password. In TOML, \\\n   inside \"...\" is an escape character — write paths as C:\\\\StockTakes \\\n   (doubled backslashes) or use single quotes: 'C:\\StockTakes'.",
    )
}

/// The error of a `stocktake.toml` that exists but does not parse.
pub fn legacy_config_parse_error(detail: &str) -> (r: String)
    ensures
        r@ == "stocktake.toml exists but could not be parsed: "@ + detail@
            + "\n   Common cause: a backslash in a Windows path or password. In TOML, \\\n   inside \"...\" is an escape character — double it (\\\\) or use single quotes."@,
{
    message_around(
        "stocktake.toml exists but could not be parsed: ",
        detail,
        "\n   Common cause: a backslash in a Windows path or password. In TOML, \\\n   inside \"...\" is an escape character — double it (\\\\) or use single quotes.",
    )
}

// ---------------------------------------------------------------------------
// Starting the service
// ---------------------------------------------------------------------------

/// A configuration the service can start with: it has a connection string.
/// Otherwise the message that says what to do.
pub fn check_startable(cfg: &AppConfig) -> (r: Result<(), String>)
    ensures
        cfg.connection_string@.len() > 0 <==> r is Ok,
        r matches Err(m) ==> m@
            == "connection_string is empty. Edit config.toml (or stocktake.toml) in the same folder as this program and set [database] connection_string to your SQL Server details, then run it again."@,
{
    if cfg.connection_string.as_str().is_empty() {
        Err(
            string_of(
                &chars_of(
                    "connection_string is empty. Edit config.toml (or stocktake.toml) in the same folder as this program and set [database] connection_string to your SQL Server details, then run it again.",
                ),
            ),
        )
    } else {
        Ok(())
    }
}

/// How the start-up banner describes the database: `configured` when the
/// connection string mentions `encrypt`, else `unencrypted`.
pub fn database_status(conn: &str) -> (r: &'static str)
    ensures
        contains(conn@, "encrypt"@) ==> r@ == "configured"@,
        !contains(conn@, "encrypt"@) ==> r@ == "unencrypted"@,
{
    if contains_chars(&chars_of(conn), &chars_of("encrypt")) {
        "configured"
    } else {
        "unencrypted"
    }
}

/// The address the server binds: `host:port`.
pub fn bind_address(cfg: &AppConfig) -> (r: String)
    ensures
        r@ == cfg.host@ + ":"@ + decimal(cfg.port as nat),
{
    let mut out: Vec<char> = Vec::new();
    push_str(&mut out, cfg.host.as_str());
    push_str(&mut out, ":");
    push_decimal(&mut out, cfg.port as u64);
    assert(out@ =~= cfg.host@ + ":"@ + decimal(cfg.port as nat));
    string_of(&out)
}

/// The error of a pool that could not be built.
pub fn pool_error_message(e: &DbError) -> (r: String)
    ensures
        r@ == "Failed to build database pool: "@ + db_error_text(*e),
{
    let m = e.message();
    let mut out: Vec<char> = Vec::new();
    push_str(&mut out, "Failed to build database pool: ");
    push_str(&mut out, m.as_str());
    string_of(&out)
}

/// The error of an address that could not be bound.
pub fn bind_error_message(address: &str, detail: &str) -> (r: String)
    ensures
        r@ == "Could not bind to "@ + address@ + ": "@ + detail@
            + ". Is another program already using that port, or is the host/port in config.toml wrong?"@,
{
    let mut out: Vec<char> = Vec::new();
    push_str(&mut out, "Could not bind to ");
    push_str(&mut out, address);
    push_str(&mut out, ": ");
    push_str(&mut out, detail);
    push_str(
        &mut out,
        ". Is another program already using that port, or is the host/port in config.toml wrong?",
    );
    assert(out@ =~= "Could not bind to "@ + address@ + ": "@ + detail@
        + ". Is another program already using that port, or is the host/port in config.toml wrong?"@);
    string_of(&out)
}

} // verus!
