use stocktake::catalog::DbError;
use stocktake::config::{
    bind_address, bind_error_message, check_startable, config_source, database_status,
    default_config, from_legacy_config, from_new_config, legacy_config_parse_error,
    new_config_parse_error, pool_error_message, AppConfig, ConfigSource, DbConfig, LegacyConfig,
    NewConfig, OutputConfig, ServerConfig,
};

fn parts(c: &AppConfig) -> (String, u16, String, String) {
    (c.host.clone(), c.port, c.connection_string.clone(), c.output_dir.clone())
}

#[test]
fn new_format_wins_then_legacy_then_defaults() {
    assert!(matches!(config_source(true, true), ConfigSource::New));
    assert!(matches!(config_source(true, false), ConfigSource::New));
    assert!(matches!(config_source(false, true), ConfigSource::Legacy));
    assert!(matches!(config_source(false, false), ConfigSource::Defaults));
}

#[test]
fn defaults() {
    assert_eq!(
        parts(&default_config()),
        ("127.0.0.1".to_string(), 8080, String::new(), "stocktake_output".to_string())
    );
}

#[test]
fn new_format_fills_gaps_with_defaults() {
    let c = from_new_config(NewConfig {
        server: Some(ServerConfig { host: Some("0.0.0.0".to_string()), port: None, output_dir: None }),
        database: Some(DbConfig { connection_string: Some("server=x".to_string()) }),
        output: None,
    });
    assert_eq!(
        parts(&c),
        ("0.0.0.0".to_string(), 8080, "server=x".to_string(), "stocktake_output".to_string())
    );
    let c = from_new_config(NewConfig { server: None, database: None, output: None });
    assert_eq!(parts(&c), parts(&default_config()));
    let c = from_new_config(NewConfig {
        server: Some(ServerConfig { host: None, port: Some(9000), output_dir: Some("C:\\Out".to_string()) }),
        database: Some(DbConfig { connection_string: None }),
        output: Some(OutputConfig { dir: None }),
    });
    assert_eq!(parts(&c), ("127.0.0.1".to_string(), 9000, String::new(), "C:\\Out".to_string()));
}

#[test]
fn legacy_format() {
    let c = from_legacy_config(LegacyConfig {
        listen_addr: Some("10.0.0.1".to_string()),
        port: Some(81),
        connection_string: Some("s".to_string()),
    });
    assert_eq!(parts(&c), ("10.0.0.1".to_string(), 81, "s".to_string(), "stocktake_output".to_string()));
    let c = from_legacy_config(LegacyConfig { listen_addr: None, port: None, connection_string: None });
    assert_eq!(parts(&c), parts(&default_config()));
}

#[test]
fn parse_error_messages() {
    let want_new = format!(
        "config.toml exists but could not be parsed: {}\n   \
         Common cause: a backslash in a Windows path or password. In TOML, \\\n   \
         inside \"...\" is an escape character — write paths as C:\\\\StockTakes \\\n   \
         (doubled backslashes) or use single quotes: 'C:\\StockTakes'.",
        "bad escape at line 2"
    );
    assert_eq!(new_config_parse_error("bad escape at line 2"), want_new);
    let want_legacy = format!(
        "stocktake.toml exists but could not be parsed: {}\n   \
         Common cause: a backslash in a Windows path or password. In TOML, \\\n   \
         inside \"...\" is an escape character — double it (\\\\) or use single quotes.",
        "oops"
    );
    assert_eq!(legacy_config_parse_error("oops"), want_legacy);
}

#[test]
fn empty_connection_string_refuses_to_start() {
    let err = check_startable(&default_config()).unwrap_err();
    assert!(err.starts_with("connection_string is empty."));
    assert!(err.ends_with("then run it again."));
    let mut c = default_config();
    c.connection_string = "server=x".to_string();
    assert!(check_startable(&c).is_ok());
}

#[test]
fn start_up_texts() {
    assert_eq!(database_status("server=x;encrypt=false"), "configured");
    assert_eq!(database_status("server=x"), "unencrypted");
    assert_eq!(bind_address(&default_config()), "127.0.0.1:8080");
    assert_eq!(
        pool_error_message(&DbError::Connection("bad".to_string())),
        "Failed to build database pool: Connection failed: bad"
    );
    assert_eq!(
        bind_error_message("0.0.0.0:80", "denied"),
        "Could not bind to 0.0.0.0:80: denied. Is another program already using that port, or is the host/port in config.toml wrong?"
    );
}

#[test]
fn output_table_sets_the_output_directory() {
    let c = from_new_config(NewConfig {
        server: Some(ServerConfig { host: Some("0.0.0.0".to_string()), port: Some(8080), output_dir: None }),
        database: Some(DbConfig {
            connection_string: Some(
                "server=tcp:YOUR_SERVER,1433;database=YOUR_DB;uid=YOUR_USER;pwd=YOUR_PASS;encrypt=false"
                    .to_string(),
            ),
        }),
        output: Some(OutputConfig { dir: Some("./output".to_string()) }),
    });
    assert_eq!(
        parts(&c),
        (
            "0.0.0.0".to_string(),
            8080,
            "server=tcp:YOUR_SERVER,1433;database=YOUR_DB;uid=YOUR_USER;pwd=YOUR_PASS;encrypt=false"
                .to_string(),
            "./output".to_string()
        )
    );
    let c = from_new_config(NewConfig {
        server: Some(ServerConfig { host: None, port: None, output_dir: Some("srv".to_string()) }),
        database: None,
        output: Some(OutputConfig { dir: Some("out".to_string()) }),
    });
    assert_eq!(c.output_dir, "out");
}
