use stocktake::catalog::DbError;
use stocktake::connection::{
    apply_setting, build_manager, connection_settings, is_ado_connection_string, has_trust_conflict,
    parse_port, sets_trust_ca,
    pool_manager, ConnSettings,
};
use stocktake::text::chars_of;

#[test]
fn custom_format_settings() {
    let s = connection_settings(
        "server=tcp:192.168.1.100,1433;database=Infinity;uid=sa;pwd=secret;encrypt=false",
    );
    assert_eq!(s.host.as_deref(), Some("192.168.1.100"));
    assert_eq!(s.port, Some(1433));
    assert_eq!(s.database.as_deref(), Some("Infinity"));
    assert_eq!(s.username.as_deref(), Some("sa"));
    assert_eq!(s.password.as_deref(), Some("secret"));
    assert_eq!(s.encrypt, Some(false));
    assert!(!s.trust_cert);
}

#[test]
fn server_forms() {
    let s = connection_settings(" Server = [MYPC\\SQLEXPRESS] ; PORT=abc");
    assert_eq!(s.host.as_deref(), Some("MYPC\\SQLEXPRESS"));
    assert_eq!(s.port, Some(1433));
    let s = connection_settings("host=tcp:tcp:db.local , 1500;trust_cert=YES;encrypt=On");
    assert_eq!(s.host.as_deref(), Some("db.local"));
    assert_eq!(s.port, Some(1500));
    assert!(s.trust_cert);
    assert_eq!(s.encrypt, Some(true));
    let s = connection_settings("server=a,99999");
    assert_eq!(s.port, Some(1433));
}

#[test]
fn later_settings_win_and_junk_is_skipped() {
    let s = connection_settings(";;nonsense;db=one;database=two;user=a;username=b;password=p=q;trust_cert=no");
    assert_eq!(s.database.as_deref(), Some("two"));
    assert_eq!(s.username.as_deref(), Some("b"));
    assert_eq!(s.password.as_deref(), Some("p=q"));
    assert!(!s.trust_cert);
    assert!(s.host.is_none());
}

#[test]
fn apply_one_setting() {
    let mut s = ConnSettings {
        host: None,
        port: None,
        database: None,
        encrypt: None,
        trust_cert: false,
        username: None,
        password: None,
    };
    apply_setting(&mut s, "encrypt", "No", "no");
    assert_eq!(s.encrypt, Some(false));
    apply_setting(&mut s, "port", "+42", "+42");
    assert_eq!(s.port, Some(42));
    apply_setting(&mut s, "unknown", "x", "x");
    assert_eq!(s.port, Some(42));
}

#[test]
fn port_numbers() {
    let p = |s: &str| parse_port(&chars_of(s));
    assert_eq!(p("1433"), Some(1433));
    assert_eq!(p("+80"), Some(80));
    assert_eq!(p("65535"), Some(65535));
    assert_eq!(p("65536"), None);
    assert_eq!(p("-1"), None);
    assert_eq!(p(""), None);
    assert_eq!(p("+"), None);
    assert_eq!(p("12a"), None);
    for s in ["0", "00012", "999999", " 1", "+0"] {
        assert_eq!(p(s), s.parse::<u16>().ok(), "sample {:?}", s);
    }
}

#[test]
fn ado_strings_are_recognised_in_any_case() {
    assert!(is_ado_connection_string("DRIVER={SQL Server};Server=x;"));
    assert!(is_ado_connection_string("Server={tcp:x}"));
    assert!(!is_ado_connection_string("server=tcp:x,1433;database=y"));
}

#[test]
fn custom_strings_always_build() {
    assert!(build_manager("server=x,1;uid=a;pwd=b").is_ok());
    assert!(build_manager("").is_ok());
    assert!(pool_manager("server=x").is_ok());
}

#[test]
fn ado_strings_go_to_the_driver() {
    assert!(build_manager("Driver={SQL Server};Server=tcp:localhost,1433;Database=master;User Id=sa;Password=x;").is_ok());
    match build_manager("Driver={x};Server=a,b,c;") {
        Err(DbError::Connection(m)) => assert!(!m.is_empty()),
        Err(DbError::Query(_)) => panic!("a driver failure is a connection error"),
        Ok(_) => panic!("a server with two commas does not parse"),
    }
}

#[test]
fn ado_strings_setting_a_ca_file() {
    let conflict = "TrustServerCertificate and TrustServerCertificateCA cannot be used together";
    let ca = "TrustServerCertificateCA is not supported: the pool always trusts the server certificate";
    for s in [
        "Driver={SQL Server};Server=x;TrustServerCertificate=true;TrustServerCertificateCA=ca.pem",
        "Driver={SQL Server};Server=x;trust{S}ervercertificateca=ca.pem;TRUSTSERVERCERTIFICATE= Yes ",
    ] {
        assert!(sets_trust_ca(s) && has_trust_conflict(s));
        match build_manager(s) {
            Err(DbError::Connection(m)) => assert_eq!(m, conflict),
            _ => panic!("refused: {:?}", s),
        }
        match pool_manager(s) {
            Err(DbError::Connection(m)) => assert_eq!(m, conflict),
            _ => panic!("refused: {:?}", s),
        }
    }
    // a CA file alone is the driver's to read, but the pool cannot use it
    let s = "Driver={SQL Server};Server=x;TrustServerCertificateCA=ca.pem";
    assert!(sets_trust_ca(s) && !has_trust_conflict(s));
    assert!(build_manager(s).is_ok());
    match pool_manager(s) {
        Err(DbError::Connection(m)) => assert_eq!(m, ca),
        _ => panic!("refused"),
    }
    // a string the driver rejects gets the driver's error, CA file or not
    let s = "Driver={x};Server=a,b,c;TrustServerCertificateCA=ca.pem";
    match (build_manager(s), pool_manager(s)) {
        (Err(DbError::Connection(m1)), Err(DbError::Connection(m2))) => {
            assert_eq!(m1, m2);
            assert_ne!(m2, ca);
        }
        _ => panic!("a server with two commas does not parse"),
    }
    // the key's name as a value sets nothing
    let s = "Driver={SQL Server};Server=h;Pwd=trustservercertificateca;TrustServerCertificate=true";
    assert!(!sets_trust_ca(s) && !has_trust_conflict(s));
    assert!(build_manager(s).is_ok());
    assert!(pool_manager(s).is_ok());
}
