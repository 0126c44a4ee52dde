//! The database connection string: which format it is in, what the
//! service's own `key=value;...` format sets, and the pool manager built
//! from it.
use vstd::prelude::*;

use connection_string::AdoNetString;
use deadpool_tiberius::{Manager, SqlServerError};

use crate::catalog::DbError;
use crate::text::{
    chars_of, decimal, contains, contains_chars, copy_range, find_char, first_index, lemma_first_index,
    same_as_str, split, split_chars, string_of, strip_prefix_all, strip_prefix_all_chars, trim,
    trim_chars, trim_chars_class, trim_class, CharClass,
};

verus! {

// ---------------------------------------------------------------------------
// Outside items
// ---------------------------------------------------------------------------

#[verifier::external_type_specification]
#[verifier::external_body]
pub struct ExManager(deadpool_tiberius::Manager);

#[verifier::external_type_specification]
#[verifier::external_body]
pub struct ExSqlServerError(deadpool_tiberius::SqlServerError);

#[verifier::external_type_specification]
#[verifier::external_body]
pub struct ExAdoNetString(connection_string::AdoNetString);

/// What `str::to_lowercase` returns for `s` (Unicode lowercase mapping).
pub uninterp spec fn unicode_lowercase(s: Seq<char>) -> Seq<char>;

/// What a pool manager holds, as text: each setting given to it, by name
/// (`host`, `port`, `database`, `encryption`, `trust_cert`, `trust_ca`,
/// `user`, `password`, `max_size`). A name that is absent leaves tiberius'
/// or deadpool's default.
pub uninterp spec fn manager_settings(m: Manager) -> Map<Seq<char>, Seq<char>>;

/// The `key = value` pairs an `AdoNetString` holds; keys are lowercase.
pub uninterp spec fn ado_pairs(d: AdoNetString) -> Map<Seq<char>, Seq<char>>;

/// What parsing `conn` as an `AdoNetString` gives: its pairs, or `None`
/// when the parser refuses the string.
pub uninterp spec fn parsed_ado_string(conn: Seq<char>) -> Option<Map<Seq<char>, Seq<char>>>;

/// What `Manager::from_ado_string` gives for `conn`: the settings its
/// manager holds (see [`manager_settings`]), or `None` when it refuses the
/// string. Named for strings without an integrated-security key (see
/// [`ado_integrated_security`]); on those, tiberius reads every key from
/// the string alone.
pub uninterp spec fn ado_manager_settings(conn: Seq<char>) -> Option<Map<Seq<char>, Seq<char>>>;

/// The settings of a manager given none.
pub open spec fn no_manager_settings() -> Map<Seq<char>, Seq<char>> {
    Map::empty()
}

/// An ASCII character.
pub open spec fn is_ascii_char(c: char) -> bool {
    (c as u32) < 128
}

/// Text made of ASCII characters only.
pub open spec fn is_ascii_text(s: Seq<char>) -> bool {
    forall|i: int| 0 <= i < s.len() ==> is_ascii_char(#[trigger] s[i])
}

/// The lowercase of an ASCII character: `A`–`Z` become `a`–`z`, any other
/// stays as it is.
pub open spec fn ascii_lower_char(c: char) -> char {
    if 'A' <= c && c <= 'Z' {
        ((c as u32) + 32) as char
    } else {
        c
    }
}

/// The lowercase of ASCII text, character by character.
pub open spec fn ascii_lower(s: Seq<char>) -> Seq<char> {
    s.map_values(|c: char| ascii_lower_char(c))
}

/// The lowercase of text: character by character for ASCII text, else the
/// Unicode lowercase mapping.
pub open spec fn lower_text(s: Seq<char>) -> Seq<char> {
    if is_ascii_text(s) {
        ascii_lower(s)
    } else {
        unicode_lowercase(s)
    }
}

/// `str::to_lowercase`: its result is named [`unicode_lowercase`] of the
/// argument, and on ASCII text it maps `A`–`Z` to `a`–`z` and keeps every
/// other character, as the Unicode lowercase mapping does for ASCII.
#[verifier::external_body]
fn lowercase_raw(s: &str) -> (r: String)
    ensures
        r@ == unicode_lowercase(s@),
        is_ascii_text(s@) ==> r@ == ascii_lower(s@),
{
    s.to_lowercase()
}

/// The lowercase of `s` (see [`lower_text`]).
fn lowercase(s: &str) -> (r: String)
    ensures
        r@ == lower_text(s@),
{
    lowercase_raw(s)
}

/// `<connection_string::AdoNetString as FromStr>::from_str`, the ADO.NET
/// reader that tiberius uses: its outcome, by its pairs, is named
/// [`parsed_ado_string`] of the string.
#[verifier::external_body]
fn parse_ado_string(conn: &str) -> (r: Option<AdoNetString>)
    ensures
        match r {
            Some(d) => parsed_ado_string(conn@) == Some(ado_pairs(d)),
            None => parsed_ado_string(conn@) is None,
        },
{
    conn.parse::<AdoNetString>().ok()
}

/// `HashMap::get` on the pairs of an `AdoNetString`: the value of `key`, if
/// it is there.
#[verifier::external_body]
fn ado_value(d: &AdoNetString, key: &str) -> (r: Option<String>)
    ensures
        match r {
            Some(v) => ado_pairs(*d).contains_key(key@) && v@ == ado_pairs(*d)[key@],
            None => !ado_pairs(*d).contains_key(key@),
        },
{
    d.get(key).cloned()
}

/// `deadpool_tiberius::Manager::new`: a manager given no settings.
#[verifier::external_body]
fn new_manager() -> (r: Manager)
    ensures
        manager_settings(r) == no_manager_settings(),
{
    Manager::new()
}

/// `deadpool_tiberius::Manager::from_ado_string`, which has tiberius read an
/// ADO.NET connection string with the reader of [`parse_ado_string`].
/// Tiberius panics inside it on a string that sets
/// `TrustServerCertificateCA` together with a true `TrustServerCertificate`
/// (see [`ado_trust_conflict`]); the `requires` leaves those strings out.
/// On a string without an integrated-security key its outcome is named
/// [`ado_manager_settings`] of the string: a manager exactly when the name
/// gives settings, and then one that holds them. On any string, a manager
/// it gives holds a CA file exactly when the string sets
/// `TrustServerCertificateCA`. With an integrated-security key tiberius
/// reads the string differently on Windows, so nothing more is claimed
/// there.
#[verifier::external_body]
fn manager_from_ado(conn: &str) -> (r: Result<Manager, SqlServerError>)
    requires
        !ado_trust_conflict(conn@),
    ensures
        !ado_integrated_security(conn@) ==> (r is Ok <==> ado_manager_settings(conn@) is Some),
        !ado_integrated_security(conn@) ==> (r matches Ok(m) ==> ado_manager_settings(conn@)
            == Some(manager_settings(m))),
        r matches Ok(m) ==> (manager_settings(m).contains_key("trust_ca"@) <==> ado_sets_trust_ca(
            conn@,
        )),
{
    Manager::from_ado_string(conn)
}

/// The `Display` text of a `deadpool_tiberius::SqlServerError`. Nothing is
/// claimed of it.
#[verifier::external_body]
fn sql_server_error_text(e: &SqlServerError) -> String {
    e.to_string()
}

/// `deadpool_tiberius::Manager::host`: sets the host.
#[verifier::external_body]
fn with_host(m: Manager, host: &str) -> (r: Manager)
    ensures
        manager_settings(r) == manager_settings(m).insert("host"@, host@),
{
    m.host(host)
}

/// `deadpool_tiberius::Manager::port`: sets the port.
#[verifier::external_body]
fn with_port(m: Manager, port: u16) -> (r: Manager)
    ensures
        manager_settings(r) == manager_settings(m).insert("port"@, decimal(port as nat)),
{
    m.port(port)
}

/// `deadpool_tiberius::Manager::database`: sets the database.
#[verifier::external_body]
fn with_database(m: Manager, database: &str) -> (r: Manager)
    ensures
        manager_settings(r) == manager_settings(m).insert("database"@, database@),
{
    m.database(database)
}

/// `deadpool_tiberius::Manager::encryption` with
/// `tiberius::EncryptionLevel::Required`.
#[verifier::external_body]
fn with_encryption_required(m: Manager) -> (r: Manager)
    ensures
        manager_settings(r) == manager_settings(m).insert("encryption"@, "required"@),
{
    m.encryption(tiberius::EncryptionLevel::Required)
}

/// `deadpool_tiberius::Manager::encryption` with
/// `tiberius::EncryptionLevel::Off`.
#[verifier::external_body]
fn with_encryption_off(m: Manager) -> (r: Manager)
    ensures
        manager_settings(r) == manager_settings(m).insert("encryption"@, "off"@),
{
    m.encryption(tiberius::EncryptionLevel::Off)
}

/// `deadpool_tiberius::Manager::trust_cert`: the server certificate is
/// trusted as it is. Tiberius panics here on a manager that holds a CA
/// file; the `requires` leaves such managers out.
#[verifier::external_body]
fn with_trust_cert(m: Manager) -> (r: Manager)
    requires
        !manager_settings(m).contains_key("trust_ca"@),
    ensures
        manager_settings(r) == manager_settings(m).insert("trust_cert"@, "true"@),
{
    m.trust_cert()
}

/// `deadpool_tiberius::Manager::basic_authentication`: SQL Server
/// authentication with this user and password.
#[verifier::external_body]
fn with_basic_authentication(m: Manager, username: &str, password: &str) -> (r: Manager)
    ensures
        manager_settings(r) == manager_settings(m).insert("user"@, username@).insert(
            "password"@,
            password@,
        ),
{
    m.basic_authentication(username, password)
}

/// `deadpool_tiberius::Manager::max_size`: at most `size` connections.
#[verifier::external_body]
fn with_max_size(m: Manager, size: usize) -> (r: Manager)
    ensures
        manager_settings(r) == manager_settings(m).insert("max_size"@, decimal(size as nat)),
{
    m.max_size(size)
}

// ---------------------------------------------------------------------------
// Settings of the service's own format
// ---------------------------------------------------------------------------

/// What a connection string in the service's own format sets; `None` (or
/// `false`) leaves the driver's default.
pub struct ConnSettings {
    pub host: Option<String>,
    pub port: Option<u16>,
    pub database: Option<String>,
    /// `Some(true)`: encryption required; `Some(false)`: off.
    pub encrypt: Option<bool>,
    pub trust_cert: bool,
    pub username: Option<String>,
    pub password: Option<String>,
}

pub type SettingsView = (
    Option<Seq<char>>,
    Option<u16>,
    Option<Seq<char>>,
    Option<bool>,
    bool,
    Option<Seq<char>>,
    Option<Seq<char>>,
);

pub open spec fn opt_view(o: Option<String>) -> Option<Seq<char>> {
    match o {
        Some(s) => Some(s@),
        None => None,
    }
}

impl View for ConnSettings {
    type V = SettingsView;

    open spec fn view(&self) -> SettingsView {
        (
            opt_view(self.host),
            self.port,
            opt_view(self.database),
            self.encrypt,
            self.trust_cert,
            opt_view(self.username),
            opt_view(self.password),
        )
    }
}

pub open spec fn no_settings() -> SettingsView {
    (None, None, None, None, false, None, None)
}

/// A string that is given whole to the driver's ADO.NET reader: its
/// lowercase form holds `driver=` or `server={`.
pub open spec fn is_ado_style(lower: Seq<char>) -> bool {
    contains(lower, "driver="@) || contains(lower, "server={"@)
}

/// A value the ADO.NET reading of tiberius takes as a true flag: trimmed
/// and lowercased, `true` or `yes`.
pub open spec fn is_true_flag(v: Seq<char>) -> bool {
    lower_text(trim(v)) == "true"@ || lower_text(trim(v)) == "yes"@
}

/// An ADO.NET string with an integrated-security key, whose reading
/// tiberius makes depend on the platform it runs on.
pub open spec fn ado_integrated_security(conn: Seq<char>) -> bool {
    parsed_ado_string(conn) matches Some(p) && (p.contains_key("integratedsecurity"@)
        || p.contains_key("integrated security"@))
}

/// An ADO.NET string that sets `TrustServerCertificateCA`.
pub open spec fn ado_sets_trust_ca(conn: Seq<char>) -> bool {
    parsed_ado_string(conn) matches Some(p) && p.contains_key("trustservercertificateca"@)
}

/// An ADO.NET string that sets `TrustServerCertificateCA` and a true
/// `TrustServerCertificate`, which tiberius refuses to combine.
pub open spec fn ado_trust_conflict(conn: Seq<char>) -> bool {
    parsed_ado_string(conn) matches Some(p) && p.contains_key("trustservercertificateca"@)
        && p.contains_key("trustservercertificate"@) && is_true_flag(
        p["trustservercertificate"@],
    )
}

/// Why an ADO.NET string that both trusts the certificate and names a CA
/// file is refused.
pub open spec fn trust_conflict_refusal() -> Seq<char> {
    "TrustServerCertificate and TrustServerCertificateCA cannot be used together"@
}

/// Why the pool refuses an ADO.NET string that names a CA file.
pub open spec fn trust_ca_refusal() -> Seq<char> {
    "TrustServerCertificateCA is not supported: the pool always trusts the server certificate"@
}

/// What a manager built from settings holds (see [`manager_settings`]):
/// host, port, database, encryption, certificate trust, and the user and
/// password when both are given.
pub open spec fn settings_map(st: SettingsView) -> Map<Seq<char>, Seq<char>> {
    let m0 = no_manager_settings();
    let m1 = match st.0 {
        Some(h) => m0.insert("host"@, h),
        None => m0,
    };
    let m2 = match st.1 {
        Some(p) => m1.insert("port"@, decimal(p as nat)),
        None => m1,
    };
    let m3 = match st.2 {
        Some(d) => m2.insert("database"@, d),
        None => m2,
    };
    let m4 = match st.3 {
        Some(true) => m3.insert("encryption"@, "required"@),
        Some(false) => m3.insert("encryption"@, "off"@),
        None => m3,
    };
    let m5 = if st.4 {
        m4.insert("trust_cert"@, "true"@)
    } else {
        m4
    };
    match (st.5, st.6) {
        (Some(u), Some(p)) => m5.insert("user"@, u).insert("password"@, p),
        _ => m5,
    }
}

pub open spec fn is_digit(c: char) -> bool {
    '0' <= c && c <= '9'
}

pub open spec fn digits_value(s: Seq<char>) -> int
    decreases s.len(),
{
    if s.len() == 0 {
        0
    } else {
        digits_value(s.drop_last()) * 10 + (s.last() as int - '0' as int)
    }
}

/// The digits part of a number: without one leading `+`.
pub open spec fn unsigned_digits(s: Seq<char>) -> Seq<char> {
    if s.len() > 0 && s[0] == '+' {
        s.drop_first()
    } else {
        s
    }
}

pub open spec fn all_digits(d: Seq<char>) -> bool {
    forall|i: int| 0 <= i < d.len() ==> is_digit(#[trigger] d[i])
}

/// What `str::parse::<u16>` accepts: an optional `+`, then at least one
/// decimal digit and nothing else, of value at most 65535.
pub open spec fn parse_u16(s: Seq<char>) -> Option<u16> {
    let d = unsigned_digits(s);
    if d.len() > 0 && all_digits(d) && digits_value(d) <= 65535 {
        Some(digits_value(d) as u16)
    } else {
        None
    }
}

/// A port given in the string, or 1433 when it does not read as one.
pub open spec fn port_or_default(s: Seq<char>) -> u16 {
    match parse_u16(s) {
        Some(p) => p,
        None => 1433,
    }
}

/// A host without surrounding `[` and then `]` characters.
pub open spec fn bare_host(s: Seq<char>) -> Seq<char> {
    trim_class(trim_class(s, CharClass::Exactly('[')), CharClass::Exactly(']'))
}

/// The `server`/`host` setting: a leading `tcp:` dropped, then either
/// `HOST,PORT` or just `HOST`.
pub open spec fn server_applied(st: SettingsView, value: Seq<char>) -> SettingsView {
    let s = trim(strip_prefix_all(value, "tcp:"@));
    match first_index(s, ',') {
        Some(c) => (
            Some(bare_host(trim(s.take(c as int)))),
            Some(port_or_default(trim(s.skip(c as int + 1)))),
            st.2,
            st.3,
            st.4,
            st.5,
            st.6,
        ),
        None => (Some(bare_host(s)), st.1, st.2, st.3, st.4, st.5, st.6),
    }
}

/// One `key=value` setting, with the key already lowercase and the value
/// trimmed, given also in lowercase.
pub open spec fn setting_applied(
    st: SettingsView,
    key: Seq<char>,
    value: Seq<char>,
    value_lower: Seq<char>,
) -> SettingsView {
    if key == "server"@ || key == "host"@ {
        server_applied(st, value)
    } else if key == "port"@ {
        (st.0, Some(port_or_default(value)), st.2, st.3, st.4, st.5, st.6)
    } else if key == "uid"@ || key == "user"@ || key == "username"@ {
        (st.0, st.1, st.2, st.3, st.4, Some(value), st.6)
    } else if key == "pwd"@ || key == "password"@ {
        (st.0, st.1, st.2, st.3, st.4, st.5, Some(value))
    } else if key == "database"@ || key == "db"@ {
        (st.0, st.1, Some(value), st.3, st.4, st.5, st.6)
    } else if key == "encrypt"@ {
        (
            st.0,
            st.1,
            st.2,
            Some(value_lower != "off"@ && value_lower != "false"@ && value_lower != "no"@),
            st.4,
            st.5,
            st.6,
        )
    } else if key == "trust_cert"@ {
        (st.0, st.1, st.2, st.3, st.4 || value_lower == "true"@ || value_lower == "yes"@, st.5, st.6)
    } else {
        st
    }
}

/// One piece between `;`: trimmed, skipped when empty or without `=`,
/// else split at its first `=` into a key and a value.
pub open spec fn piece_applied(st: SettingsView, piece: Seq<char>) -> SettingsView {
    let p = trim(piece);
    if p.len() == 0 {
        st
    } else {
        match first_index(p, '=') {
            None => st,
            Some(e) => {
                let value = trim(p.skip(e as int + 1));
                setting_applied(
                    st,
                    lower_text(trim(p.take(e as int))),
                    value,
                    lower_text(value),
                )
            },
        }
    }
}

pub open spec fn pieces_applied(pieces: Seq<Seq<char>>) -> SettingsView
    decreases pieces.len(),
{
    if pieces.len() == 0 {
        no_settings()
    } else {
        piece_applied(pieces_applied(pieces.drop_last()), pieces.last())
    }
}

/// The settings of a connection string in the service's own format
/// `server=HOST,PORT;database=DB;uid=USER;pwd=PASS;encrypt=false`: the
/// pieces between `;` applied in order, a later setting winning.
pub open spec fn connection_settings_of(conn: Seq<char>) -> SettingsView {
    pieces_applied(split(conn, ';'))
}

proof fn lemma_digits_value_nonneg(s: Seq<char>)
    requires
        forall|i: int| 0 <= i < s.len() ==> is_digit(#[trigger] s[i]),
    ensures
        digits_value(s) >= 0,
    decreases s.len(),
{
    if s.len() > 0 {
        lemma_digits_value_nonneg(s.drop_last());
        assert(is_digit(s[s.len() - 1]));
    }
}

proof fn lemma_digits_value_grows(s: Seq<char>, k: int)
    requires
        0 <= k <= s.len(),
        forall|i: int| 0 <= i < s.len() ==> is_digit(#[trigger] s[i]),
    ensures
        digits_value(s.take(k)) <= digits_value(s),
    decreases s.len() - k,
{
    if k < s.len() {
        let s0 = s.drop_last();
        if k < s.len() {
            lemma_digits_value_nonneg(s0);
            assert(is_digit(s[s.len() - 1]));
            if k == s.len() {
            } else {
                lemma_digits_value_grows(s0, k);
                assert(s0.take(k) =~= s.take(k));
            }
        }
    } else {
        assert(s.take(k) =~= s);
    }
}

/// Reads a port number (see [`parse_u16`]).
pub fn parse_port(s: &Vec<char>) -> (r: Option<u16>)
    ensures
        r == parse_u16(s@),
{
    let start: usize = if s.len() > 0 && s[0] == '+' {
        1
    } else {
        0
    };
    let ghost d = s@.skip(start as int);
    assert(d =~= unsigned_digits(s@));
    if start == s.len() {
        return None;
    }
    let mut v: u32 = 0;
    let mut i: usize = start;
    while i < s.len()
        invariant
            start <= i <= s.len(),
            start < s.len(),
            d == s@.skip(start as int),
            d == unsigned_digits(s@),
            forall|k: int| 0 <= k < i - start ==> is_digit(#[trigger] d[k]),
            v as int == digits_value(d.take(i - start)),
            v <= 65535,
        decreases s.len() - i,
    {
        let c = s[i];
        assert(d[i - start] == c);
        if !('0' <= c && c <= '9') {
            assert(!is_digit(d[i - start]));
            return None;
        }
        let dv = (c as u32) - ('0' as u32);
        let ghost n = i - start;
        assert(d.take(n + 1).drop_last() =~= d.take(n));
        assert(d.take(n + 1).last() == c);
        assert(digits_value(d.take(n + 1)) == v * 10 + dv);
        if v > 6553 || (v == 6553 && dv > 5) {
            proof {
                if v > 6553 {
                    assert(v * 10 >= 65540) by (nonlinear_arith)
                        requires
                            v > 6553,
                    ;
                }
                if all_digits(d) {
                    lemma_digits_value_grows(d, n + 1);
                }
            }
            return None;
        }
        v = v * 10 + dv;
        i = i + 1;
    }
    assert(d.take(i - start) =~= d);
    Some(v as u16)
}

/// Applies one `key=value` setting (see [`setting_applied`]); `key` is
/// already lowercase and `value` trimmed, and `value_lower` is its
/// lowercase form.
pub fn apply_setting(settings: &mut ConnSettings, key: &str, value: &str, value_lower: &str)
    ensures
        final(settings)@ == setting_applied(old(settings)@, key@, value@, value_lower@),
{
    let k = chars_of(key);
    if same_as_str(&k, "server") || same_as_str(&k, "host") {
        apply_server(settings, value);
    } else if same_as_str(&k, "port") {
        let v = chars_of(value);
        settings.port = Some(port_from(&v));
    } else if same_as_str(&k, "uid") || same_as_str(&k, "user") || same_as_str(&k, "username") {
        settings.username = Some(string_of(&chars_of(value)));
    } else if same_as_str(&k, "pwd") || same_as_str(&k, "password") {
        settings.password = Some(string_of(&chars_of(value)));
    } else if same_as_str(&k, "database") || same_as_str(&k, "db") {
        settings.database = Some(string_of(&chars_of(value)));
    } else if same_as_str(&k, "encrypt") {
        let vl = chars_of(value_lower);
        let on = !same_as_str(&vl, "off") && !same_as_str(&vl, "false") && !same_as_str(
            &vl,
            "no",
        );
        settings.encrypt = Some(on);
    } else if same_as_str(&k, "trust_cert") {
        let vl = chars_of(value_lower);
        if same_as_str(&vl, "true") || same_as_str(&vl, "yes") {
            settings.trust_cert = true;
        }
    }
}

fn port_from(s: &Vec<char>) -> (p: u16)
    ensures
        p == port_or_default(s@),
{
    match parse_port(s) {
        Some(p) => p,
        None => 1433,
    }
}

fn bare_host_chars(s: &Vec<char>) -> (r: Vec<char>)
    ensures
        r@ == bare_host(s@),
{
    let a = trim_chars_class(s, CharClass::Exactly('['));
    trim_chars_class(&a, CharClass::Exactly(']'))
}

fn apply_server(settings: &mut ConnSettings, value: &str)
    ensures
        final(settings)@ == server_applied(old(settings)@, value@),
{
    let v = chars_of(value);
    let tcp = chars_of("tcp:");
    let stripped = strip_prefix_all_chars(&v, &tcp);
    let s = trim_chars(&stripped);
    match find_char(&s, ',') {
        Some(c) => {
            proof {
                lemma_first_index(s@, ',', c as int);
            }
            let before = copy_range(&s, 0, c);
            let after = copy_range(&s, c + 1, s.len());
            assert(before@ =~= s@.take(c as int));
            assert(after@ =~= s@.skip(c + 1));
            let host = bare_host_chars(&trim_chars(&before));
            let port = port_from(&trim_chars(&after));
            settings.host = Some(string_of(&host));
            settings.port = Some(port);
        },
        None => {
            proof {
                lemma_first_index(s@, ',', s@.len() as int);
            }
            let host = bare_host_chars(&s);
            settings.host = Some(string_of(&host));
        },
    }
}

fn apply_piece(settings: &mut ConnSettings, piece: &Vec<char>)
    ensures
        final(settings)@ == piece_applied(old(settings)@, piece@),
{
    let p = trim_chars(piece);
    if p.len() == 0 {
        return ;
    }
    match find_char(&p, '=') {
        None => {
            proof {
                lemma_first_index(p@, '=', p@.len() as int);
            }
        },
        Some(e) => {
            proof {
                lemma_first_index(p@, '=', e as int);
            }
            let key_part = copy_range(&p, 0, e);
            let value_part = copy_range(&p, e + 1, p.len());
            assert(key_part@ =~= p@.take(e as int));
            assert(value_part@ =~= p@.skip(e + 1));
            let key_text = string_of(&trim_chars(&key_part));
            let key = lowercase(key_text.as_str());
            let value = string_of(&trim_chars(&value_part));
            let value_lower = lowercase(value.as_str());
            apply_setting(settings, key.as_str(), value.as_str(), value_lower.as_str());
        },
    }
}

/// The settings of a connection string in the service's own format (see
/// [`connection_settings_of`]).
pub fn connection_settings(conn: &str) -> (r: ConnSettings)
    ensures
        r@ == connection_settings_of(conn@),
{
    let c = chars_of(conn);
    let pieces = split_chars(&c, ';');
    let ghost ps = split(conn@, ';');
    let mut settings = ConnSettings {
        host: None,
        port: None,
        database: None,
        encrypt: None,
        trust_cert: false,
        username: None,
        password: None,
    };
    let mut i: usize = 0;
    while i < pieces.len()
        invariant
            i <= pieces.len(),
            ps == split(conn@, ';'),
            pieces@.len() == ps.len(),
            forall|j: int| 0 <= j < pieces@.len() ==> #[trigger] pieces@[j]@ == ps[j],
            settings@ == pieces_applied(ps.take(i as int)),
        decreases pieces.len() - i,
    {
        apply_piece(&mut settings, &pieces[i]);
        assert(ps.take(i + 1).drop_last() =~= ps.take(i as int));
        i = i + 1;
    }
    assert(ps.take(pieces.len() as int) =~= ps);
    settings
}

/// Whether the connection string is handed whole to the ADO.NET reader
/// (see [`is_ado_style`]).
pub fn is_ado_connection_string(conn: &str) -> (b: bool)
    ensures
        b == is_ado_style(lower_text(conn@)),
{
    let lower = lowercase(conn);
    let l = chars_of(lower.as_str());
    contains_chars(&l, &chars_of("driver=")) || contains_chars(&l, &chars_of("server={"))
}

/// Whether the ADO.NET string sets `TrustServerCertificateCA` (see
/// [`ado_sets_trust_ca`]).
pub fn sets_trust_ca(conn: &str) -> (b: bool)
    ensures
        b == ado_sets_trust_ca(conn@),
{
    match parse_ado_string(conn) {
        None => false,
        Some(d) => ado_value(&d, "trustservercertificateca").is_some(),
    }
}

/// Whether the ADO.NET string sets `TrustServerCertificateCA` together with
/// a true `TrustServerCertificate` (see [`ado_trust_conflict`]).
pub fn has_trust_conflict(conn: &str) -> (b: bool)
    ensures
        b == ado_trust_conflict(conn@),
{
    match parse_ado_string(conn) {
        None => false,
        Some(d) => {
            if ado_value(&d, "trustservercertificateca").is_none() {
                return false;
            }
            match ado_value(&d, "trustservercertificate") {
                None => false,
                Some(v) => {
                    let t = string_of(&trim_chars(&chars_of(v.as_str())));
                    let l = chars_of(lowercase(t.as_str()).as_str());
                    same_as_str(&l, "true") || same_as_str(&l, "yes")
                },
            }
        },
    }
}

proof fn lemma_setting_names()
    ensures
        "trust_ca"@ != "host"@,
        "trust_ca"@ != "port"@,
        "trust_ca"@ != "database"@,
        "trust_ca"@ != "encryption"@,
        "trust_ca"@ != "trust_cert"@,
        "trust_ca"@ != "user"@,
        "trust_ca"@ != "password"@,
        "trust_ca"@ != "max_size"@,
        "max_size"@ != "trust_cert"@,
{
    reveal_strlit("trust_ca");
    reveal_strlit("host");
    reveal_strlit("port");
    reveal_strlit("database");
    reveal_strlit("encryption");
    reveal_strlit("trust_cert");
    reveal_strlit("user");
    reveal_strlit("password");
    reveal_strlit("max_size");
    assert("trust_ca"@[0] != "database"@[0]);
    assert("trust_ca"@[7] != "trust_cert"@[7]);
    assert("trust_ca"@[0] != "max_size"@[0]);
    assert("max_size"@[0] != "trust_cert"@[0]);
}

/// A pool manager with the settings applied: host, port, database,
/// encryption, certificate trust, and SQL Server authentication when both
/// a user and a password are given.
fn manager_with(settings: &ConnSettings) -> (r: Manager)
    ensures
        manager_settings(r) == settings_map(settings@),
        !manager_settings(r).contains_key("trust_ca"@),
{
    proof {
        lemma_setting_names();
    }
    let mut m = new_manager();
    match &settings.host {
        Some(h) => {
            m = with_host(m, h.as_str());
        },
        None => {},
    }
    match settings.port {
        Some(p) => {
            m = with_port(m, p);
        },
        None => {},
    }
    match &settings.database {
        Some(d) => {
            m = with_database(m, d.as_str());
        },
        None => {},
    }
    match settings.encrypt {
        Some(true) => {
            m = with_encryption_required(m);
        },
        Some(false) => {
            m = with_encryption_off(m);
        },
        None => {},
    }
    if settings.trust_cert {
        m = with_trust_cert(m);
    }
    match (&settings.username, &settings.password) {
        (Some(u), Some(p)) => {
            m = with_basic_authentication(m, u.as_str(), p.as_str());
        },
        _ => {},
    }
    assert(manager_settings(m) =~= settings_map(settings@));
    m
}

/// The pool manager for a connection string: an ADO.NET string is read by
/// the driver (its failure becomes a connection error), whose outcome
/// without an integrated-security key is [`ado_manager_settings`]; any
/// other is read as the service's own format (see
/// [`connection_settings_of`]), which never fails, and gives a manager
/// holding exactly those settings. With an integrated-security key the
/// driver's reading depends on the platform, so no clause says whether it
/// succeeds. An ADO.NET string that sets `TrustServerCertificateCA`
/// together with a true `TrustServerCertificate`, which tiberius refuses to
/// combine, is refused before the driver sees it.
pub fn build_manager(conn: &str) -> (r: Result<Manager, DbError>)
    ensures
        !is_ado_style(lower_text(conn@)) ==> (r matches Ok(m) && manager_settings(m)
            == settings_map(connection_settings_of(conn@))),
        is_ado_style(lower_text(conn@)) && ado_trust_conflict(conn@) ==> (r matches Err(
            DbError::Connection(e),
        ) && e@ == trust_conflict_refusal()),
        is_ado_style(lower_text(conn@)) && !ado_trust_conflict(conn@) && !ado_integrated_security(
            conn@,
        ) ==> (r is Ok <==> ado_manager_settings(conn@) is Some),
        is_ado_style(lower_text(conn@)) && !ado_trust_conflict(conn@) && !ado_integrated_security(
            conn@,
        ) ==> (r matches Ok(m) ==> ado_manager_settings(conn@) == Some(manager_settings(m))),
        is_ado_style(lower_text(conn@)) ==> (r matches Ok(m) ==> (manager_settings(m).contains_key(
            "trust_ca"@,
        ) <==> ado_sets_trust_ca(conn@))),
        r matches Err(e) ==> e is Connection,
{
    if is_ado_connection_string(conn) {
        if has_trust_conflict(conn) {
            return Err(
                DbError::Connection(
                    string_of(
                        &chars_of(
                            "TrustServerCertificate and TrustServerCertificateCA cannot be used together",
                        ),
                    ),
                ),
            );
        }
        match manager_from_ado(conn) {
            Ok(m) => Ok(m),
            Err(e) => Err(DbError::Connection(sql_server_error_text(&e))),
        }
    } else {
        let settings = connection_settings(conn);
        Ok(manager_with(&settings))
    }
}

/// The manager of the service's pool: as [`build_manager`], with at most
/// ten connections and the server certificate trusted. An ADO.NET string
/// that sets `TrustServerCertificateCA` and that the driver reads is then
/// refused, since tiberius does not allow a CA file together with a trusted
/// certificate.
pub fn pool_manager(conn: &str) -> (r: Result<Manager, DbError>)
    ensures
        !is_ado_style(lower_text(conn@)) ==> (r matches Ok(m) && manager_settings(m)
            == settings_map(connection_settings_of(conn@)).insert("max_size"@, "10"@).insert(
            "trust_cert"@,
            "true"@,
        )),
        is_ado_style(lower_text(conn@)) && ado_trust_conflict(conn@) ==> (r matches Err(
            DbError::Connection(e),
        ) && e@ == trust_conflict_refusal()),
        is_ado_style(lower_text(conn@)) && ado_sets_trust_ca(conn@) ==> r is Err,
        is_ado_style(lower_text(conn@)) && !ado_trust_conflict(conn@) && ado_sets_trust_ca(conn@)
            && !ado_integrated_security(conn@) && ado_manager_settings(conn@) is Some ==> (r matches Err(
            DbError::Connection(e),
        ) && e@ == trust_ca_refusal()),
        is_ado_style(lower_text(conn@)) && !ado_sets_trust_ca(conn@) && !ado_integrated_security(
            conn@,
        ) ==> (r is Ok <==> ado_manager_settings(conn@) is Some),
        is_ado_style(lower_text(conn@)) && !ado_sets_trust_ca(conn@) && !ado_integrated_security(
            conn@,
        ) ==> (r matches Ok(m) ==> ado_manager_settings(conn@) matches Some(st) && manager_settings(
            m,
        ) == st.insert("max_size"@, "10"@).insert("trust_cert"@, "true"@)),
        is_ado_style(lower_text(conn@)) ==> (r matches Ok(m) ==> (!ado_sets_trust_ca(conn@)
            && manager_settings(m).contains_key("max_size"@) && manager_settings(m)["max_size"@]
            == "10"@ && manager_settings(m).contains_key("trust_cert"@) && manager_settings(
            m,
        )["trust_cert"@] == "true"@)),
        r matches Err(e) ==> e is Connection,
{
    proof {
        lemma_setting_names();
        reveal_strlit("10");
        assert(decimal(1) =~= seq!['1']);
        assert(decimal(10) =~= seq!['1', '0']);
        assert(decimal(10) =~= "10"@);
    }
    match build_manager(conn) {
        Ok(m) => {
            if is_ado_connection_string(conn) && sets_trust_ca(conn) {
                return Err(
                    DbError::Connection(
                        string_of(
                            &chars_of(
                                "TrustServerCertificateCA is not supported: the pool always trusts the server certificate",
                            ),
                        ),
                    ),
                );
            }
            let sized = with_max_size(m, 10);
            Ok(with_trust_cert(sized))
        },
        Err(e) => Err(e),
    }
}


// ---------------------------------------------------------------------------
// Laws of the service's own format
// ---------------------------------------------------------------------------

/// The key of a `key=value` piece, trimmed and lowercased, when the piece
/// has an `=`.
pub open spec fn piece_key(p: Seq<char>) -> Option<Seq<char>> {
    match first_index(trim(p), '=') {
        Some(e) => Some(lower_text(trim(trim(p).take(e as int)))),
        None => None,
    }
}

/// The value of a `key=value` piece: what follows its first `=`, trimmed.
pub open spec fn piece_value(p: Seq<char>) -> Seq<char> {
    match first_index(trim(p), '=') {
        Some(e) => trim(trim(p).skip(e as int + 1)),
        None => Seq::empty(),
    }
}

/// A piece that names the database: its key is `database` or `db`.
pub open spec fn names_database(p: Seq<char>) -> bool {
    piece_key(p) == Some("database"@) || piece_key(p) == Some("db"@)
}

proof fn lemma_setting_keys()
    ensures
        "database"@ != "server"@,
        "database"@ != "host"@,
        "database"@ != "port"@,
        "database"@ != "uid"@,
        "database"@ != "user"@,
        "database"@ != "username"@,
        "database"@ != "pwd"@,
        "database"@ != "password"@,
        "db"@ != "server"@,
        "db"@ != "host"@,
        "db"@ != "port"@,
        "db"@ != "uid"@,
        "db"@ != "user"@,
        "db"@ != "username"@,
        "db"@ != "pwd"@,
        "db"@ != "password"@,
        "db"@ != "database"@,
{
    reveal_strlit("database");
    reveal_strlit("db");
    reveal_strlit("server");
    reveal_strlit("host");
    reveal_strlit("port");
    reveal_strlit("uid");
    reveal_strlit("user");
    reveal_strlit("username");
    reveal_strlit("pwd");
    reveal_strlit("password");
    assert("database"@.len() == 8 && "db"@.len() == 2 && "server"@.len() == 6);
    assert("host"@.len() == 4 && "port"@.len() == 4 && "uid"@.len() == 3 && "user"@.len() == 4);
    assert("username"@.len() == 8 && "pwd"@.len() == 3 && "password"@.len() == 8);
    assert("database"@[0] != "username"@[0]);
    assert("database"@[0] != "password"@[0]);
}

proof fn lemma_manager_keys()
    ensures
        "host"@ != "port"@,
        "host"@ != "database"@,
        "host"@ != "encryption"@,
        "host"@ != "trust_cert"@,
        "host"@ != "user"@,
        "host"@ != "password"@,
        "port"@ != "database"@,
        "port"@ != "encryption"@,
        "port"@ != "trust_cert"@,
        "port"@ != "user"@,
        "port"@ != "password"@,
        "database"@ != "encryption"@,
        "database"@ != "trust_cert"@,
        "database"@ != "user"@,
        "database"@ != "password"@,
        "encryption"@ != "trust_cert"@,
        "encryption"@ != "user"@,
        "encryption"@ != "password"@,
        "trust_cert"@ != "user"@,
        "trust_cert"@ != "password"@,
        "user"@ != "password"@,
{
    reveal_strlit("host");
    reveal_strlit("port");
    reveal_strlit("database");
    reveal_strlit("encryption");
    reveal_strlit("trust_cert");
    reveal_strlit("user");
    reveal_strlit("password");
    assert("host"@.len() == 4 && "port"@.len() == 4 && "database"@.len() == 8);
    assert("encryption"@.len() == 10 && "trust_cert"@.len() == 10 && "user"@.len() == 4);
    assert("password"@.len() == 8);
    assert("host"@[0] != "port"@[0]);
    assert("host"@[0] != "user"@[0]);
    assert("port"@[0] != "user"@[0]);
    assert("database"@[0] != "password"@[0]);
    assert("encryption"@[0] != "trust_cert"@[0]);
}

proof fn lemma_piece_database(st: SettingsView, p: Seq<char>)
    ensures
        piece_applied(st, p).2 == if names_database(p) {
            Some(piece_value(p))
        } else {
            st.2
        },
{
    lemma_setting_keys();
    let t = trim(p);
    if t.len() == 0 {
        assert(first_index(t, '=') is None);
    }
}

proof fn lemma_pieces_no_database(ps: Seq<Seq<char>>)
    requires
        forall|i: int| 0 <= i < ps.len() ==> !names_database(#[trigger] ps[i]),
    ensures
        pieces_applied(ps).2 is None,
    decreases ps.len(),
{
    if ps.len() > 0 {
        let p0 = ps.drop_last();
        assert forall|i: int| 0 <= i < p0.len() implies !names_database(#[trigger] p0[i]) by {
            assert(p0[i] == ps[i]);
        }
        lemma_pieces_no_database(p0);
        assert(!names_database(ps[ps.len() - 1]));
        lemma_piece_database(pieces_applied(p0), ps.last());
    }
}

proof fn lemma_pieces_last_database(ps: Seq<Seq<char>>, i: int)
    requires
        0 <= i < ps.len(),
        names_database(ps[i]),
        forall|j: int| i < j < ps.len() ==> !names_database(#[trigger] ps[j]),
    ensures
        pieces_applied(ps).2 == Some(piece_value(ps[i])),
    decreases ps.len(),
{
    let p0 = ps.drop_last();
    lemma_piece_database(pieces_applied(p0), ps.last());
    if i < ps.len() - 1 {
        assert(!names_database(ps[ps.len() - 1]));
        assert(p0[i] == ps[i]);
        assert forall|j: int| i < j < p0.len() implies !names_database(#[trigger] p0[j]) by {
            assert(p0[j] == ps[j]);
        }
        lemma_pieces_last_database(p0, i);
    }
}

/// What the settings of a connection string in the service's own format
/// give reaches the manager built from them: host, port (in decimal),
/// database, encryption (`required` or `off`), certificate trust, and the
/// user and password when both are given; a setting not given is not there.
pub proof fn law_settings_reach_manager(st: SettingsView)
    ensures
        st.0 matches Some(h) ==> settings_map(st).contains_key("host"@) && settings_map(st)["host"@]
            == h,
        st.0 is None ==> !settings_map(st).contains_key("host"@),
        st.1 matches Some(p) ==> settings_map(st).contains_key("port"@) && settings_map(st)["port"@]
            == decimal(p as nat),
        st.1 is None ==> !settings_map(st).contains_key("port"@),
        st.2 matches Some(d) ==> settings_map(st).contains_key("database"@) && settings_map(
            st,
        )["database"@] == d,
        st.2 is None ==> !settings_map(st).contains_key("database"@),
        st.3 == Some(true) ==> settings_map(st).contains_key("encryption"@) && settings_map(
            st,
        )["encryption"@] == "required"@,
        st.3 == Some(false) ==> settings_map(st).contains_key("encryption"@) && settings_map(
            st,
        )["encryption"@] == "off"@,
        st.3 is None ==> !settings_map(st).contains_key("encryption"@),
        st.4 <==> settings_map(st).contains_key("trust_cert"@),
        (st.5 is Some && st.6 is Some) <==> settings_map(st).contains_key("user"@),
        (st.5 is Some && st.6 is Some) <==> settings_map(st).contains_key("password"@),
        (st.5 is Some && st.6 is Some) ==> settings_map(st)["user"@] == st.5->0 && settings_map(
            st,
        )["password"@] == st.6->0,
{
    lemma_manager_keys();
}

/// A database named in a connection string in the service's own format
/// reaches the manager: the manager holds the value of the last piece whose
/// key is `database` or `db`, and no database when no piece names one.
pub proof fn law_database_reaches_manager(conn: Seq<char>)
    ensures
        forall|i: int|
            0 <= i < split(conn, ';').len() && names_database(#[trigger] split(conn, ';')[i])
                && (forall|j: int|
                i < j < split(conn, ';').len() ==> !names_database(split(conn, ';')[j]))
                ==> settings_map(connection_settings_of(conn)).contains_key("database"@)
                && settings_map(connection_settings_of(conn))["database"@] == piece_value(
                split(conn, ';')[i],
            ),
        (forall|i: int|
            0 <= i < split(conn, ';').len() ==> !names_database(#[trigger] split(conn, ';')[i]))
            ==> !settings_map(connection_settings_of(conn)).contains_key("database"@),
{
    let ps = split(conn, ';');
    law_settings_reach_manager(connection_settings_of(conn));
    assert forall|i: int|
        0 <= i < ps.len() && names_database(#[trigger] ps[i]) && (forall|j: int|
            i < j < ps.len() ==> !names_database(ps[j])) implies settings_map(
        connection_settings_of(conn),
    ).contains_key("database"@) && settings_map(connection_settings_of(conn))["database"@]
        == piece_value(ps[i]) by {
        lemma_pieces_last_database(ps, i);
    }
    if forall|i: int| 0 <= i < ps.len() ==> !names_database(#[trigger] ps[i]) {
        lemma_pieces_no_database(ps);
    }
}

} // verus!
