//! History store adapter.
//!
//! Alarm events are persisted in an external time-series database spoken to
//! over HTTP: queries travel URL-encoded in a GET request, responses come
//! back as JSON.  The query texts, the URL encoding and the reading of the
//! response are verified; the HTTP transport and the JSON document access
//! are trusted at the calls into their crates.

use vstd::prelude::*;
use vstd::string::{StringExecFns, StringSliceAdditionalSpecFns};

use crate::alarm::{AlarmAck, AlarmState, AlarmStatus, AlarmStatusV};
use crate::config::DBConfig;
use crate::digits::{push_i64, push_u64, spec_i64_str, spec_udigits};

verus! {

// ---------------------------------------------------------------------
// Trusted boundary: HTTP, JSON and the clock.
// ---------------------------------------------------------------------

/// Declares reqwest::blocking::Client so it can be held and passed around;
/// its values are opaque here.
#[verifier::external_type_specification]
#[verifier::external_body]
pub struct ExHttpClient(reqwest::blocking::Client);

/// Declares reqwest::blocking::Response; its values are opaque here.
#[verifier::external_type_specification]
#[verifier::external_body]
pub struct ExHttpResponse(reqwest::blocking::Response);

/// Declares serde_json::Value; its values are opaque here, read only
/// through the accessors below.
#[verifier::external_type_specification]
#[verifier::external_body]
pub struct ExJsonValue(serde_json::Value);

/// Relies on reqwest::blocking::Client::builder and ClientBuilder::build:
/// a fresh client with its own connection pool, or nothing when the
/// backend cannot be initialised.
#[verifier::external_body]
fn http_client_new() -> (r: Option<reqwest::blocking::Client>)
{
    reqwest::blocking::Client::builder().build().ok()
}

/// Relies on reqwest::blocking::Client::clone: a handle to the same
/// connection pool.
#[verifier::external_body]
fn http_client_clone(c: &reqwest::blocking::Client) -> (r: reqwest::blocking::Client)
{
    c.clone()
}

/// Relies on reqwest::blocking::Client::get and RequestBuilder::send: one
/// GET request; nothing on a transport error.
#[verifier::external_body]
fn http_get(c: &reqwest::blocking::Client, url: &str) -> (r: Option<reqwest::blocking::Response>)
{
    c.get(url).send().ok()
}

/// Relies on reqwest::blocking::Response::status and StatusCode::as_u16:
/// the numeric status code of the response.
#[verifier::external_body]
fn http_status(r: &reqwest::blocking::Response) -> (s: u16)
{
    r.status().as_u16()
}

/// Relies on reqwest::blocking::Response::text: the body as text; nothing
/// when it cannot be read.
#[verifier::external_body]
fn http_text(r: reqwest::blocking::Response) -> (s: Option<String>)
{
    r.text().ok()
}

/// Relies on serde_json::from_str: parses the document, or fails.
#[verifier::external_body]
fn json_parse(s: &str) -> (r: Option<serde_json::Value>)
{
    serde_json::from_str::<serde_json::Value>(s).ok()
}

/// Relies on serde_json::Value::get with a string index: the member of an
/// object, when present.
#[verifier::external_body]
fn json_member<'a>(v: &'a serde_json::Value, key: &str) -> (r: Option<&'a serde_json::Value>)
{
    v.get(key)
}

/// Relies on serde_json::Value::get with a numeric index: the element of
/// an array, when present.
#[verifier::external_body]
fn json_element<'a>(v: &'a serde_json::Value, i: usize) -> (r: Option<&'a serde_json::Value>)
{
    v.get(i)
}

/// Relies on serde_json::Value::as_bool: the value when it is a boolean.
#[verifier::external_body]
fn json_as_bool(v: &serde_json::Value) -> (r: Option<bool>)
{
    v.as_bool()
}

/// Relies on chrono::Utc::now and chrono::DateTime::to_rfc3339: the
/// current instant as an RFC 3339 timestamp.  The result depends on the
/// clock, so nothing is promised of it.
#[verifier::external_body]
fn now_rfc3339() -> (r: String)
{
    chrono::Utc::now().to_rfc3339()
}

} // verus!

verus! {

// ---------------------------------------------------------------------
// URL encoding and query texts, verified.
// ---------------------------------------------------------------------

/// Bytes that travel unencoded in a URL query.
pub open spec fn is_unreserved(b: u8) -> bool {
    (48 <= b <= 57) || (65 <= b <= 90) || (97 <= b <= 122) || b == 45 || b == 46 || b == 95 || b
        == 126
}

pub open spec fn hex_char(d: int) -> char {
    if d == 0 {
        '0'
    } else if d == 1 {
        '1'
    } else if d == 2 {
        '2'
    } else if d == 3 {
        '3'
    } else if d == 4 {
        '4'
    } else if d == 5 {
        '5'
    } else if d == 6 {
        '6'
    } else if d == 7 {
        '7'
    } else if d == 8 {
        '8'
    } else if d == 9 {
        '9'
    } else if d == 10 {
        'A'
    } else if d == 11 {
        'B'
    } else if d == 12 {
        'C'
    } else if d == 13 {
        'D'
    } else if d == 14 {
        'E'
    } else {
        'F'
    }
}

/// How one byte of query text travels in the URL.
pub open spec fn pct_char(b: u8) -> Seq<char> {
    if is_unreserved(b) {
        seq![b as char]
    } else {
        seq!['%', hex_char(b as int / 16), hex_char(b as int % 16)]
    }
}

/// A whole byte sequence percent-encoded.
pub open spec fn pct(bytes: Seq<u8>) -> Seq<char>
    decreases bytes.len(),
{
    if bytes.len() == 0 {
        Seq::empty()
    } else {
        pct(bytes.drop_last()) + pct_char(bytes.last())
    }
}

fn hex_ch(d: u8) -> (c: char)
    requires
        d < 16,
    ensures
        c == hex_char(d as int),
{
    if d == 0 {
        '0'
    } else if d == 1 {
        '1'
    } else if d == 2 {
        '2'
    } else if d == 3 {
        '3'
    } else if d == 4 {
        '4'
    } else if d == 5 {
        '5'
    } else if d == 6 {
        '6'
    } else if d == 7 {
        '7'
    } else if d == 8 {
        '8'
    } else if d == 9 {
        '9'
    } else if d == 10 {
        'A'
    } else if d == 11 {
        'B'
    } else if d == 12 {
        'C'
    } else if d == 13 {
        'D'
    } else if d == 14 {
        'E'
    } else {
        'F'
    }
}

/// Percent-encode the bytes of `s` for use in a URL query.
pub fn url_encode(s: &str) -> (r: String)
    ensures
        r@ == pct(s.spec_bytes()),
{
    let bytes = s.as_bytes();
    let n = bytes.len();
    let mut out = String::new();
    let mut i: usize = 0;
    while i < n
        invariant
            n == bytes@.len(),
            bytes@ == s.spec_bytes(),
            i <= n,
            out@ == pct(bytes@.take(i as int)),
        decreases n - i,
    {
        let b = bytes[i];
        if (48 <= b && b <= 57) || (65 <= b && b <= 90) || (97 <= b && b <= 122) || b == 45 || b
            == 46 || b == 95 || b == 126 {
            out.push(b as char);
        } else {
            out.push('%');
            out.push(hex_ch(b / 16));
            out.push(hex_ch(b % 16));
        }
        proof {
            assert(bytes@.take(i + 1 as int).drop_last() =~= bytes@.take(i as int));
            assert(out@ =~= pct(bytes@.take(i + 1 as int)));
        }
        i += 1;
    }
    proof {
        assert(bytes@.take(n as int) =~= bytes@);
    }
    out
}

/// The URL a query travels to: the exec endpoint with the query text
/// percent-encoded.
pub open spec fn spec_full_url(url: Seq<char>, query: Seq<u8>) -> Seq<char> {
    url + "/exec?query="@ + pct(query)
}

pub fn build_full_url(url: &str, query: &str) -> (r: String)
    ensures
        r@ == spec_full_url(url@, query.spec_bytes()),
{
    let mut out = String::new();
    out.append(url);
    out.append("/exec?query=");
    let q = url_encode(query);
    out.append(q.as_str());
    proof {
        assert(out@ =~= spec_full_url(url@, query.spec_bytes()));
    }
    out
}

/// A boolean as SQL spells it.
pub open spec fn spec_bool_str(b: bool) -> Seq<char> {
    if b {
        "true"@
    } else {
        "false"@
    }
}

fn bool_word(b: bool) -> (r: &'static str)
    ensures
        r@ == spec_bool_str(b),
{
    if b {
        "true"
    } else {
        "false"
    }
}

/// The row inserted for an event: timestamp, name, whether the state is
/// set, value, severity code and whether the event is acknowledged.
pub open spec fn spec_insert_query(table: Seq<char>, ts: Seq<char>, e: AlarmStatusV) -> Seq<
    char,
> {
    "INSERT INTO "@ + table + " VALUES ('"@ + ts + "','"@ + e.name + "',"@ + spec_bool_str(
        e.state is Set_,
    ) + ","@ + spec_i64_str(e.value) + ","@ + spec_udigits(e.severity.spec_code() as nat) + ","@
        + spec_bool_str(e.ack is Ack) + ");"@
}

pub fn insert_query(table: &str, ts: &str, e: &AlarmStatus) -> (r: String)
    ensures
        r@ == spec_insert_query(table@, ts@, e@),
{
    let mut out = String::new();
    out.append("INSERT INTO ");
    out.append(table);
    out.append(" VALUES ('");
    out.append(ts);
    out.append("','");
    out.append(e.name.as_str());
    out.append("',");
    out.append(bool_word(matches!(e.state, AlarmState::Set_)));
    out.append(",");
    push_i64(&mut out, e.value);
    out.append(",");
    push_u64(&mut out, e.severity.code() as u64);
    out.append(",");
    out.append(bool_word(matches!(e.ack, AlarmAck::Ack)));
    out.append(");");
    proof {
        assert(out@ =~= spec_insert_query(table@, ts@, e@));
    }
    out
}

/// The acknowledgement row: a copy of the latest row for the name, with
/// the acknowledged flag set, written at the given timestamp.
pub open spec fn spec_ack_query(table: Seq<char>, ts: Seq<char>, name: Seq<char>) -> Seq<char> {
    "insert into "@ + table + " select '"@ + ts + "' timestamp, '"@ + name
        + "' name, state, value, severity, true from "@ + table + " where name = '"@ + name
        + "' limit -1;"@
}

pub fn ack_query(table: &str, ts: &str, name: &str) -> (r: String)
    ensures
        r@ == spec_ack_query(table@, ts@, name@),
{
    let mut out = String::new();
    out.append("insert into ");
    out.append(table);
    out.append(" select '");
    out.append(ts);
    out.append("' timestamp, '");
    out.append(name);
    out.append("' name, state, value, severity, true from ");
    out.append(table);
    out.append(" where name = '");
    out.append(name);
    out.append("' limit -1;");
    proof {
        assert(out@ =~= spec_ack_query(table@, ts@, name@));
    }
    out
}

/// The query for the most recent row of one alarm.
pub open spec fn spec_latest_query(table: Seq<char>, name: Seq<char>) -> Seq<char> {
    "SELECT name, state, ack FROM "@ + table + " WHERE name = '"@ + name + "' LIMIT -1"@
}

pub fn latest_query(table: &str, name: &str) -> (r: String)
    ensures
        r@ == spec_latest_query(table@, name@),
{
    let mut out = String::new();
    out.append("SELECT name, state, ack FROM ");
    out.append(table);
    out.append(" WHERE name = '");
    out.append(name);
    out.append("' LIMIT -1");
    proof {
        assert(out@ =~= spec_latest_query(table@, name@));
    }
    out
}

/// The table schema: one row per event, partitioned by month and
/// deduplicated on timestamp and name.
pub open spec fn spec_create_table_query(table: Seq<char>) -> Seq<char> {
    "CREATE TABLE IF NOT EXISTS '"@ + table
        + "' (timestamp TIMESTAMP, name SYMBOL, state BOOLEAN, value LONG, severity SHORT, ack BOOLEAN) timestamp (timestamp) PARTITION BY MONTH WAL DEDUP UPSERT KEYS (timestamp, name);"@
}

pub fn create_table_query(table: &str) -> (r: String)
    ensures
        r@ == spec_create_table_query(table@),
{
    let mut out = String::new();
    out.append("CREATE TABLE IF NOT EXISTS '");
    out.append(table);
    out.append(
        "' (timestamp TIMESTAMP, name SYMBOL, state BOOLEAN, value LONG, severity SHORT, ack BOOLEAN) timestamp (timestamp) PARTITION BY MONTH WAL DEDUP UPSERT KEYS (timestamp, name);",
    );
    proof {
        assert(out@ =~= spec_create_table_query(table@));
    }
    out
}

// ---------------------------------------------------------------------
// Reading a latest-row response.
// ---------------------------------------------------------------------

/// The event a latest-row response stands for, given the two boolean
/// columns as they were found: the row is a set event exactly when the
/// state column holds true, and acknowledged exactly when the ack column
/// holds true.  Only these two fields carry information; the value and
/// severity of the stored row are not read back.
pub fn latest_status_from_fields(name: String, state: Option<bool>, ack: Option<bool>) -> (e:
    AlarmStatus)
    ensures
        e@.name == name@,
        e@.state == (if state == Some(true) {
            AlarmState::Set_
        } else {
            AlarmState::Reset
        }),
        e@.ack == (if ack == Some(true) {
            AlarmAck::Ack
        } else {
            AlarmAck::NotAck
        }),
        e@.value == i64::MAX as int,
        e@.severity is High,
{
    AlarmStatus {
        name,
        state: if state == Some(true) {
            AlarmState::Set_
        } else {
            AlarmState::Reset
        },
        value: i64::MAX,
        severity: crate::alarm::AlarmSeverity::High,
        ack: if ack == Some(true) {
            AlarmAck::Ack
        } else {
            AlarmAck::NotAck
        },
    }
}

/// The adapter to the history store.
pub struct DB {
    url: String,
    table: String,
    client: reqwest::blocking::Client,
}

impl DB {
    /// The base URL queries are sent to.
    pub closed spec fn spec_url(&self) -> Seq<char> {
        self.url@
    }

    /// The table events are persisted in.
    pub closed spec fn spec_table(&self) -> Seq<char> {
        self.table@
    }

    /// A second handle to the same store and connection pool.
    pub fn duplicate(&self) -> (r: DB)
        ensures
            r.spec_url() == self.spec_url(),
            r.spec_table() == self.spec_table(),
    {
        DB {
            url: self.url.clone(),
            table: self.table.clone(),
            client: http_client_clone(&self.client),
        }
    }

    /// An adapter for the configured store, or nothing when the HTTP
    /// backend cannot be initialised.
    pub fn new(config: DBConfig) -> (r: Option<DB>)
        ensures
            r matches Some(db) ==> db.spec_url() == config.url@ && db.spec_table()
                == config.table@,
    {
        match http_client_new() {
            Option::Some(client) => Option::Some(
                DB { url: config.url, table: config.table, client },
            ),
            Option::None => Option::None,
        }
    }

    /// Perform one query; the response body on HTTP success, nothing on a
    /// transport error or a non-200 status.
    fn exec(&self, query: &str) -> (r: Option<String>) {
        let url = build_full_url(self.url.as_str(), query);
        let resp = match http_get(&self.client, url.as_str()) {
            Option::Some(resp) => resp,
            Option::None => {
                return Option::None;
            },
        };
        if http_status(&resp) != 200 {
            return Option::None;
        }
        http_text(resp)
    }

    /// Append one event row.  Persistence is best effort: failure is
    /// swallowed, the engine does not block on it.
    pub fn insert_alm(&self, alm: AlarmStatus) {
        let ts = now_rfc3339();
        let q = insert_query(self.table.as_str(), ts.as_str(), &alm);
        let _ = self.exec(q.as_str());
    }

    /// Record an operator acknowledgement as a copy of the latest row with
    /// the acknowledged flag set.  Best effort, as with inserts.
    pub fn send_ack(&self, path: &str) {
        let ts = now_rfc3339();
        let q = ack_query(self.table.as_str(), ts.as_str(), path);
        let _ = self.exec(q.as_str());
    }

    /// The most recent event for `path`, or nothing when there is none or
    /// the query failed.
    ///
    /// Whatever the response held, a returned event is for `path`, carries
    /// a real state and a real acknowledgement, and does not reproduce the
    /// stored value or severity; the exact reading of the two boolean
    /// columns is [`latest_status_from_fields`].
    pub fn get_latest_alm(&self, path: String) -> (r: Option<AlarmStatus>)
        ensures
            r matches Some(e) ==> e@.name == path@ && (e@.state is Set_ || e@.state is Reset) && (
            e@.ack is Ack || e@.ack is NotAck) && e@.value == i64::MAX as int && e@.severity
                is High,
    {
        let q = latest_query(self.table.as_str(), path.as_str());
        let body = match self.exec(q.as_str()) {
            Option::Some(b) => b,
            Option::None => {
                return Option::None;
            },
        };
        let json = match json_parse(body.as_str()) {
            Option::Some(j) => j,
            Option::None => {
                return Option::None;
            },
        };
        let row = match json_member(&json, "dataset") {
            Option::Some(ds) => match json_element(ds, 0) {
                Option::Some(row) => row,
                Option::None => {
                    return Option::None;
                },
            },
            Option::None => {
                return Option::None;
            },
        };
        let state = match json_element(row, 1) {
            Option::Some(v) => json_as_bool(v),
            Option::None => Option::None,
        };
        let ack = match json_element(row, 2) {
            Option::Some(v) => json_as_bool(v),
            Option::None => Option::None,
        };
        Option::Some(latest_status_from_fields(path, state, ack))
    }

    /// Create the table if it does not exist.  Best effort at startup.
    pub fn try_create_table(&self) {
        let q = create_table_query(self.table.as_str());
        let _ = self.exec(q.as_str());
    }
}

} // verus!
