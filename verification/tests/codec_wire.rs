//! Tests of the JSON event codec and the store query texts.

use alarm_server::alarm::{AlarmAck, AlarmSeverity, AlarmState, AlarmStatus};
use alarm_server::codec::{decode, encode};
use alarm_server::store::{
    ack_query, build_full_url, create_table_query, insert_query, latest_query,
    latest_status_from_fields, url_encode,
};

fn event(name: &str, state: AlarmState, value: i64, sev: AlarmSeverity, ack: AlarmAck) -> AlarmStatus {
    AlarmStatus { name: name.to_string(), state, value, severity: sev, ack }
}

#[test]
fn encode_is_plain_json() {
    let e = event("a/x", AlarmState::Set_, 1, AlarmSeverity::High, AlarmAck::NotAck);
    assert_eq!(
        encode(&e),
        "{\"name\":\"a/x\",\"state\":\"Set\",\"value\":1,\"severity\":\"High\",\"ack\":\"NotAck\"}"
    );
}

#[test]
fn encode_agrees_with_a_json_parser() {
    let e = event("a/x", AlarmState::Reset, -42, AlarmSeverity::Medium, AlarmAck::None_);
    let text = encode(&e);
    let v: serde_json::Value = serde_json::from_str(&text).expect("the text is JSON");
    assert_eq!(v.get("name").and_then(|x| x.as_str()), Some("a/x"));
    assert_eq!(v.get("state").and_then(|x| x.as_str()), Some("Reset"));
    assert_eq!(v.get("value").and_then(|x| x.as_i64()), Some(-42));
    assert_eq!(v.get("severity").and_then(|x| x.as_str()), Some("Medium"));
    assert_eq!(v.get("ack").and_then(|x| x.as_str()), Some("None"));
}

fn round_trip(e: &AlarmStatus) {
    let text = encode(e);
    let d = decode(&text).expect("an encoded event decodes");
    assert_eq!(d.name, e.name);
    assert_eq!(d.state, e.state);
    assert_eq!(d.value, e.value);
    assert_eq!(d.severity, e.severity);
    assert_eq!(d.ack, e.ack);
}

#[test]
fn round_trip_plain() {
    round_trip(&event("a/x", AlarmState::Set_, 1, AlarmSeverity::High, AlarmAck::NotAck));
    round_trip(&event("", AlarmState::Unknown, 0, AlarmSeverity::Unknown, AlarmAck::Ack));
    round_trip(&event("b/y", AlarmState::Reset, -7, AlarmSeverity::Low, AlarmAck::None_));
}

#[test]
fn round_trip_escaped_names() {
    round_trip(&event(
        "a\"x\\y\nz\t\r",
        AlarmState::Set_,
        5,
        AlarmSeverity::Medium,
        AlarmAck::NotAck,
    ));
    round_trip(&event("μονάδα/θερμό", AlarmState::Reset, 3, AlarmSeverity::High, AlarmAck::Ack));
}

#[test]
fn round_trip_extreme_values() {
    round_trip(&event("a/x", AlarmState::Set_, i64::MIN, AlarmSeverity::High, AlarmAck::NotAck));
    round_trip(&event("a/x", AlarmState::Set_, i64::MAX, AlarmSeverity::High, AlarmAck::NotAck));
}

#[test]
fn decode_rejects_mangled_text() {
    assert!(decode("").is_none());
    assert!(decode("{\"name\":\"a").is_none());
    assert!(decode("{\"name\":\"a\",\"state\":\"Wrong\",\"value\":1,\"severity\":\"High\",\"ack\":\"Ack\"}").is_none());
    let good = encode(&event("a/x", AlarmState::Set_, 1, AlarmSeverity::High, AlarmAck::NotAck));
    let mut trailing = good.clone();
    trailing.push(' ');
    assert!(decode(&trailing).is_none());
}

#[test]
fn url_encoding_is_percent_encoding() {
    assert_eq!(url_encode("abc-XYZ_0.9~"), "abc-XYZ_0.9~");
    assert_eq!(url_encode("a b/c"), "a%20b%2Fc");
    assert_eq!(url_encode("ä"), "%C3%A4");
    assert_eq!(
        build_full_url("http://localhost:9000", "SELECT 1"),
        "http://localhost:9000/exec?query=SELECT%201"
    );
}

#[test]
fn query_texts() {
    let e = event("a/x", AlarmState::Set_, 1, AlarmSeverity::High, AlarmAck::NotAck);
    assert_eq!(
        insert_query("Alarms", "2020-01-01T00:00:00+00:00", &e),
        "INSERT INTO Alarms VALUES ('2020-01-01T00:00:00+00:00','a/x',true,1,3,false);"
    );
    assert_eq!(
        latest_query("Alarms", "a/x"),
        "SELECT name, state, ack FROM Alarms WHERE name = 'a/x' LIMIT -1"
    );
    assert_eq!(
        ack_query("Alarms", "t0", "a/x"),
        "insert into Alarms select 't0' timestamp, 'a/x' name, state, value, severity, true \
         from Alarms where name = 'a/x' limit -1;"
    );
    let schema = create_table_query("Alarms");
    assert_eq!(
        schema,
        "CREATE TABLE IF NOT EXISTS 'Alarms' (timestamp TIMESTAMP, name SYMBOL, state BOOLEAN, \
         value LONG, severity SHORT, ack BOOLEAN) timestamp (timestamp) PARTITION BY MONTH WAL \
         DEDUP UPSERT KEYS (timestamp, name);"
    );
}

#[test]
fn latest_row_reading() {
    let e = latest_status_from_fields("a/x".to_string(), Some(true), Some(false));
    assert_eq!(e.state, AlarmState::Set_);
    assert_eq!(e.ack, AlarmAck::NotAck);
    assert_eq!(e.name, "a/x");
    assert_eq!(e.value, i64::MAX);
    assert_eq!(e.severity, AlarmSeverity::High);
    let e = latest_status_from_fields("a/x".to_string(), Some(false), Some(true));
    assert_eq!(e.state, AlarmState::Reset);
    assert_eq!(e.ack, AlarmAck::Ack);
    // a column that is not a boolean reads as reset and unacknowledged
    let e = latest_status_from_fields("a/x".to_string(), None, None);
    assert_eq!(e.state, AlarmState::Reset);
    assert_eq!(e.ack, AlarmAck::NotAck);
}
