//! Tests of configuration parsing, alarm building and ingress decoding.

use alarm_server::alarm::AlarmSeverity;
use alarm_server::config::{
    build_alarms, create_alarms, parse_config, severity_from_code, AlarmDef, Config, ConfigError,
};
use alarm_server::ingress::{parse_payload, IngressAction, MeasRouter};

#[test]
fn test_example() {
    // the example server configuration document spells out the defaults
    let doc = r#"
[broker]
ip = "127.0.0.1"
port = 5672
username = "guest"
password = "guest"

[server]
ip = "127.0.0.1"
port = 8080

[alarm]
path = "examples/config.yaml"

[db]
url = "http://localhost:9000"
table = "Alarms"
"#;
    let config = parse_config(doc).expect("Invalid configuration file");

    assert_eq!(config.alarm.path, "examples/config.yaml");

    assert_eq!(config.server.ip, "127.0.0.1");
    assert_eq!(config.server.port, 8080);

    assert_eq!(config.broker.ip, "127.0.0.1");
    assert_eq!(config.broker.port, 5672);
    assert_eq!(config.broker.username, "guest");
    assert_eq!(config.broker.password, "guest");
}

#[test]
fn test_empty() {
    // an empty document gives the built-in defaults throughout
    let config: Config = parse_config("").expect("Invalid configuration file");

    assert_eq!(config.alarm.path, "examples/config.yaml");

    assert_eq!(config.server.ip, "127.0.0.1");
    assert_eq!(config.server.port, 8080);

    assert_eq!(config.broker.ip, "127.0.0.1");
    assert_eq!(config.broker.port, 5672);
    assert_eq!(config.broker.username, "guest");
    assert_eq!(config.broker.password, "guest");
}

#[test]
fn test_missing_fields() {
    let config = r#"
        [broker]
        port = 5672
        password = "guest"

        [server]
        port = 8080
    "#;

    let config: Config = parse_config(config).expect("Invalid configuration file");

    assert_eq!(config.alarm.path, "examples/config.yaml");

    assert_eq!(config.server.ip, "127.0.0.1");
    assert_eq!(config.server.port, 8080);

    assert_eq!(config.broker.ip, "127.0.0.1");
    assert_eq!(config.broker.port, 5672);
    assert_eq!(config.broker.username, "guest");
    assert_eq!(config.broker.password, "guest");
}

#[test]
fn config_sections_are_read() {
    let config = parse_config(
        "[broker]\nip = \"10.0.0.1\"\nport = 5673\n[db]\nurl = \"http://db:9000\"\ntable = \"T\"\n",
    )
    .expect("the document is valid");
    assert_eq!(config.broker.ip, "10.0.0.1");
    assert_eq!(config.broker.port, 5673);
    assert_eq!(config.db.url, "http://db:9000");
    assert_eq!(config.db.table, "T");
}

#[test]
fn config_bad_fields_are_errors() {
    // not TOML at all
    assert_eq!(parse_config("::").err(), Some(ConfigError::InvalidDocument));
    // a field of the wrong type
    assert_eq!(parse_config("[server]\nport = \"x\"\n").err(), Some(ConfigError::InvalidDocument));
    // a port out of range
    assert_eq!(parse_config("[server]\nport = 65536\n").err(), Some(ConfigError::InvalidDocument));
}

#[test]
fn severity_codes() {
    assert_eq!(severity_from_code(2), Some(AlarmSeverity::High));
    assert_eq!(severity_from_code(1), Some(AlarmSeverity::Medium));
    assert_eq!(severity_from_code(0), Some(AlarmSeverity::Low));
    assert_eq!(severity_from_code(3), None);
    assert_eq!(severity_from_code(-1), None);
}

fn def(area: &str, name: &str, sev: i64, meas: &str) -> AlarmDef {
    AlarmDef {
        area: area.to_string(),
        name: name.to_string(),
        set: 1,
        reset: 2,
        severity_code: sev,
        meas: meas.to_string(),
    }
}

#[test]
fn build_alarms_joins_names() {
    let alms = build_alarms(&vec![def("a", "x", 2, "m1"), def("a", "y", 0, "m2")])
        .expect("the definitions are valid");
    assert_eq!(alms.len(), 2);
    assert_eq!(alms[0].path, "a/x");
    assert_eq!(alms[0].severity, AlarmSeverity::High);
    assert_eq!(alms[0].meas, "m1");
    assert_eq!(alms[1].path, "a/y");
    assert_eq!(alms[1].severity, AlarmSeverity::Low);
}

#[test]
fn duplicate_names_refuse_startup() {
    let r = build_alarms(&vec![def("a", "x", 2, "m1"), def("a", "x", 1, "m2")]);
    assert_eq!(r.err(), Some(ConfigError::DuplicateName));
}

#[test]
fn invalid_severity_refuses_startup() {
    let r = build_alarms(&vec![def("a", "x", 7, "m1")]);
    assert_eq!(r.err(), Some(ConfigError::InvalidSeverity));
}

#[test]
fn create_alarms_from_yaml() {
    let doc = "a:\n  x:\n    set: 1\n    reset: 2\n    severity: 2\n    meas: m1\n  y:\n    set: 3\n    reset: 4\n    severity: 0\n    meas: m2\n";
    let alms = create_alarms(doc).expect("the document is valid");
    assert_eq!(alms.len(), 2);
    assert_eq!(alms[0].path, "a/x");
    assert_eq!(alms[0].set, 1);
    assert_eq!(alms[0].reset, 2);
    assert_eq!(alms[1].path, "a/y");
    assert_eq!(alms[1].meas, "m2");
}

#[test]
fn create_alarms_refuses_duplicates() {
    // two areas may not both define the same fully-qualified name, and one
    // area may not define one alarm name twice under different spellings of
    // the same qualified name
    let doc = "a/x:\n  y:\n    set: 1\n    reset: 2\n    severity: 2\n    meas: m1\na:\n  x/y:\n    set: 1\n    reset: 2\n    severity: 2\n    meas: m1\n";
    assert_eq!(create_alarms(doc).err(), Some(ConfigError::DuplicateName));
}

#[test]
fn create_alarms_requires_fields() {
    let doc = "a:\n  x:\n    set: 1\n    severity: 2\n    meas: m1\n";
    assert_eq!(create_alarms(doc).err(), Some(ConfigError::MissingField));
}

#[test]
fn payload_decoding() {
    assert_eq!(parse_payload(b"0"), Some(0));
    assert_eq!(parse_payload(b"1"), Some(1));
    assert_eq!(parse_payload(b"-42"), Some(-42));
    assert_eq!(parse_payload(b"+7"), Some(7));
    assert_eq!(parse_payload(b"007"), Some(7));
    assert_eq!(parse_payload(b"9223372036854775807"), Some(i64::MAX));
    assert_eq!(parse_payload(b"-9223372036854775808"), Some(i64::MIN));
    assert_eq!(parse_payload(b"9223372036854775808"), None);
    assert_eq!(parse_payload(b"-9223372036854775809"), None);
    assert_eq!(parse_payload(b""), None);
    assert_eq!(parse_payload(b"-"), None);
    assert_eq!(parse_payload(b"1x"), None);
    assert_eq!(parse_payload(b" 1"), None);
    assert_eq!(parse_payload("ä1".as_bytes()), None);
}

#[test]
fn router_reuses_routes() {
    let mut router = MeasRouter::new();
    let (i1, created1) = router.subscribe("m1");
    assert_eq!((i1, created1), (0, true));
    let (i2, created2) = router.subscribe("m2");
    assert_eq!((i2, created2), (1, true));
    // a repeat registration reuses the existing route
    let (i3, created3) = router.subscribe("m1");
    assert_eq!((i3, created3), (0, false));
    assert_eq!(router.route_of("m2"), Some(1));
    assert_eq!(router.route_of("m9"), None);
}

#[test]
fn measurement_frames_route_or_discard() {
    let mut router = MeasRouter::new();
    router.subscribe("m1");
    assert_eq!(router.on_measurement_frame("m1", b"5"), IngressAction::Deliver(0, 5));
    assert_eq!(router.on_measurement_frame("m1", b"x"), IngressAction::Discard);
    assert_eq!(router.on_measurement_frame("m9", b"5"), IngressAction::Discard);
}
