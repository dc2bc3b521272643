//! Server configuration and alarm definitions.
//!
//! The server configuration is a TOML document with `broker`, `server`,
//! `alarm` and `db` sections; missing sections and missing scalar fields
//! fall back to built-in defaults.  The alarm definitions are a YAML
//! document with a two-level mapping from area and alarm name to the
//! alarm's values.  Reading the files is the application's job; everything
//! from text to validated values happens here.

use vstd::prelude::*;
use vstd::string::StringExecFns;

use crate::alarm::{Alarm, AlarmSeverity};
use yaml_rust::{Yaml, YamlLoader};

verus! {

pub struct BrokerConfig {
    pub ip: String,
    pub port: u16,
    pub username: String,
    pub password: String,
}

pub struct ServerConfig {
    pub ip: String,
    pub port: u16,
}

pub struct AlarmConfig {
    pub path: String,
}

pub struct DBConfig {
    pub url: String,
    pub table: String,
}

pub struct Config {
    pub broker: BrokerConfig,
    pub server: ServerConfig,
    pub alarm: AlarmConfig,
    pub db: DBConfig,
}

pub fn default_ip() -> (r: String)
    ensures
        r@ == "127.0.0.1"@,
{
    "127.0.0.1".to_owned()
}

pub fn default_cred() -> (r: String)
    ensures
        r@ == "guest"@,
{
    "guest".to_owned()
}

pub fn default_path() -> (r: String)
    ensures
        r@ == "examples/config.yaml"@,
{
    "examples/config.yaml".to_owned()
}

pub fn default_url() -> (r: String)
    ensures
        r@ == "http://localhost:9000"@,
{
    "http://localhost:9000".to_owned()
}

pub fn default_table() -> (r: String)
    ensures
        r@ == "Alarms"@,
{
    "Alarms".to_owned()
}

pub fn default_port<const P: u16>() -> (r: u16)
    ensures
        r == P,
{
    P
}

impl Default for BrokerConfig {
    fn default() -> (r: BrokerConfig)
        ensures
            r.ip@ == "127.0.0.1"@,
            r.port == 5672,
            r.username@ == "guest"@,
            r.password@ == "guest"@,
    {
        BrokerConfig {
            ip: default_ip(),
            port: default_port::<5672>(),
            username: default_cred(),
            password: default_cred(),
        }
    }
}

impl Default for ServerConfig {
    fn default() -> (r: ServerConfig)
        ensures
            r.ip@ == "127.0.0.1"@,
            r.port == 8080,
    {
        ServerConfig { ip: default_ip(), port: default_port::<8080>() }
    }
}

impl Default for AlarmConfig {
    fn default() -> (r: AlarmConfig)
        ensures
            r.path@ == "examples/config.yaml"@,
    {
        AlarmConfig { path: default_path() }
    }
}

impl Default for DBConfig {
    fn default() -> (r: DBConfig)
        ensures
            r.url@ == "http://localhost:9000"@,
            r.table@ == "Alarms"@,
    {
        DBConfig { url: default_url(), table: default_table() }
    }
}

impl Default for Config {
    fn default() -> (r: Config)
        ensures
            r.broker.ip@ == "127.0.0.1"@,
            r.broker.port == 5672,
            r.broker.username@ == "guest"@,
            r.broker.password@ == "guest"@,
            r.server.ip@ == "127.0.0.1"@,
            r.server.port == 8080,
            r.alarm.path@ == "examples/config.yaml"@,
            r.db.url@ == "http://localhost:9000"@,
            r.db.table@ == "Alarms"@,
    {
        Config {
            broker: Default::default(),
            server: Default::default(),
            alarm: Default::default(),
            db: Default::default(),
        }
    }
}

/// Why a configuration document was refused.
#[derive(Clone, Copy, Debug, PartialEq, Eq, Structural)]
pub enum ConfigError {
    /// The document does not parse, or a field has the wrong type.
    InvalidDocument,
    /// An alarm definition lacks one of its required fields.
    MissingField,
    /// An alarm's severity code is not one of 0, 1 and 2.
    InvalidSeverity,
    /// Two alarm definitions share one fully-qualified name.
    DuplicateName,
}

impl ConfigError {
    /// A diagnostic line for this error.
    pub fn message(&self) -> (r: &'static str)
        ensures
            self is InvalidDocument ==> r@ == "Invalid configuration file"@,
            self is MissingField ==> r@ == "Alarm definition is missing a required field"@,
            self is InvalidSeverity ==> r@ == "Invalid severity!"@,
            self is DuplicateName ==> r@ == "Duplicate alarm name"@,
    {
        match self {
            ConfigError::InvalidDocument => "Invalid configuration file",
            ConfigError::MissingField => "Alarm definition is missing a required field",
            ConfigError::InvalidSeverity => "Invalid severity!",
            ConfigError::DuplicateName => "Duplicate alarm name",
        }
    }
}

} // verus!

verus! {

// ---------------------------------------------------------------------
// TOML access, trusted at the calls into the `toml` crate.  Each read
// takes the document text itself, so its result depends on plain values
// alone and can bear a name; the document is parsed anew for each field,
// which configuration loading can afford.
// ---------------------------------------------------------------------

/// A scalar text field as a document holds it.
pub enum TextField {
    /// The document does not parse.
    NoDocument,
    /// The section or the field is absent.
    Absent,
    /// The field is present but is not a string.
    WrongType,
    Given(String),
}

/// Mathematical model of a [`TextField`].
pub ghost enum TextFieldV {
    NoDocument,
    Absent,
    WrongType,
    Given(Seq<char>),
}

impl View for TextField {
    type V = TextFieldV;

    open spec fn view(&self) -> TextFieldV {
        match self {
            TextField::NoDocument => TextFieldV::NoDocument,
            TextField::Absent => TextFieldV::Absent,
            TextField::WrongType => TextFieldV::WrongType,
            TextField::Given(s) => TextFieldV::Given(s@),
        }
    }
}

/// A scalar integer field as a document holds it.
pub enum IntField {
    NoDocument,
    Absent,
    WrongType,
    Given(i64),
}

/// Mathematical model of an [`IntField`].
pub ghost enum IntFieldV {
    NoDocument,
    Absent,
    WrongType,
    Given(int),
}

impl View for IntField {
    type V = IntFieldV;

    open spec fn view(&self) -> IntFieldV {
        match self {
            IntField::NoDocument => IntFieldV::NoDocument,
            IntField::Absent => IntFieldV::Absent,
            IntField::WrongType => IntFieldV::WrongType,
            IntField::Given(i) => IntFieldV::Given(*i as int),
        }
    }
}

/// The string field of `section` under `key` in the TOML document `doc`.
pub uninterp spec fn spec_toml_text(doc: Seq<char>, section: Seq<char>, key: Seq<char>) -> TextFieldV;

/// The integer field of `section` under `key` in the TOML document `doc`.
pub uninterp spec fn spec_toml_int(doc: Seq<char>, section: Seq<char>, key: Seq<char>) -> IntFieldV;

/// Relies on toml::from_str, toml::Value::get and Value::as_str: the
/// string field of `section` under `key`, as the document holds it.
#[verifier::external_body]
fn toml_text_field(doc: &str, section: &str, key: &str) -> (r: TextField)
    ensures
        r@ == spec_toml_text(doc@, section@, key@),
{
    match toml::from_str::<toml::Value>(doc) {
        Err(_) => TextField::NoDocument,
        Ok(v) => match v.get(section).and_then(|s| s.get(key)) {
            Option::None => TextField::Absent,
            Option::Some(f) => match f.as_str() {
                Option::Some(s) => TextField::Given(s.to_owned()),
                Option::None => TextField::WrongType,
            },
        },
    }
}

/// Relies on toml::from_str, toml::Value::get and Value::as_integer: the
/// integer field of `section` under `key`, as the document holds it.
#[verifier::external_body]
fn toml_int_field(doc: &str, section: &str, key: &str) -> (r: IntField)
    ensures
        r@ == spec_toml_int(doc@, section@, key@),
{
    match toml::from_str::<toml::Value>(doc) {
        Err(_) => IntField::NoDocument,
        Ok(v) => match v.get(section).and_then(|s| s.get(key)) {
            Option::None => IntField::Absent,
            Option::Some(f) => match f.as_integer() {
                Option::Some(i) => IntField::Given(i),
                Option::None => IntField::WrongType,
            },
        },
    }
}

/// What a text field resolves to: its value when given, the default when
/// absent, nothing (an error) otherwise.
pub open spec fn spec_text_value(f: TextFieldV, dflt: Seq<char>) -> Option<Seq<char>> {
    match f {
        TextFieldV::Given(s) => Some(s),
        TextFieldV::Absent => Some(dflt),
        _ => Option::None,
    }
}

/// What a port field resolves to: its value when given and 16-bit, the
/// default when absent, nothing (an error) otherwise.
pub open spec fn spec_port_value(f: IntFieldV, dflt: u16) -> Option<u16> {
    match f {
        IntFieldV::Given(i) => if 0 <= i <= 65535 {
            Some(i as u16)
        } else {
            Option::None
        },
        IntFieldV::Absent => Some(dflt),
        _ => Option::None,
    }
}

/// A broker or server port from an integer field: ports are 16-bit.
pub fn port_from_integer(i: i64) -> (r: Result<u16, ConfigError>)
    ensures
        0 <= i <= 65535 ==> (r matches Ok(p) && p == i),
        !(0 <= i <= 65535) ==> (r matches Err(e) && e is InvalidDocument),
{
    if 0 <= i && i <= 65535 {
        Ok(i as u16)
    } else {
        Err(ConfigError::InvalidDocument)
    }
}

/// Resolve a text field against its default.
fn text_value(f: TextField, dflt: String) -> (r: Option<String>)
    ensures
        match spec_text_value(f@, dflt@) {
            Some(s) => r matches Some(v) && v@ == s,
            Option::None => r is None,
        },
{
    match f {
        TextField::Given(s) => Option::Some(s),
        TextField::Absent => Option::Some(dflt),
        _ => Option::None,
    }
}

/// Resolve a port field against its default.
fn port_value(f: IntField, dflt: u16) -> (r: Option<u16>)
    ensures
        match spec_port_value(f@, dflt@) {
            Some(p) => r matches Some(v) && v == p,
            Option::None => r is None,
        },
{
    match f {
        IntField::Given(i) => match port_from_integer(i) {
            Ok(p) => Option::Some(p),
            Err(_) => Option::None,
        },
        IntField::Absent => Option::Some(dflt),
        _ => Option::None,
    }
}

/// Parse a server configuration document.
///
/// Every scalar field resolves against its built-in default: the
/// document's value where present, the default where the section or the
/// field is absent.  A document that does not parse, a field of the wrong
/// type or a port out of range is an error, and nothing else is.
pub fn parse_config(source: &str) -> (r: Result<Config, ConfigError>)
    ensures
        ({
            let bip = spec_text_value(spec_toml_text(source@, "broker"@, "ip"@), "127.0.0.1"@);
            let bport = spec_port_value(spec_toml_int(source@, "broker"@, "port"@), 5672);
            let buser = spec_text_value(spec_toml_text(source@, "broker"@, "username"@), "guest"@);
            let bpass = spec_text_value(spec_toml_text(source@, "broker"@, "password"@), "guest"@);
            let sip = spec_text_value(spec_toml_text(source@, "server"@, "ip"@), "127.0.0.1"@);
            let sport = spec_port_value(spec_toml_int(source@, "server"@, "port"@), 8080);
            let apath = spec_text_value(
                spec_toml_text(source@, "alarm"@, "path"@),
                "examples/config.yaml"@,
            );
            let durl = spec_text_value(
                spec_toml_text(source@, "db"@, "url"@),
                "http://localhost:9000"@,
            );
            let dtable = spec_text_value(spec_toml_text(source@, "db"@, "table"@), "Alarms"@);
            &&& (r is Ok <==> bip is Some && bport is Some && buser is Some && bpass is Some && sip
                is Some && sport is Some && apath is Some && durl is Some && dtable is Some)
            &&& (r matches Ok(c) ==> c.broker.ip@ == bip->0 && c.broker.port == bport->0
                && c.broker.username@ == buser->0 && c.broker.password@ == bpass->0 && c.server.ip@
                == sip->0 && c.server.port == sport->0 && c.alarm.path@ == apath->0 && c.db.url@
                == durl->0 && c.db.table@ == dtable->0)
            &&& (r matches Err(e) ==> e is InvalidDocument)
        }),
{
    let bip = match text_value(toml_text_field(source, "broker", "ip"), default_ip()) {
        Option::Some(v) => v,
        Option::None => {
            return Err(ConfigError::InvalidDocument);
        },
    };
    let bport = match port_value(toml_int_field(source, "broker", "port"), default_port::<5672>()) {
        Option::Some(v) => v,
        Option::None => {
            return Err(ConfigError::InvalidDocument);
        },
    };
    let buser = match text_value(toml_text_field(source, "broker", "username"), default_cred()) {
        Option::Some(v) => v,
        Option::None => {
            return Err(ConfigError::InvalidDocument);
        },
    };
    let bpass = match text_value(toml_text_field(source, "broker", "password"), default_cred()) {
        Option::Some(v) => v,
        Option::None => {
            return Err(ConfigError::InvalidDocument);
        },
    };
    let sip = match text_value(toml_text_field(source, "server", "ip"), default_ip()) {
        Option::Some(v) => v,
        Option::None => {
            return Err(ConfigError::InvalidDocument);
        },
    };
    let sport = match port_value(toml_int_field(source, "server", "port"), default_port::<8080>()) {
        Option::Some(v) => v,
        Option::None => {
            return Err(ConfigError::InvalidDocument);
        },
    };
    let apath = match text_value(toml_text_field(source, "alarm", "path"), default_path()) {
        Option::Some(v) => v,
        Option::None => {
            return Err(ConfigError::InvalidDocument);
        },
    };
    let durl = match text_value(toml_text_field(source, "db", "url"), default_url()) {
        Option::Some(v) => v,
        Option::None => {
            return Err(ConfigError::InvalidDocument);
        },
    };
    let dtable = match text_value(toml_text_field(source, "db", "table"), default_table()) {
        Option::Some(v) => v,
        Option::None => {
            return Err(ConfigError::InvalidDocument);
        },
    };
    Ok(
        Config {
            broker: BrokerConfig { ip: bip, port: bport, username: buser, password: bpass },
            server: ServerConfig { ip: sip, port: sport },
            alarm: AlarmConfig { path: apath },
            db: DBConfig { url: durl, table: dtable },
        },
    )
}

} // verus!


verus! {

// ---------------------------------------------------------------------
// Alarm definitions: YAML access, trusted at the calls into `yaml_rust`.
// As with the TOML reads, each read takes the document text and plain
// keys, so its result bears a name.
// ---------------------------------------------------------------------

/// The string keys of a mapping node, in document order.
pub enum KeysField {
    /// The document does not parse or is empty.
    NoDocument,
    /// The node is absent or is not a mapping.
    NotAMapping,
    /// A key of the mapping is not a string.
    BadKey,
    Keys(Vec<String>),
}

/// Mathematical model of a [`KeysField`].
pub ghost enum KeysFieldV {
    NoDocument,
    NotAMapping,
    BadKey,
    Keys(Seq<Seq<char>>),
}

impl View for KeysField {
    type V = KeysFieldV;

    open spec fn view(&self) -> KeysFieldV {
        match self {
            KeysField::NoDocument => KeysFieldV::NoDocument,
            KeysField::NotAMapping => KeysFieldV::NotAMapping,
            KeysField::BadKey => KeysFieldV::BadKey,
            KeysField::Keys(ks) => KeysFieldV::Keys(ks@.map_values(|k: String| k@)),
        }
    }
}

/// The area names of the alarm document: its top-level mapping keys.
pub uninterp spec fn spec_yaml_areas(doc: Seq<char>) -> KeysFieldV;

/// The alarm names under one area: the keys of the area's mapping.
pub uninterp spec fn spec_yaml_names(doc: Seq<char>, area: Seq<char>) -> KeysFieldV;

/// The integer field `key` of the definition at `area`/`name`.
pub uninterp spec fn spec_yaml_int(
    doc: Seq<char>,
    area: Seq<char>,
    name: Seq<char>,
    key: Seq<char>,
) -> IntFieldV;

/// The string field `key` of the definition at `area`/`name`.
pub uninterp spec fn spec_yaml_text(
    doc: Seq<char>,
    area: Seq<char>,
    name: Seq<char>,
    key: Seq<char>,
) -> TextFieldV;

/// Relies on yaml_rust::YamlLoader::load_from_str, Yaml::as_hash,
/// LinkedHashMap::keys and Yaml::as_str: the top-level mapping keys of the
/// first document, in document order.
#[verifier::external_body]
fn yaml_areas(doc: &str) -> (r: KeysField)
    ensures
        r@ == spec_yaml_areas(doc@),
{
    let mut d = YamlLoader::load_from_str(doc).unwrap_or_default();
    if d.is_empty() { return KeysField::NoDocument; }
    match d.remove(0).as_hash() {
        Option::None => KeysField::NotAMapping,
        Option::Some(h) => match h.keys().map(|k| k.as_str().map(|s| s.to_owned())).collect::<Option<Vec<String>>>() {
            Option::Some(ks) => KeysField::Keys(ks),
            Option::None => KeysField::BadKey,
        },
    }
}

/// Relies on yaml_rust::YamlLoader::load_from_str, Yaml::as_hash,
/// LinkedHashMap::get and keys, and Yaml::as_str: the mapping keys under
/// `area`, in document order.
#[verifier::external_body]
fn yaml_names(doc: &str, area: &str) -> (r: KeysField)
    ensures
        r@ == spec_yaml_names(doc@, area@),
{
    let mut d = YamlLoader::load_from_str(doc).unwrap_or_default();
    if d.is_empty() { return KeysField::NoDocument; }
    let d0 = d.remove(0);
    match d0.as_hash().and_then(|h| h.get(&Yaml::String(area.to_owned()))).and_then(|v| v.as_hash()) {
        Option::None => KeysField::NotAMapping,
        Option::Some(h) => match h.keys().map(|k| k.as_str().map(|s| s.to_owned())).collect::<Option<Vec<String>>>() {
            Option::Some(ks) => KeysField::Keys(ks),
            Option::None => KeysField::BadKey,
        },
    }
}

/// Relies on yaml_rust::YamlLoader::load_from_str, Yaml::as_hash,
/// LinkedHashMap::get and Yaml::as_i64: the integer field `key` of the
/// definition at `area`/`name`.
#[verifier::external_body]
fn yaml_int_field(doc: &str, area: &str, name: &str, key: &str) -> (r: IntField)
    ensures
        r@ == spec_yaml_int(doc@, area@, name@, key@),
{
    let mut d = YamlLoader::load_from_str(doc).unwrap_or_default();
    if d.is_empty() { return IntField::NoDocument; }
    let d0 = d.remove(0);
    let node = d0.as_hash().and_then(|h| h.get(&Yaml::String(area.to_owned()))).and_then(|v| v.as_hash()).and_then(|h| h.get(&Yaml::String(name.to_owned()))).and_then(|v| v.as_hash()).and_then(|h| h.get(&Yaml::String(key.to_owned())));
    match node {
        Option::None => IntField::Absent,
        Option::Some(v) => match v.as_i64() {
            Option::Some(i) => IntField::Given(i),
            Option::None => IntField::WrongType,
        },
    }
}

/// Relies on yaml_rust::YamlLoader::load_from_str, Yaml::as_hash,
/// LinkedHashMap::get and Yaml::as_str: the string field `key` of the
/// definition at `area`/`name`.
#[verifier::external_body]
fn yaml_text_field(doc: &str, area: &str, name: &str, key: &str) -> (r: TextField)
    ensures
        r@ == spec_yaml_text(doc@, area@, name@, key@),
{
    let mut d = YamlLoader::load_from_str(doc).unwrap_or_default();
    if d.is_empty() { return TextField::NoDocument; }
    let d0 = d.remove(0);
    let node = d0.as_hash().and_then(|h| h.get(&Yaml::String(area.to_owned()))).and_then(|v| v.as_hash()).and_then(|h| h.get(&Yaml::String(name.to_owned()))).and_then(|v| v.as_hash()).and_then(|h| h.get(&Yaml::String(key.to_owned())));
    match node {
        Option::None => TextField::Absent,
        Option::Some(v) => match v.as_str() {
            Option::Some(s) => TextField::Given(s.to_owned()),
            Option::None => TextField::WrongType,
        },
    }
}

} // verus!

verus! {

/// One alarm definition as the document states it.
pub struct AlarmDef {
    pub area: String,
    pub name: String,
    pub set: i64,
    pub reset: i64,
    pub severity_code: i64,
    pub meas: String,
}

/// Mathematical model of an [`AlarmDef`].
pub ghost struct AlarmDefV {
    pub area: Seq<char>,
    pub name: Seq<char>,
    pub set: int,
    pub reset: int,
    pub severity_code: int,
    pub meas: Seq<char>,
}

impl View for AlarmDef {
    type V = AlarmDefV;

    open spec fn view(&self) -> AlarmDefV {
        AlarmDefV {
            area: self.area@,
            name: self.name@,
            set: self.set as int,
            reset: self.reset as int,
            severity_code: self.severity_code as int,
            meas: self.meas@,
        }
    }
}

/// The models of a definition vector.
pub open spec fn defs_v(s: Seq<AlarmDef>) -> Seq<AlarmDefV> {
    s.map_values(|d: AlarmDef| d@)
}

/// The definition at `area`/`name`: its four fields, or the error when
/// one is absent or of the wrong type.
pub open spec fn spec_def_of(doc: Seq<char>, area: Seq<char>, name: Seq<char>) -> Result<
    AlarmDefV,
    ConfigError,
> {
    let set = spec_yaml_int(doc, area, name, "set"@);
    let reset = spec_yaml_int(doc, area, name, "reset"@);
    let sev = spec_yaml_int(doc, area, name, "severity"@);
    let meas = spec_yaml_text(doc, area, name, "meas"@);
    if set is Given && reset is Given && sev is Given && meas is Given {
        Ok(
            AlarmDefV {
                area,
                name,
                set: set->0,
                reset: reset->0,
                severity_code: sev->0,
                meas: meas->0,
            },
        )
    } else {
        Err(ConfigError::MissingField)
    }
}

/// The definitions under one area, in document order.
pub open spec fn spec_defs_in_area(
    doc: Seq<char>,
    area: Seq<char>,
    names: Seq<Seq<char>>,
) -> Result<Seq<AlarmDefV>, ConfigError>
    decreases names.len(),
{
    if names.len() == 0 {
        Ok(Seq::empty())
    } else {
        match spec_def_of(doc, area, names[0]) {
            Err(e) => Err(e),
            Ok(d) => match spec_defs_in_area(doc, area, names.drop_first()) {
                Err(e) => Err(e),
                Ok(rest) => Ok(seq![d] + rest),
            },
        }
    }
}

/// The definitions of a list of areas, in document order.  An area whose
/// value is no mapping defines nothing; a non-string key is an error.
pub open spec fn spec_defs_in_areas(doc: Seq<char>, areas: Seq<Seq<char>>) -> Result<
    Seq<AlarmDefV>,
    ConfigError,
>
    decreases areas.len(),
{
    if areas.len() == 0 {
        Ok(Seq::empty())
    } else {
        match spec_yaml_names(doc, areas[0]) {
            KeysFieldV::NotAMapping => spec_defs_in_areas(doc, areas.drop_first()),
            KeysFieldV::Keys(ns) => match spec_defs_in_area(doc, areas[0], ns) {
                Err(e) => Err(e),
                Ok(ds) => match spec_defs_in_areas(doc, areas.drop_first()) {
                    Err(e) => Err(e),
                    Ok(rest) => Ok(ds + rest),
                },
            },
            _ => Err(ConfigError::InvalidDocument),
        }
    }
}

/// Every alarm definition the document holds, in document order.
pub open spec fn spec_yaml_defs(doc: Seq<char>) -> Result<Seq<AlarmDefV>, ConfigError> {
    match spec_yaml_areas(doc) {
        KeysFieldV::NoDocument => Err(ConfigError::InvalidDocument),
        KeysFieldV::BadKey => Err(ConfigError::InvalidDocument),
        KeysFieldV::NotAMapping => Ok(Seq::empty()),
        KeysFieldV::Keys(areas) => spec_defs_in_areas(doc, areas),
    }
}

/// Pull the alarm definitions out of the document.
fn defs_from_yaml(source: &str) -> (r: Result<Vec<AlarmDef>, ConfigError>)
    ensures
        match spec_yaml_defs(source@) {
            Ok(ds) => (r matches Ok(v) && defs_v(v@) == ds),
            Err(e) => (r matches Err(e2) && e2 == e),
        },
{
    let areas = match yaml_areas(source) {
        KeysField::Keys(a) => a,
        KeysField::NotAMapping => {
            proof {
                assert(defs_v(Seq::<AlarmDef>::empty()) =~= Seq::<AlarmDefV>::empty());
            }
            return Ok(Vec::new());
        },
        _ => {
            return Err(ConfigError::InvalidDocument);
        },
    };
    let ghost doc = source@;
    let ghost areas_v = areas@.map_values(|a: String| a@);
    let mut defs: Vec<AlarmDef> = Vec::new();
    let n = areas.len();
    proof {
        assert(areas_v.skip(0) =~= areas_v);
        assert(defs_v(defs@) =~= Seq::<AlarmDefV>::empty());
        match spec_defs_in_areas(doc, areas_v) {
            Ok(ds) => {
                assert(defs_v(defs@) + ds =~= ds);
            },
            Err(_) => {},
        }
    }
    let mut i: usize = 0;
    while i < n
        invariant
            n == areas@.len(),
            doc == source@,
            areas_v == areas@.map_values(|a: String| a@),
            spec_yaml_defs(doc) == spec_defs_in_areas(doc, areas_v),
            i <= n,
            match spec_defs_in_areas(doc, areas_v.skip(i as int)) {
                Ok(ds) => spec_defs_in_areas(doc, areas_v) == Ok::<_, ConfigError>(
                    defs_v(defs@) + ds,
                ),
                Err(e) => spec_defs_in_areas(doc, areas_v) == Err::<Seq<AlarmDefV>, _>(e),
            },
        decreases n - i,
    {
        proof {
            assert(areas_v.skip(i as int)[0] == areas_v[i as int]);
            assert(areas_v[i as int] == areas@[i as int]@);
            assert(areas_v.skip(i as int).drop_first() =~= areas_v.skip(i + 1 as int));
        }
        let area = &areas[i];
        assert(area@ == areas_v[i as int]);
        let names = match yaml_names(source, area.as_str()) {
            KeysField::Keys(ns) => ns,
            KeysField::NotAMapping => {
                i += 1;
                continue ;
            },
            _ => {
                return Err(ConfigError::InvalidDocument);
            },
        };
        let ghost names_v = names@.map_values(|a: String| a@);
        let ghost base = defs_v(defs@);
        let ghost mut done = Seq::<AlarmDefV>::empty();
        let m = names.len();
        proof {
            assert(names_v.skip(0) =~= names_v);
            assert(defs_v(defs@) =~= base + done);
            match spec_defs_in_area(doc, areas_v[i as int], names_v) {
                Ok(ds) => {
                    assert(done + ds =~= ds);
                },
                Err(_) => {},
            }
        }
        let mut j: usize = 0;
        while j < m
            invariant
                m == names@.len(),
                doc == source@,
                names_v == names@.map_values(|a: String| a@),
                j <= m,
                defs_v(defs@) == base + done,
                spec_yaml_names(doc, areas_v[i as int]) == KeysFieldV::Keys(names_v),
                match spec_defs_in_area(doc, areas_v[i as int], names_v.skip(j as int)) {
                    Ok(ds) => spec_defs_in_area(doc, areas_v[i as int], names_v) == Ok::<
                        _,
                        ConfigError,
                    >(done + ds),
                    Err(e) => spec_defs_in_area(doc, areas_v[i as int], names_v) == Err::<
                        Seq<AlarmDefV>,
                        _,
                    >(e),
                },
                // the enclosing continuation, carried through the inner loop
                n == areas@.len(),
                areas_v == areas@.map_values(|a: String| a@),
                spec_yaml_defs(doc) == spec_defs_in_areas(doc, areas_v),
                i < n,
                areas_v[i as int] == areas@[i as int]@,
                area@ == areas_v[i as int],
                areas_v.skip(i as int).drop_first() =~= areas_v.skip(i + 1 as int),
                areas_v.skip(i as int)[0] == areas_v[i as int],
                match spec_defs_in_areas(doc, areas_v.skip(i as int)) {
                    Ok(ds) => spec_defs_in_areas(doc, areas_v) == Ok::<_, ConfigError>(base + ds),
                    Err(e) => spec_defs_in_areas(doc, areas_v) == Err::<Seq<AlarmDefV>, _>(e),
                },
            decreases m - j,
        {
            proof {
                assert(names_v.skip(j as int)[0] == names_v[j as int]);
                assert(names_v[j as int] == names@[j as int]@);
                assert(names_v.skip(j as int).drop_first() =~= names_v.skip(j + 1 as int));
            }
            let name = &names[j];
            assert(name@ == names_v[j as int]);
            let set = match yaml_int_field(source, area.as_str(), name.as_str(), "set") {
                IntField::Given(x) => x,
                _ => {
                    return Err(ConfigError::MissingField);
                },
            };
            let reset = match yaml_int_field(source, area.as_str(), name.as_str(), "reset") {
                IntField::Given(x) => x,
                _ => {
                    return Err(ConfigError::MissingField);
                },
            };
            let severity_code = match yaml_int_field(
                source,
                area.as_str(),
                name.as_str(),
                "severity",
            ) {
                IntField::Given(x) => x,
                _ => {
                    return Err(ConfigError::MissingField);
                },
            };
            let meas = match yaml_text_field(source, area.as_str(), name.as_str(), "meas") {
                TextField::Given(s) => s,
                _ => {
                    return Err(ConfigError::MissingField);
                },
            };
            let def = AlarmDef {
                area: area.clone(),
                name: name.clone(),
                set,
                reset,
                severity_code,
                meas,
            };
            let ghost defv = def@;
            proof {
                assert(spec_def_of(doc, areas_v[i as int], names_v[j as int]) == Ok::<
                    _,
                    ConfigError,
                >(defv));
            }
            let ghost defs_pre = defs@;
            defs.push(def);
            proof {
                let done_pre = done;
                done = done_pre.push(defv);
                assert(defs@.last()@ == defv);
                assert(defs_v(defs_pre) == base + done_pre);
                assert(defs_v(defs_pre).len() == defs_pre.len());
                assert(defs_pre.len() == base.len() + done_pre.len());
                assert forall|k: int| 0 <= k < defs@.len() implies #[trigger] defs_v(defs@)[k] == (
                base + done)[k] by {
                    assert(defs_v(defs@)[k] == defs@[k]@);
                    if k < defs_pre.len() {
                        assert(defs@[k] == defs_pre[k]);
                        assert(defs_v(defs_pre)[k] == defs_pre[k]@);
                        assert((base + done_pre)[k] == (base + done)[k]);
                    } else {
                        assert(k == defs_pre.len());
                        assert(defs@[k] == defs@.last());
                        assert((base + done)[k] == done[k - base.len()]);
                        assert(done[k - base.len()] == defv);
                    }
                }
                assert(defs_v(defs@).len() == base.len() + done.len());
                assert(defs_v(defs@) =~= base + done);
                match spec_defs_in_area(doc, areas_v[i as int], names_v.skip(j + 1 as int)) {
                    Ok(rest) => {
                        assert(done_pre + (seq![defv] + rest) =~= done + rest);
                    },
                    Err(_) => {},
                }
            }
            j += 1;
        }
        proof {
            assert(names_v.skip(m as int).len() == 0);
            assert(spec_defs_in_area(doc, areas_v[i as int], names_v) == Ok::<_, ConfigError>(
                done,
            ));
            match spec_defs_in_areas(doc, areas_v.skip(i + 1 as int)) {
                Ok(rest) => {
                    assert(base + (done + rest) =~= (base + done) + rest);
                },
                Err(_) => {},
            }
        }
        i += 1;
    }
    proof {
        assert(areas_v.skip(n as int).len() == 0);
    }
    Ok(defs)
}

} // verus!

verus! {

/// The severity a configuration code stands for.
pub open spec fn spec_severity_from_code(code: int) -> Option<AlarmSeverity> {
    if code == 2 {
        Some(AlarmSeverity::High)
    } else if code == 1 {
        Some(AlarmSeverity::Medium)
    } else if code == 0 {
        Some(AlarmSeverity::Low)
    } else {
        Option::None
    }
}

pub fn severity_from_code(code: i64) -> (r: Option<AlarmSeverity>)
    ensures
        r == spec_severity_from_code(code as int),
{
    if code == 2 {
        Option::Some(AlarmSeverity::High)
    } else if code == 1 {
        Option::Some(AlarmSeverity::Medium)
    } else if code == 0 {
        Option::Some(AlarmSeverity::Low)
    } else {
        Option::None
    }
}

/// The fully-qualified alarm name of a definition.
pub open spec fn spec_full_name(d: AlarmDefV) -> Seq<char> {
    d.area + "/"@ + d.name
}

pub fn full_name(d: &AlarmDef) -> (r: String)
    ensures
        r@ == spec_full_name(d@),
{
    let mut r = String::new();
    r.append(d.area.as_str());
    r.append("/");
    r.append(d.name.as_str());
    proof {
        assert(r@ =~= spec_full_name(d@));
    }
    r
}

/// Whether every definition carries a valid severity code.
pub open spec fn spec_severities_valid(ds: Seq<AlarmDefV>) -> bool {
    forall|i: int|
        0 <= i < ds.len() ==> spec_severity_from_code(#[trigger] ds[i].severity_code) is Some
}

/// Whether the fully-qualified names of the definitions are pairwise
/// distinct.
pub open spec fn spec_names_unique(ds: Seq<AlarmDefV>) -> bool {
    forall|i: int, j: int|
        0 <= i < j < ds.len() ==> spec_full_name(ds[i]) != spec_full_name(ds[j])
}

/// Each alarm carries exactly the fields of its definition.
pub open spec fn spec_alarms_match(ds: Seq<AlarmDefV>, alms: Seq<Alarm>) -> bool {
    &&& alms.len() == ds.len()
    &&& forall|i: int|
        0 <= i < ds.len() ==> {
            let d = ds[i];
            let a = #[trigger] alms[i];
            &&& a.path@ == spec_full_name(d)
            &&& a.set == d.set
            &&& a.reset == d.reset
            &&& Some(a.severity) == spec_severity_from_code(d.severity_code)
            &&& a.meas@ == d.meas
        }
}

/// Build the configured alarms from their definitions.
///
/// Startup is refused when a severity code is invalid or when two
/// definitions share one fully-qualified name; otherwise each definition
/// becomes one alarm, in order.
pub fn build_alarms(defs: &Vec<AlarmDef>) -> (r: Result<Vec<Alarm>, ConfigError>)
    ensures
        ({
            let ds = defs_v(defs@);
            &&& (!spec_severities_valid(ds) ==> (r matches Err(e) && e is InvalidSeverity))
            &&& (spec_severities_valid(ds) && !spec_names_unique(ds) ==> (r matches Err(e) && e
                is DuplicateName))
            &&& (spec_severities_valid(ds) && spec_names_unique(ds) ==> (r matches Ok(alms)
                && spec_alarms_match(ds, alms@)))
        }),
{
    let ghost ds = defs_v(defs@);
    let n = defs.len();
    // every severity code must be valid
    let mut i: usize = 0;
    while i < n
        invariant
            n == defs@.len(),
            ds == defs_v(defs@),
            i <= n,
            forall|k: int|
                0 <= k < i ==> spec_severity_from_code(#[trigger] ds[k].severity_code) is Some,
        decreases n - i,
    {
        proof {
            assert(ds[i as int] == defs@[i as int]@);
        }
        if severity_from_code(defs[i].severity_code).is_none() {
            proof {
                assert(spec_severity_from_code(ds[i as int].severity_code) is None);
                assert(!spec_severities_valid(ds));
            }
            return Err(ConfigError::InvalidSeverity);
        }
        i += 1;
    }
    // the fully-qualified names must be pairwise distinct
    let mut i: usize = 0;
    while i < n
        invariant
            n == defs@.len(),
            ds == defs_v(defs@),
            i <= n,
            spec_severities_valid(ds),
            forall|k1: int, k2: int|
                0 <= k1 < k2 < i ==> spec_full_name(ds[k1]) != spec_full_name(ds[k2]),
        decreases n - i,
    {
        proof {
            assert(ds[i as int] == defs@[i as int]@);
        }
        let name_i = full_name(&defs[i]);
        let mut j: usize = 0;
        while j < i
            invariant
                n == defs@.len(),
                ds == defs_v(defs@),
                i < n,
                j <= i,
                spec_severities_valid(ds),
                name_i@ == spec_full_name(ds[i as int]),
                forall|k: int| 0 <= k < j ==> spec_full_name(ds[k]) != spec_full_name(
                    ds[i as int],
                ),
            decreases i - j,
        {
            proof {
                assert(ds[j as int] == defs@[j as int]@);
            }
            let name_j = full_name(&defs[j]);
            if name_j == name_i {
                proof {
                    assert(spec_full_name(ds[j as int]) == spec_full_name(ds[i as int]));
                    assert(!spec_names_unique(ds));
                }
                return Err(ConfigError::DuplicateName);
            }
            j += 1;
        }
        i += 1;
    }
    // build the alarms
    let mut alms: Vec<Alarm> = Vec::new();
    let mut i: usize = 0;
    while i < n
        invariant
            n == defs@.len(),
            ds == defs_v(defs@),
            i <= n,
            spec_severities_valid(ds),
            alms@.len() == i,
            forall|k: int|
                0 <= k < i ==> {
                    let d = ds[k];
                    let a = #[trigger] alms@[k];
                    &&& a.path@ == spec_full_name(d)
                    &&& a.set == d.set
                    &&& a.reset == d.reset
                    &&& Some(a.severity) == spec_severity_from_code(d.severity_code)
                    &&& a.meas@ == d.meas
                },
        decreases n - i,
    {
        proof {
            assert(ds[i as int] == defs@[i as int]@);
            assert(spec_severity_from_code(ds[i as int].severity_code) is Some);
        }
        let sev = match severity_from_code(defs[i].severity_code) {
            Option::Some(s) => s,
            Option::None => {
                proof {
                    assert(false);
                }
                AlarmSeverity::Unknown
            },
        };
        let path = full_name(&defs[i]);
        let meas = defs[i].meas.clone();
        alms.push(Alarm::new(path, defs[i].set, defs[i].reset, sev, meas));
        i += 1;
    }
    Ok(alms)
}

/// Read the alarm definitions from their document text and build the
/// configured alarms.
///
/// The definitions the document holds are read in document order; an
/// unreadable document or definition is refused with its error, an invalid
/// severity code or a duplicate fully-qualified name refuses startup, and
/// otherwise each definition becomes one alarm.
pub fn create_alarms(source: &str) -> (r: Result<Vec<Alarm>, ConfigError>)
    ensures
        match spec_yaml_defs(source@) {
            Err(e) => (r matches Err(e2) && e2 == e),
            Ok(ds) => {
                &&& (!spec_severities_valid(ds) ==> (r matches Err(e) && e is InvalidSeverity))
                &&& (spec_severities_valid(ds) && !spec_names_unique(ds) ==> (r matches Err(e)
                    && e is DuplicateName))
                &&& (spec_severities_valid(ds) && spec_names_unique(ds) ==> (r matches Ok(alms)
                    && spec_alarms_match(ds, alms@)))
            },
        },
{
    let defs = match defs_from_yaml(source) {
        Ok(d) => d,
        Err(e) => {
            return Err(e);
        },
    };
    build_alarms(&defs)
}

} // verus!
