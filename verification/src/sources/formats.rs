//! Reading the document formats: JSON, YAML, TOML and RON text, and
//! property-list bytes, into the `DocNode` trees the document sources
//! hold. Each format's grammar is its crate's own; what the crate makes of
//! the text is a function of the text, named here, and what the library
//! makes of that is verified.
use vstd::prelude::*;
use std::collections::BTreeMap;
use crate::error::{FigtreeError, FigtreeResult};
use crate::sources::document::{DocNode, string_node, JsonSource, PlistSource, RonSource, TomlSource, YamlSource, dotted_lookup, keyed, lookup};
use crate::text::owned;

verus! {

/// `serde_json::Value`, carried opaquely.
#[verifier::external_type_specification]
#[verifier::external_body]
pub struct ExJsonValue(serde_json::Value);

/// `serde_yaml::Value`, carried opaquely.
#[verifier::external_type_specification]
#[verifier::external_body]
pub struct ExYamlValue(serde_yaml::Value);

/// `toml::Value`, carried opaquely.
#[verifier::external_type_specification]
#[verifier::external_body]
pub struct ExTomlValue(toml::Value);

/// `ron::Value`, carried opaquely.
#[verifier::external_type_specification]
#[verifier::external_body]
pub struct ExRonValue(ron::Value);

/// `plist::Value`, carried opaquely.
#[verifier::external_type_specification]
#[verifier::external_body]
pub struct ExPlistValue(plist::Value);

// ── JSON ──────────────────────────────────────────────────────────────────────

/// The top-level entries serde_json reads from `text` as an object (keys
/// in sorted order), each value as a `DocNode`; `None` when it does not
/// read as an object.
pub uninterp spec fn json_document(text: Seq<char>) -> Option<Seq<(String, DocNode)>>;

/// A JSON value as a `DocNode`: its string (`Value::as_str`), its number
/// as serde_json prints it, whether it is null, and what `as_i64`,
/// `as_f64`, `as_bool`, `as_array` and `as_object` give.
#[verifier::external_body]
fn json_node(v: &serde_json::Value) -> DocNode {
    DocNode {
        string: v.as_str().map(|t| t.to_string()),
        number: match v { serde_json::Value::Number(n) => Some(n.to_string()), _ => None },
        integer: false,
        null: v.is_null(),
        tagged: false,
        int: v.as_i64(),
        float: v.as_f64().map(|f| f.to_bits()),
        boolean: v.as_bool(),
        items: v.as_array().map(|s| s.iter().map(json_node).collect()),
        entries: v.as_object().map(|m| m.iter().map(|(k, x)| (string_node(k.clone()), json_node(x))).collect()),
    }
}

/// `serde_json::from_str` into a map of string keys: the entries, or the
/// text of the parse error.
#[verifier::external_body]
fn json_entries(text: &str) -> (r: Result<Vec<(String, DocNode)>, String>)
    ensures
        match json_document(text@) {
            Some(es) => r is Ok && r->Ok_0@ == es,
            None => r is Err,
        },
{
    let map: BTreeMap<String, serde_json::Value> = serde_json::from_str(text).map_err(|e| e.to_string())?;
    Ok(map.iter().map(|(k, v)| (k.clone(), json_node(v))).collect())
}

impl JsonSource {
    /// A source over the JSON document `text` read from `path`; text that
    /// is not a JSON object is refused with `FileParseFailed`.
    pub fn from_text(path: &str, text: &str) -> (r: FigtreeResult<JsonSource>)
        ensures
            match json_document(text@) {
                Some(es) => r matches Ok(s) && s.path_text() == path@
                    && forall|key: Seq<char>| #[trigger] s.at(key) == lookup(keyed(es), key),
                None => r matches Err(FigtreeError::FileParseFailed { path: p, .. }) && p@ == path@,
            },
    {
        match json_entries(text) {
            Ok(es) => Ok(JsonSource::from_entries(path, es)),
            Err(reason) => Err(FigtreeError::FileParseFailed { path: owned(path), reason }),
        }
    }
}

// ── YAML ──────────────────────────────────────────────────────────────────────

/// The top-level entries serde_yaml reads from `text` as a mapping of
/// string keys (in sorted order), each value as a `DocNode`; `None` when
/// it does not read as one.
pub uninterp spec fn yaml_document(text: Seq<char>) -> Option<Seq<(String, DocNode)>>;

/// A YAML value as a `DocNode`: its string (`Value::as_str`), its number
/// as serde_yaml prints it, whether it is null, and what `as_i64`,
/// `as_f64`, `as_bool`, `as_sequence` and `as_mapping` give (through a
/// tag), each mapping key as a value of its own, and whether it is tagged.
#[verifier::external_body]
fn yaml_node(v: &serde_yaml::Value) -> DocNode {
    DocNode {
        string: v.as_str().map(|t| t.to_string()),
        number: match v { serde_yaml::Value::Number(n) => Some(n.to_string()), _ => None },
        integer: false,
        null: v.is_null(),
        tagged: matches!(v, serde_yaml::Value::Tagged(_)),
        int: v.as_i64(),
        float: v.as_f64().map(|f| f.to_bits()),
        boolean: v.as_bool(),
        items: v.as_sequence().map(|s| s.iter().map(yaml_node).collect()),
        entries: v.as_mapping().map(|m| m.iter().map(|(k, x)| (yaml_node(k), yaml_node(x))).collect()),
    }
}

/// `serde_yaml::from_str` into a map of string keys: the entries, or the
/// text of the parse error.
#[verifier::external_body]
fn yaml_entries(text: &str) -> (r: Result<Vec<(String, DocNode)>, String>)
    ensures
        match yaml_document(text@) {
            Some(es) => r is Ok && r->Ok_0@ == es,
            None => r is Err,
        },
{
    let map: BTreeMap<String, serde_yaml::Value> = serde_yaml::from_str(text).map_err(|e| e.to_string())?;
    Ok(map.iter().map(|(k, v)| (k.clone(), yaml_node(v))).collect())
}

impl YamlSource {
    /// A source over the YAML document `text` read from `path`; text that
    /// is not a mapping of string keys is refused with `FileParseFailed`.
    pub fn from_text(path: &str, text: &str) -> (r: FigtreeResult<YamlSource>)
        ensures
            match yaml_document(text@) {
                Some(es) => r matches Ok(s) && s.path_text() == path@
                    && forall|key: Seq<char>| #[trigger] s.at(key) == lookup(keyed(es), key),
                None => r matches Err(FigtreeError::FileParseFailed { path: p, .. }) && p@ == path@,
            },
    {
        match yaml_entries(text) {
            Ok(es) => Ok(YamlSource::from_entries(path, es)),
            Err(reason) => Err(FigtreeError::FileParseFailed { path: owned(path), reason }),
        }
    }
}

// ── TOML ──────────────────────────────────────────────────────────────────────

/// The top-level entries the toml crate reads from `text` as a table
/// (keys in sorted order), each value as a `DocNode`; `None` when it does
/// not parse.
pub uninterp spec fn toml_document(text: Seq<char>) -> Option<Seq<(String, DocNode)>>;

/// The text of a TOML float or date, as the float or the toml crate
/// prints it.
#[verifier::external_body]
fn toml_number(v: &toml::Value) -> Option<String> {
    match v {
        toml::Value::Float(f) => Some(f.to_string()),
        toml::Value::Datetime(d) => Some(d.to_string()),
        _ => None,
    }
}

/// A TOML value as a `DocNode`: its string (`Value::as_str`), its float
/// or date as printed, whether it is an integer, and what `as_integer`,
/// `as_float`, `as_bool`, `as_array` and `as_table` give.
#[verifier::external_body]
fn toml_node(v: &toml::Value) -> DocNode {
    DocNode {
        string: v.as_str().map(|t| t.to_string()),
        number: toml_number(v),
        integer: v.is_integer(),
        null: false,
        tagged: false,
        int: v.as_integer(),
        float: v.as_float().map(|f| f.to_bits()),
        boolean: v.as_bool(),
        items: v.as_array().map(|s| s.iter().map(toml_node).collect()),
        entries: v.as_table().map(|m| m.iter().map(|(k, x)| (string_node(k.clone()), toml_node(x))).collect()),
    }
}

/// `str::parse::<toml::Table>`: the entries, or the text of the parse
/// error.
#[verifier::external_body]
fn toml_entries(text: &str) -> (r: Result<Vec<(String, DocNode)>, String>)
    ensures
        match toml_document(text@) {
            Some(es) => r is Ok && r->Ok_0@ == es,
            None => r is Err,
        },
{
    let table: toml::Table = text.parse().map_err(|e: toml::de::Error| e.to_string())?;
    Ok(table.iter().map(|(k, v)| (k.clone(), toml_node(v))).collect())
}

impl TomlSource {
    /// A source over the TOML document `text` read from `path`; text that
    /// does not parse is refused with `FileParseFailed`.
    pub fn from_text(path: &str, text: &str) -> (r: FigtreeResult<TomlSource>)
        ensures
            match toml_document(text@) {
                Some(es) => r matches Ok(s) && s.path_text() == path@
                    && forall|key: Seq<char>| #[trigger] s.at(key) == dotted_lookup(keyed(es), key),
                None => r matches Err(FigtreeError::FileParseFailed { path: p, .. }) && p@ == path@,
            },
    {
        match toml_entries(text) {
            Ok(es) => Ok(TomlSource::from_entries(path, es)),
            Err(reason) => Err(FigtreeError::FileParseFailed { path: owned(path), reason }),
        }
    }
}

// ── RON ───────────────────────────────────────────────────────────────────────

/// The top-level entries the ron crate reads from `text` as a map of
/// string keys (in sorted order), each value as a `DocNode`; `None` when
/// it does not read as one.
pub uninterp spec fn ron_document(text: Seq<char>) -> Option<Seq<(String, DocNode)>>;

/// The string of a RON value, if it is a string.
#[verifier::external_body]
fn ron_string(v: &ron::Value) -> Option<String> {
    match v {
        ron::Value::String(s) => Some(s.clone()),
        _ => None,
    }
}

/// The integer and float readings of a RON value, if it is a number
/// (`Number::as_i64`, `Number::as_f64`), the float also as printed.
#[verifier::external_body]
fn ron_number(v: &ron::Value) -> (Option<i64>, Option<u64>, Option<String>) {
    match v {
        ron::Value::Number(n) => (n.as_i64(), n.as_f64().map(|f| f.to_bits()), n.as_f64().map(|f| f.to_string())),
        _ => (None, None, None),
    }
}

/// The items of a RON sequence.
#[verifier::external_body]
fn ron_items(v: &ron::Value) -> Option<Vec<DocNode>> {
    match v {
        ron::Value::Seq(s) => Some(s.iter().map(ron_node).collect()),
        _ => None,
    }
}

/// The entries of a RON map, each key as a value of its own.
#[verifier::external_body]
fn ron_entries_of(v: &ron::Value) -> Option<Vec<(DocNode, DocNode)>> {
    match v {
        ron::Value::Map(m) => Some(m.iter().map(|(k, x)| (ron_node(k), ron_node(x))).collect()),
        _ => None,
    }
}

/// A RON value as a `DocNode`: its string, its float as printed, its
/// number readings, its flag, items and entries.
#[verifier::external_body]
fn ron_node(v: &ron::Value) -> DocNode {
    let (whole, bits, printed) = ron_number(v);
    DocNode {
        string: ron_string(v),
        number: printed,
        integer: false,
        null: false,
        tagged: false,
        int: whole,
        float: bits,
        boolean: match v { ron::Value::Bool(b) => Some(*b), _ => None },
        items: ron_items(v),
        entries: ron_entries_of(v),
    }
}

/// `ron::from_str` into a map of string keys: the entries, or the text of
/// the parse error.
#[verifier::external_body]
fn ron_entries(text: &str) -> (r: Result<Vec<(String, DocNode)>, String>)
    ensures
        match ron_document(text@) {
            Some(es) => r is Ok && r->Ok_0@ == es,
            None => r is Err,
        },
{
    let map: BTreeMap<String, ron::Value> = ron::from_str(text).map_err(|e| e.to_string())?;
    Ok(map.iter().map(|(k, v)| (k.clone(), ron_node(v))).collect())
}

impl RonSource {
    /// A source over the RON document `text` read from `path`; text that
    /// is not a map of string keys is refused with `FileParseFailed`.
    pub fn from_text(path: &str, text: &str) -> (r: FigtreeResult<RonSource>)
        ensures
            match ron_document(text@) {
                Some(es) => r matches Ok(s) && s.path_text() == path@
                    && forall|key: Seq<char>| #[trigger] s.at(key) == lookup(keyed(es), key),
                None => r matches Err(FigtreeError::FileParseFailed { path: p, .. }) && p@ == path@,
            },
    {
        match ron_entries(text) {
            Ok(es) => Ok(RonSource::from_entries(path, es)),
            Err(reason) => Err(FigtreeError::FileParseFailed { path: owned(path), reason }),
        }
    }
}

// ── property lists ────────────────────────────────────────────────────────────

/// The root value the plist crate reads from `bytes` (XML, binary or
/// ASCII), as a `DocNode`; `None` when the bytes do not parse.
pub uninterp spec fn plist_document(bytes: Seq<u8>) -> Option<DocNode>;

/// A property-list value as a `DocNode`: its string (`Value::as_string`),
/// its real as printed, whether it is an integer, and what
/// `as_signed_integer`, `as_real`, `as_boolean`, `as_array` and
/// `as_dictionary` give.
#[verifier::external_body]
fn plist_node(v: &plist::Value) -> DocNode {
    DocNode {
        string: v.as_string().map(|t| t.to_string()),
        number: v.as_real().map(|f| f.to_string()),
        integer: matches!(v, plist::Value::Integer(_)),
        null: false,
        tagged: false,
        int: v.as_signed_integer(),
        float: v.as_real().map(|f| f.to_bits()),
        boolean: v.as_boolean(),
        items: v.as_array().map(|s| s.iter().map(plist_node).collect()),
        entries: v.as_dictionary().map(|m| m.iter().map(|(k, x)| (string_node(k.clone()), plist_node(x))).collect()),
    }
}

/// `plist::Value::from_reader` over the bytes: the root value, or the
/// text of the parse error.
#[verifier::external_body]
fn plist_root(bytes: &[u8]) -> (r: Result<DocNode, String>)
    ensures
        match plist_document(bytes@) {
            Some(n) => r == Ok::<DocNode, String>(n),
            None => r is Err,
        },
{
    let value = plist::Value::from_reader(std::io::Cursor::new(bytes)).map_err(|e| e.to_string())?;
    Ok(plist_node(&value))
}

impl PlistSource {
    /// A source over the property list `bytes` read from `path`. Its root
    /// must be a dictionary; bytes that do not parse, or another root, are
    /// refused with `FileParseFailed`.
    pub fn from_bytes(path: &str, bytes: &[u8]) -> (r: FigtreeResult<PlistSource>)
        ensures
            match plist_document(bytes@) {
                Some(n) => match n.entries {
                    Some(es) => r matches Ok(s) && s.path_text() == path@
                        && forall|key: Seq<char>| #[trigger] s.at(key) == lookup(es@, key),
                    None => (r matches Err(FigtreeError::FileParseFailed { path: p, reason })
                        && p@ == path@ && reason@ == "plist root must be a dictionary"@),
                },
                None => r matches Err(FigtreeError::FileParseFailed { path: p, .. }) && p@ == path@,
            },
    {
        let root = match plist_root(bytes) {
            Ok(n) => n,
            Err(reason) => { return Err(FigtreeError::FileParseFailed { path: owned(path), reason }); },
        };
        match root.entries {
            Some(es) => Ok(PlistSource::from_table(path, es)),
            None => Err(FigtreeError::FileParseFailed {
                path: owned(path),
                reason: owned("plist root must be a dictionary"),
            }),
        }
    }
}

}
