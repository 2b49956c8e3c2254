use figtree::sources::{DocNode, DotenvSource, JsonSource, TomlSource, YamlSource};
use figtree::value::FloatCodec;
use figtree::Tree;

/// Floats read and written as Rust's `f64` does.
struct StdFloats;

impl FloatCodec for StdFloats {
    fn parse_float(&self, text: &str) -> Option<u64> {
        text.parse::<f64>().ok().map(|f| f.to_bits())
    }

    fn float_text(&self, bits: u64) -> String {
        f64::from_bits(bits).to_string()
    }
}

fn node() -> DocNode {
    DocNode {
        string: None,
        number: None,
        integer: false,
        null: false,
        tagged: false,
        int: None,
        float: None,
        boolean: None,
        items: None,
        entries: None,
    }
}

fn int_node(n: i64) -> DocNode {
    DocNode { integer: true, int: Some(n), ..node() }
}

fn text_node(s: &str) -> DocNode {
    DocNode { string: Some(s.to_string()), ..node() }
}

fn bool_node(b: bool) -> DocNode {
    DocNode { boolean: Some(b), ..node() }
}

fn float_node(f: f64) -> DocNode {
    DocNode { number: Some(f.to_string()), float: Some(f.to_bits()), ..node() }
}

fn table_node(entries: Vec<(&str, DocNode)>) -> DocNode {
    DocNode { entries: Some(entries.into_iter().map(|(k, v)| (text_node(k), v)).collect()), ..node() }
}

fn top(entries: Vec<(&str, DocNode)>) -> Vec<(String, DocNode)> {
    entries.into_iter().map(|(k, v)| (k.to_string(), v)).collect()
}

fn yaml(path: &str, entries: Vec<(&str, DocNode)>) -> Box<YamlSource> {
    Box::new(YamlSource::from_entries(path, top(entries)))
}

// ── YAML source ───────────────────────────────────────────────────────────────

#[test]
fn yaml_source_provides_values() {
    let mut tree = Tree::new();
    tree.new_int("workers", 4, "")
        .new_bool("debug", false, "")
        .new_string("endpoint", "http://localhost", "");
    tree.with_file_source(yaml(
        "c.yaml",
        vec![
            ("workers", int_node(16)),
            ("debug", bool_node(true)),
            ("endpoint", text_node("https://api.example.com")),
        ],
    ));
    tree.parse().unwrap();

    assert_eq!(tree.integer("workers").unwrap(), 16);
    assert_eq!(tree.boolean("debug").unwrap(), true);
    assert_eq!(tree.string("endpoint").unwrap(), "https://api.example.com");
}

#[test]
fn yaml_source_falls_through_for_missing_keys() {
    let mut tree = Tree::new();
    tree.new_int("workers", 4, "").new_string("endpoint", "http://localhost", "");
    tree.with_file_source(yaml("c.yaml", vec![("workers", int_node(16))]));
    tree.parse().unwrap();

    assert_eq!(tree.integer("workers").unwrap(), 16);
    assert_eq!(tree.string("endpoint").unwrap(), "http://localhost");
}

// ── JSON source ───────────────────────────────────────────────────────────────

#[test]
fn json_source_provides_values() {
    let mut tree = Tree::new();
    tree.with_float_codec(Box::new(StdFloats));
    tree.new_int("workers", 4, "")
        .new_bool("debug", false, "")
        .new_float64("threshold", 0.5f64.to_bits(), "");
    tree.with_file_source(Box::new(JsonSource::from_entries(
        "c.json",
        top(vec![("workers", int_node(8)), ("debug", bool_node(true)), ("threshold", float_node(0.9))]),
    )));
    tree.parse().unwrap();

    assert_eq!(tree.integer("workers").unwrap(), 8);
    assert_eq!(tree.boolean("debug").unwrap(), true);
    assert_eq!(f64::from_bits(tree.float64("threshold").unwrap()), 0.9);
}

// ── TOML source ───────────────────────────────────────────────────────────────

#[test]
fn toml_source_provides_values() {
    let mut tree = Tree::new();
    tree.new_int("workers", 4, "")
        .new_bool("debug", false, "")
        .new_string("endpoint", "http://localhost", "");
    tree.with_file_source(Box::new(TomlSource::from_entries(
        "c.toml",
        top(vec![
            ("workers", int_node(20)),
            ("debug", bool_node(true)),
            ("endpoint", text_node("https://api.example.com")),
        ]),
    )));
    tree.parse().unwrap();

    assert_eq!(tree.integer("workers").unwrap(), 20);
    assert_eq!(tree.boolean("debug").unwrap(), true);
    assert_eq!(tree.string("endpoint").unwrap(), "https://api.example.com");
}

#[test]
fn toml_nested_key_via_dotted_access() {
    let mut tree = Tree::new();
    tree.new_string("database.host", "localhost", "").new_int("database.port", 5432, "");
    tree.with_file_source(Box::new(TomlSource::from_entries(
        "c.toml",
        top(vec![("database", table_node(vec![("host", text_node("db.example.com")), ("port", int_node(5432))]))]),
    )));
    tree.parse().unwrap();

    assert_eq!(tree.string("database.host").unwrap(), "db.example.com");
    assert_eq!(tree.integer("database.port").unwrap(), 5432);
}

// ── Multiple file sources ─────────────────────────────────────────────────────

#[test]
fn first_file_source_wins_over_second() {
    let mut tree = Tree::new();
    tree.new_int("workers", 4, "");
    tree.with_file_source(yaml("base.yaml", vec![("workers", int_node(10))]));
    tree.with_file_source(yaml("local.yaml", vec![("workers", int_node(20))]));
    tree.parse().unwrap();

    assert_eq!(tree.integer("workers").unwrap(), 10);
}

#[test]
fn second_file_used_when_first_lacks_key() {
    let mut tree = Tree::new();
    tree.new_int("workers", 4, "").new_string("endpoint", "http://localhost", "");
    tree.with_file_source(yaml("base.yaml", vec![("workers", int_node(10))]));
    tree.with_file_source(yaml("local.yaml", vec![("endpoint", text_node("https://local.example.com"))]));
    tree.parse().unwrap();

    assert_eq!(tree.integer("workers").unwrap(), 10);
    assert_eq!(tree.string("endpoint").unwrap(), "https://local.example.com");
}

// ── Dotenv source ─────────────────────────────────────────────────────────────

#[test]
fn dotenv_source_provides_values() {
    let mut tree = Tree::new();
    tree.new_int("DOTENV_WORKERS", 4, "").new_bool("DOTENV_DEBUG", false, "");
    let src = DotenvSource::from_text("c.env", "DOTENV_WORKERS=24\nDOTENV_DEBUG=true\n").unwrap();
    tree.with_file_source(Box::new(src));
    tree.parse().unwrap();

    assert_eq!(tree.integer("DOTENV_WORKERS").unwrap(), 24);
    assert_eq!(tree.boolean("DOTENV_DEBUG").unwrap(), true);
}

// ── reading document text ─────────────────────────────────────────────────────

use figtree::priority::Source;
use figtree::sources::{PlistSource, RonSource};
use figtree::{FigValue, FigtreeError};

#[test]
fn json_from_text_reads_object() {
    let src = JsonSource::from_text("c.json", r#"{"workers": 10, "debug": true, "name": "app"}"#).unwrap();
    assert_eq!(src.get_typed("workers", &FigValue::Int(0)), Some(FigValue::Int(10)));
    assert_eq!(src.get_typed("debug", &FigValue::Bool(false)), Some(FigValue::Bool(true)));
    assert_eq!(src.get("name"), Some(FigValue::String("app".into())));
}

#[test]
fn json_from_text_refuses_non_object() {
    let r = JsonSource::from_text("c.json", "[1, 2]");
    assert!(matches!(r, Err(FigtreeError::FileParseFailed { ref path, .. }) if path == "c.json"));
}

#[test]
fn yaml_from_text_reads_mapping() {
    let src = YamlSource::from_text("c.yaml", "---\nworkers: 8\ntags:\n  - a\n  - b\n").unwrap();
    assert_eq!(src.get_typed("workers", &FigValue::Int(0)), Some(FigValue::Int(8)));
    assert_eq!(
        src.get_typed("tags", &FigValue::ListString(vec![])),
        Some(FigValue::ListString(vec!["a".into(), "b".into()]))
    );
    assert!(YamlSource::from_text("c.yaml", "- just\n- a list\n").is_err());
}

#[test]
fn toml_from_text_reads_nested_tables() {
    let src = TomlSource::from_text("c.toml", "workers = 20\n[database]\nhost = \"db\"\n").unwrap();
    assert_eq!(src.get_typed("workers", &FigValue::Int(0)), Some(FigValue::Int(20)));
    assert_eq!(src.get("database.host"), Some(FigValue::String("db".into())));
    assert!(TomlSource::from_text("c.toml", "workers = ").is_err());
}

#[test]
fn ron_from_text_reads_map() {
    let src = RonSource::from_text("c.ron", r#"{"workers": 10, "endpoint": "http://localhost"}"#).unwrap();
    assert_eq!(src.get_typed("workers", &FigValue::Int(0)), Some(FigValue::Int(10)));
    assert!(RonSource::from_text("c.ron", "(").is_err());
}

#[test]
fn plist_from_bytes_reads_dictionary_root() {
    let xml = r#"<?xml version="1.0" encoding="UTF-8"?>
<plist version="1.0">
<dict>
    <key>workers</key>
    <integer>10</integer>
    <key>endpoint</key>
    <string>http://localhost</string>
</dict>
</plist>"#;
    let src = PlistSource::from_bytes("c.plist", xml.as_bytes()).unwrap();
    assert_eq!(src.get_typed("workers", &FigValue::Int(0)), Some(FigValue::Int(10)));
    assert_eq!(src.get("endpoint"), Some(FigValue::String("http://localhost".into())));
}

#[test]
fn plist_from_bytes_refuses_non_dictionary_root() {
    let xml = r#"<?xml version="1.0" encoding="UTF-8"?>
<plist version="1.0">
<array><integer>1</integer></array>
</plist>"#;
    match PlistSource::from_bytes("c.plist", xml.as_bytes()) {
        Err(FigtreeError::FileParseFailed { reason, .. }) => assert_eq!(reason, "plist root must be a dictionary"),
        _ => panic!("expected FileParseFailed"),
    }
}

fn text_of<S: Source>(src: &S, key: &str) -> Option<String> {
    match src.get(key) {
        Some(FigValue::String(s)) => Some(s),
        Some(_) => panic!("scalar text is always a string"),
        None => None,
    }
}

#[test]
fn json_scalar_texts() {
    let src = JsonSource::from_text(
        "c.json",
        r#"{"n": 10, "f": 1.5, "b": false, "z": null, "s": "x", "a": [1], "o": {"k": 1}}"#,
    )
    .unwrap();
    assert_eq!(text_of(&src, "n").as_deref(), Some("10"));
    assert_eq!(text_of(&src, "f").as_deref(), Some("1.5"));
    assert_eq!(text_of(&src, "b").as_deref(), Some("false"));
    assert_eq!(text_of(&src, "z").as_deref(), Some(""));
    assert_eq!(text_of(&src, "s").as_deref(), Some("x"));
    assert_eq!(text_of(&src, "a"), None);
    assert_eq!(text_of(&src, "o"), None);
}

#[test]
fn yaml_scalar_texts_and_keys() {
    let src = YamlSource::from_text("c.yaml", "n: 7\nz: ~\nt: !custom x\nm:\n  1: a\n  true: b\n").unwrap();
    assert_eq!(text_of(&src, "n").as_deref(), Some("7"));
    assert_eq!(text_of(&src, "z").as_deref(), Some(""));
    assert_eq!(text_of(&src, "t"), None);
    let mut expected = figtree::strmap::StrMap::new();
    expected.insert("1".to_string(), "a".to_string());
    expected.insert("true".to_string(), "b".to_string());
    assert_eq!(src.get_typed("m", &FigValue::MapString(figtree::strmap::StrMap::new())), Some(FigValue::MapString(expected)));
}

#[test]
fn toml_scalar_texts() {
    let src = TomlSource::from_text("c.toml", "n = 5\nf = 2.5\nb = true\n").unwrap();
    assert_eq!(text_of(&src, "n").as_deref(), Some("5"));
    assert_eq!(text_of(&src, "f").as_deref(), Some("2.5"));
    assert_eq!(text_of(&src, "b").as_deref(), Some("true"));
}

#[test]
fn ron_scalar_texts() {
    let src = RonSource::from_text("c.ron", r#"{"f": 1.5, "b": true, "s": "x"}"#).unwrap();
    assert_eq!(text_of(&src, "f").as_deref(), Some("1.5"));
    assert_eq!(text_of(&src, "b").as_deref(), Some("true"));
    assert_eq!(text_of(&src, "s").as_deref(), Some("x"));
}

#[test]
fn plist_scalar_texts() {
    let xml = r#"<?xml version="1.0" encoding="UTF-8"?>
<plist version="1.0">
<dict>
    <key>n</key>
    <integer>-12</integer>
    <key>f</key>
    <real>2.5</real>
    <key>b</key>
    <true/>
</dict>
</plist>"#;
    let src = PlistSource::from_bytes("c.plist", xml.as_bytes()).unwrap();
    assert_eq!(text_of(&src, "n").as_deref(), Some("-12"));
    assert_eq!(text_of(&src, "f").as_deref(), Some("2.5"));
    assert_eq!(text_of(&src, "b").as_deref(), Some("true"));
}

#[test]
fn integer_without_signed_reading_prints_zero() {
    let big = DocNode { integer: true, ..node() };
    let tagged = DocNode { string: Some("x".into()), tagged: true, ..node() };
    let src = JsonSource::from_entries("c.json", vec![("big".into(), big), ("tagged".into(), tagged)]);
    assert_eq!(text_of(&src, "big").as_deref(), Some("0"));
    assert_eq!(text_of(&src, "tagged"), None);
}
