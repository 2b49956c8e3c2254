use figtree::duration::Duration;
use figtree::priority::Source;
use figtree::sources::env::{parse_env_value, split_csv};
use figtree::sources::{CliSource, DocNode, DotenvSource, EmbeddedSource, IniSource, JsonSource, PlistSource, RonSource, TomlSource, YamlSource};
use figtree::strmap::StrMap;
use figtree::{FigSource, FigValue, FigtreeError};

fn hint(v: FigValue) -> FigValue {
    v
}

// ── parse_env_value ───────────────────────────────────────────────────────────

#[test]
fn test_parses_string() {
    let result = parse_env_value("hello", &hint(FigValue::String(String::new())));
    assert_eq!(result, Some(FigValue::String("hello".into())));
}

#[test]
fn test_parses_int() {
    assert_eq!(parse_env_value("42", &hint(FigValue::Int(0))), Some(FigValue::Int(42)));
}

#[test]
fn test_parses_int64() {
    assert_eq!(parse_env_value("9999999999", &hint(FigValue::Int64(0))), Some(FigValue::Int64(9999999999)));
}

#[test]
fn test_parses_int128_beyond_i64_max() {
    let big = (i64::MAX as i128) + 1;
    let result = parse_env_value(&big.to_string(), &hint(FigValue::Int128(0)));
    assert_eq!(result, Some(FigValue::Int128(big)));
}

#[test]
fn test_parses_bool_true_variants() {
    for s in &["true", "1", "yes", "on"] {
        assert_eq!(parse_env_value(s, &hint(FigValue::Bool(false))), Some(FigValue::Bool(true)), "failed for '{}'", s);
    }
}

#[test]
fn test_parses_bool_false_variants() {
    for s in &["false", "0", "no", "off"] {
        assert_eq!(parse_env_value(s, &hint(FigValue::Bool(true))), Some(FigValue::Bool(false)), "failed for '{}'", s);
    }
}

#[test]
fn bool_words_ignore_case_and_surrounding_space() {
    assert_eq!(parse_env_value(" TRUE ", &FigValue::Bool(false)), Some(FigValue::Bool(true)));
    assert_eq!(parse_env_value("Off", &FigValue::Bool(true)), Some(FigValue::Bool(false)));
    assert_eq!(parse_env_value("maybe", &FigValue::Bool(true)), None);
}

#[test]
fn test_invalid_int_returns_none() {
    assert!(parse_env_value("notanint", &hint(FigValue::Int(0))).is_none());
}

#[test]
fn int_bounds_are_exact() {
    assert_eq!(parse_env_value("2147483647", &FigValue::Int(0)), Some(FigValue::Int(i32::MAX)));
    assert_eq!(parse_env_value("-2147483648", &FigValue::Int(0)), Some(FigValue::Int(i32::MIN)));
    assert_eq!(parse_env_value("2147483648", &FigValue::Int(0)), None);
    assert_eq!(parse_env_value("+7", &FigValue::Int(0)), Some(FigValue::Int(7)));
}

#[test]
fn test_parses_duration_seconds() {
    assert_eq!(parse_env_value("30s", &hint(FigValue::Duration(Duration::zero()))), Some(FigValue::Duration(Duration::from_secs(30))));
}

#[test]
fn test_parses_duration_minutes() {
    assert_eq!(parse_env_value("5m", &hint(FigValue::Duration(Duration::zero()))), Some(FigValue::Duration(Duration::from_secs(300))));
}

#[test]
fn test_parses_duration_hours() {
    assert_eq!(parse_env_value("2h", &hint(FigValue::Duration(Duration::zero()))), Some(FigValue::Duration(Duration::from_secs(7200))));
}

#[test]
fn test_parses_duration_days() {
    assert_eq!(parse_env_value("1d", &hint(FigValue::Duration(Duration::zero()))), Some(FigValue::Duration(Duration::from_secs(86400))));
}

#[test]
fn test_parses_duration_milliseconds() {
    assert_eq!(parse_env_value("500ms", &hint(FigValue::Duration(Duration::zero()))), Some(FigValue::Duration(Duration::from_millis(500))));
}

#[test]
fn test_parses_duration_bare_number_as_seconds() {
    assert_eq!(parse_env_value("60", &hint(FigValue::Duration(Duration::zero()))), Some(FigValue::Duration(Duration::from_secs(60))));
}

#[test]
fn duration_rejects_unknown_units() {
    assert_eq!(parse_env_value("5w", &FigValue::Duration(Duration::zero())), None);
    assert_eq!(parse_env_value("", &FigValue::Duration(Duration::zero())), None);
}

#[test]
fn test_parses_list_string() {
    let result = parse_env_value("a,b,c", &hint(FigValue::ListString(vec![])));
    assert_eq!(result, Some(FigValue::ListString(vec!["a".into(), "b".into(), "c".into()])));
}

#[test]
fn test_parses_list_int() {
    assert_eq!(parse_env_value("1,2,3", &hint(FigValue::ListInt(vec![]))), Some(FigValue::ListInt(vec![1, 2, 3])));
}

#[test]
fn test_parses_list_int128() {
    let big = i64::MAX as i128 + 1;
    let raw = format!("{},{}", big, big);
    assert_eq!(parse_env_value(&raw, &hint(FigValue::ListInt128(vec![]))), Some(FigValue::ListInt128(vec![big, big])));
}

#[test]
fn test_parses_list_bool() {
    let result = parse_env_value("true,false,1,0", &hint(FigValue::ListBool(vec![])));
    assert_eq!(result, Some(FigValue::ListBool(vec![true, false, true, false])));
}

#[test]
fn test_list_with_spaces_is_trimmed() {
    let result = parse_env_value(" a , b , c ", &hint(FigValue::ListString(vec![])));
    assert_eq!(result, Some(FigValue::ListString(vec!["a".into(), "b".into(), "c".into()])));
}

#[test]
fn list_with_a_bad_item_is_refused() {
    assert_eq!(parse_env_value("1,x,3", &FigValue::ListInt(vec![])), None);
}

#[test]
fn split_csv_trims_each_piece() {
    assert_eq!(split_csv(" a ,b,, c"), vec!["a".to_string(), "b".to_string(), "".to_string(), "c".to_string()]);
}

#[test]
fn test_parses_map_string() {
    let result = parse_env_value("env=prod,version=1.0", &hint(FigValue::MapString(StrMap::new())));
    if let Some(FigValue::MapString(m)) = result {
        assert_eq!(m.get("env"), Some(&"prod".to_string()));
        assert_eq!(m.get("version"), Some(&"1.0".to_string()));
    } else {
        panic!("expected MapString");
    }
}

#[test]
fn test_parses_map_int() {
    let result = parse_env_value("port=8080,workers=4", &hint(FigValue::MapInt(StrMap::new())));
    if let Some(FigValue::MapInt(m)) = result {
        assert_eq!(m.get("port"), Some(&8080i32));
        assert_eq!(m.get("workers"), Some(&4i32));
    } else {
        panic!("expected MapInt");
    }
}

#[test]
fn test_parses_map_bool() {
    let result = parse_env_value("debug=true,verbose=false", &hint(FigValue::MapBool(StrMap::new())));
    if let Some(FigValue::MapBool(m)) = result {
        assert_eq!(m.get("debug"), Some(&true));
        assert_eq!(m.get("verbose"), Some(&false));
    } else {
        panic!("expected MapBool");
    }
}

#[test]
fn floats_are_not_read_without_a_codec() {
    assert_eq!(parse_env_value("3.14", &FigValue::Float64(0)), None);
}

// ── CliSource ─────────────────────────────────────────────────────────────────

fn source_with(key: &str, val: &str) -> CliSource {
    let mut m = StrMap::new();
    m.insert(key.to_string(), val.to_string());
    CliSource::new(m)
}

#[test]
fn test_get_returns_string_value() {
    let src = source_with("workers", "20");
    assert_eq!(src.get("workers"), Some(FigValue::String("20".into())));
}

#[test]
fn cli_test_get_returns_none_for_missing_key() {
    let src = CliSource::new(StrMap::new());
    assert!(src.get("workers").is_none());
}

#[test]
fn test_get_typed_parses_int() {
    let src = source_with("workers", "20");
    assert_eq!(src.get_typed("workers", &FigValue::Int(0)), Some(FigValue::Int(20)));
}

#[test]
fn test_get_typed_parses_bool() {
    let src = source_with("debug", "true");
    assert_eq!(src.get_typed("debug", &FigValue::Bool(false)), Some(FigValue::Bool(true)));
}

#[test]
fn cli_test_source_name() {
    assert_eq!(CliSource::new(StrMap::new()).source_name(), "flag");
}

#[test]
fn cli_test_as_fig_source() {
    assert!(matches!(CliSource::new(StrMap::new()).as_fig_source(), FigSource::Flag(_)));
}

#[test]
fn cli_source_reads_clap_matches() {
    let cmd = clap::Command::new("app")
        .arg(clap::Arg::new("workers").long("workers"))
        .arg(clap::Arg::new("host").long("host"));
    let matches = cmd.try_get_matches_from(["app", "--workers", "8"]).unwrap();
    let src = CliSource::from_arg_matches(&matches, &["workers", "host"]).unwrap();
    assert_eq!(src.get("workers"), Some(FigValue::String("8".into())));
    assert!(src.get("host").is_none());
}

#[test]
fn cli_source_from_flag_answers_takes_given_values() {
    let src = CliSource::from_flag_answers(
        &["workers", "host", "port"],
        vec![Ok(Some("8".to_string())), Ok(None), Ok(Some("80".to_string()))],
    )
    .unwrap();
    assert_eq!(src.get("workers"), Some(FigValue::String("8".into())));
    assert!(src.get("host").is_none());
    assert_eq!(src.get("port"), Some(FigValue::String("80".into())));
}

#[test]
fn cli_source_from_flag_answers_refuses_first_mismatch() {
    let r = CliSource::from_flag_answers(
        &["workers", "host", "port"],
        vec![Ok(Some("8".to_string())), Err("bad type".to_string()), Err("unknown".to_string())],
    );
    match r {
        Err(FigtreeError::Other(m)) => assert_eq!(m, "Mismatch between definition and access of `host`. bad type"),
        _ => panic!("expected Other"),
    }
}

// ── DotenvSource ──────────────────────────────────────────────────────────────

fn dotenv_source(contents: &str) -> DotenvSource {
    DotenvSource::from_text("test.env", contents).unwrap()
}

#[test]
fn test_load_valid_dotenv() {
    let src = dotenv_source("WORKERS=10\nENDPOINT=http://localhost\n");
    assert!(src.get("WORKERS").is_some());
}

#[test]
fn dotenv_test_get_returns_string() {
    let src = dotenv_source("WORKERS=10\n");
    assert_eq!(src.get("WORKERS"), Some(FigValue::String("10".into())));
}

#[test]
fn dotenv_test_get_typed_int() {
    let src = dotenv_source("WORKERS=10\n");
    assert_eq!(src.get_typed("WORKERS", &FigValue::Int(0)), Some(FigValue::Int(10)));
}

#[test]
fn dotenv_test_get_typed_bool() {
    let src = dotenv_source("DEBUG=true\n");
    assert_eq!(src.get_typed("DEBUG", &FigValue::Bool(false)), Some(FigValue::Bool(true)));
}

#[test]
fn test_comment_lines_are_ignored() {
    let src = dotenv_source("# this is a comment\nWORKERS=5\n");
    assert_eq!(src.get("WORKERS"), Some(FigValue::String("5".into())));
    assert!(src.get("# this is a comment").is_none());
}

#[test]
fn dotenv_test_get_returns_none_for_missing() {
    let src = dotenv_source("WORKERS=10\n");
    assert!(src.get("MISSING").is_none());
}

#[test]
fn dotenv_test_as_fig_source_is_file_variant() {
    let src = dotenv_source("A=1\n");
    assert!(matches!(src.as_fig_source(), FigSource::File(_)));
    assert_eq!(src.source_name(), "file(test.env)");
}

#[test]
fn dotenv_later_pair_wins() {
    let src = DotenvSource::from_pairs("x.env", vec![("A".into(), "1".into()), ("A".into(), "2".into())]);
    assert_eq!(src.get("A"), Some(FigValue::String("2".into())));
}

#[test]
fn dotenv_unreadable_text_is_a_parse_failure() {
    assert!(matches!(
        DotenvSource::from_text("bad.env", "KEY='unterminated\n"),
        Err(FigtreeError::FileParseFailed { .. })
    ));
}

// ── IniSource ─────────────────────────────────────────────────────────────────

fn ini_source(contents: &str) -> IniSource {
    IniSource::from_text("test.ini", contents).unwrap()
}

#[test]
fn test_load_valid_ini() {
    let src = ini_source("workers=10\nendpoint=http://localhost\n");
    assert!(src.get("workers").is_some());
}

#[test]
fn ini_test_get_returns_string() {
    let src = ini_source("workers=10\n");
    assert_eq!(src.get("workers"), Some(FigValue::String("10".into())));
}

#[test]
fn ini_test_get_typed_int() {
    let src = ini_source("workers=10\n");
    assert_eq!(src.get_typed("workers", &FigValue::Int(0)), Some(FigValue::Int(10)));
}

#[test]
fn test_section_key_accessible_as_dotted() {
    let src = ini_source("[database]\nhost=localhost\nport=5432\n");
    assert_eq!(src.get("database.host"), Some(FigValue::String("localhost".into())));
}

#[test]
fn ini_test_get_returns_none_for_missing() {
    let src = ini_source("workers=10\n");
    assert!(src.get("missing").is_none());
}

#[test]
fn ini_test_as_fig_source_is_file_variant() {
    let src = ini_source("a=1\n");
    assert!(matches!(src.as_fig_source(), FigSource::File(_)));
}

#[test]
fn ini_entries_flatten_sections() {
    let src = IniSource::from_entries(
        "x.ini",
        vec![(None, "a".into(), "1".into()), (Some("s".into()), "b".into(), "2".into())],
    );
    assert_eq!(src.get("a"), Some(FigValue::String("1".into())));
    assert_eq!(src.get("s.b"), Some(FigValue::String("2".into())));
    assert!(src.get("b").is_none());
}

// ── EmbeddedSource ────────────────────────────────────────────────────────────

const STATIC_CONFIG: &[(&str, &str)] = &[
    ("pid_kp", "0.8"),
    ("pid_ki", "0.2"),
    ("max_velocity", "1.5"),
    ("enabled", "true"),
    ("channels", "1,2,3"),
];

fn test_source() -> EmbeddedSource {
    EmbeddedSource::new("flash", |key: &str| STATIC_CONFIG.iter().find(|(k, _)| *k == key).map(|(_, v)| *v))
}

#[test]
fn test_get_returns_string_for_known_key() {
    assert_eq!(test_source().get("pid_kp"), Some(FigValue::String("0.8".into())));
}

#[test]
fn test_get_returns_none_for_unknown_key() {
    assert!(test_source().get("nonexistent").is_none());
}

#[test]
fn embedded_test_get_typed_bool() {
    assert_eq!(test_source().get_typed("enabled", &FigValue::Bool(false)), Some(FigValue::Bool(true)));
}

#[test]
fn test_get_typed_list_int() {
    assert_eq!(test_source().get_typed("channels", &FigValue::ListInt(vec![])), Some(FigValue::ListInt(vec![1, 2, 3])));
}

#[test]
fn embedded_test_source_name() {
    assert_eq!(test_source().source_name(), "flash");
}

#[test]
fn embedded_test_as_fig_source() {
    assert!(matches!(test_source().as_fig_source(), FigSource::File(_)));
}

// ── document sources ──────────────────────────────────────────────────────────

fn node() -> DocNode {
    DocNode {
        string: None,
        number: None,
        integer: false,
        null: false,
        tagged: false,
        int: None,
        float: None,
        boolean: None,
        items: None,
        entries: None,
    }
}

fn int_node(n: i64) -> DocNode {
    DocNode { integer: true, int: Some(n), ..node() }
}

fn text_node(s: &str) -> DocNode {
    DocNode { string: Some(s.to_string()), ..node() }
}

fn bool_node(b: bool) -> DocNode {
    DocNode { boolean: Some(b), ..node() }
}

fn float_node(f: f64) -> DocNode {
    DocNode { number: Some(f.to_string()), float: Some(f.to_bits()), ..node() }
}

fn seq_node(items: Vec<DocNode>) -> DocNode {
    DocNode { items: Some(items), ..node() }
}

fn table_node(entries: Vec<(&str, DocNode)>) -> DocNode {
    DocNode { entries: Some(entries.into_iter().map(|(k, v)| (text_node(k), v)).collect()), ..node() }
}

fn top(entries: Vec<(&str, DocNode)>) -> Vec<(String, DocNode)> {
    entries.into_iter().map(|(k, v)| (k.to_string(), v)).collect()
}

#[test]
fn test_load_valid_toml() {
    let src = TomlSource::from_entries("c.toml", top(vec![("workers", int_node(10)), ("endpoint", text_node("http://localhost"))]));
    assert!(src.get("workers").is_some());
}

#[test]
fn test_load_valid_json() {
    let src = JsonSource::from_entries("c.json", top(vec![("workers", int_node(10))]));
    assert!(src.get("workers").is_some());
}

#[test]
fn test_load_valid_plist() {
    let src = PlistSource::from_entries(
        "c.plist",
        top(vec![
            ("workers", int_node(10)),
            ("debug", bool_node(true)),
            ("endpoint", text_node("http://localhost")),
            ("threshold", float_node(0.75)),
        ]),
    );
    assert!(src.get("workers").is_some());
}

#[test]
fn test_load_valid_ron() {
    let src = RonSource::from_entries("c.ron", top(vec![("workers", int_node(10)), ("endpoint", text_node("http://localhost"))]));
    assert!(src.get("workers").is_some());
}

#[test]
fn test_load_valid_yaml() {
    let src = YamlSource::from_entries("c.yaml", top(vec![("workers", int_node(10)), ("endpoint", text_node("http://localhost"))]));
    assert!(src.get("workers").is_some());
}

#[test]
fn toml_test_get_typed_int() {
    let src = TomlSource::from_entries("c.toml", top(vec![("workers", int_node(10))]));
    assert_eq!(src.get_typed("workers", &FigValue::Int(0)), Some(FigValue::Int(10)));
}

#[test]
fn toml_test_get_typed_bool() {
    let src = TomlSource::from_entries("c.toml", top(vec![("debug", bool_node(true))]));
    assert_eq!(src.get_typed("debug", &FigValue::Bool(false)), Some(FigValue::Bool(true)));
}

#[test]
fn toml_test_get_typed_float64() {
    let src = TomlSource::from_entries("c.toml", top(vec![("threshold", float_node(0.75))]));
    assert_eq!(src.get_typed("threshold", &FigValue::Float64(0)), Some(FigValue::Float64(0.75f64.to_bits())));
}

#[test]
fn toml_test_get_typed_list_string() {
    let src = TomlSource::from_entries(
        "c.toml",
        top(vec![("servers", seq_node(vec![text_node("a"), text_node("b"), text_node("c")]))]),
    );
    assert_eq!(
        src.get_typed("servers", &FigValue::ListString(vec![])),
        Some(FigValue::ListString(vec!["a".into(), "b".into(), "c".into()]))
    );
}

#[test]
fn test_nested_key_via_dotted_access() {
    let src = TomlSource::from_entries(
        "c.toml",
        top(vec![("database", table_node(vec![("host", text_node("localhost")), ("port", int_node(5432))]))]),
    );
    assert_eq!(src.get_typed("database.host", &FigValue::String(String::new())), Some(FigValue::String("localhost".into())));
    assert_eq!(src.get_typed("database.port", &FigValue::Int(0)), Some(FigValue::Int(5432)));
    assert!(src.get_toml_value("database.user").is_none());
}

#[test]
fn toml_test_get_returns_none_for_missing() {
    let src = TomlSource::from_entries("c.toml", top(vec![("workers", int_node(10))]));
    assert!(src.get("missing").is_none());
}

#[test]
fn toml_test_as_fig_source_is_file_variant() {
    let src = TomlSource::from_entries("c.toml", top(vec![("a", int_node(1))]));
    assert!(matches!(src.as_fig_source(), FigSource::File(_)));
    assert_eq!(src.source_name(), "file(c.toml)");
}

#[test]
fn yaml_test_get_typed_int() {
    let src = YamlSource::from_entries("c.yaml", top(vec![("workers", int_node(10))]));
    assert_eq!(src.get_typed("workers", &FigValue::Int(0)), Some(FigValue::Int(10)));
}

#[test]
fn yaml_test_get_typed_bool() {
    let src = YamlSource::from_entries("c.yaml", top(vec![("debug", bool_node(true))]));
    assert_eq!(src.get_typed("debug", &FigValue::Bool(false)), Some(FigValue::Bool(true)));
}

#[test]
fn yaml_test_get_typed_list_string() {
    let src = YamlSource::from_entries("c.yaml", top(vec![("servers", seq_node(vec![text_node("a"), text_node("b")]))]));
    assert_eq!(src.get_typed("servers", &FigValue::ListString(vec![])), Some(FigValue::ListString(vec!["a".into(), "b".into()])));
}

#[test]
fn test_get_returns_string_for_scalar() {
    let src = YamlSource::from_entries("c.yaml", top(vec![("workers", int_node(10))]));
    assert_eq!(src.get("workers"), Some(FigValue::String("10".into())));
}

#[test]
fn test_get_typed_map_string() {
    let src = YamlSource::from_entries(
        "c.yaml",
        top(vec![("metadata", table_node(vec![("env", text_node("prod")), ("version", text_node("1.0"))]))]),
    );
    if let Some(FigValue::MapString(m)) = src.get_typed("metadata", &FigValue::MapString(StrMap::new())) {
        assert_eq!(m.get("env"), Some(&"prod".to_string()));
        assert_eq!(m.get("version"), Some(&"1.0".to_string()));
    } else {
        panic!("expected MapString");
    }
}

#[test]
fn yaml_test_get_returns_none_for_missing_key() {
    let src = YamlSource::from_entries("c.yaml", top(vec![("workers", int_node(10))]));
    assert!(src.get("missing").is_none());
}

#[test]
fn yaml_test_as_fig_source_is_file_variant() {
    let src = YamlSource::from_entries("c.yaml", top(vec![]));
    assert!(matches!(src.as_fig_source(), FigSource::File(_)));
}

#[test]
fn yaml_keys_are_not_walked_at_dots() {
    let src = YamlSource::from_entries("c.yaml", top(vec![("a.b", int_node(1)), ("a", table_node(vec![("b", int_node(2))]))]));
    assert_eq!(src.get_typed("a.b", &FigValue::Int(0)), Some(FigValue::Int(1)));
}

#[test]
fn json_test_get_typed_int() {
    let src = JsonSource::from_entries("c.json", top(vec![("workers", int_node(10))]));
    assert_eq!(src.get_typed("workers", &FigValue::Int(0)), Some(FigValue::Int(10)));
}

#[test]
fn json_test_get_typed_bool() {
    let src = JsonSource::from_entries("c.json", top(vec![("debug", bool_node(true))]));
    assert_eq!(src.get_typed("debug", &FigValue::Bool(false)), Some(FigValue::Bool(true)));
}

#[test]
fn json_test_get_typed_list_string() {
    let src = JsonSource::from_entries("c.json", top(vec![("servers", seq_node(vec![text_node("a"), text_node("b")]))]));
    assert_eq!(src.get_typed("servers", &FigValue::ListString(vec![])), Some(FigValue::ListString(vec!["a".into(), "b".into()])));
}

#[test]
fn json_test_get_returns_none_for_missing_key() {
    let src = JsonSource::from_entries("c.json", top(vec![]));
    assert!(src.get("missing").is_none());
}

#[test]
fn json_test_as_fig_source_is_file_variant() {
    let src = JsonSource::from_entries("c.json", top(vec![]));
    assert!(matches!(src.as_fig_source(), FigSource::File(_)));
}

#[test]
fn plist_test_get_typed_int() {
    let src = PlistSource::from_entries("c.plist", top(vec![("workers", int_node(10))]));
    assert_eq!(src.get_typed("workers", &FigValue::Int(0)), Some(FigValue::Int(10)));
}

#[test]
fn plist_test_get_typed_bool() {
    let src = PlistSource::from_entries("c.plist", top(vec![("debug", bool_node(true))]));
    assert_eq!(src.get_typed("debug", &FigValue::Bool(false)), Some(FigValue::Bool(true)));
}

#[test]
fn plist_test_get_typed_float64() {
    let src = PlistSource::from_entries("c.plist", top(vec![("threshold", float_node(0.75))]));
    assert_eq!(src.get_typed("threshold", &FigValue::Float64(0)), Some(FigValue::Float64(0.75f64.to_bits())));
}

#[test]
fn test_get_typed_string() {
    let src = PlistSource::from_entries("c.plist", top(vec![("endpoint", text_node("http://localhost"))]));
    assert_eq!(
        src.get_typed("endpoint", &FigValue::String(String::new())),
        Some(FigValue::String("http://localhost".into()))
    );
}

#[test]
fn plist_test_get_returns_none_for_missing() {
    let src = PlistSource::from_entries("c.plist", top(vec![]));
    assert!(src.get("missing").is_none());
}

#[test]
fn plist_test_as_fig_source_is_file_variant() {
    let src = PlistSource::from_entries("c.plist", top(vec![]));
    assert!(matches!(src.as_fig_source(), FigSource::File(_)));
}

#[test]
fn ron_test_get_typed_int() {
    let src = RonSource::from_entries("c.ron", top(vec![("workers", int_node(10))]));
    assert_eq!(src.get_typed("workers", &FigValue::Int(0)), Some(FigValue::Int(10)));
}

#[test]
fn ron_test_get_typed_bool() {
    let src = RonSource::from_entries("c.ron", top(vec![("debug", bool_node(true))]));
    assert_eq!(src.get_typed("debug", &FigValue::Bool(false)), Some(FigValue::Bool(true)));
}

#[test]
fn ron_test_get_typed_float64() {
    let src = RonSource::from_entries("c.ron", top(vec![("threshold", float_node(0.75))]));
    assert_eq!(src.get_typed("threshold", &FigValue::Float64(0)), Some(FigValue::Float64(0.75f64.to_bits())));
}

#[test]
fn ron_test_get_typed_list_string() {
    let src = RonSource::from_entries("c.ron", top(vec![("servers", seq_node(vec![text_node("a"), text_node("b")]))]));
    assert_eq!(src.get_typed("servers", &FigValue::ListString(vec![])), Some(FigValue::ListString(vec!["a".into(), "b".into()])));
}

#[test]
fn ron_test_get_returns_none_for_missing() {
    let src = RonSource::from_entries("c.ron", top(vec![]));
    assert!(src.get("missing").is_none());
}

#[test]
fn ron_test_as_fig_source_is_file_variant() {
    let src = RonSource::from_entries("c.ron", top(vec![]));
    assert!(matches!(src.as_fig_source(), FigSource::File(_)));
}

#[test]
fn document_values_convert_by_element() {
    let src = YamlSource::from_entries(
        "c.yaml",
        top(vec![
            ("ports", seq_node(vec![int_node(80), int_node(443)])),
            ("big", int_node(i64::MAX)),
            ("mixed", seq_node(vec![int_node(1), text_node("x")])),
            ("limits", table_node(vec![("cpu", int_node(2)), ("mem", int_node(4))])),
            ("timeout", text_node("30s")),
        ]),
    );
    assert_eq!(src.get_typed("ports", &FigValue::ListInt(vec![])), Some(FigValue::ListInt(vec![80, 443])));
    assert_eq!(src.get_typed("big", &FigValue::Int(0)), None);
    assert_eq!(src.get_typed("big", &FigValue::Int128(0)), Some(FigValue::Int128(i64::MAX as i128)));
    assert_eq!(src.get_typed("mixed", &FigValue::ListInt(vec![])), None);
    let mut m = StrMap::new();
    m.insert("cpu".to_string(), 2i32);
    m.insert("mem".to_string(), 4i32);
    assert_eq!(src.get_typed("limits", &FigValue::MapInt(StrMap::new())), Some(FigValue::MapInt(m)));
    assert_eq!(src.get_typed("timeout", &FigValue::Duration(Duration::zero())), Some(FigValue::Duration(Duration::from_secs(30))));
    assert_eq!(src.get("ports"), None);
}

#[test]
fn document_source_feeds_the_tree() {
    let mut tree = figtree::Tree::new();
    tree.new_int("workers", 4, "");
    tree.with_file_source(Box::new(TomlSource::from_entries("c.toml", top(vec![("workers", int_node(12))]))));
    tree.parse().unwrap();
    assert_eq!(tree.integer("workers").unwrap(), 12);
    assert!(matches!(tree.fig("workers").unwrap().source, FigSource::File(ref p) if p == "c.toml"));
}

#[test]
fn first_file_source_wins() {
    let mut tree = figtree::Tree::new();
    tree.new_int("workers", 4, "");
    tree.with_file_source(Box::new(JsonSource::from_entries("a.json", top(vec![]))));
    tree.with_file_source(Box::new(JsonSource::from_entries("b.json", top(vec![("workers", int_node(5))]))));
    tree.with_file_source(Box::new(JsonSource::from_entries("c.json", top(vec![("workers", int_node(6))]))));
    tree.parse().unwrap();
    assert_eq!(tree.integer("workers").unwrap(), 5);
}

#[test]
fn cli_source_refuses_unknown_argument() {
    let cmd = clap::Command::new("app").arg(clap::Arg::new("workers").long("workers"));
    let matches = cmd.try_get_matches_from(["app", "--workers", "8"]).unwrap();
    match CliSource::from_arg_matches(&matches, &["workers", "nope"]) {
        Err(FigtreeError::Other(m)) => assert!(m.starts_with("Mismatch between definition and access of `nope`. ")),
        _ => panic!("expected a refusal"),
    }
}

#[test]
fn cli_source_with_no_keys_is_empty() {
    let cmd = clap::Command::new("app").arg(clap::Arg::new("workers").long("workers"));
    let matches = cmd.try_get_matches_from(["app", "--workers", "8"]).unwrap();
    let src = CliSource::from_arg_matches(&matches, &[]).unwrap();
    assert!(src.get("workers").is_none());
}

#[test]
fn ini_source_skips_leading_byte_order_mark() {
    let src = IniSource::from_text("bom.ini", "\u{feff}workers = 8\n[db]\nhost = x\n").unwrap();
    assert_eq!(src.get("workers"), Some(FigValue::String("8".into())));
    assert_eq!(src.get("db.host"), Some(FigValue::String("x".into())));
}
