use figtree::duration::Duration;
use figtree::mutation::mutation_channel;
use figtree::priority::Source;
use figtree::sources::CliSource;
use figtree::strmap::StrMap;
use figtree::tree::{config_format, ConfigFormat};
use figtree::validators::assure_int_in_range;
use figtree::{CallbackPhase, FigSource, FigValue, FigtreeError, Options, Rule, Tree};
use std::collections::HashMap;
use std::sync::{Arc, Mutex};

/// An environment the test controls: a shared map read at each lookup.
struct TestEnv {
    vars: Arc<Mutex<HashMap<String, String>>>,
}

impl Source for TestEnv {
    fn get(&self, key: &str) -> Option<FigValue> {
        self.vars.lock().unwrap().get(key).map(|v| FigValue::String(v.clone()))
    }

    fn source_name(&self) -> String {
        "env".into()
    }

    fn as_fig_source(&self) -> FigSource {
        FigSource::Environment("env".into())
    }
}

fn test_env(tree: &mut Tree) -> Arc<Mutex<HashMap<String, String>>> {
    let vars = Arc::new(Mutex::new(HashMap::new()));
    tree.with_env_source(Some(Box::new(TestEnv { vars: vars.clone() })));
    vars
}

fn flags(key: &str, val: &str) -> CliSource {
    let mut m = StrMap::new();
    m.insert(key.to_string(), val.to_string());
    CliSource::new(m)
}

// ── construction ──────────────────────────────────────────────────────────────

#[test]
fn test_new_creates_empty_non_tracking_tree() {
    let tree = Tree::new();
    assert!(tree.is_empty());
    assert!(!tree.is_resolved());
    assert!(!tree.is_tracking());
}

#[test]
fn test_grow_enables_tracking() {
    let tree = Tree::grow();
    assert!(tree.is_tracking());
}

#[test]
fn test_with_pollinate_option() {
    let tree = Tree::with(Options { pollinate: true, ..Options::default() });
    assert!(tree.is_pollinating());
}

#[test]
fn tree_new_starts_empty_and_unresolved() {
    let tree = Tree::new();
    assert!(tree.is_empty());
    assert!(!tree.is_resolved());
}

#[test]
fn tree_grow_enables_tracking() {
    let mut tree = Tree::grow();
    assert!(tree.mutations().is_some());
}

// ── registration ──────────────────────────────────────────────────────────────

#[test]
fn test_register_multiple_types() {
    let mut tree = Tree::new();
    tree.new_string("endpoint", "http://localhost", "api endpoint")
        .new_int("workers", 4, "worker count")
        .new_bool("debug", false, "debug mode")
        .new_float64("threshold", 0.5f64.to_bits(), "match threshold")
        .new_int128("big_id", 0, "large identifier");
    assert_eq!(tree.len(), 5);
}

#[test]
fn test_duplicate_registration_first_wins() {
    let mut tree = Tree::new();
    tree.new_int("workers", 4, "first");
    tree.new_int("workers", 99, "second");
    tree.parse().unwrap();
    assert_eq!(tree.integer("workers").unwrap(), 4);
}

#[test]
fn duplicate_registration_first_wins() {
    let mut tree = Tree::new();
    tree.new_int("workers", 4, "first");
    tree.new_int("workers", 99, "second");
    tree.parse().unwrap();
    assert_eq!(tree.integer("workers").unwrap(), 4);
    assert_eq!(tree.len(), 1);
}

#[test]
fn test_description_stored() {
    let mut tree = Tree::new();
    tree.new_int("workers", 4, "number of worker threads");
    assert_eq!(tree.description("workers"), Some("number of worker threads"));
}

#[test]
fn duplicate_registration_keeps_first_description() {
    let mut tree = Tree::new();
    tree.new_int("workers", 4, "first");
    tree.new_int("workers", 99, "second");
    assert_eq!(tree.description("workers"), Some("first"));
    assert_eq!(tree.description("missing"), None);
}

// ── parse and load ────────────────────────────────────────────────────────────

#[test]
fn test_parse_resolves_defaults() {
    let mut tree = Tree::new();
    tree.new_int("workers", 10, "").new_string("host", "localhost", "").new_bool("debug", true, "");
    tree.parse().unwrap();
    assert!(tree.is_resolved());
    assert_eq!(tree.integer("workers").unwrap(), 10);
    assert_eq!(tree.string("host").unwrap(), "localhost");
    assert_eq!(tree.boolean("debug").unwrap(), true);
}

#[test]
fn test_required_key_missing_fails_parse() {
    let mut tree = Tree::new();
    tree.new_string_required("api_key", "required api key");
    assert!(matches!(tree.parse(), Err(FigtreeError::MissingRequired(_))));
}

#[test]
fn required_key_missing_returns_error() {
    let mut tree = Tree::new();
    tree.new_string_required("api_key", "required api key");
    match tree.parse() {
        Err(FigtreeError::MissingRequired(k)) => assert_eq!(k, "api_key"),
        other => panic!("unexpected {:?}", other),
    }
    assert!(!tree.is_resolved());
}

#[test]
fn required_key_provided_via_env_succeeds() {
    let mut tree = Tree::new();
    let env = test_env(&mut tree);
    env.lock().unwrap().insert("FIGTREE_TEST_API_KEY_XYZ".into(), "secret-value".into());
    tree.new_string_required("FIGTREE_TEST_API_KEY_XYZ", "api key from env");
    tree.parse().unwrap();
    assert_eq!(tree.string("FIGTREE_TEST_API_KEY_XYZ").unwrap(), "secret-value");
}

#[test]
fn test_load_skips_flag_source_and_preserves_it() {
    let mut tree = Tree::new();
    tree.new_int("workers", 4, "");
    tree.with_flag_source(Box::new(flags("workers", "99")));
    tree.load().unwrap();
    assert_eq!(tree.integer("workers").unwrap(), 4);
    assert!(tree.has_flag_source());
}

#[test]
fn load_skips_flag_source_and_preserves_it() {
    let mut tree = Tree::new();
    tree.new_int("workers", 4, "");
    tree.with_flag_source(Box::new(flags("workers", "99")));
    tree.load().unwrap();
    assert_eq!(tree.integer("workers").unwrap(), 4);
    tree.parse().unwrap();
    assert_eq!(tree.integer("workers").unwrap(), 99);
}

#[test]
fn parse_uses_flag_source() {
    let mut tree = Tree::new();
    tree.new_int("workers", 4, "");
    tree.with_flag_source(Box::new(flags("workers", "99")));
    tree.parse().unwrap();
    assert_eq!(tree.integer("workers").unwrap(), 99);
}

#[test]
fn flag_beats_environment_and_no_flags_rule_ignores_flags() {
    let mut tree = Tree::new();
    let env = test_env(&mut tree);
    env.lock().unwrap().insert("workers".into(), "7".into());
    tree.new_int("workers", 4, "");
    tree.with_flag_source(Box::new(flags("workers", "99")));
    tree.parse().unwrap();
    assert_eq!(tree.integer("workers").unwrap(), 99);
    assert!(matches!(tree.fig("workers").unwrap().source, FigSource::Flag(_)));
    tree.with_rule("workers", Rule::NoFlags).unwrap();
    tree.parse().unwrap();
    assert_eq!(tree.integer("workers").unwrap(), 7);
    assert!(matches!(tree.fig("workers").unwrap().source, FigSource::Environment(_)));
}

#[test]
fn unparsable_flag_text_is_a_parse_failure() {
    let mut tree = Tree::new();
    tree.new_int("workers", 4, "");
    tree.with_flag_source(Box::new(flags("workers", "many")));
    match tree.parse() {
        Err(FigtreeError::ParseFailed { key, raw, reason }) => {
            assert_eq!(key, "workers");
            assert_eq!(raw, "many");
            assert_eq!(reason, "cannot parse 'many' as Int");
        }
        other => panic!("unexpected {:?}", other),
    }
}

#[test]
fn prevent_change_key_is_not_resolved_twice() {
    let mut tree = Tree::new();
    tree.new_int("workers", 4, "");
    tree.with_rule("workers", Rule::PreventChange).unwrap();
    tree.parse().unwrap();
    tree.with_flag_source(Box::new(flags("workers", "99")));
    tree.parse().unwrap();
    assert_eq!(tree.integer("workers").unwrap(), 4);
}

// ── getters ───────────────────────────────────────────────────────────────────

#[test]
fn test_string_getter_takes_shared_ref() {
    let mut tree = Tree::new();
    tree.new_string("host", "localhost", "");
    tree.parse().unwrap();
    let a = tree.string("host").unwrap();
    let b = tree.string("host").unwrap();
    assert_eq!(a, b);
    assert_eq!(a, "localhost");
}

#[test]
fn test_getters_return_correct_types() {
    let mut tree = Tree::new();
    let big: i128 = i64::MAX as i128 + 1;
    tree.new_int("workers", 4, "")
        .new_int64("big_int", i64::MAX, "")
        .new_int128("huge", big, "")
        .new_float64("ratio", 0.75f64.to_bits(), "")
        .new_bool("debug", false, "")
        .new_string("host", "x", "");
    tree.parse().unwrap();
    assert_eq!(tree.integer("workers").unwrap(), 4);
    assert_eq!(tree.int64("big_int").unwrap(), i64::MAX);
    assert_eq!(tree.int128("huge").unwrap(), big);
    assert_eq!(f64::from_bits(tree.float64("ratio").unwrap()), 0.75);
    assert_eq!(tree.boolean("debug").unwrap(), false);
    assert_eq!(tree.string("host").unwrap(), "x");
}

#[test]
fn full_lifecycle_all_scalar_types() {
    let big: i128 = i64::MAX as i128 + 1;
    let mut tree = Tree::new();
    tree.new_string("endpoint", "http://localhost", "api endpoint")
        .new_int("workers", 4, "worker count")
        .new_int64("big_int", i64::MAX, "large integer")
        .new_int128("huge", big, "very large integer")
        .new_float64("threshold", 0.75f64.to_bits(), "match threshold")
        .new_bool("debug", false, "debug mode");
    tree.parse().unwrap();
    assert_eq!(tree.string("endpoint").unwrap(), "http://localhost");
    assert_eq!(tree.integer("workers").unwrap(), 4);
    assert_eq!(tree.int64("big_int").unwrap(), i64::MAX);
    assert_eq!(tree.int128("huge").unwrap(), big);
    assert_eq!(f64::from_bits(tree.float64("threshold").unwrap()), 0.75);
    assert_eq!(tree.boolean("debug").unwrap(), false);
}

#[test]
fn full_lifecycle_list_types() {
    let mut tree = Tree::new();
    tree.new_list_string("tags", vec!["a".into(), "b".into()], "tags")
        .new_list_int("ports", vec![8080, 9090], "ports")
        .new_list_int64("ids", vec![i64::MAX], "ids")
        .new_list_int128("big_ids", vec![i64::MAX as i128 + 1], "big ids")
        .new_list_bool("flags", vec![true, false], "flags");
    tree.parse().unwrap();
    assert_eq!(tree.list_string("tags").unwrap(), vec!["a".to_string(), "b".to_string()]);
    assert_eq!(tree.list_int("ports").unwrap(), vec![8080i32, 9090i32]);
}

#[test]
fn full_lifecycle_map_types() {
    let mut metadata = StrMap::new();
    metadata.insert("env".to_string(), "prod".to_string());
    metadata.insert("version".to_string(), "1.0".to_string());
    let mut tree = Tree::new();
    tree.new_map_string("metadata", metadata.clone(), "deployment metadata");
    tree.parse().unwrap();
    let result = tree.map_string("metadata").unwrap();
    assert_eq!(result.get("env"), Some(&"prod".to_string()));
    assert_eq!(result.get("version"), Some(&"1.0".to_string()));
}

#[test]
fn test_unknown_key_getter_returns_error() {
    let mut tree = Tree::new();
    tree.parse().unwrap();
    assert!(matches!(tree.integer("nonexistent"), Err(FigtreeError::UnknownKey(_))));
}

#[test]
fn getter_unknown_key_returns_error() {
    let mut tree = Tree::new();
    tree.parse().unwrap();
    assert!(matches!(tree.integer("nonexistent"), Err(FigtreeError::UnknownKey(_))));
}

#[test]
fn test_type_mismatch_getter_returns_error() {
    let mut tree = Tree::new();
    tree.new_string("endpoint", "http://localhost", "");
    tree.parse().unwrap();
    assert!(matches!(tree.integer("endpoint"), Err(FigtreeError::TypeMismatch { .. })));
}

#[test]
fn getter_type_mismatch_returns_error() {
    let mut tree = Tree::new();
    tree.new_string("endpoint", "http://localhost", "");
    tree.parse().unwrap();
    match tree.integer("endpoint") {
        Err(FigtreeError::TypeMismatch { key, expected, got }) => {
            assert_eq!(key, "endpoint");
            assert_eq!(expected, "Int");
            assert_eq!(got, "String");
        }
        other => panic!("unexpected {:?}", other),
    }
}

#[test]
fn required_key_read_before_resolution_is_missing() {
    let mut tree = Tree::new();
    tree.new_string_required("api_key", "");
    assert!(matches!(tree.string("api_key"), Err(FigtreeError::MissingRequired(_))));
}

#[test]
fn durations_read_back() {
    let mut tree = Tree::new();
    tree.new_duration("timeout", Duration::from_secs(30), "");
    tree.parse().unwrap();
    assert_eq!(tree.duration("timeout").unwrap(), Duration::from_secs(30));
}

// ── store ─────────────────────────────────────────────────────────────────────

#[test]
fn test_store_updates_value() {
    let mut tree = Tree::new();
    tree.new_int("workers", 4, "");
    tree.parse().unwrap();
    tree.store("workers", FigValue::Int(8)).unwrap();
    assert_eq!(tree.integer("workers").unwrap(), 8);
}

#[test]
fn store_updates_value_and_is_readable() {
    let mut tree = Tree::new();
    tree.new_int("workers", 4, "");
    tree.parse().unwrap();
    tree.store("workers", FigValue::Int(16)).unwrap();
    assert_eq!(tree.integer("workers").unwrap(), 16);
}

#[test]
fn test_store_unknown_key_returns_error() {
    let mut tree = Tree::new();
    assert!(matches!(tree.store("nonexistent", FigValue::Int(1)), Err(FigtreeError::UnknownKey(_))));
}

#[test]
fn store_unknown_key_returns_error() {
    let mut tree = Tree::new();
    assert!(matches!(tree.store("nonexistent", FigValue::Int(1)), Err(FigtreeError::UnknownKey(_))));
}

#[test]
fn test_store_type_mismatch_returns_error() {
    let mut tree = Tree::new();
    tree.new_int("workers", 4, "");
    tree.parse().unwrap();
    assert!(matches!(
        tree.store("workers", FigValue::String("oops".into())),
        Err(FigtreeError::TypeMismatch { .. })
    ));
}

#[test]
fn store_type_mismatch_returns_error_and_preserves_value() {
    let mut tree = Tree::new();
    tree.new_int("workers", 4, "");
    tree.parse().unwrap();
    let result = tree.store("workers", FigValue::String("oops".into()));
    assert!(matches!(result, Err(FigtreeError::TypeMismatch { .. })));
    assert_eq!(tree.integer("workers").unwrap(), 4);
}

#[test]
fn int128_beyond_i64_max_round_trips() {
    let big: i128 = i64::MAX as i128 + 999_999;
    let mut tree = Tree::new();
    tree.new_int128("huge_id", big, "");
    tree.parse().unwrap();
    assert_eq!(tree.int128("huge_id").unwrap(), big);
}

#[test]
fn int128_store_and_read_beyond_i64_max() {
    let mut tree = Tree::new();
    let end: i128 = i64::MAX as i128 + 1;
    tree.new_int128("counter", 0, "");
    tree.parse().unwrap();
    tree.store("counter", FigValue::Int128(end)).unwrap();
    assert_eq!(tree.int128("counter").unwrap(), end);
}

#[test]
fn test_int128_round_trips_beyond_i64_max() {
    let mut tree = Tree::new();
    let big: i128 = i64::MAX as i128 + 1;
    tree.new_int128("big_id", big, "");
    tree.parse().unwrap();
    assert_eq!(tree.int128("big_id").unwrap(), big);
}

// ── pollination ───────────────────────────────────────────────────────────────

#[test]
fn test_pollinate_is_noop_when_disabled() {
    let mut tree = Tree::new();
    tree.new_int("workers", 4, "");
    tree.parse().unwrap();
    tree.pollinate().unwrap();
    assert_eq!(tree.integer("workers").unwrap(), 4);
}

#[test]
fn test_pollinate_key_is_noop_when_disabled() {
    let mut tree = Tree::new();
    tree.new_int("workers", 4, "");
    tree.parse().unwrap();
    tree.pollinate_key("workers").unwrap();
    assert_eq!(tree.integer("workers").unwrap(), 4);
}

#[test]
fn pollinate_key_picks_up_a_changed_environment() {
    let mut tree = Tree::with(Options { pollinate: true, ..Options::default() });
    let env = test_env(&mut tree);
    env.lock().unwrap().insert("workers".into(), "4".into());
    tree.new_int("workers", 0, "");
    tree.parse().unwrap();
    assert_eq!(tree.integer("workers").unwrap(), 4);
    env.lock().unwrap().insert("workers".into(), "12".into());
    tree.pollinate_key("workers").unwrap();
    assert_eq!(tree.integer("workers").unwrap(), 12);
    assert!(matches!(tree.fig("workers").unwrap().source, FigSource::Environment(ref k) if k == "workers"));
    env.lock().unwrap().insert("workers".into(), "lots".into());
    tree.pollinate_key("workers").unwrap();
    assert_eq!(tree.integer("workers").unwrap(), 12);
}

// ── validators ────────────────────────────────────────────────────────────────

#[test]
fn test_validator_passes_on_valid_value() {
    let mut tree = Tree::new();
    tree.new_int("workers", 4, "");
    tree.with_validator("workers", "range", assure_int_in_range(1, 64)).unwrap();
    assert!(tree.parse().is_ok());
}

#[test]
fn test_validator_fails_on_invalid_default() {
    let mut tree = Tree::new();
    tree.new_int("workers", 0, "");
    tree.with_validator("workers", "positive", |v| match v {
        FigValue::Int(n) if *n > 0 => Ok(()),
        _ => Err(FigtreeError::ValidationFailed { key: String::new(), message: "must be positive".into() }),
    }).unwrap();
    assert!(tree.parse().is_err());
}

#[test]
fn test_with_validator_unknown_key_returns_error() {
    let mut tree = Tree::new();
    assert!(matches!(tree.with_validator("nonexistent", "v", |_| Ok(())), Err(FigtreeError::UnknownKey(_))));
}

// ── callbacks ─────────────────────────────────────────────────────────────────

#[test]
fn test_after_verify_fires_on_parse() {
    let fired = Arc::new(Mutex::new(false));
    let fired_ref = fired.clone();
    let mut tree = Tree::new();
    tree.new_int("workers", 4, "");
    tree.with_callback("workers", CallbackPhase::AfterVerify, move |_| {
        *fired_ref.lock().unwrap() = true;
        Ok(())
    }).unwrap();
    tree.parse().unwrap();
    assert!(*fired.lock().unwrap());
}

#[test]
fn test_after_change_fires_on_store() {
    let received = Arc::new(Mutex::new(0i32));
    let recv_ref = received.clone();
    let mut tree = Tree::new();
    tree.new_int("workers", 4, "");
    tree.with_callback("workers", CallbackPhase::AfterChange, move |v| {
        if let FigValue::Int(n) = v {
            *recv_ref.lock().unwrap() = *n;
        }
        Ok(())
    }).unwrap();
    tree.parse().unwrap();
    tree.store("workers", FigValue::Int(16)).unwrap();
    assert_eq!(*received.lock().unwrap(), 16);
}

#[test]
fn test_after_read_fires_on_getter() {
    let count = Arc::new(Mutex::new(0usize));
    let count_ref = count.clone();
    let mut tree = Tree::new();
    tree.new_int("workers", 4, "");
    tree.with_callback("workers", CallbackPhase::AfterRead, move |_| {
        *count_ref.lock().unwrap() += 1;
        Ok(())
    }).unwrap();
    tree.parse().unwrap();
    let _ = tree.integer("workers").unwrap();
    let _ = tree.integer("workers").unwrap();
    assert_eq!(*count.lock().unwrap(), 2);
}

#[test]
fn after_verify_fires_once_per_key_on_parse() {
    let count = Arc::new(Mutex::new(0usize));
    let count_ref = count.clone();
    let mut tree = Tree::new();
    tree.new_int("workers", 4, "").new_string("host", "localhost", "");
    tree.with_callback("workers", CallbackPhase::AfterVerify, move |_| {
        *count_ref.lock().unwrap() += 1;
        Ok(())
    }).unwrap();
    tree.parse().unwrap();
    assert_eq!(*count.lock().unwrap(), 1);
}

#[test]
fn after_verify_receives_correct_resolved_value() {
    let received = Arc::new(Mutex::new(0i32));
    let recv_ref = received.clone();
    let mut tree = Tree::new();
    tree.new_int("workers", 16, "");
    tree.with_callback("workers", CallbackPhase::AfterVerify, move |v| {
        if let FigValue::Int(n) = v {
            *recv_ref.lock().unwrap() = *n;
        }
        Ok(())
    }).unwrap();
    tree.parse().unwrap();
    assert_eq!(*received.lock().unwrap(), 16);
}

#[test]
fn after_verify_error_fails_parse() {
    let mut tree = Tree::new();
    tree.new_int("workers", 4, "");
    tree.with_callback("workers", CallbackPhase::AfterVerify, |_| Err(FigtreeError::Other("verify rejected".into())))
        .unwrap();
    match tree.parse() {
        Err(FigtreeError::CallbackFailed { key, phase, message }) => {
            assert_eq!(key, "workers");
            assert_eq!(phase, "AfterVerify");
            assert_eq!(message, "figtree error: verify rejected");
        }
        other => panic!("unexpected {:?}", other),
    }
}

#[test]
fn after_verify_fires_on_load_too() {
    let fired = Arc::new(Mutex::new(false));
    let fired_ref = fired.clone();
    let mut tree = Tree::new();
    tree.new_int("workers", 4, "");
    tree.with_callback("workers", CallbackPhase::AfterVerify, move |_| {
        *fired_ref.lock().unwrap() = true;
        Ok(())
    }).unwrap();
    tree.load().unwrap();
    assert!(*fired.lock().unwrap());
}

#[test]
fn after_read_fires_on_every_getter_call() {
    let count = Arc::new(Mutex::new(0usize));
    let count_ref = count.clone();
    let mut tree = Tree::new();
    tree.new_int("workers", 4, "");
    tree.with_callback("workers", CallbackPhase::AfterRead, move |_| {
        *count_ref.lock().unwrap() += 1;
        Ok(())
    }).unwrap();
    tree.parse().unwrap();
    let _ = tree.integer("workers").unwrap();
    let _ = tree.integer("workers").unwrap();
    let _ = tree.integer("workers").unwrap();
    assert_eq!(*count.lock().unwrap(), 3);
}

#[test]
fn after_read_receives_current_value_including_after_store() {
    let last_seen = Arc::new(Mutex::new(0i32));
    let seen_ref = last_seen.clone();
    let mut tree = Tree::new();
    tree.new_int("workers", 4, "");
    tree.with_callback("workers", CallbackPhase::AfterRead, move |v| {
        if let FigValue::Int(n) = v {
            *seen_ref.lock().unwrap() = *n;
        }
        Ok(())
    }).unwrap();
    tree.parse().unwrap();
    let _ = tree.integer("workers").unwrap();
    assert_eq!(*last_seen.lock().unwrap(), 4);
    tree.store("workers", FigValue::Int(32)).unwrap();
    let _ = tree.integer("workers").unwrap();
    assert_eq!(*last_seen.lock().unwrap(), 32);
}

#[test]
fn after_read_error_propagates_from_getter() {
    let mut tree = Tree::new();
    tree.new_int("workers", 4, "");
    tree.with_callback("workers", CallbackPhase::AfterRead, |_| Err(FigtreeError::Other("read rejected".into())))
        .unwrap();
    tree.parse().unwrap();
    assert!(tree.integer("workers").is_err());
}

#[test]
fn after_change_fires_on_store_not_on_parse() {
    let parse_fired = Arc::new(Mutex::new(false));
    let change_fired = Arc::new(Mutex::new(false));
    let parse_ref = parse_fired.clone();
    let change_ref = change_fired.clone();
    let mut tree = Tree::new();
    tree.new_int("workers", 4, "");
    tree.with_callback("workers", CallbackPhase::AfterVerify, move |_| {
        *parse_ref.lock().unwrap() = true;
        Ok(())
    }).unwrap();
    tree.with_callback("workers", CallbackPhase::AfterChange, move |_| {
        *change_ref.lock().unwrap() = true;
        Ok(())
    }).unwrap();
    tree.parse().unwrap();
    assert!(*parse_fired.lock().unwrap());
    assert!(!*change_fired.lock().unwrap());
    tree.store("workers", FigValue::Int(8)).unwrap();
    assert!(*change_fired.lock().unwrap());
}

#[test]
fn after_change_receives_new_value() {
    let received = Arc::new(Mutex::new(0i32));
    let recv_ref = received.clone();
    let mut tree = Tree::new();
    tree.new_int("workers", 4, "");
    tree.with_callback("workers", CallbackPhase::AfterChange, move |v| {
        if let FigValue::Int(n) = v {
            *recv_ref.lock().unwrap() = *n;
        }
        Ok(())
    }).unwrap();
    tree.parse().unwrap();
    tree.store("workers", FigValue::Int(99)).unwrap();
    assert_eq!(*received.lock().unwrap(), 99);
}

#[test]
fn after_change_error_rolls_back_store() {
    let mut tree = Tree::new();
    tree.new_int("workers", 4, "");
    tree.with_callback("workers", CallbackPhase::AfterChange, |_| Err(FigtreeError::Other("change rejected".into())))
        .unwrap();
    tree.parse().unwrap();
    let result = tree.store("workers", FigValue::Int(8));
    assert!(result.is_err());
}

#[test]
fn multiple_after_verify_callbacks_fire_in_order() {
    let order = Arc::new(Mutex::new(Vec::<usize>::new()));
    let mut tree = Tree::new();
    tree.new_int("workers", 4, "");
    for i in 0..3 {
        let order_ref = order.clone();
        tree.with_callback("workers", CallbackPhase::AfterVerify, move |_| {
            order_ref.lock().unwrap().push(i);
            Ok(())
        }).unwrap();
    }
    tree.parse().unwrap();
    assert_eq!(*order.lock().unwrap(), vec![0, 1, 2]);
}

#[test]
fn callback_chain_stops_on_first_error() {
    let second_fired = Arc::new(Mutex::new(false));
    let second_ref = second_fired.clone();
    let mut tree = Tree::new();
    tree.new_int("workers", 4, "");
    tree.with_callback("workers", CallbackPhase::AfterVerify, |_| Err(FigtreeError::Other("first failed".into())))
        .unwrap();
    tree.with_callback("workers", CallbackPhase::AfterVerify, move |_| {
        *second_ref.lock().unwrap() = true;
        Ok(())
    }).unwrap();
    assert!(tree.parse().is_err());
    assert!(!*second_fired.lock().unwrap());
}

#[test]
fn no_callbacks_rule_skips_all_callbacks() {
    let fired = Arc::new(Mutex::new(false));
    let fired_ref = fired.clone();
    let mut tree = Tree::new();
    tree.new_int("workers", 4, "");
    tree.with_callback("workers", CallbackPhase::AfterVerify, move |_| {
        *fired_ref.lock().unwrap() = true;
        Ok(())
    }).unwrap();
    tree.with_rule("workers", Rule::NoCallbacks).unwrap();
    tree.parse().unwrap();
    assert!(!*fired.lock().unwrap());
}

#[test]
fn with_callback_unknown_key_returns_error() {
    let mut tree = Tree::new();
    assert!(matches!(
        tree.with_callback("nonexistent", CallbackPhase::AfterChange, |_| Ok(())),
        Err(FigtreeError::UnknownKey(_))
    ));
}

// ── rules ─────────────────────────────────────────────────────────────────────

#[test]
fn test_prevent_change_blocks_store() {
    let mut tree = Tree::new();
    tree.new_int("workers", 4, "");
    tree.with_rule("workers", Rule::PreventChange).unwrap();
    tree.parse().unwrap();
    assert!(matches!(tree.store("workers", FigValue::Int(8)), Err(FigtreeError::RuleViolation { .. })));
}

#[test]
fn test_no_validations_skips_validators() {
    let mut tree = Tree::new();
    tree.new_int("workers", 0, "");
    tree.with_validator("workers", "positive", |v| match v {
        FigValue::Int(n) if *n > 0 => Ok(()),
        _ => Err(FigtreeError::ValidationFailed { key: String::new(), message: "must be positive".into() }),
    }).unwrap();
    tree.with_rule("workers", Rule::NoValidations).unwrap();
    assert!(tree.parse().is_ok());
    assert_eq!(tree.integer("workers").unwrap(), 0);
}

#[test]
fn test_with_rule_unknown_key_returns_error() {
    let mut tree = Tree::new();
    assert!(matches!(tree.with_rule("nonexistent", Rule::PreventChange), Err(FigtreeError::UnknownKey(_))));
}

// ── mutation tracking ─────────────────────────────────────────────────────────

#[test]
fn test_mutations_returns_none_without_tracking() {
    let mut tree = Tree::new();
    assert!(tree.mutations().is_none());
}

#[test]
fn test_mutations_returns_receiver_with_tracking() {
    let mut tree = Tree::grow();
    assert!(tree.mutations().is_some());
}

#[test]
fn test_store_emits_mutation() {
    let mut tree = Tree::grow();
    let rx = tree.mutations().unwrap();
    tree.new_int("workers", 4, "");
    tree.parse().unwrap();
    tree.store("workers", FigValue::Int(8)).unwrap();
    let mutations: Vec<_> = std::iter::from_fn(|| rx.try_recv()).collect();
    assert!(!mutations.is_empty());
    let last = mutations.last().unwrap();
    assert_eq!(last.key, "workers");
    assert_eq!(last.new, FigValue::Int(8));
}

#[test]
fn test_curse_closes_channel() {
    let mut tree = Tree::grow();
    let rx = tree.mutations().unwrap();
    tree.curse();
    assert!(rx.recv().is_none());
}

#[test]
fn test_recall_reopens_channel() {
    let mut tree = Tree::grow();
    tree.curse();
    tree.recall();
    assert!(tree.is_listening());
}

#[test]
fn parse_emits_first_resolution_mutation() {
    let mut tree = Tree::grow();
    let rx = tree.mutations().unwrap();
    tree.new_int("workers", 4, "");
    tree.parse().unwrap();
    let m = rx.try_recv().unwrap();
    assert_eq!(m.key, "workers");
    assert_eq!(m.new, FigValue::Int(4));
    assert!(m.old.is_none());
}

#[test]
fn store_emits_changed_mutation() {
    let mut tree = Tree::grow();
    let rx = tree.mutations().unwrap();
    tree.new_int("workers", 4, "");
    tree.parse().unwrap();
    let _ = rx.try_recv();
    tree.store("workers", FigValue::Int(16)).unwrap();
    let m = rx.try_recv().unwrap();
    assert_eq!(m.key, "workers");
    assert_eq!(m.new, FigValue::Int(16));
    assert_eq!(m.old, Some(FigValue::Int(4)));
}

#[test]
fn unchanged_store_emits_nothing() {
    let mut tree = Tree::grow();
    let rx = tree.mutations().unwrap();
    tree.new_int("workers", 4, "");
    tree.parse().unwrap();
    let _ = rx.try_recv();
    tree.store("workers", FigValue::Int(4)).unwrap();
    assert!(rx.try_recv().is_none());
}

#[test]
fn multiple_keys_each_emit_their_own_mutation() {
    let mut tree = Tree::grow();
    let rx = tree.mutations().unwrap();
    tree.new_int("workers", 4, "").new_bool("debug", false, "").new_string("host", "x", "");
    tree.parse().unwrap();
    let mut keys = Vec::new();
    while let Some(m) = rx.try_recv() {
        keys.push(m.key.clone());
    }
    keys.sort();
    assert!(keys.contains(&"workers".to_string()));
    assert!(keys.contains(&"debug".to_string()));
    assert!(keys.contains(&"host".to_string()));
}

#[test]
fn mutation_source_is_default_when_no_override() {
    let mut tree = Tree::grow();
    let rx = tree.mutations().unwrap();
    tree.new_int("workers", 4, "");
    tree.parse().unwrap();
    let m = rx.try_recv().unwrap();
    assert_eq!(m.source, FigSource::Default);
}

#[test]
fn mutation_source_is_environment_when_env_var_set() {
    let key = "FIGTREE_TEST_MUTATION_SOURCE_XYZ";
    let mut tree = Tree::grow();
    let env = test_env(&mut tree);
    env.lock().unwrap().insert(key.into(), "32".into());
    let rx = tree.mutations().unwrap();
    tree.new_int(key, 4, "");
    tree.parse().unwrap();
    let m = rx.try_recv().unwrap();
    assert!(matches!(m.source, FigSource::Environment(_)));
    assert_eq!(m.new, FigValue::Int(32));
}

#[test]
fn mutation_source_is_programmatic_on_store() {
    let mut tree = Tree::grow();
    let rx = tree.mutations().unwrap();
    tree.new_int("workers", 4, "");
    tree.parse().unwrap();
    let _ = rx.try_recv();
    tree.store("workers", FigValue::Int(8)).unwrap();
    let m = rx.try_recv().unwrap();
    assert_eq!(m.source, FigSource::Programmatic);
}

#[test]
fn new_tree_has_no_mutation_channel() {
    let mut tree = Tree::new();
    assert!(tree.mutations().is_none());
}

#[test]
fn store_on_non_tracking_tree_does_not_panic() {
    let mut tree = Tree::new();
    tree.new_int("workers", 4, "");
    tree.parse().unwrap();
    tree.store("workers", FigValue::Int(8)).unwrap();
    assert_eq!(tree.integer("workers").unwrap(), 8);
}

#[test]
fn curse_closes_mutation_channel() {
    let mut tree = Tree::grow();
    let rx = tree.mutations().unwrap();
    tree.curse();
    assert!(rx.recv().is_none());
}

#[test]
fn recall_reopens_mutation_channel() {
    let mut tree = Tree::grow();
    let _rx = tree.mutations().unwrap();
    tree.curse();
    assert!(!tree.is_listening());
    tree.recall();
    assert!(tree.is_listening());
}

#[test]
fn store_after_curse_does_not_emit() {
    let mut tree = Tree::grow();
    let rx = tree.mutations().unwrap();
    tree.new_int("workers", 4, "");
    tree.parse().unwrap();
    tree.curse();
    tree.store("workers", FigValue::Int(8)).unwrap();
    let seen: Vec<_> = rx.iter();
    assert!(seen.iter().all(|m| m.new != FigValue::Int(8)));
}

#[test]
fn store_after_recall_emits_to_new_receiver() {
    let mut tree = Tree::grow();
    let _old_rx = tree.mutations().unwrap();
    tree.new_int("workers", 4, "");
    tree.parse().unwrap();
    tree.curse();
    tree.recall();
    let new_rx = tree.mutations().unwrap();
    tree.store("workers", FigValue::Int(16)).unwrap();
    let m = new_rx.try_recv().unwrap();
    assert_eq!(m.key, "workers");
    assert_eq!(m.new, FigValue::Int(16));
}

#[test]
fn mutation_iter_yields_all_emitted_mutations() {
    let mut tree = Tree::grow();
    let rx = tree.mutations().unwrap();
    tree.new_int("workers", 4, "");
    tree.new_bool("debug", false, "");
    tree.parse().unwrap();
    tree.store("workers", FigValue::Int(8)).unwrap();
    tree.store("workers", FigValue::Int(16)).unwrap();
    tree.curse();
    let mutations: Vec<_> = rx.iter();
    assert!(mutations.len() >= 4);
}

#[test]
fn pollinate_emits_mutation_when_env_changes() {
    let key = "FIGTREE_TEST_POLLINATE_MUTATION_XYZ";
    let mut tree = Tree::with(Options { tracking: true, pollinate: true, ..Options::default() });
    let env = test_env(&mut tree);
    env.lock().unwrap().insert(key.into(), "4".into());
    let rx = tree.mutations().unwrap();
    tree.new_int(key, 0, "");
    tree.parse().unwrap();
    let _ = rx.try_recv();
    env.lock().unwrap().insert(key.into(), "99".into());
    tree.pollinate().unwrap();
    let m = rx.try_recv().unwrap();
    assert_eq!(m.key, key);
    assert_eq!(m.new, FigValue::Int(99));
    assert_eq!(m.old, Some(FigValue::Int(4)));
}

#[test]
fn pollinate_does_not_emit_when_value_unchanged() {
    let key = "FIGTREE_TEST_POLLINATE_NO_CHANGE_XYZ";
    let mut tree = Tree::with(Options { tracking: true, pollinate: true, ..Options::default() });
    let env = test_env(&mut tree);
    env.lock().unwrap().insert(key.into(), "4".into());
    let rx = tree.mutations().unwrap();
    tree.new_int(key, 0, "");
    tree.parse().unwrap();
    let _ = rx.try_recv();
    tree.pollinate().unwrap();
    assert!(rx.try_recv().is_none());
}

#[test]
fn pollinate_is_noop_when_disabled() {
    let key = "FIGTREE_TEST_POLLINATE_NOOP_XYZ";
    let mut tree = Tree::grow();
    let env = test_env(&mut tree);
    env.lock().unwrap().insert(key.into(), "4".into());
    let rx = tree.mutations().unwrap();
    tree.new_int(key, 0, "");
    tree.parse().unwrap();
    let _ = rx.try_recv();
    env.lock().unwrap().insert(key.into(), "99".into());
    tree.pollinate().unwrap();
    assert!(rx.try_recv().is_none());
}

#[test]
fn duration_field_emits_mutation_on_store() {
    let mut tree = Tree::grow();
    let rx = tree.mutations().unwrap();
    tree.new_duration("timeout", Duration::from_secs(30), "");
    tree.parse().unwrap();
    let _ = rx.try_recv();
    tree.store("timeout", FigValue::Duration(Duration::from_secs(60))).unwrap();
    let m = rx.try_recv().unwrap();
    assert_eq!(m.key, "timeout");
    assert_eq!(m.new, FigValue::Duration(Duration::from_secs(60)));
    assert_eq!(m.old, Some(FigValue::Duration(Duration::from_secs(30))));
}

#[test]
fn int128_field_emits_correct_typed_mutation() {
    let big: i128 = i64::MAX as i128 + 1;
    let mut tree = Tree::grow();
    let rx = tree.mutations().unwrap();
    tree.new_int128("huge_id", 0, "");
    tree.parse().unwrap();
    let _ = rx.try_recv();
    tree.store("huge_id", FigValue::Int128(big)).unwrap();
    let m = rx.try_recv().unwrap();
    assert_eq!(m.key, "huge_id");
    assert_eq!(m.new, FigValue::Int128(big));
    assert_eq!(m.old, Some(FigValue::Int128(0)));
}

#[test]
fn channel_pair_is_linked() {
    let (tx, rx) = mutation_channel();
    tx.send(figtree::Mutation::first("k", FigValue::Int(1), FigSource::Default));
    assert_eq!(rx.try_recv().unwrap().key, "k");
}

// ── diagnostics ───────────────────────────────────────────────────────────────

#[test]
fn test_usage_contains_keys_and_descriptions() {
    let mut tree = Tree::new();
    tree.new_int("workers", 4, "number of workers").new_string("host", "localhost", "hostname");
    tree.parse().unwrap();
    let usage = tree.usage();
    assert!(usage.contains("workers"));
    assert!(usage.contains("host"));
    assert!(usage.contains("number of workers"));
    assert!(usage.contains("hostname"));
}

#[test]
fn usage_contains_all_registered_keys() {
    let mut tree = Tree::new();
    tree.new_int("workers", 4, "number of workers")
        .new_string("endpoint", "http://localhost", "api endpoint")
        .new_bool("debug", false, "debug mode");
    tree.parse().unwrap();
    let usage = tree.usage();
    assert!(usage.contains("workers"));
    assert!(usage.contains("endpoint"));
    assert!(usage.contains("debug"));
    assert!(usage.contains("number of workers"));
    assert!(usage.contains("api endpoint"));
}

#[test]
fn usage_lists_keys_in_order_with_padding() {
    let mut tree = Tree::new();
    tree.new_int("workers", 4, "number of workers").new_string("host", "localhost", "");
    let usage = tree.usage();
    let lines: Vec<&str> = usage.split('\n').collect();
    assert_eq!(lines[0], "Tree configuration:");
    assert_eq!(lines[1], format!("  {:30} = {:40} ({})  # ", "host", "localhost", "empty"));
    assert_eq!(lines[2], format!("  {:30} = {:40} ({})  # {}", "workers", "4", "empty", "number of workers"));
}

#[test]
fn test_problems_empty_on_clean_tree() {
    let mut tree = Tree::new();
    tree.new_int("workers", 4, "");
    tree.parse().unwrap();
    assert!(tree.problems().is_empty());
}

#[test]
fn problems_empty_when_all_clean() {
    let mut tree = Tree::new();
    tree.new_int("workers", 4, "");
    tree.parse().unwrap();
    assert!(tree.problems().is_empty());
}

#[test]
fn problems_report_recorded_errors() {
    let mut tree = Tree::new();
    tree.new_int("workers", 4, "");
    tree.parse().unwrap();
    let _ = tree.store("workers", FigValue::String("oops".into()));
    let problems = tree.problems();
    assert_eq!(problems.len(), 1);
    assert!(matches!(&problems[0], FigtreeError::Other(t) if t.contains("type mismatch")));
}

#[test]
fn test_history_contains_initialization_entry() {
    let mut tree = Tree::new();
    tree.new_int("workers", 4, "");
    tree.parse().unwrap();
    let history = tree.history("workers").unwrap();
    assert!(!history.is_empty());
    assert_eq!(history[0].state_index, 0);
}

#[test]
fn history_records_full_lifecycle() {
    let mut tree = Tree::new();
    tree.new_int("workers", 4, "");
    tree.parse().unwrap();
    tree.store("workers", FigValue::Int(8)).unwrap();
    tree.store("workers", FigValue::Int(16)).unwrap();
    let history = tree.history("workers").unwrap();
    assert_eq!(history[0].state_index, 0);
    assert!(history.len() >= 3);
}

#[test]
fn tree_test_history_log_is_readable() {
    let mut tree = Tree::new();
    tree.new_int("workers", 4, "");
    tree.parse().unwrap();
    tree.store("workers", FigValue::Int(8)).unwrap();
    let log = tree.history_log("workers").unwrap();
    assert!(log.contains("state 0"));
    assert!(log.contains("initialized"));
}

#[test]
fn history_log_is_human_readable_multiline() {
    let mut tree = Tree::new();
    tree.new_int("workers", 4, "");
    tree.parse().unwrap();
    tree.store("workers", FigValue::Int(8)).unwrap();
    let log = tree.history_log("workers").unwrap();
    assert!(log.contains("state 0"));
    assert!(log.contains("initialized"));
    assert_eq!(log.split('\n').count(), 3);
}

#[test]
fn test_history_none_for_unknown_key() {
    let tree = Tree::new();
    assert!(tree.history("nonexistent").is_none());
}

#[test]
fn test_fig_returns_raw_fig() {
    let mut tree = Tree::new();
    tree.new_int("workers", 4, "");
    let fig = tree.fig("workers").unwrap();
    assert_eq!(fig.key, "workers");
}

#[test]
fn test_fig_none_for_unknown_key() {
    let tree = Tree::new();
    assert!(tree.fig("nonexistent").is_none());
}

#[test]
fn fig_returns_correct_key_and_source_after_parse() {
    let mut tree = Tree::new();
    tree.new_int("workers", 4, "");
    tree.parse().unwrap();
    let fig = tree.fig("workers").unwrap();
    assert_eq!(fig.key, "workers");
    assert!(fig.is_resolved());
}

#[test]
fn fig_returns_none_for_unknown_key() {
    let tree = Tree::new();
    assert!(tree.fig("nonexistent").is_none());
}

// ── config files ──────────────────────────────────────────────────────────────

#[test]
fn config_format_follows_the_extension() {
    assert_eq!(config_format("app.yaml"), Some(ConfigFormat::Yaml));
    assert_eq!(config_format("APP.YML"), Some(ConfigFormat::Yaml));
    assert_eq!(config_format("a.json"), Some(ConfigFormat::Json));
    assert_eq!(config_format("a.toml"), Some(ConfigFormat::Toml));
    assert_eq!(config_format("a.ini"), Some(ConfigFormat::Ini));
    assert_eq!(config_format("a.plist"), Some(ConfigFormat::Plist));
    assert_eq!(config_format(".env"), Some(ConfigFormat::Dotenv));
    assert_eq!(config_format("a.ron"), Some(ConfigFormat::Ron));
    assert_eq!(config_format("a.txt"), None);
    assert_eq!(config_format("yaml"), None);
}

// ── rules, validators and callbacks on store ──────────────────────────────────

#[test]
fn store_validator_refusal_is_recorded() {
    let mut tree = Tree::new();
    tree.new_int("workers", 4, "");
    tree.with_validator("workers", "range", assure_int_in_range(1, 64)).unwrap();
    tree.parse().unwrap();
    let r = tree.store("workers", FigValue::Int(0));
    assert!(matches!(r, Err(FigtreeError::ValidationFailed { .. })));
    assert_eq!(tree.integer("workers").unwrap(), 4);
    let last = tree.history("workers").unwrap().last().unwrap();
    assert!(matches!(last.state, figtree::FigState::ValidationRejected { .. }));
}

#[test]
fn store_rule_checked_before_validators() {
    let mut tree = Tree::new();
    tree.new_int("workers", 4, "");
    tree.with_rule("workers", Rule::PreventChange).unwrap();
    tree.with_validator("workers", "range", assure_int_in_range(1, 64)).unwrap();
    tree.parse().unwrap();
    let r = tree.store("workers", FigValue::Int(0));
    assert!(matches!(r, Err(FigtreeError::RuleViolation { .. })));
    assert_eq!(tree.integer("workers").unwrap(), 4);
}

#[test]
fn store_failing_after_change_rolls_back() {
    let mut tree = Tree::new();
    tree.new_int("workers", 4, "");
    tree.with_callback("workers", CallbackPhase::AfterChange, |_| Err(FigtreeError::Other("change rejected".into())))
        .unwrap();
    tree.parse().unwrap();
    let r = tree.store("workers", FigValue::Int(8));
    match r {
        Err(FigtreeError::CallbackFailed { key, phase, .. }) => {
            assert_eq!(key, "workers");
            assert_eq!(phase, "AfterChange");
        }
        _ => panic!("expected CallbackFailed"),
    }
    assert_eq!(tree.integer("workers").unwrap(), 4);
}

#[test]
fn store_unchanged_does_not_fire_after_change() {
    let fired = Arc::new(Mutex::new(0));
    let f2 = fired.clone();
    let mut tree = Tree::new();
    tree.new_int("workers", 4, "");
    tree.with_callback("workers", CallbackPhase::AfterChange, move |_| {
        *f2.lock().unwrap() += 1;
        Ok(())
    })
    .unwrap();
    tree.parse().unwrap();
    tree.store("workers", FigValue::Int(4)).unwrap();
    assert_eq!(*fired.lock().unwrap(), 0);
    tree.store("workers", FigValue::Int(5)).unwrap();
    assert_eq!(*fired.lock().unwrap(), 1);
}

#[test]
fn store_programmatic_value_outranks_default_on_reparse() {
    let mut tree = Tree::new();
    tree.new_int("workers", 4, "");
    tree.parse().unwrap();
    tree.store("workers", FigValue::Int(8)).unwrap();
    tree.parse().unwrap();
    assert_eq!(tree.integer("workers").unwrap(), 8);
    assert_eq!(tree.fig("workers").unwrap().source, FigSource::Programmatic);
}

#[test]
fn no_maps_rule_refused_on_map_key_and_map_values() {
    let mut tree = Tree::new();
    tree.new_map_string("meta", StrMap::new(), "");
    tree.new_string("name", "app", "");
    assert!(matches!(tree.with_rule("meta", Rule::NoMaps), Err(FigtreeError::RuleViolation { .. })));
    assert_eq!(tree.fig("meta").unwrap().rule, Rule::Undefined);
    tree.with_rule("name", Rule::NoMaps).unwrap();
    tree.parse().unwrap();
    let r = tree.store("name", FigValue::MapString(StrMap::new()));
    assert!(matches!(r, Err(FigtreeError::RuleViolation { .. })));
    assert_eq!(tree.string("name").unwrap(), "app");
}

#[test]
fn no_lists_rule_refused_on_list_key() {
    let mut tree = Tree::new();
    tree.new_list_string("tags", vec![], "");
    assert!(matches!(tree.with_rule("tags", Rule::NoLists), Err(FigtreeError::RuleViolation { .. })));
}

#[test]
fn missing_required_applies_nothing() {
    let mut tree = Tree::new();
    tree.new_int("workers", 4, "");
    tree.new_string_required("api_key", "");
    assert!(matches!(tree.parse(), Err(FigtreeError::MissingRequired(_))));
    assert!(tree.fig("workers").unwrap().value.is_none());
}

#[test]
fn pollinate_skips_no_env_keys() {
    let mut tree = Tree::with(Options { pollinate: true, ..Options::default() });
    let vars = test_env(&mut tree);
    tree.new_int("workers", 4, "");
    tree.with_rule("workers", Rule::NoEnv).unwrap();
    tree.parse().unwrap();
    vars.lock().unwrap().insert("workers".into(), "9".into());
    tree.pollinate().unwrap();
    assert_eq!(tree.integer("workers").unwrap(), 4);
}

#[test]
fn pollinate_answer_updates_changed_value() {
    let mut tree = Tree::with(Options { pollinate: true, ..Options::default() });
    tree.new_int("workers", 4, "");
    tree.parse().unwrap();
    tree.pollinate_answer(0, Some(FigValue::String("9".into()))).unwrap();
    assert_eq!(tree.integer("workers").unwrap(), 9);
    assert!(matches!(tree.fig("workers").unwrap().source, FigSource::Environment(_)));
    tree.pollinate_answer(0, Some(FigValue::String("nine".into()))).unwrap();
    assert_eq!(tree.integer("workers").unwrap(), 9);
}

#[test]
fn validators_stop_at_first_failure() {
    let ran = Arc::new(Mutex::new(Vec::new()));
    let (a, b) = (ran.clone(), ran.clone());
    let mut tree = Tree::new();
    tree.new_int("workers", 4, "");
    tree.with_validator("workers", "first", move |_| {
        a.lock().unwrap().push("first");
        Err(FigtreeError::ValidationFailed { key: String::new(), message: "no".into() })
    })
    .unwrap();
    tree.with_validator("workers", "second", move |_| {
        b.lock().unwrap().push("second");
        Ok(())
    })
    .unwrap();
    assert!(tree.parse().is_err());
    assert_eq!(*ran.lock().unwrap(), vec!["first"]);
}
