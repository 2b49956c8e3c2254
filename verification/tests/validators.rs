use figtree::duration::Duration;
use figtree::strmap::StrMap;
use figtree::validators::{
    assure_bool_false,
    assure_bool_true,
    assure_duration_greater_than,
    assure_duration_less_than,
    assure_duration_max,
    assure_duration_min,
    assure_duration_positive,
    assure_int128_in_range,
    assure_int128_positive,
    assure_int64_in_range,
    assure_int64_positive,
    assure_int_greater_than,
    assure_int_in_range,
    assure_int_less_than,
    assure_int_negative,
    assure_int_positive,
    assure_list_contains,
    assure_list_length,
    assure_list_min_length,
    assure_list_not_contains,
    assure_list_not_empty,
    assure_list_not_length,
    assure_map_has_key,
    assure_map_has_keys,
    assure_map_length,
    assure_map_not_empty,
    assure_map_not_length,
    assure_map_value_matches,
    assure_string_contains,
    assure_string_has_prefix,
    assure_string_has_suffix,
    assure_string_length,
    assure_string_length_greater_than,
    assure_string_no_prefixes,
    assure_string_no_suffixes,
    assure_string_not_contains,
    assure_string_not_empty,
    assure_string_not_length,
    ValidatorRegistry,
};
use figtree::{CallbackPhase, FigSource, FigState, FigValue, FigtreeError, Tree};
use std::sync::{Arc, Mutex};

// ── ValidatorRegistry ─────────────────────────────────────────────────────────

#[test]
fn test_registry_empty_on_creation() {
    assert!(ValidatorRegistry::new().is_empty());
}

#[test]
fn test_registry_runs_validators_in_order() {
    let mut r = ValidatorRegistry::new();
    let log = Arc::new(Mutex::new(Vec::<usize>::new()));
    let log1 = log.clone();
    r.register("first", move |_| { log1.lock().unwrap().push(1); Ok(()) });
    let log2 = log.clone();
    r.register("second", move |_| { log2.lock().unwrap().push(2); Ok(()) });
    r.validate(&FigValue::Int(1)).unwrap();
    assert_eq!(*log.lock().unwrap(), vec![1, 2]);
}

#[test]
fn test_registry_stops_on_first_failure() {
    let mut r = ValidatorRegistry::new();
    let second_ran = Arc::new(Mutex::new(false));
    let second_ref = second_ran.clone();
    r.register("fail", |_| Err(FigtreeError::ValidationFailed { key: String::new(), message: "nope".into() }));
    r.register("second", move |_| { *second_ref.lock().unwrap() = true; Ok(()) });
    assert!(r.validate(&FigValue::Int(1)).is_err());
    assert!(!*second_ran.lock().unwrap());
}

// ── String validators ─────────────────────────────────────────────────────────

#[test]
fn test_assure_string_not_empty_accepts_non_empty() {
    assert!(assure_string_not_empty(&FigValue::String("hello".into())).is_ok());
}

#[test]
fn test_assure_string_not_empty_rejects_empty() {
    assert!(assure_string_not_empty(&FigValue::String(String::new())).is_err());
}

#[test]
fn test_assure_string_length_accepts_exact() {
    assert!(assure_string_length(5)(&FigValue::String("hello".into())).is_ok());
}

#[test]
fn test_assure_string_length_rejects_wrong() {
    assert!(assure_string_length(5)(&FigValue::String("hi".into())).is_err());
}

#[test]
fn test_assure_string_has_prefix_accepts() {
    assert!(assure_string_has_prefix("http")(&FigValue::String("https://x.com".into())).is_ok());
}

#[test]
fn test_assure_string_has_prefix_rejects() {
    assert!(assure_string_has_prefix("http")(&FigValue::String("ftp://x.com".into())).is_err());
}

#[test]
fn test_assure_string_has_suffix_accepts() {
    assert!(assure_string_has_suffix(".yaml")(&FigValue::String("config.yaml".into())).is_ok());
}

#[test]
fn test_assure_string_contains_accepts() {
    assert!(assure_string_contains("world")(&FigValue::String("hello world".into())).is_ok());
}

#[test]
fn test_assure_string_not_contains_rejects() {
    assert!(assure_string_not_contains("bad")(&FigValue::String("bad word".into())).is_err());
}

#[test]
fn test_assure_string_no_prefixes_rejects_matching() {
    let v = assure_string_no_prefixes(vec!["http".into(), "ftp".into()]);
    assert!(v(&FigValue::String("http://x.com".into())).is_err());
    assert!(v(&FigValue::String("sftp://x.com".into())).is_ok());
}

#[test]
fn test_assure_string_no_suffixes_rejects_matching() {
    let v = assure_string_no_suffixes(vec![".exe".into(), ".bat".into()]);
    assert!(v(&FigValue::String("setup.exe".into())).is_err());
    assert!(v(&FigValue::String("setup.sh".into())).is_ok());
}

#[test]
fn string_length_counts_bytes() {
    assert!(assure_string_length(6)(&FigValue::String("héllo".into())).is_ok());
    assert!(assure_string_length(5)(&FigValue::String("héllo".into())).is_err());
    assert!(assure_string_length_greater_than(2)(&FigValue::String("abc".into())).is_ok());
    assert!(assure_string_not_length(3)(&FigValue::String("abc".into())).is_err());
}

#[test]
fn string_rejection_messages() {
    match assure_string_not_empty(&FigValue::String(String::new())) {
        Err(FigtreeError::ValidationFailed { key, message }) => {
            assert_eq!(key, "");
            assert_eq!(message, "string must not be empty");
        }
        other => panic!("unexpected {:?}", other),
    }
    match assure_string_not_empty(&FigValue::Int(1)) {
        Err(FigtreeError::ValidationFailed { message, .. }) => assert_eq!(message, "expected String, got Int"),
        other => panic!("unexpected {:?}", other),
    }
}

// ── Bool validators ───────────────────────────────────────────────────────────

#[test]
fn test_assure_bool_true_accepts_true() {
    assert!(assure_bool_true(&FigValue::Bool(true)).is_ok());
}

#[test]
fn test_assure_bool_true_rejects_false() {
    assert!(assure_bool_true(&FigValue::Bool(false)).is_err());
}

#[test]
fn test_assure_bool_false_accepts_false() {
    assert!(assure_bool_false(&FigValue::Bool(false)).is_ok());
}

// ── Int validators ────────────────────────────────────────────────────────────

#[test]
fn test_assure_int_positive_accepts() {
    assert!(assure_int_positive(&FigValue::Int(1)).is_ok());
}

#[test]
fn test_assure_int_positive_rejects_zero() {
    assert!(assure_int_positive(&FigValue::Int(0)).is_err());
}

#[test]
fn test_assure_int_in_range_accepts_boundary() {
    assert!(assure_int_in_range(1, 10)(&FigValue::Int(1)).is_ok());
    assert!(assure_int_in_range(1, 10)(&FigValue::Int(10)).is_ok());
}

#[test]
fn test_assure_int_in_range_rejects_outside() {
    assert!(assure_int_in_range(1, 10)(&FigValue::Int(0)).is_err());
    assert!(assure_int_in_range(1, 10)(&FigValue::Int(11)).is_err());
}

#[test]
fn test_assure_int_greater_than_accepts() {
    assert!(assure_int_greater_than(5)(&FigValue::Int(6)).is_ok());
}

#[test]
fn test_assure_int_greater_than_rejects_equal() {
    assert!(assure_int_greater_than(5)(&FigValue::Int(5)).is_err());
}

#[test]
fn int_less_than_and_negative() {
    assert!(assure_int_less_than(5)(&FigValue::Int(4)).is_ok());
    assert!(assure_int_less_than(5)(&FigValue::Int(5)).is_err());
    assert!(assure_int_negative(&FigValue::Int(-1)).is_ok());
    assert!(assure_int_negative(&FigValue::Int(0)).is_err());
}

#[test]
fn test_assure_int64_in_range_accepts() {
    assert!(assure_int64_in_range(0, i64::MAX)(&FigValue::Int64(1000)).is_ok());
}

#[test]
fn test_assure_int64_positive_rejects_negative() {
    assert!(assure_int64_positive(&FigValue::Int64(-1)).is_err());
}

#[test]
fn test_assure_int128_in_range_accepts_beyond_i64_max() {
    let big = i64::MAX as i128 + 1;
    assert!(assure_int128_in_range(0, i128::MAX)(&FigValue::Int128(big)).is_ok());
}

#[test]
fn test_assure_int128_positive_rejects_zero() {
    assert!(assure_int128_positive(&FigValue::Int128(0)).is_err());
}

// ── Duration validators ───────────────────────────────────────────────────────

#[test]
fn test_assure_duration_positive_rejects_zero() {
    assert!(assure_duration_positive(&FigValue::Duration(Duration::zero())).is_err());
}

#[test]
fn test_assure_duration_min_accepts_exact() {
    let five = Duration::from_secs(5);
    assert!(assure_duration_min(five)(&FigValue::Duration(five)).is_ok());
}

#[test]
fn test_assure_duration_max_rejects_over() {
    let max = Duration::from_secs(60);
    let over = Duration::from_secs(61);
    assert!(assure_duration_max(max)(&FigValue::Duration(over)).is_err());
}

#[test]
fn test_assure_duration_greater_than_rejects_equal() {
    let d = Duration::from_secs(10);
    assert!(assure_duration_greater_than(d)(&FigValue::Duration(d)).is_err());
}

#[test]
fn duration_less_than_compares_whole_spans() {
    let a = Duration::from_millis(999);
    let b = Duration::from_secs(1);
    assert!(assure_duration_less_than(b)(&FigValue::Duration(a)).is_ok());
    assert!(assure_duration_less_than(a)(&FigValue::Duration(b)).is_err());
}

// ── List validators ───────────────────────────────────────────────────────────

#[test]
fn test_assure_list_not_empty_rejects_empty_liststring() {
    assert!(assure_list_not_empty(&FigValue::ListString(vec![])).is_err());
}

#[test]
fn test_assure_list_not_empty_accepts_listint() {
    assert!(assure_list_not_empty(&FigValue::ListInt(vec![1, 2])).is_ok());
}

#[test]
fn test_assure_list_min_length_rejects_short() {
    assert!(assure_list_min_length(3)(&FigValue::ListString(vec!["a".into(), "b".into()])).is_err());
}

#[test]
fn test_assure_list_contains_accepts() {
    assert!(assure_list_contains("b")(&FigValue::ListString(vec!["a".into(), "b".into()])).is_ok());
}

#[test]
fn test_assure_list_not_contains_rejects() {
    assert!(assure_list_not_contains("a")(&FigValue::ListString(vec!["a".into()])).is_err());
}

#[test]
fn test_assure_list_length_accepts_exact() {
    assert!(assure_list_length(2)(&FigValue::ListInt64(vec![1, 2])).is_ok());
}

#[test]
fn test_assure_list_not_length_rejects_exact() {
    assert!(assure_list_not_length(2)(&FigValue::ListInt64(vec![1, 2])).is_err());
}

// ── Map validators ────────────────────────────────────────────────────────────

#[test]
fn test_assure_map_not_empty_rejects_empty() {
    assert!(assure_map_not_empty(&FigValue::MapString(StrMap::new())).is_err());
}

#[test]
fn test_assure_map_has_key_accepts() {
    let mut m = StrMap::new();
    m.insert("env".to_string(), "prod".to_string());
    assert!(assure_map_has_key("env")(&FigValue::MapString(m)).is_ok());
}

#[test]
fn test_assure_map_has_key_rejects_missing() {
    assert!(assure_map_has_key("env")(&FigValue::MapString(StrMap::new())).is_err());
}

#[test]
fn test_assure_map_has_keys_rejects_partial() {
    let mut m = StrMap::new();
    m.insert("env".to_string(), "prod".to_string());
    let v = assure_map_has_keys(vec!["env".into(), "version".into()]);
    assert!(v(&FigValue::MapString(m)).is_err());
}

#[test]
fn test_assure_map_value_matches_accepts() {
    let mut m = StrMap::new();
    m.insert("env".to_string(), "prod".to_string());
    assert!(assure_map_value_matches("env", "prod")(&FigValue::MapString(m)).is_ok());
}

#[test]
fn test_assure_map_value_matches_rejects_wrong_value() {
    let mut m = StrMap::new();
    m.insert("env".to_string(), "dev".to_string());
    assert!(assure_map_value_matches("env", "prod")(&FigValue::MapString(m)).is_err());
}

#[test]
fn test_assure_map_length_accepts_exact() {
    let mut m = StrMap::new();
    m.insert("a".to_string(), "1".to_string());
    m.insert("b".to_string(), "2".to_string());
    assert!(assure_map_length(2)(&FigValue::MapString(m)).is_ok());
}

#[test]
fn test_assure_map_not_length_rejects_exact() {
    let mut m = StrMap::new();
    m.insert("a".to_string(), 1i32);
    assert!(assure_map_not_length(1)(&FigValue::MapInt(m)).is_err());
}

#[test]
fn test_validators_reject_wrong_figvalue_variant() {
    assert!(assure_string_not_empty(&FigValue::Int(1)).is_err());
    assert!(assure_int_positive(&FigValue::Bool(true)).is_err());
    assert!(assure_bool_true(&FigValue::String("true".into())).is_err());
    assert!(assure_duration_positive(&FigValue::Float64(1.0f64.to_bits())).is_err());
    assert!(assure_list_not_empty(&FigValue::MapString(StrMap::new())).is_err());
    assert!(assure_map_not_empty(&FigValue::ListString(vec![])).is_err());
}

// ── through the Tree ──────────────────────────────────────────────────────────

#[test]
fn string_not_empty_passes_on_valid_default() {
    let mut tree = Tree::new();
    tree.new_string("host", "localhost", "");
    tree.with_validator("host", "not_empty", assure_string_not_empty).unwrap();
    assert!(tree.parse().is_ok());
}

#[test]
fn string_not_empty_fails_on_empty_default() {
    let mut tree = Tree::new();
    tree.new_string("host", "", "");
    tree.with_validator("host", "not_empty", assure_string_not_empty).unwrap();
    assert!(matches!(tree.parse(), Err(FigtreeError::ValidationFailed { .. })));
}

#[test]
fn validation_failure_carries_the_key() {
    let mut tree = Tree::new();
    tree.new_string("host", "", "");
    tree.with_validator("host", "not_empty", assure_string_not_empty).unwrap();
    match tree.parse() {
        Err(FigtreeError::ValidationFailed { key, message }) => {
            assert_eq!(key, "host");
            assert_eq!(message, "string must not be empty");
        }
        other => panic!("unexpected {:?}", other),
    }
}

#[test]
fn string_has_prefix_passes() {
    let mut tree = Tree::new();
    tree.new_string("endpoint", "https://api.example.com", "");
    tree.with_validator("endpoint", "https_prefix", assure_string_has_prefix("https")).unwrap();
    assert!(tree.parse().is_ok());
}

#[test]
fn string_has_prefix_fails() {
    let mut tree = Tree::new();
    tree.new_string("endpoint", "ftp://api.example.com", "");
    tree.with_validator("endpoint", "https_prefix", assure_string_has_prefix("https")).unwrap();
    assert!(matches!(tree.parse(), Err(FigtreeError::ValidationFailed { .. })));
}

#[test]
fn multiple_validators_all_must_pass() {
    let mut tree = Tree::new();
    tree.new_string("endpoint", "https://api.example.com", "");
    tree.with_validator("endpoint", "not_empty", assure_string_not_empty).unwrap();
    tree.with_validator("endpoint", "has_https", assure_string_has_prefix("https")).unwrap();
    tree.with_validator("endpoint", "has_dot", assure_string_contains(".")).unwrap();
    assert!(tree.parse().is_ok());
}

#[test]
fn multiple_validators_first_failure_stops_chain() {
    let second_ran = Arc::new(Mutex::new(false));
    let second_ref = second_ran.clone();
    let mut tree = Tree::new();
    tree.new_string("endpoint", "", "");
    tree.with_validator("endpoint", "not_empty", assure_string_not_empty).unwrap();
    tree.with_validator("endpoint", "second", move |_| {
        *second_ref.lock().unwrap() = true;
        Ok(())
    }).unwrap();
    assert!(tree.parse().is_err());
    assert!(!*second_ran.lock().unwrap());
}

#[test]
fn validator_on_store_blocks_invalid_value() {
    let mut tree = Tree::new();
    tree.new_int("workers", 4, "");
    tree.with_validator("workers", "range", assure_int_in_range(1, 64)).unwrap();
    tree.parse().unwrap();
    let result = tree.store("workers", FigValue::Int(0));
    assert!(matches!(result, Err(FigtreeError::ValidationFailed { .. })));
    assert_eq!(tree.integer("workers").unwrap(), 4);
}

#[test]
fn validator_on_store_allows_valid_value() {
    let mut tree = Tree::new();
    tree.new_int("workers", 4, "");
    tree.with_validator("workers", "range", assure_int_in_range(1, 64)).unwrap();
    tree.parse().unwrap();
    tree.store("workers", FigValue::Int(32)).unwrap();
    assert_eq!(tree.integer("workers").unwrap(), 32);
}

#[test]
fn int_positive_passes() {
    let mut tree = Tree::new();
    tree.new_int("count", 5, "");
    tree.with_validator("count", "positive", assure_int_positive).unwrap();
    assert!(tree.parse().is_ok());
}

#[test]
fn int_positive_fails_on_zero() {
    let mut tree = Tree::new();
    tree.new_int("count", 0, "");
    tree.with_validator("count", "positive", assure_int_positive).unwrap();
    assert!(matches!(tree.parse(), Err(FigtreeError::ValidationFailed { .. })));
}

#[test]
fn int_in_range_passes_on_boundary() {
    let mut tree = Tree::new();
    tree.new_int("port", 1, "");
    tree.with_validator("port", "range", assure_int_in_range(1, 65535)).unwrap();
    assert!(tree.parse().is_ok());
}

#[test]
fn int128_positive_passes_beyond_i64_max() {
    let big: i128 = i64::MAX as i128 + 1;
    let mut tree = Tree::new();
    tree.new_int128("id", big, "");
    tree.with_validator("id", "positive", assure_int128_positive).unwrap();
    assert!(tree.parse().is_ok());
}

#[test]
fn duration_positive_passes() {
    let mut tree = Tree::new();
    tree.new_duration("timeout", Duration::from_secs(30), "");
    tree.with_validator("timeout", "positive", assure_duration_positive).unwrap();
    assert!(tree.parse().is_ok());
}

#[test]
fn duration_min_fails_when_below_minimum() {
    let mut tree = Tree::new();
    tree.new_duration("timeout", Duration::from_secs(1), "");
    tree.with_validator("timeout", "min_5s", assure_duration_min(Duration::from_secs(5))).unwrap();
    assert!(matches!(tree.parse(), Err(FigtreeError::ValidationFailed { .. })));
}

#[test]
fn list_not_empty_passes() {
    let mut tree = Tree::new();
    tree.new_list_string("servers", vec!["server1".into()], "");
    tree.with_validator("servers", "not_empty", assure_list_not_empty).unwrap();
    assert!(tree.parse().is_ok());
}

#[test]
fn list_not_empty_fails_on_empty_list() {
    let mut tree = Tree::new();
    tree.new_list_string("servers", vec![], "");
    tree.with_validator("servers", "not_empty", assure_list_not_empty).unwrap();
    assert!(matches!(tree.parse(), Err(FigtreeError::ValidationFailed { .. })));
}

#[test]
fn map_has_key_passes() {
    let mut m = StrMap::new();
    m.insert("env".to_string(), "prod".to_string());
    let mut tree = Tree::new();
    tree.new_map_string("metadata", m, "");
    tree.with_validator("metadata", "has_env", assure_map_has_key("env")).unwrap();
    assert!(tree.parse().is_ok());
}

#[test]
fn map_not_empty_fails_on_empty_map() {
    let mut tree = Tree::new();
    tree.new_map_string("metadata", StrMap::new(), "");
    tree.with_validator("metadata", "not_empty", assure_map_not_empty).unwrap();
    assert!(matches!(tree.parse(), Err(FigtreeError::ValidationFailed { .. })));
}

#[test]
fn bool_true_passes() {
    let mut tree = Tree::new();
    tree.new_bool("enabled", true, "");
    tree.with_validator("enabled", "must_be_true", assure_bool_true).unwrap();
    assert!(tree.parse().is_ok());
}

#[test]
fn bool_true_fails_on_false() {
    let mut tree = Tree::new();
    tree.new_bool("enabled", false, "");
    tree.with_validator("enabled", "must_be_true", assure_bool_true).unwrap();
    assert!(matches!(tree.parse(), Err(FigtreeError::ValidationFailed { .. })));
}

#[test]
fn with_validator_unknown_key_returns_error() {
    let mut tree = Tree::new();
    assert!(matches!(
        tree.with_validator("nonexistent", "v", |_| Ok(())),
        Err(FigtreeError::UnknownKey(_))
    ));
}

#[test]
fn after_change_refusal_rolls_store_back() {
    let mut tree = Tree::new();
    tree.new_int("workers", 4, "");
    tree.with_callback("workers", CallbackPhase::AfterChange, |_| Err(FigtreeError::Other("change rejected".into())))
        .unwrap();
    tree.parse().unwrap();
    let result = tree.store("workers", FigValue::Int(8));
    match result {
        Err(FigtreeError::CallbackFailed { key, phase, .. }) => {
            assert_eq!(key, "workers");
            assert_eq!(phase, "AfterChange");
        },
        other => panic!("expected CallbackFailed, got {:?}", other),
    }
    assert_eq!(tree.integer("workers").unwrap(), 4);
    assert_eq!(tree.fig("workers").unwrap().source, FigSource::Default);
}

#[test]
fn rejected_store_is_recorded_in_history() {
    let mut tree = Tree::new();
    tree.new_int("workers", 4, "");
    tree.with_validator("workers", "range", assure_int_in_range(1, 64)).unwrap();
    tree.parse().unwrap();
    let before = tree.history("workers").unwrap().len();
    assert!(tree.store("workers", FigValue::Int(0)).is_err());
    let history = tree.history("workers").unwrap();
    assert_eq!(history.len(), before + 1);
    assert!(matches!(history.last().unwrap().state, FigState::ValidationRejected { .. }));
    assert_eq!(history.last().unwrap().value, None);
}
