use figtree::callbacks::{CallbackPhase, CallbackRegistry};
use figtree::mutation::mutation_channel;
use figtree::naming::to_pascal_case;
use figtree::strmap::StrMap;
use figtree::{Fig, FigSource, FigState, FigValue, FigtreeError, Mutation, Rule};
use std::sync::{Arc, Mutex};

// ── to_pascal_case ────────────────────────────────────────────────────────────

#[test]
fn test_to_pascal_case_single_word() {
    assert_eq!(to_pascal_case("workers"), "Workers");
    assert_eq!(to_pascal_case("endpoint"), "Endpoint");
}

#[test]
fn test_to_pascal_case_multi_word() {
    assert_eq!(to_pascal_case("api_key"), "ApiKey");
    assert_eq!(to_pascal_case("my_long_field"), "MyLongField");
    assert_eq!(to_pascal_case("max_retry_count"), "MaxRetryCount");
}

#[test]
fn test_to_pascal_case_already_pascal() {
    assert_eq!(to_pascal_case("Workers"), "Workers");
}

#[test]
fn test_to_pascal_case_empty() {
    assert_eq!(to_pascal_case(""), "");
}

#[test]
fn pascal_case_keeps_empty_words_and_non_ascii() {
    assert_eq!(to_pascal_case("a__b"), "AB");
    assert_eq!(to_pascal_case("_lead"), "Lead");
    assert_eq!(to_pascal_case("émile_zola"), "ÉmileZola");
}

// ── callbacks ─────────────────────────────────────────────────────────────────

fn counting_registry(phase: CallbackPhase) -> (CallbackRegistry, Arc<Mutex<usize>>) {
    let mut registry = CallbackRegistry::new();
    let counter = Arc::new(Mutex::new(0usize));
    let counter_ref = Arc::clone(&counter);
    registry.register(phase, move |_value| {
        *counter_ref.lock().unwrap() += 1;
        Ok(())
    });
    (registry, counter)
}

#[test]
fn test_empty_registry_has_zero_callbacks() {
    let registry = CallbackRegistry::new();
    assert!(registry.is_empty());
    assert_eq!(registry.len(), 0);
}

#[test]
fn test_register_increments_len() {
    let mut registry = CallbackRegistry::new();
    registry.register(CallbackPhase::AfterVerify, |_| Ok(()));
    registry.register(CallbackPhase::AfterChange, |_| Ok(()));
    assert_eq!(registry.len(), 2);
}

#[test]
fn test_count_for_phase_is_accurate() {
    let mut registry = CallbackRegistry::new();
    registry.register(CallbackPhase::AfterVerify, |_| Ok(()));
    registry.register(CallbackPhase::AfterVerify, |_| Ok(()));
    registry.register(CallbackPhase::AfterChange, |_| Ok(()));
    assert_eq!(registry.count_for_phase(&CallbackPhase::AfterVerify), 2);
    assert_eq!(registry.count_for_phase(&CallbackPhase::AfterChange), 1);
    assert_eq!(registry.count_for_phase(&CallbackPhase::AfterRead), 0);
}

#[test]
fn test_has_phase_returns_correct_bool() {
    let mut registry = CallbackRegistry::new();
    registry.register(CallbackPhase::AfterVerify, |_| Ok(()));
    assert!(registry.has_phase(&CallbackPhase::AfterVerify));
    assert!(!registry.has_phase(&CallbackPhase::AfterRead));
    assert!(!registry.has_phase(&CallbackPhase::AfterChange));
}

#[test]
fn test_invoke_phase_fires_correct_callbacks() {
    let (registry, counter) = counting_registry(CallbackPhase::AfterVerify);
    registry.invoke_phase(&CallbackPhase::AfterVerify, &FigValue::Int(10)).unwrap();
    assert_eq!(*counter.lock().unwrap(), 1);
}

#[test]
fn test_invoke_phase_does_not_fire_other_phases() {
    let (registry, counter) = counting_registry(CallbackPhase::AfterVerify);
    registry.invoke_phase(&CallbackPhase::AfterChange, &FigValue::Int(10)).unwrap();
    assert_eq!(*counter.lock().unwrap(), 0);
}

#[test]
fn test_invoke_phase_fires_multiple_callbacks_in_order() {
    let mut registry = CallbackRegistry::new();
    let order = Arc::new(Mutex::new(Vec::<usize>::new()));
    for n in 1..=3usize {
        let order_ref = Arc::clone(&order);
        registry.register(CallbackPhase::AfterChange, move |_| {
            order_ref.lock().unwrap().push(n);
            Ok(())
        });
    }
    registry.invoke_phase(&CallbackPhase::AfterChange, &FigValue::Int(1)).unwrap();
    assert_eq!(*order.lock().unwrap(), vec![1, 2, 3]);
}

#[test]
fn test_invoke_phase_stops_on_first_error() {
    let mut registry = CallbackRegistry::new();
    let second_fired = Arc::new(Mutex::new(false));
    registry.register(CallbackPhase::AfterVerify, |_| {
        Err(FigtreeError::Other("first callback failed".into()))
    });
    let second_fired_ref = Arc::clone(&second_fired);
    registry.register(CallbackPhase::AfterVerify, move |_| {
        *second_fired_ref.lock().unwrap() = true;
        Ok(())
    });
    let result = registry.invoke_phase(&CallbackPhase::AfterVerify, &FigValue::Int(10));
    assert!(result.is_err());
    assert!(!*second_fired.lock().unwrap());
}

#[test]
fn test_invoke_phase_passes_value_to_callback() {
    let mut registry = CallbackRegistry::new();
    let received_value = Arc::new(Mutex::new(None::<FigValue>));
    let received_ref = Arc::clone(&received_value);
    registry.register(CallbackPhase::AfterRead, move |value| {
        *received_ref.lock().unwrap() = Some(value.clone());
        Ok(())
    });
    registry.invoke_phase(&CallbackPhase::AfterRead, &FigValue::Int(42)).unwrap();
    assert_eq!(*received_value.lock().unwrap(), Some(FigValue::Int(42)));
}

#[test]
fn test_invoke_phase_with_no_registered_callbacks_is_ok() {
    let registry = CallbackRegistry::new();
    let result = registry.invoke_phase(&CallbackPhase::AfterChange, &FigValue::Bool(true));
    assert!(result.is_ok());
}

#[test]
fn test_callback_phase_display() {
    assert_eq!(CallbackPhase::AfterVerify.name(), "AfterVerify");
    assert_eq!(CallbackPhase::AfterRead.name(), "AfterRead");
    assert_eq!(CallbackPhase::AfterChange.name(), "AfterChange");
}

#[test]
fn test_callback_can_pattern_match_figvalue() {
    let mut registry = CallbackRegistry::new();
    let matched_int = Arc::new(Mutex::new(false));
    let matched_ref = Arc::clone(&matched_int);
    registry.register(CallbackPhase::AfterChange, move |value| match value {
        FigValue::Int(n) if *n == 99 => {
            *matched_ref.lock().unwrap() = true;
            Ok(())
        }
        _ => Ok(()),
    });
    registry.invoke_phase(&CallbackPhase::AfterChange, &FigValue::Int(99)).unwrap();
    assert!(*matched_int.lock().unwrap());
}

// ── Fig ───────────────────────────────────────────────────────────────────────

fn int_fig(default: i32) -> Fig {
    Fig::new("workers", Some(FigValue::Int(default)))
}

fn string_fig(default: &str) -> Fig {
    Fig::new("endpoint", Some(FigValue::String(default.into())))
}

#[test]
fn test_fig_state_0_is_initialized() {
    let fig = int_fig(10);
    assert_eq!(fig.history.len(), 1);
    assert_eq!(fig.history[0].state_index, 0);
    assert!(matches!(fig.history[0].state, FigState::Initialized));
    assert!(fig.history[0].value.is_none());
}

#[test]
fn test_fig_starts_unresolved() {
    let fig = int_fig(10);
    assert!(!fig.is_resolved());
    assert_eq!(fig.source, FigSource::Empty);
}

#[test]
fn test_fig_resolve_falls_back_to_default() {
    let fig = int_fig(10);
    assert_eq!(fig.resolve(), Some(&FigValue::Int(10)));
}

#[test]
fn test_fig_required_when_no_default() {
    let fig = Fig::new("api_key", None);
    assert!(fig.is_required());
}

#[test]
fn test_fig_not_required_when_default_present() {
    assert!(!int_fig(10).is_required());
}

#[test]
fn test_fig_first_set_records_first_resolution_state() {
    let mut fig = int_fig(10);
    fig.set(FigValue::Int(20), FigSource::Environment("WORKERS".into())).unwrap();
    assert_eq!(fig.history.len(), 2);
    assert_eq!(fig.history[1].state_index, 1);
    assert!(matches!(
        fig.history[1].state,
        FigState::FirstResolution { source: FigSource::Environment(_) }
    ));
    assert_eq!(fig.value, Some(FigValue::Int(20)));
}

#[test]
fn test_fig_second_set_records_changed_state() {
    let mut fig = int_fig(10);
    fig.set(FigValue::Int(20), FigSource::File("config.yaml".into())).unwrap();
    fig.set(FigValue::Int(30), FigSource::Flag("workers".into())).unwrap();
    assert_eq!(fig.history.len(), 3);
    assert!(matches!(fig.history[2].state, FigState::Changed { .. }));
    if let FigState::Changed { from, to, .. } = &fig.history[2].state {
        assert_eq!(from, &FigValue::Int(20));
        assert_eq!(to, &FigValue::Int(30));
    }
}

#[test]
fn test_fig_unchanged_set_records_unchanged_state() {
    let mut fig = int_fig(10);
    fig.set(FigValue::Int(20), FigSource::Environment("WORKERS".into())).unwrap();
    fig.set(FigValue::Int(20), FigSource::Programmatic).unwrap();
    assert_eq!(fig.history.len(), 3);
    assert!(matches!(fig.history[2].state, FigState::Unchanged { .. }));
    assert_eq!(fig.value, Some(FigValue::Int(20)));
}

#[test]
fn fig_test_history_log_is_readable() {
    let mut fig = string_fig("http://localhost");
    fig.set(FigValue::String("http://staging".into()), FigSource::File("config.yaml".into())).unwrap();
    fig.set(FigValue::String("http://prod".into()), FigSource::Flag("endpoint".into())).unwrap();
    let log = fig.history_log();
    assert!(log.contains("state 0"));
    assert!(log.contains("state 1"));
    assert!(log.contains("state 2"));
    assert!(log.contains("http://staging"));
    assert!(log.contains("http://prod"));
}

#[test]
fn history_log_lines_have_the_documented_shape() {
    let mut fig = int_fig(10);
    fig.set(FigValue::Int(20), FigSource::Flag("workers".into())).unwrap();
    let log = fig.history_log();
    let lines: Vec<&str> = log.split('\n').collect();
    assert_eq!(lines.len(), 2);
    assert!(lines[0].starts_with("  state 0: initialized with empty value (at "));
    assert!(lines[1].starts_with("  state 1: set for the first time via flag(workers) (at "));
    assert!(lines[1].ends_with("s)"));
}

#[test]
fn test_change_count_excludes_initialization() {
    let mut fig = int_fig(10);
    assert_eq!(fig.change_count(), 0);
    fig.set(FigValue::Int(20), FigSource::Programmatic).unwrap();
    assert_eq!(fig.change_count(), 1);
    fig.set(FigValue::Int(30), FigSource::Programmatic).unwrap();
    assert_eq!(fig.change_count(), 2);
}

#[test]
fn test_type_mismatch_returns_error_and_preserves_value() {
    let mut fig = int_fig(10);
    let result = fig.set(FigValue::String("oops".into()), FigSource::Programmatic);
    assert!(matches!(result, Err(FigtreeError::TypeMismatch { .. })));
    assert!(fig.value.is_none());
}

#[test]
fn type_mismatch_names_both_types_and_is_recorded() {
    let mut fig = int_fig(10);
    let result = fig.set(FigValue::String("oops".into()), FigSource::Programmatic);
    match result {
        Err(FigtreeError::TypeMismatch { key, expected, got }) => {
            assert_eq!(key, "workers");
            assert_eq!(expected, "Int");
            assert_eq!(got, "String");
        }
        other => panic!("unexpected {:?}", other),
    }
    assert!(matches!(fig.error, Some(FigtreeError::TypeMismatch { .. })));
    assert_eq!(fig.history.len(), 1);
}

#[test]
fn test_prevent_change_blocks_second_set() {
    let mut fig = int_fig(10);
    fig.rule = Rule::PreventChange;
    fig.set(FigValue::Int(20), FigSource::Environment("WORKERS".into())).unwrap();
    let result = fig.set(FigValue::Int(30), FigSource::Programmatic);
    assert!(matches!(result, Err(FigtreeError::RuleViolation { .. })));
    assert_eq!(fig.value, Some(FigValue::Int(20)));
    assert!(matches!(fig.history.last().unwrap().state, FigState::RuleBlocked { .. }));
}

#[test]
fn test_record_validation_rejection_appends_to_history() {
    let mut fig = int_fig(10);
    fig.record_validation_rejection("value must be positive");
    assert!(matches!(fig.history.last().unwrap().state, FigState::ValidationRejected { .. }));
    assert!(fig.error.is_some());
    assert!(fig.value.is_none());
}

#[test]
fn test_record_rule_block_appends_to_history() {
    let mut fig = int_fig(10);
    fig.record_rule_block("PreventChange");
    assert!(matches!(fig.history.last().unwrap().state, FigState::RuleBlocked { .. }));
}

#[test]
fn test_source_priority_ordering() {
    assert!(FigSource::Flag("x".into()) > FigSource::Environment("x".into()));
    assert!(FigSource::Environment("x".into()) > FigSource::File("x".into()));
    assert!(FigSource::File("x".into()) > FigSource::Programmatic);
    assert!(FigSource::Programmatic > FigSource::Default);
    assert!(FigSource::Default > FigSource::Empty);
}

#[test]
fn source_ranks_agree_with_ordering() {
    assert!(FigSource::Flag("x".into()).outranks(&FigSource::Environment("x".into())));
    assert!(FigSource::Environment("x".into()).outranks(&FigSource::File("x".into())));
    assert!(FigSource::File("x".into()).outranks(&FigSource::Programmatic));
    assert!(FigSource::Programmatic.outranks(&FigSource::Default));
    assert!(FigSource::Default.outranks(&FigSource::Empty));
    assert!(!FigSource::Empty.outranks(&FigSource::Default));
    assert_eq!(FigSource::Flag("x".into()).rank(), 5);
}

#[test]
fn source_text_matches_display() {
    assert_eq!(FigSource::Empty.to_text(), "empty");
    assert_eq!(FigSource::Default.to_text(), "default");
    assert_eq!(FigSource::Programmatic.to_text(), "programmatic");
    assert_eq!(FigSource::File("a.yaml".into()).to_text(), "file(a.yaml)");
    assert_eq!(FigSource::Environment("HOST".into()).to_text(), "env(HOST)");
    assert_eq!(FigSource::Flag("workers".into()).to_text(), "flag(workers)");
}

#[test]
fn test_int128_stores_and_retrieves() {
    let mut fig = Fig::new("big_number", Some(FigValue::Int128(0)));
    let big: i128 = i64::MAX as i128 + 1;
    fig.set(FigValue::Int128(big), FigSource::Programmatic).unwrap();
    assert_eq!(fig.value, Some(FigValue::Int128(big)));
}

#[test]
fn test_list_int128_stores_correctly() {
    let mut fig = Fig::new("ids", Some(FigValue::ListInt128(vec![])));
    let ids: Vec<i128> = vec![i64::MAX as i128, i64::MAX as i128 + 999];
    fig.set(FigValue::ListInt128(ids.clone()), FigSource::Programmatic).unwrap();
    assert_eq!(fig.value, Some(FigValue::ListInt128(ids)));
}

#[test]
fn test_same_type_distinguishes_int_from_int128() {
    assert!(!FigValue::Int(1).same_type(&FigValue::Int128(1)));
    assert!(FigValue::Int128(1).same_type(&FigValue::Int128(2)));
}

#[test]
fn test_figvalue_type_names_are_correct() {
    assert_eq!(FigValue::Int128(0).type_label(), "Int128");
    assert_eq!(FigValue::Float128(0.0f64.to_bits()).type_label(), "Float128");
    assert_eq!(FigValue::ListInt128(vec![]).type_label(), "ListInt128");
    assert_eq!(FigValue::MapInt128(StrMap::new()).type_label(), "MapInt128");
}

#[test]
fn value_text_matches_display() {
    assert_eq!(FigValue::Int(-42).to_text(), "-42");
    assert_eq!(FigValue::Bool(true).to_text(), "true");
    assert_eq!(FigValue::String("hi".into()).to_text(), "hi");
    assert_eq!(FigValue::ListInt(vec![1, 2, 3]).to_text(), "[1, 2, 3]");
    assert_eq!(FigValue::ListString(vec![]).to_text(), "[]");
    let mut m = StrMap::new();
    m.insert("a".to_string(), 1i32);
    m.insert("b".to_string(), 2i32);
    assert_eq!(FigValue::MapInt(m).to_text(), "{a: 1, b: 2}");
    assert_eq!(
        FigValue::Duration(figtree::duration::Duration::from_millis(1500)).to_text(),
        format!("{:?}", std::time::Duration::from_millis(1500))
    );
}

// ── Mutation ──────────────────────────────────────────────────────────────────

#[test]
fn test_mutation_first_has_no_old_value() {
    let m = Mutation::first("workers", FigValue::Int(10), FigSource::Default);
    assert!(m.old.is_none());
    assert!(m.is_first_resolution());
    assert_eq!(m.key, "workers");
    assert_eq!(m.new, FigValue::Int(10));
}

#[test]
fn test_mutation_changed_carries_both_values() {
    let m = Mutation::changed(
        "workers",
        FigValue::Int(10),
        FigValue::Int(20),
        FigSource::Environment("WORKERS".into()),
    );
    assert_eq!(m.old, Some(FigValue::Int(10)));
    assert_eq!(m.new, FigValue::Int(20));
    assert!(!m.is_first_resolution());
}

#[test]
fn test_mutation_channel_sends_and_receives() {
    let (tx, rx) = mutation_channel();
    tx.send(Mutation::first("endpoint", FigValue::String("http://localhost".into()), FigSource::Default));
    let received = rx.recv().unwrap();
    assert_eq!(received.key, "endpoint");
    assert_eq!(received.new, FigValue::String("http://localhost".into()));
}

#[test]
fn test_mutation_channel_try_recv_returns_none_when_empty() {
    let (_tx, rx) = mutation_channel();
    assert!(rx.try_recv().is_none());
}

#[test]
fn test_mutation_channel_returns_none_when_sender_dropped() {
    let (tx, rx) = mutation_channel();
    drop(tx);
    assert!(rx.recv().is_none());
}

#[test]
fn test_mutation_display_first_resolution() {
    let m = Mutation::first("workers", FigValue::Int(10), FigSource::Default);
    let s = m.to_text();
    assert!(s.contains("workers"));
    assert!(s.contains("first set"));
    assert!(s.contains("10"));
}

#[test]
fn test_mutation_display_changed() {
    let m = Mutation::changed("workers", FigValue::Int(10), FigValue::Int(20), FigSource::Flag("workers".into()));
    let s = m.to_text();
    assert!(s.contains("changed"));
    assert!(s.contains("10"));
    assert!(s.contains("20"));
    assert!(s.contains("flag(workers)"));
}

#[test]
fn mutation_text_has_the_documented_shape() {
    let m = Mutation::changed("workers", FigValue::Int(10), FigValue::Int(20), FigSource::Flag("workers".into()));
    let s = m.to_text();
    assert!(s.starts_with("[workers] 'workers' changed from '10' to '20' via flag(workers) (at "));
    assert!(s.ends_with("s)"));
}

#[test]
fn test_mutation_iter_yields_all_sent() {
    let (tx, rx) = mutation_channel();
    tx.send(Mutation::first("a", FigValue::Bool(true), FigSource::Default));
    tx.send(Mutation::first("b", FigValue::Bool(false), FigSource::Default));
    drop(tx);
    let collected: Vec<_> = rx.iter();
    assert_eq!(collected.len(), 2);
    assert_eq!(collected[0].key, "a");
    assert_eq!(collected[1].key, "b");
}

// ── rules and errors ─────────────────────────────────────────────────────────

#[test]
fn rule_predicates_pick_their_rule() {
    assert!(Rule::PreventChange.blocks_change());
    assert!(!Rule::Undefined.blocks_change());
    assert!(Rule::NoValidations.skips_validations());
    assert!(Rule::NoCallbacks.skips_callbacks());
    assert!(Rule::NoFlags.ignores_flags());
    assert!(Rule::NoEnv.ignores_env());
    assert!(Rule::NoMaps.blocks_maps());
    assert!(Rule::NoLists.blocks_lists());
    assert!(!Rule::NoLists.blocks_maps());
    assert_eq!(Rule::default(), Rule::Undefined);
    assert_eq!(Rule::PanicOnChange.name(), "PanicOnChange");
}

#[test]
fn error_text_matches_display() {
    assert_eq!(FigtreeError::UnknownKey("k".into()).to_text(), "unknown key 'k'");
    assert_eq!(
        FigtreeError::MissingRequired("k".into()).to_text(),
        "required key 'k' has no value and no default"
    );
    assert_eq!(FigtreeError::Other("boom".into()).to_text(), "figtree error: boom");
}

#[test]
fn fig_type_mismatch_is_recorded_in_history() {
    let mut fig = Fig::new("workers", Some(FigValue::Int(4)));
    let n = fig.history.len();
    assert!(matches!(fig.set(FigValue::String("x".into()), FigSource::Programmatic), Err(FigtreeError::TypeMismatch { .. })));
    assert_eq!(fig.history.len(), n + 1);
    assert!(matches!(fig.history.last().unwrap().state, FigState::ValidationRejected { .. }));
    assert!(fig.value.is_none());
}

#[test]
fn fig_successful_unchanged_set_clears_error() {
    let mut fig = Fig::new("workers", Some(FigValue::Int(4)));
    fig.set(FigValue::Int(4), FigSource::Programmatic).unwrap();
    let _ = fig.set(FigValue::Bool(true), FigSource::Programmatic);
    assert!(fig.error.is_some());
    fig.set(FigValue::Int(4), FigSource::Programmatic).unwrap();
    assert!(fig.error.is_none());
}

#[test]
fn fig_set_other_zero_is_unchanged() {
    let mut fig = Fig::new("ratio", Some(FigValue::Float64(0.0f64.to_bits())));
    fig.set(FigValue::Float64(0.0f64.to_bits()), FigSource::Default).unwrap();
    fig.set(FigValue::Float64((-0.0f64).to_bits()), FigSource::Programmatic).unwrap();
    assert!(matches!(fig.history[2].state, FigState::Unchanged { .. }));
    assert_eq!(fig.value, Some(FigValue::Float64(0.0f64.to_bits())));
    assert_eq!(fig.source, FigSource::Default);
}

#[test]
fn fig_set_nan_again_is_a_change() {
    let nan = f64::NAN.to_bits();
    let mut fig = Fig::new("ratio", Some(FigValue::Float64(nan)));
    fig.set(FigValue::Float64(nan), FigSource::Default).unwrap();
    fig.set(FigValue::Float64(nan), FigSource::Programmatic).unwrap();
    assert!(matches!(fig.history[2].state, FigState::Changed { .. }));
    assert_eq!(fig.source, FigSource::Programmatic);
}

#[test]
fn float_values_compare_as_numbers() {
    let zero = FigValue::Float64(0.0f64.to_bits());
    let minus_zero = FigValue::Float64((-0.0f64).to_bits());
    let nan = FigValue::Float64(f64::NAN.to_bits());
    assert!(zero.same_as(&minus_zero));
    assert!(!nan.same_as(&nan));
    assert!(FigValue::ListFloat64(vec![1.5f64.to_bits(), 0.0f64.to_bits()])
        .same_as(&FigValue::ListFloat64(vec![1.5f64.to_bits(), (-0.0f64).to_bits()])));
    assert!(!FigValue::ListFloat64(vec![1.5f64.to_bits()]).same_as(&FigValue::ListFloat64(vec![2.5f64.to_bits()])));
    assert!(FigValue::Int(3).same_as(&FigValue::Int(3)));
    assert!(!FigValue::Int(3).same_as(&FigValue::Int64(3)));
}
