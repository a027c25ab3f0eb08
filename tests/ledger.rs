use andromeda_test::ledger::{encode_results, BindingCall, TestExt, TestResult, TestStorage};

fn run_file(calls: Vec<BindingCall>) -> TestStorage {
    let mut storage = TestStorage::default();
    TestExt::dispatch(&mut storage, BindingCall::Reset);
    for call in calls {
        TestExt::dispatch(&mut storage, call);
    }
    storage
}

#[test]
fn default_ledger_is_empty() {
    let storage = TestStorage::default();
    assert!(storage.current_suite.is_none());
    assert!(storage.test_results.is_empty());
}

#[test]
fn describe_last_call_wins() {
    let mut storage = TestStorage::default();
    TestExt::describe(&mut storage, "first".to_string());
    TestExt::describe(&mut storage, "second".to_string());
    assert_eq!(storage.current_suite.as_deref(), Some("second"));
    assert!(storage.test_results.is_empty());
}

#[test]
fn passing_calls_give_passing_entries() {
    let storage = run_file(vec![
        BindingCall::ItPassed("a".to_string()),
        BindingCall::ItPassed("b".to_string()),
        BindingCall::ItPassed("c".to_string()),
    ]);
    assert_eq!(storage.test_results.len(), 3);
    for (r, name) in storage.test_results.iter().zip(["a", "b", "c"]) {
        assert_eq!(r.name, name);
        assert!(r.passed);
        assert!(r.error.is_none());
        assert_eq!(r.duration, 0);
    }
}

#[test]
fn failing_call_keeps_error_verbatim() {
    let mut storage = TestStorage::default();
    TestExt::it_failed(&mut storage, "x".to_string(), "  boom: \"quoted\"\n".to_string());
    assert_eq!(storage.test_results.len(), 1);
    let r = &storage.test_results[0];
    assert_eq!(r.name, "x");
    assert!(!r.passed);
    assert_eq!(r.error.as_deref(), Some("  boom: \"quoted\"\n"));
    assert_eq!(r.duration, 0);
}

#[test]
fn reset_twice_equals_reset_once() {
    let mut storage = TestStorage::default();
    TestExt::describe(&mut storage, "suite".to_string());
    TestExt::it_passed(&mut storage, "a".to_string());
    TestExt::reset_test_state(&mut storage);
    assert!(storage.current_suite.is_none());
    assert!(storage.test_results.is_empty());
    TestExt::reset_test_state(&mut storage);
    assert!(storage.current_suite.is_none());
    assert!(storage.test_results.is_empty());
}

#[test]
fn quiet_file_gives_no_entries() {
    let mut storage = TestStorage::default();
    TestExt::it_passed(&mut storage, "stale".to_string());
    TestExt::dispatch(&mut storage, BindingCall::Reset);
    TestExt::dispatch(&mut storage, BindingCall::Describe("s".to_string()));
    assert!(storage.test_results.is_empty());
    let text = TestExt::dispatch(&mut storage, BindingCall::GetResults);
    assert_eq!(text.as_deref(), Some("[]"));
}

#[test]
fn results_encode_as_json_array() {
    let storage = run_file(vec![
        BindingCall::Describe("suite".to_string()),
        BindingCall::ItPassed("a".to_string()),
        BindingCall::ItFailed("x".to_string(), "boom".to_string()),
    ]);
    assert_eq!(
        TestExt::get_test_results(&storage),
        "[{\"name\":\"a\",\"passed\":true,\"error\":null,\"duration\":0},\
         {\"name\":\"x\",\"passed\":false,\"error\":\"boom\",\"duration\":0}]"
    );
}

#[test]
fn encoding_escapes_strings() {
    let rs = vec![TestResult {
        name: "say \"hi\"\\".to_string(),
        passed: false,
        error: Some("line1\nline2".to_string()),
        duration: 1234567,
    }];
    assert_eq!(
        encode_results(&rs),
        "[{\"name\":\"say \\\"hi\\\"\\\\\",\"passed\":false,\"error\":\"line1\\nline2\",\"duration\":1234567}]"
    );
}

#[test]
fn encoding_largest_duration() {
    let rs = vec![TestResult { name: String::new(), passed: true, error: None, duration: u128::MAX }];
    assert_eq!(
        encode_results(&rs),
        format!("[{{\"name\":\"\",\"passed\":true,\"error\":null,\"duration\":{}}}]", u128::MAX)
    );
}

#[test]
fn dispatch_get_results_leaves_ledger() {
    let mut storage = run_file(vec![BindingCall::ItPassed("a".to_string())]);
    let out = TestExt::dispatch(&mut storage, BindingCall::GetResults);
    assert_eq!(out.as_deref(), Some("[{\"name\":\"a\",\"passed\":true,\"error\":null,\"duration\":0}]"));
    assert_eq!(storage.test_results.len(), 1);
    assert!(TestExt::dispatch(&mut storage, BindingCall::ItPassed("b".to_string())).is_none());
}

#[test]
fn extension_table_lists_five_bindings() {
    let ext = TestExt::new_extension();
    assert_eq!(ext.name, "test");
    let table: Vec<(&str, usize)> = ext.ops.iter().map(|o| (o.name.as_str(), o.arity)).collect();
    assert_eq!(
        table,
        vec![
            ("__andromeda_test_describe", 1),
            ("__andromeda_test_it_passed", 1),
            ("__andromeda_test_it_failed", 2),
            ("__andromeda_test_get_results", 0),
            ("__andromeda_test_reset", 0),
        ]
    );
}

#[test]
fn binding_names_map_to_calls() {
    let args = vec!["x".to_string(), "boom".to_string()];
    assert!(matches!(TestExt::binding_call("__andromeda_test_reset", &args), Some(BindingCall::Reset)));
    assert!(matches!(
        TestExt::binding_call("__andromeda_test_get_results", &vec![]),
        Some(BindingCall::GetResults)
    ));
    match TestExt::binding_call("__andromeda_test_it_failed", &args) {
        Some(BindingCall::ItFailed(n, e)) => {
            assert_eq!(n, "x");
            assert_eq!(e, "boom");
        }
        _ => panic!("expected it_failed"),
    }
    match TestExt::binding_call("__andromeda_test_it_passed", &vec![]) {
        Some(BindingCall::ItPassed(n)) => assert_eq!(n, "undefined"),
        _ => panic!("expected it_passed"),
    }
    match TestExt::binding_call("__andromeda_test_describe", &args) {
        Some(BindingCall::Describe(n)) => assert_eq!(n, "x"),
        _ => panic!("expected describe"),
    }
    assert!(TestExt::binding_call("__andromeda_test_it", &args).is_none());
    assert!(TestExt::binding_call("", &args).is_none());
}
