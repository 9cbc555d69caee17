use capsula::capture_file::FileHookError;
use capsula::capture_parameter::{
    build_glob_pattern, compute_keys, merge_at_keys, merge_value, parse_file, ParameterHook, ParameterHookConfig,
    ParameterHookError,
};
use capsula::json::{json_eq, JsonNumber, JsonValue};

fn num(n: u64) -> JsonValue {
    JsonValue::Number(JsonNumber::PosInt(n))
}

fn s(text: &str) -> String {
    text.to_string()
}

fn obj(entries: Vec<(&str, JsonValue)>) -> JsonValue {
    JsonValue::Object(entries.into_iter().map(|(k, v)| (k.to_string(), v)).collect())
}

fn arr(items: Vec<JsonValue>) -> JsonValue {
    JsonValue::Array(items)
}

// ---- compute_keys -----------------------------------------------------

#[test]
fn compute_keys_simple_file_no_prefix() {
    let keys = compute_keys("foo.json", None).unwrap();
    assert_eq!(keys, vec!["foo".to_string()]);
}

#[test]
fn compute_keys_nested_no_prefix() {
    let keys = compute_keys("sat1/orbit.json", None).unwrap();
    assert_eq!(keys, vec!["sat1".to_string(), "orbit".to_string()]);
}

#[test]
fn compute_keys_with_strip_prefix_removes_layer() {
    let keys = compute_keys("config/sat1/orbit.json", Some("config")).unwrap();
    assert_eq!(keys, vec!["sat1".to_string(), "orbit".to_string()]);
}

#[test]
fn compute_keys_strip_prefix_mismatch_errors() {
    let err = compute_keys("etc/foo.json", Some("config")).unwrap_err();
    assert!(matches!(err, ParameterHookError::StripPrefixMismatch { .. }));
}

#[test]
fn compute_keys_strip_prefix_mismatch_names_prefix_and_path() {
    let err = compute_keys("etc/foo.json", Some("config")).unwrap_err();
    match err {
        ParameterHookError::StripPrefixMismatch { prefix, path } => {
            assert_eq!(prefix, "config");
            assert_eq!(path, "etc/foo.json");
        }
        other => panic!("unexpected error: {other:?}"),
    }
}

#[test]
fn compute_keys_deeply_nested_uses_stem_of_file() {
    let keys = compute_keys("a/b/c/params.tar.yaml", None).unwrap();
    assert_eq!(keys, vec![s("a"), s("b"), s("c"), s("params.tar")]);
}

// ---- merge_value ------------------------------------------------------

#[test]
fn merge_value_disjoint_objects() {
    let mut a = obj(vec![("x", num(1))]);
    merge_value(&mut a, obj(vec![("y", num(2))]), &mut Vec::new()).unwrap();
    assert_eq!(a, obj(vec![("x", num(1)), ("y", num(2))]));
}

#[test]
fn merge_value_equal_scalars_ok() {
    let mut a = num(42);
    merge_value(&mut a, num(42), &mut Vec::new()).unwrap();
    assert_eq!(a, num(42));
}

#[test]
fn merge_value_conflicting_scalars_error() {
    let mut a = num(1);
    let err = merge_value(&mut a, num(2), &mut vec!["root".into()]).unwrap_err();
    assert!(matches!(err, ParameterHookError::ParameterConflict(ref p) if p == "root"));
}

#[test]
fn merge_value_type_mismatch_error() {
    let mut a = obj(vec![("x", num(1))]);
    let err = merge_value(&mut a, num(42), &mut vec!["k".into()]).unwrap_err();
    assert!(matches!(err, ParameterHookError::ParameterConflict(_)));
}

#[test]
fn merge_value_equal_arrays_ok() {
    let mut a = arr(vec![num(1), num(2), num(3)]);
    merge_value(&mut a, arr(vec![num(1), num(2), num(3)]), &mut Vec::new()).unwrap();
    assert_eq!(a, arr(vec![num(1), num(2), num(3)]));
}

#[test]
fn merge_value_different_arrays_error() {
    let mut a = arr(vec![num(1), num(2)]);
    let err = merge_value(&mut a, arr(vec![num(1), num(3)]), &mut vec!["arr".into()]).unwrap_err();
    assert!(matches!(err, ParameterHookError::ParameterConflict(ref p) if p == "arr"));
}

#[test]
fn merge_value_deep_object_merge() {
    let mut a = obj(vec![("inner", obj(vec![("x", num(1))]))]);
    merge_value(&mut a, obj(vec![("inner", obj(vec![("y", num(2))]))]), &mut Vec::new()).unwrap();
    assert_eq!(a, obj(vec![("inner", obj(vec![("x", num(1)), ("y", num(2))]))]));
}

#[test]
fn merge_value_with_itself_keeps_value() {
    let v = obj(vec![("a", arr(vec![num(1), JsonValue::Null])), ("b", obj(vec![("c", JsonValue::Bool(true))]))]);
    let mut a = obj(vec![("a", arr(vec![num(1), JsonValue::Null])), ("b", obj(vec![("c", JsonValue::Bool(true))]))]);
    merge_value(&mut a, obj(vec![("a", arr(vec![num(1), JsonValue::Null])), ("b", obj(vec![("c", JsonValue::Bool(true))]))]), &mut Vec::new())
        .unwrap();
    assert_eq!(a, v);
}

#[test]
fn merge_value_conflict_path_extends_start_path() {
    let mut a = obj(vec![("outer", obj(vec![("leaf", num(1))]))]);
    let mut stack = vec![s("top")];
    let err = merge_value(&mut a, obj(vec![("outer", obj(vec![("leaf", num(2))]))]), &mut stack).unwrap_err();
    assert!(matches!(err, ParameterHookError::ParameterConflict(ref p) if p == "top.outer.leaf"));
}

#[test]
fn merge_value_inserts_new_keys_in_order() {
    let mut a = obj(vec![("b", num(2)), ("d", num(4))]);
    merge_value(&mut a, obj(vec![("a", num(1)), ("c", num(3)), ("e", num(5))]), &mut Vec::new()).unwrap();
    assert_eq!(a, obj(vec![("a", num(1)), ("b", num(2)), ("c", num(3)), ("d", num(4)), ("e", num(5))]));
}

// ---- merge_at_keys ----------------------------------------------------

#[test]
fn merge_at_keys_inserts_at_leaf() {
    let mut target: Vec<(String, JsonValue)> = Vec::new();
    merge_at_keys(&mut target, &["foo".into()], num(1), &mut Vec::new()).unwrap();
    assert_eq!(JsonValue::Object(target), obj(vec![("foo", num(1))]));
}

#[test]
fn merge_at_keys_creates_nested_objects() {
    let mut target: Vec<(String, JsonValue)> = Vec::new();
    merge_at_keys(&mut target, &["sat1".into(), "orbit".into()], obj(vec![("a", num(1))]), &mut Vec::new()).unwrap();
    merge_at_keys(
        &mut target,
        &["sat1".into(), "attitude".into()],
        obj(vec![("q", arr(vec![num(0), num(0), num(0), num(1)]))]),
        &mut Vec::new(),
    )
    .unwrap();
    assert_eq!(
        JsonValue::Object(target),
        obj(vec![(
            "sat1",
            obj(vec![
                ("attitude", obj(vec![("q", arr(vec![num(0), num(0), num(0), num(1)]))])),
                ("orbit", obj(vec![("a", num(1))])),
            ])
        )])
    );
}

#[test]
fn merge_at_keys_unifies_leaf_and_intermediate() {
    let mut target: Vec<(String, JsonValue)> = Vec::new();
    merge_at_keys(&mut target, &["sat1".into()], obj(vec![("x", num(1))]), &mut Vec::new()).unwrap();
    merge_at_keys(&mut target, &["sat1".into(), "orbit".into()], obj(vec![("a", num(1))]), &mut Vec::new()).unwrap();
    assert_eq!(
        JsonValue::Object(target),
        obj(vec![("sat1", obj(vec![("orbit", obj(vec![("a", num(1))])), ("x", num(1))]))])
    );
}

#[test]
fn merge_at_keys_conflict_reports_full_path() {
    let mut target: Vec<(String, JsonValue)> = Vec::new();
    merge_at_keys(&mut target, &["sat1".into(), "orbit".into()], obj(vec![("a", num(1))]), &mut Vec::new()).unwrap();
    let err = merge_at_keys(&mut target, &["sat1".into(), "orbit".into()], obj(vec![("a", num(2))]), &mut Vec::new())
        .unwrap_err();
    assert!(
        matches!(err, ParameterHookError::ParameterConflict(ref p) if p == "sat1.orbit.a"),
        "expected conflict at 'sat1.orbit.a', got: {err:?}"
    );
}

// ---- collecting files -------------------------------------------------

fn hook(glob: &str, strip: Option<&str>) -> ParameterHook {
    ParameterHook::from_config(ParameterHookConfig { glob: s(glob), strip_prefix: strip.map(s) })
}

#[test]
fn build_glob_pattern_joins_and_uses_forward_slashes() {
    assert_eq!(build_glob_pattern("/proj", "params/**/*.json"), "/proj/params/**/*.json");
    assert_eq!(build_glob_pattern("/proj", "a\\b.json"), "/proj/a/b.json");
}

#[test]
fn collect_merges_files_in_order_under_their_key_paths() {
    let h = hook("config/**/*", Some("config"));
    let files = vec![
        (s("/proj/config/sat1/orbit.json"), Ok(obj(vec![("a", num(1))]))),
        (s("/proj/config/sat1/attitude.yaml"), Ok(obj(vec![("q", num(4))]))),
    ];
    let captured = h.collect("/proj", files).unwrap();
    assert_eq!(
        JsonValue::Object(captured.parameters),
        obj(vec![("sat1", obj(vec![("attitude", obj(vec![("q", num(4))])), ("orbit", obj(vec![("a", num(1))]))]))])
    );
}

#[test]
fn collect_merges_same_stem_from_two_formats() {
    let h = hook("*", None);
    let files = vec![
        (s("/proj/params.json"), Ok(obj(vec![("a", num(1))]))),
        (s("/proj/params.yaml"), Ok(obj(vec![("b", num(2))]))),
    ];
    let captured = h.collect("/proj", files).unwrap();
    assert_eq!(JsonValue::Object(captured.parameters), obj(vec![("params", obj(vec![("a", num(1)), ("b", num(2))]))]));
}

#[test]
fn collect_reports_conflict_between_files() {
    let h = hook("*", None);
    let files = vec![
        (s("/proj/p.json"), Ok(obj(vec![("a", num(1))]))),
        (s("/proj/p.toml"), Ok(obj(vec![("a", num(2))]))),
    ];
    let err = h.collect("/proj", files).unwrap_err();
    assert!(matches!(err, ParameterHookError::ParameterConflict(ref p) if p == "p.a"));
}

#[test]
fn collect_reports_strip_prefix_mismatch() {
    let h = hook("*", Some("config"));
    let files = vec![(s("/proj/etc/p.json"), Ok(num(1)))];
    let err = h.collect("/proj", files).unwrap_err();
    match err {
        ParameterHookError::StripPrefixMismatch { prefix, path } => {
            assert_eq!(prefix, "config");
            assert_eq!(path, "etc/p.json");
        }
        other => panic!("unexpected error: {other:?}"),
    }
}

#[test]
fn collect_reports_unreadable_file() {
    let h = hook("*", None);
    let files = vec![
        (s("/proj/a.json"), Ok(num(1))),
        (s("/proj/b.txt"), Err(ParameterHookError::UnsupportedFileType(s("txt")))),
    ];
    let err = h.collect("/proj", files).unwrap_err();
    assert!(matches!(err, ParameterHookError::UnsupportedFileType(ref e) if e == "txt"));
}

#[test]
fn run_sorts_matched_files_before_merging() {
    let h = hook("*.json", None);
    let found = |pattern: &str| -> Result<Vec<String>, FileHookError> {
        assert_eq!(pattern, "/proj/*.json");
        Ok(vec![s("/proj/b.json"), s("/proj/a.json")])
    };
    let read = |path: &str| -> Result<String, String> {
        if path == "/proj/a.json" {
            Ok(s(r#"{"x": 1}"#))
        } else {
            Ok(s(r#"{"y": 2}"#))
        }
    };
    let captured = h.run("/proj", &found, &read).unwrap();
    assert_eq!(
        JsonValue::Object(captured.parameters),
        obj(vec![("a", obj(vec![("x", num(1))])), ("b", obj(vec![("y", num(2))]))])
    );
}

#[test]
fn run_reports_failed_file_search() {
    let h = hook("[", None);
    let found = |_: &str| -> Result<Vec<String>, FileHookError> { Err(FileHookError::Walk(s("denied"))) };
    let read = |_: &str| -> Result<String, String> { Ok(s("null")) };
    let err = h.run("/proj", &found, &read).unwrap_err();
    assert!(matches!(err, ParameterHookError::FileCapture(FileHookError::Walk(ref m)) if m == "denied"));
}

#[test]
fn merging_does_not_depend_on_the_order() {
    let a = || obj(vec![("x", obj(vec![("p", num(1))])), ("y", arr(vec![num(1)]))]);
    let b = || obj(vec![("x", obj(vec![("q", num(2))])), ("z", JsonValue::Bool(true))]);
    let mut ab = a();
    merge_value(&mut ab, b(), &mut Vec::new()).unwrap();
    let mut ba = b();
    merge_value(&mut ba, a(), &mut Vec::new()).unwrap();
    assert!(json_eq(&ab, &ba));

    let c = || obj(vec![("x", obj(vec![("p", num(3))]))]);
    let mut ac = a();
    let mut ca = c();
    assert!(merge_value(&mut ac, c(), &mut Vec::new()).is_err());
    assert!(merge_value(&mut ca, a(), &mut Vec::new()).is_err());
}

fn run_files(glob: &str, files: Vec<(&'static str, &'static str)>) -> Result<JsonValue, ParameterHookError> {
    let h = hook(glob, None);
    let names: Vec<String> = files.iter().map(|(n, _)| format!("/proj/{n}")).collect();
    let found = move |_: &str| -> Result<Vec<String>, FileHookError> { Ok(names.clone()) };
    let read = |path: &str| -> Result<String, String> {
        files.iter().find(|(n, _)| format!("/proj/{n}") == path).map(|(_, t)| s(t)).ok_or_else(|| s("missing"))
    };
    h.run("/proj", &found, &read).map(|c| JsonValue::Object(c.parameters))
}

#[test]
fn parses_single_json_file() {
    let out = run_files("*.json", vec![("params.json", r#"{"a": 1, "b": "x"}"#)]).unwrap();
    assert_eq!(out, obj(vec![("params", obj(vec![("a", num(1)), ("b", JsonValue::String(s("x")))]))]));
}

#[test]
fn parses_toml_file() {
    let out = run_files("*.toml", vec![("config.toml", "name = \"capsula\"\nport = 8080\n")]).unwrap();
    assert_eq!(
        out,
        obj(vec![("config", obj(vec![("name", JsonValue::String(s("capsula"))), ("port", num(8080))]))])
    );
}

#[test]
fn merges_json_and_yaml_with_same_stem() {
    let out = run_files("orbit.*", vec![("orbit.yaml", "b: 2\n"), ("orbit.json", r#"{"a": 1}"#)]).unwrap();
    assert_eq!(out, obj(vec![("orbit", obj(vec![("a", num(1)), ("b", num(2))]))]));
}

#[test]
fn parse_file_goes_by_the_extension() {
    let read = |p: &str| -> Result<String, String> {
        match p {
            "/p/a.JSON" => Ok(s("[1]")),
            "/p/b.yml" => Ok(s("- 1\n")),
            "/p/c.txt" => Ok(s("1")),
            "/p/d.json" => Ok(s("{")),
            _ => Err(s("denied")),
        }
    };
    assert_eq!(parse_file("/p/a.JSON", &read).unwrap(), arr(vec![num(1)]));
    assert_eq!(parse_file("/p/b.yml", &read).unwrap(), arr(vec![num(1)]));
    assert!(matches!(parse_file("/p/c.txt", &read), Err(ParameterHookError::UnsupportedFileType(ref e)) if e == "txt"));
    assert!(matches!(parse_file("/p/d.json", &read), Err(ParameterHookError::JsonDeserializationFailed(_))));
    assert!(matches!(
        parse_file("/p/e.toml", &read),
        Err(ParameterHookError::FileCapture(FileHookError::ReadError { ref path, ref source })) if path == "/p/e.toml" && source == "denied"
    ));
}
