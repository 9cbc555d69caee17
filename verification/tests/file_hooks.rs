use capsula::capture_json::{JsonHook, JsonHookConfig, JsonHookError};
use capsula::capture_toml::{toml_value_to_json, TomlHook, TomlHookConfig, TomlHookError, TomlValue};
use capsula::capture_yaml::{YamlHook, YamlHookConfig, YamlHookError};
use capsula::json::{JsonNumber, JsonValue};

fn s(t: &str) -> String {
    t.to_string()
}

fn num(n: u64) -> JsonValue {
    JsonValue::Number(JsonNumber::PosInt(n))
}

fn obj(entries: Vec<(&str, JsonValue)>) -> JsonValue {
    JsonValue::Object(entries.into_iter().map(|(k, v)| (k.to_string(), v)).collect())
}

fn not_found(path: &String) -> String {
    format!("No such file or directory (os error 2): {path}")
}

fn float(x: f64) -> JsonValue {
    JsonValue::Number(JsonNumber::Float(x.to_bits()))
}

fn entry<'a>(v: &'a JsonValue, key: &str) -> &'a JsonValue {
    match v {
        JsonValue::Object(es) => &es.iter().find(|(k, _)| k == key).expect("key present").1,
        _ => panic!("not an object: {v:?}"),
    }
}

// ---- capture-json ----------------------------------------------------

fn json_hook(root: &str, path: &str) -> JsonHook {
    JsonHook::from_config(JsonHookConfig { path: s(path) }, root)
}

#[test]
fn missing_file_returns_io_error() {
    let hook = json_hook("/tmp/project", "does-not-exist.json");
    let read = |p: &String| -> Result<String, String> { Err(not_found(p)) };
    let result = hook.run(&read);
    assert!(result.is_err());
    assert!(matches!(result, Err(JsonHookError::Io { ref path, .. }) if path == "/tmp/project/does-not-exist.json"));
}

#[test]
fn parses_valid_json_into_parameters_field() {
    let hook = json_hook("/tmp/project", "p.json");
    let read = |p: &String| -> Result<String, String> {
        assert_eq!(p, "/tmp/project/p.json");
        Ok(s(r#"{"a": 1, "b": "x"}"#))
    };
    let captured = hook.run(&read).unwrap();
    assert_eq!(captured.file, "p.json");
    assert_eq!(captured.parameters, obj(vec![("a", num(1)), ("b", JsonValue::String(s("x")))]));
}

#[test]
fn json_hook_records_configured_path_and_parameters() {
    let hook = json_hook("/tmp/project", "config/sat1/orbit.json");
    let read = |p: &String| -> Result<String, String> {
        assert_eq!(p, "/tmp/project/config/sat1/orbit.json");
        Ok(s(r#"{"b": "x", "a": 1}"#))
    };
    let captured = hook.run(&read).unwrap();
    assert_eq!(captured.file, "config/sat1/orbit.json");
    assert_eq!(captured.parameters, obj(vec![("a", num(1)), ("b", JsonValue::String(s("x")))]));
}

#[test]
fn supports_nested_json_objects() {
    let hook = json_hook("/tmp/project", "nested.json");
    let read = |_: &String| -> Result<String, String> { Ok(s(r#"{"sat1": {"orbit": {"a": 1.42, "b": "LEO"}}}"#)) };
    let captured = hook.run(&read).unwrap();
    let orbit = entry(entry(&captured.parameters, "sat1"), "orbit");
    assert_eq!(*entry(orbit, "a"), float(1.42));
    assert_eq!(*entry(orbit, "b"), JsonValue::String(s("LEO")));
}

#[test]
fn json_numbers_keep_their_kind() {
    let hook = json_hook("/p", "n.json");
    let read = |_: &String| -> Result<String, String> { Ok(s("[0, -7, 18446744073709551615, 2.5, null, true]")) };
    let captured = hook.run(&read).unwrap();
    assert_eq!(
        captured.parameters,
        JsonValue::Array(vec![
            num(0),
            JsonValue::Number(JsonNumber::NegInt(-7)),
            num(u64::MAX),
            float(2.5),
            JsonValue::Null,
            JsonValue::Bool(true),
        ])
    );
}

#[test]
fn invalid_json_returns_parse_error() {
    let hook = json_hook("/tmp/project", "bad.json");
    let read = |_: &String| -> Result<String, String> { Ok(s("not json{")) };
    assert!(hook.run(&read).is_err());
}

#[test]
fn json_hook_reports_parse_error() {
    let hook = json_hook("/tmp/project", "bad.json");
    let read = |_: &String| -> Result<String, String> { Ok(s("")) };
    assert!(
        matches!(hook.run(&read), Err(JsonHookError::Json(ref m)) if m == "EOF while parsing a value at line 1 column 0")
    );
}

// ---- capture-toml ----------------------------------------------------

#[test]
fn lib_missing_file_returns_io_error() {
    let hook = TomlHook::from_config(TomlHookConfig { path: s("does-not-exist.toml") });
    let read = |p: &String| -> Result<String, String> { Err(not_found(p)) };
    let result = hook.run("/tmp/project", &read);
    assert!(result.is_err());
    assert!(matches!(result, Err(TomlHookError::Io { ref path, .. }) if path == "/tmp/project/does-not-exist.toml"));
}

#[test]
fn parses_valid_toml_into_content_field() {
    let hook = TomlHook::from_config(TomlHookConfig { path: s("p.toml") });
    let read = |p: &String| -> Result<String, String> {
        assert_eq!(p, "/proj/p.toml");
        Ok(s("name = \"capsula\"\nport = 8080\n"))
    };
    let captured = hook.run("/proj", &read).unwrap();
    assert_eq!(captured.content, obj(vec![("name", JsonValue::String(s("capsula"))), ("port", num(8080))]));
}

#[test]
fn toml_hook_converts_tables_to_objects() {
    let hook = TomlHook::from_config(TomlHookConfig { path: s("p.toml") });
    let read = |_: &String| -> Result<String, String> {
        Ok(s("x = 42\n[sat1]\nname = \"LEO\"\npayloads = [\"camera\", true]\n"))
    };
    let captured = hook.run("/proj", &read).unwrap();
    assert_eq!(
        captured.content,
        obj(vec![
            (
                "sat1",
                obj(vec![
                    ("name", JsonValue::String(s("LEO"))),
                    ("payloads", JsonValue::Array(vec![JsonValue::String(s("camera")), JsonValue::Bool(true)])),
                ])
            ),
            ("x", num(42)),
        ])
    );
}

#[test]
fn supports_nested_toml_tables() {
    let hook = TomlHook::from_config(TomlHookConfig { path: s("nested.toml") });
    let read = |_: &String| -> Result<String, String> { Ok(s("\n[sat1.orbit]\na = 1.42\nb = \"LEO\"\n")) };
    let captured = hook.run("/proj", &read).unwrap();
    let orbit = entry(entry(&captured.content, "sat1"), "orbit");
    assert_eq!(*entry(orbit, "a"), float(1.42));
    assert_eq!(*entry(orbit, "b"), JsonValue::String(s("LEO")));
}

#[test]
fn toml_datetime_is_emitted_as_string() {
    let hook = TomlHook::from_config(TomlHookConfig { path: s("dt.toml") });
    let read = |_: &String| -> Result<String, String> { Ok(s("created_at = 2026-01-08T10:20:00Z\n")) };
    let captured = hook.run("/proj", &read).unwrap();
    assert!(matches!(entry(&captured.content, "created_at"), JsonValue::String(_)));
    assert_eq!(*entry(&captured.content, "created_at"), JsonValue::String(s("2026-01-08T10:20:00Z")));
}

#[test]
fn toml_datetime_is_emitted_as_string_value() {
    let v = toml_value_to_json(TomlValue::Table(vec![(s("created_at"), TomlValue::Datetime(s("1979-05-27T07:32:00Z")))]));
    assert_eq!(v, obj(vec![("created_at", JsonValue::String(s("1979-05-27T07:32:00Z")))]));
}

#[test]
fn toml_negative_integers_and_floats_keep_their_numbers() {
    let v = toml_value_to_json(TomlValue::Array(vec![
        TomlValue::Integer(-3),
        TomlValue::Integer(7),
        TomlValue::Float(1.5f64.to_bits()),
    ]));
    assert_eq!(
        v,
        JsonValue::Array(vec![
            JsonValue::Number(JsonNumber::NegInt(-3)),
            JsonValue::Number(JsonNumber::PosInt(7)),
            JsonValue::Number(JsonNumber::Float(1.5f64.to_bits())),
        ])
    );
}

#[test]
fn toml_duplicate_keys_keep_the_last_value() {
    let v = toml_value_to_json(TomlValue::Table(vec![(s("k"), TomlValue::Integer(1)), (s("k"), TomlValue::Integer(2))]));
    assert_eq!(v, obj(vec![("k", num(2))]));
}

#[test]
fn invalid_toml_returns_parse_error() {
    let hook = TomlHook::from_config(TomlHookConfig { path: s("bad.toml") });
    let read = |_: &String| -> Result<String, String> { Ok(s("not valid toml = =")) };
    assert!(matches!(hook.run("/proj", &read), Err(TomlHookError::Toml(_))));
}

// ---- capture-yaml ----------------------------------------------------

#[test]
fn yaml_missing_file_returns_io_error() {
    let hook = YamlHook::from_config(YamlHookConfig { path: s("does-not-exist.yaml") });
    let read = |p: &String| -> Result<String, String> { Err(not_found(p)) };
    let result = hook.run("/tmp/project", &read);
    assert!(result.is_err());
    assert!(matches!(result, Err(YamlHookError::Io { ref path, .. }) if path == "/tmp/project/does-not-exist.yaml"));
}

#[test]
fn parses_valid_yaml_into_content_field() {
    let hook = YamlHook::from_config(YamlHookConfig { path: s("p.yaml") });
    let read = |p: &String| -> Result<String, String> {
        assert_eq!(p, "/proj/p.yaml");
        Ok(s("name: capsula\nport: 8080\n"))
    };
    let captured = hook.run("/proj", &read).unwrap();
    assert_eq!(captured.content, obj(vec![("name", JsonValue::String(s("capsula"))), ("port", num(8080))]));
}

#[test]
fn invalid_yaml_returns_parse_error() {
    let hook = YamlHook::from_config(YamlHookConfig { path: s("bad.yaml") });
    let read = |_: &String| -> Result<String, String> { Ok(s("key: [unclosed\n")) };
    assert!(matches!(hook.run("/proj", &read), Err(YamlHookError::Yaml(_))));
}

#[test]
fn multi_document_yaml_is_rejected() {
    let hook = YamlHook::from_config(YamlHookConfig { path: s("multi.yaml") });
    let read = |_: &String| -> Result<String, String> { Ok(s("---\na: 1\n---\nb: 2\n")) };
    assert!(hook.run("/proj", &read).is_err());
}
