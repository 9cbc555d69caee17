use capsula::hook::{CapsulaError, HookOutcome};
use capsula::json::{json_eq, JsonNumber, JsonValue};
use capsula::run_layout::{
    failed_record, failure_message, hook_record, phase_record_file, records_dir, requests_abort, run_dir_path, run_name,
};

fn s(t: &str) -> String {
    t.to_string()
}

fn obj(entries: Vec<(&str, JsonValue)>) -> JsonValue {
    JsonValue::Object(entries.into_iter().map(|(k, v)| (k.to_string(), v)).collect())
}

#[test]
fn run_names_pair_an_adjective_with_a_noun() {
    assert_eq!(run_name(0), "happy-river");
    assert_eq!(run_name(17), "brave-mountain");
    assert_eq!(run_name(255), "bright-grove");
    assert_eq!(run_name(256), "happy-river");
}

#[test]
fn runs_are_kept_by_date_then_time_and_name() {
    assert_eq!(
        run_dir_path(".capsula/my-project", "2025-01-09", "143022", "happy-river"),
        ".capsula/my-project/2025-01-09/143022-happy-river"
    );
}

#[test]
fn records_carry_the_hook_meta() {
    let config = obj(vec![("path", JsonValue::String(s(".")))]);
    let output = obj(vec![("cwd", JsonValue::String(s("/p"))), ("z", JsonValue::Null)]);
    let r = hook_record("capture-cwd", config, HookOutcome::Succeeded(output));
    let meta = obj(vec![
        ("config", obj(vec![("path", JsonValue::String(s(".")))])),
        ("id", JsonValue::String(s("capture-cwd"))),
        ("success", JsonValue::Bool(true)),
    ]);
    let expected = obj(vec![("__meta", meta), ("cwd", JsonValue::String(s("/p"))), ("z", JsonValue::Null)]);
    assert!(json_eq(&r, &expected));

    let failed = hook_record(
        "capture-command",
        obj(vec![]),
        HookOutcome::Failed { output: JsonValue::Number(JsonNumber::PosInt(3)), reason: s("exit 3") },
    );
    let meta = obj(vec![
        ("config", obj(vec![])),
        ("error", JsonValue::String(s("exit 3"))),
        ("id", JsonValue::String(s("capture-command"))),
        ("success", JsonValue::Bool(false)),
    ]);
    let expected = obj(vec![("__meta", meta), ("output", JsonValue::Number(JsonNumber::PosInt(3)))]);
    assert!(json_eq(&failed, &expected));
}

#[test]
fn hooks_that_could_not_run_are_recorded_as_failed() {
    let e = CapsulaError::HookFailed { hook: s("capture-file"), message: s("No files matched the pattern: *.csv") };
    let message = failure_message(&e);
    assert_eq!(message, "Hook 'capture-file' failed: No files matched the pattern: *.csv");
    assert_eq!(failure_message(&CapsulaError::Io(s("denied"))), "denied");
    let r = failed_record("capture-file", obj(vec![]), message.clone());
    let meta = obj(vec![
        ("config", obj(vec![])),
        ("error", JsonValue::String(message)),
        ("id", JsonValue::String(s("capture-file"))),
        ("success", JsonValue::Bool(false)),
    ]);
    assert!(json_eq(&r, &obj(vec![("__meta", meta)])));
}

#[test]
fn a_failed_hook_or_a_hook_that_asks_aborts_the_run() {
    assert!(!requests_abort(true, false));
    assert!(requests_abort(true, true));
    assert!(requests_abort(false, false));
}

#[test]
fn records_are_kept_under_capsula_by_phase() {
    assert_eq!(records_dir("/v/2025-01-09/143022-happy-river"), "/v/2025-01-09/143022-happy-river/_capsula");
    assert_eq!(phase_record_file("pre"), "pre-run.json");
    assert_eq!(phase_record_file("post"), "post-run.json");
}
