use capsula::capture_cwd::{CwdHook, CwdHookError, CwdHookFactory};
use capsula::capture_env::{create_factory, EnvVarHookConfig};
use capsula::capture_machine::{MachineContextFactory, MachineHook, MachineHookFactory};
use capsula::env_context;
use capsula::json::JsonValue;

fn s(t: &str) -> String {
    t.to_string()
}

#[test]
fn cwd_hook_records_the_working_directory() {
    let hook = CwdHookFactory.create_hook();
    let captured = hook.run(Ok(s("/home/user/project"))).unwrap();
    assert_eq!(captured.cwd_abs(), "/home/user/project");
    assert_eq!(CwdHookFactory.key(), "capture-cwd");
}

#[test]
fn cwd_hook_reports_unreadable_working_directory() {
    let hook = CwdHook::from_config();
    let result = hook.run(Err(s("No such file or directory")));
    assert!(matches!(result, Err(CwdHookError::CurrentDirError { ref message }) if message == "No such file or directory"));
}

#[test]
fn env_hook_captures_existing_variable() {
    let factory = create_factory();
    assert_eq!(factory.key(), "capture-env");
    let hook = factory.create_hook(EnvVarHookConfig { name: s("CAPSULA_TEST_VAR") });
    assert_eq!(hook.id(), "capture-env");
    assert_eq!(hook.name, "CAPSULA_TEST_VAR");
    let captured = hook.run(Some(s("test_value")));
    assert_eq!(captured.name, "CAPSULA_TEST_VAR");
    assert_eq!(captured.value, Some(s("test_value")));
    assert_eq!(
        captured.to_json(),
        JsonValue::Object(vec![(s("value"), JsonValue::String(s("test_value")))])
    );
}

#[test]
fn env_hook_captures_missing_variable() {
    let hook = create_factory().create_hook(EnvVarHookConfig { name: s("CAPSULA_SURELY_UNSET") });
    let captured = hook.run(None);
    assert_eq!(captured.value, None);
    assert_eq!(captured.to_json(), JsonValue::Object(vec![(s("value"), JsonValue::Null)]));
}

#[test]
fn env_context_capture_serializes_id_name_and_value() {
    let factory = env_context::create_factory();
    assert_eq!(factory.key(), "capture-env");
    let context = factory.create_context(s("HOME"));
    let captured = context.run(Some(s("/root"))).unwrap();
    assert_eq!(
        captured.to_json(),
        JsonValue::Object(vec![
            (s("id"), JsonValue::String(s("capture-env"))),
            (s("name"), JsonValue::String(s("HOME"))),
            (s("value"), JsonValue::String(s("/root"))),
        ])
    );
    let unset = context.run(None).unwrap();
    assert_eq!(unset.value, None);
}

#[test]
fn machine_hook_captures_system_info() {
    let hook = MachineHookFactory.create_hook();
    assert_eq!(MachineHookFactory.key(), "capture-machine");
    let captured = hook.run(s("x86_64")).expect("run ok");
    assert_eq!(captured.architecture, "x86_64");
    assert!(!captured.os.is_empty(), "Should capture OS");
    assert!(!captured.cpus.is_empty(), "Should have at least one CPU");
    assert!(captured.total_memory > 0, "Total memory should be positive");
}

#[test]
fn machine_hook_default_config() {
    let hook = MachineHook::default();
    assert!(hook.run(s("aarch64")).is_ok());
}

#[test]
fn machine_context_factory_makes_machine_hooks() {
    let factory = MachineContextFactory;
    assert_eq!(factory.key(), "machine");
    let context = factory.create_context();
    assert!(context.run(s("x86_64")).is_ok());
}
