use capsula::capture_command::{CommandHook, CommandHookConfig};
use capsula::hook::CapsulaError;

fn config(command: &[&str], success_codes: Option<Vec<i32>>, abort_on_failure: Option<bool>) -> CommandHookConfig {
    CommandHookConfig {
        command: command.iter().map(|s| s.to_string()).collect(),
        success_codes,
        abort_on_failure,
        cwd: None,
    }
}

fn same_path(p: &str) -> Result<String, String> {
    Ok(p.to_string())
}

fn hook(c: CommandHookConfig) -> CommandHook {
    CommandHook::from_config(c, ".", &same_path).expect("from_config ok")
}

type Exec = Result<(Vec<u8>, Vec<u8>, Option<i32>), String>;

#[test]
fn command_hook_executes_successful_command() {
    let hook = hook(config(&["echo", "hello world"], None, None));
    let exec = |cmd: &Vec<String>, _dir: &String| -> Exec {
        assert_eq!(cmd, &vec!["echo".to_string(), "hello world".to_string()]);
        Ok((b"hello world\n".to_vec(), Vec::new(), Some(0)))
    };
    let outcome = hook.run(&exec).expect("run ok");
    assert_eq!(outcome.output().status, 0);
    assert!(outcome.output().stdout.contains("hello world"), "stdout should contain output");
    assert!(outcome.is_success(), "successful command should pass");
}

#[test]
fn command_hook_fails_on_unexpected_status_by_default() {
    let hook = hook(config(&["false"], None, None));
    let exec = |_: &Vec<String>, _: &String| -> Exec { Ok((Vec::new(), Vec::new(), Some(1))) };
    let outcome = hook.run(&exec).expect("run ok");
    assert_ne!(outcome.output().status, 0);
    assert!(outcome.is_failure(), "non-zero status should fail unless configured as successful");
    assert_eq!(outcome.failure_reason(), Some("command exited with status 1; expected 0"));
}

#[test]
fn command_hook_allows_expected_nonzero_status() {
    let hook = hook(config(&["false"], Some(vec![1]), None));
    let exec = |_: &Vec<String>, _: &String| -> Exec { Ok((Vec::new(), Vec::new(), Some(1))) };
    let outcome = hook.run(&exec).expect("run ok");
    assert!(outcome.is_success(), "configured non-zero status should be accepted");
}

#[test]
fn command_hook_preserves_abort_on_failure_false_compatibility() {
    let hook = hook(config(&["false"], None, Some(false)));
    let exec = |_: &Vec<String>, _: &String| -> Exec { Ok((Vec::new(), Vec::new(), Some(1))) };
    let outcome = hook.run(&exec).expect("run ok");
    assert!(outcome.is_success(), "legacy abort_on_failure = false should accept any exit status");
}

#[test]
fn command_hook_captures_stderr() {
    let hook = hook(config(&["sh", "-c", "echo 'error message' >&2"], None, None));
    let exec = |_: &Vec<String>, _: &String| -> Exec { Ok((Vec::new(), b"error message\n".to_vec(), Some(0))) };
    let outcome = hook.run(&exec).expect("run ok");
    assert!(outcome.output().stderr.contains("error message"), "stderr should contain error message");
    assert!(outcome.is_success(), "status 0 should pass");
}

#[test]
fn command_hook_rejects_empty_success_codes() {
    let result = CommandHook::from_config(config(&["true"], Some(vec![]), None), ".", &same_path);
    assert!(result.is_err(), "success_codes must not be empty");
}

#[test]
fn command_hook_rejects_conflicting_status_policy() {
    let result = CommandHook::from_config(config(&["true"], Some(vec![0]), Some(true)), ".", &same_path);
    assert!(result.is_err(), "success_codes and abort_on_failure should not be combined");
}

#[test]
fn command_hook_rejects_empty_command() {
    let hook = hook(config(&[], None, None));
    let exec = |_: &Vec<String>, _: &String| -> Exec { panic!("nothing should run") };
    match hook.run(&exec) {
        Err(CapsulaError::HookFailed { hook, message }) => {
            assert_eq!(hook, "capture-command");
            assert_eq!(message, "Command cannot be empty");
        }
        other => panic!("unexpected result: {other:?}"),
    }
}

#[test]
fn command_hook_reports_a_command_that_cannot_start() {
    let hook = hook(config(&["no-such-program", "-x"], None, None));
    let exec = |_: &Vec<String>, _: &String| -> Exec { Err("No such file or directory (os error 2)".to_string()) };
    match hook.run(&exec) {
        Err(CapsulaError::HookFailed { hook, message }) => {
            assert_eq!(hook, "capture-command");
            assert_eq!(message, "Failed to execute command 'no-such-program -x': No such file or directory (os error 2)");
        }
        other => panic!("unexpected result: {other:?}"),
    }
}

#[test]
fn command_hook_without_exit_code_has_status_minus_one() {
    let hook = hook(config(&["sleep", "100"], Some(vec![0, 2]), None));
    let exec = |_: &Vec<String>, _: &String| -> Exec { Ok((Vec::new(), Vec::new(), None)) };
    let outcome = hook.run(&exec).expect("run ok");
    assert_eq!(outcome.output().status, -1);
    assert_eq!(outcome.failure_reason(), Some("command exited with status -1; expected one of [0, 2]"));
}

#[test]
fn command_hook_decodes_invalid_utf8_lossily() {
    let hook = hook(config(&["cat"], None, None));
    let exec = |_: &Vec<String>, _: &String| -> Exec { Ok((vec![b'a', 0xff, b'b'], Vec::new(), Some(0))) };
    let outcome = hook.run(&exec).expect("run ok");
    assert_eq!(outcome.output().stdout, "a\u{FFFD}b");
}

#[test]
fn command_hook_runs_in_resolved_cwd() {
    let mut c = config(&["pwd"], None, None);
    c.cwd = Some("sub".to_string());
    let canon = |p: &str| -> Result<String, String> { Ok(p.to_string()) };
    let hook = CommandHook::from_config(c, "/proj", &canon).expect("from_config ok");
    assert_eq!(hook.working_dir(), "/proj/sub");
}
