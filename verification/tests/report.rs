use capsula::report::{
    command_display, config_missing_message, duration_ms, hook_error_line, hook_status_line, is_already_exists, pad_right,
    push_failure_message, push_summary, rule, runs_table_header, runs_table_row, runs_table_rule, timestamp_display,
    truncate_display, vaults_table_header, vaults_table_row, vaults_table_rule, COMMAND_WIDTH, VALUE_WIDTH,
};

fn s(t: &str) -> String {
    t.to_string()
}

#[test]
fn run_table_lines_are_padded_to_their_columns() {
    assert_eq!(runs_table_header(), format!("{:<19}  {:<20}  COMMAND", "TIMESTAMP (UTC)", "NAME"));
    assert_eq!(runs_table_rule(), "-".repeat(19 + 2 + 20 + 2 + 70));
    assert_eq!(
        runs_table_row("2025-01-09 14:30:22", "happy-river", "python train.py"),
        format!("{:<19}  {:<20}  {}", "2025-01-09 14:30:22", "happy-river", "python train.py")
    );
}

#[test]
fn vault_table_lines_are_padded_to_their_columns() {
    assert_eq!(vaults_table_header(), format!("{:<30}  RUNS", "VAULT NAME"));
    assert_eq!(vaults_table_rule(), "-".repeat(42));
    assert_eq!(vaults_table_row("capsula", 12), format!("{:<30}  {}", "capsula", 12));
    assert_eq!(vaults_table_row("neg", -3), format!("{:<30}  {}", "neg", -3));
}

#[test]
fn pad_right_counts_characters_and_never_cuts() {
    assert_eq!(pad_right("日本", 4), "日本  ");
    assert_eq!(pad_right("longer than", 3), "longer than");
    assert_eq!(rule(0), "");
}

#[test]
fn long_commands_are_cut_with_an_ellipsis() {
    let long = "x".repeat(80);
    assert_eq!(truncate_display(&long, COMMAND_WIDTH), format!("{}...", "x".repeat(67)));
    let exact = "y".repeat(70);
    assert_eq!(truncate_display(&exact, COMMAND_WIDTH), exact);
    let value = "z".repeat(121);
    assert_eq!(truncate_display(&value, VALUE_WIDTH).len(), 120);
}

#[test]
fn truncation_keeps_whole_characters() {
    // A two-byte character straddles byte 117: it is left out whole.
    let value = format!("{}é{}", "a".repeat(116), "b".repeat(10));
    let cut = truncate_display(&value, VALUE_WIDTH);
    assert_eq!(cut, format!("{}...", "a".repeat(116)));
    assert!(cut.len() <= VALUE_WIDTH);
    // Characters that fit are kept.
    let value = format!("{}é{}", "a".repeat(115), "b".repeat(10));
    assert_eq!(truncate_display(&value, VALUE_WIDTH), format!("{}é...", "a".repeat(115)));
    // Counting is in bytes: 40 three-byte characters are 120 bytes and fit.
    let wide = "日".repeat(40);
    assert_eq!(truncate_display(&wide, VALUE_WIDTH), wide);
    let wider = "日".repeat(41);
    assert_eq!(truncate_display(&wider, VALUE_WIDTH), format!("{}...", "日".repeat(39)));
}

#[test]
fn commands_are_shell_quoted() {
    assert_eq!(command_display(&vec![s("python"), s("train.py")]), "python train.py");
    assert_eq!(command_display(&vec![s("echo"), s("hello world")]), "echo 'hello world'");
    assert_eq!(command_display(&vec![s("a"), s("")]), "a ''");
}

#[test]
fn commands_with_nul_are_joined_plainly() {
    assert_eq!(command_display(&vec![s("a\0b"), s("c d")]), "a\0b c d");
}

#[test]
fn timestamps_are_shown_without_fraction() {
    assert_eq!(timestamp_display("2025-01-09T14:30:22.123456+00:00", false), "2025-01-09 14:30:22");
    assert_eq!(timestamp_display("2025-01-09T14:30:22+09:00", true), "2025-01-09 14:30:22 +09:00");
    assert_eq!(timestamp_display("yesterday", false), "yesterday");
}

#[test]
fn durations_are_whole_milliseconds() {
    assert_eq!(duration_ms(0, 0), 0);
    assert_eq!(duration_ms(2, 999_999), 2000);
    assert_eq!(duration_ms(1, 5_000_000), 1005);
}

#[test]
fn hook_lines_show_status_and_error() {
    assert_eq!(hook_status_line(Some("capture-cwd"), Some(true)), "  [ok] capture-cwd");
    assert_eq!(hook_status_line(Some("capture-file"), Some(false)), "  [FAILED] capture-file");
    assert_eq!(hook_status_line(None, None), "  [FAILED] unknown");
    assert_eq!(hook_error_line(Some(false), Some("boom")), Some(s("    Error: boom")));
    assert_eq!(hook_error_line(None, Some("boom")), Some(s("    Error: boom")));
    assert_eq!(hook_error_line(Some(true), Some("boom")), None);
    assert_eq!(hook_error_line(Some(false), None), None);
}

#[test]
fn push_messages() {
    assert!(is_already_exists("Server returned error: Upload failed: 409 Conflict: run already exists"));
    assert!(!is_already_exists("Server returned error: 500"));
    assert!(!is_already_exists("already exist"));
    assert_eq!(
        push_summary(3, 1, 0),
        "Push all completed: 3 succeeded, 1 skipped (already exist), 0 failed"
    );
    assert_eq!(push_failure_message(2), "2 runs failed to push");
}

#[test]
fn missing_config_message_explains_the_minimal_configuration() {
    let m = config_missing_message("capsula.toml");
    assert!(m.starts_with("Configuration file not found at 'capsula.toml'\n\nTo get started:\n"));
    assert!(m.ends_with("[[pre-run.hooks]]\nid = \"capture-git-repo\"\nname = \"my-project\"\npath = \".\"\n"));
}
