use capsula::capture_dir::DirHookError;
use capsula::capture_file::FileHookError;
use capsula::capture_git_repo::GitHookError;
use capsula::capture_parameter::ParameterHookError;
use capsula::capture_yaml::YamlHookError;
use capsula::client::{check_status, ClientError, ClientRequest};
use capsula::context_error::{CommandContextError, CwdContextError, FileContextError, MachineContextError};
use capsula::git_context::GitContextError;
use capsula::hook::{CapsulaError, HookOutcome};
use capsula::project_path::ProjectPathError;

fn s(t: &str) -> String {
    t.to_string()
}

#[test]
fn hook_errors_display_their_messages() {
    assert_eq!(
        DirHookError::DestinationInsideSource { source_dir: s("/a"), destination: s("/a/b") }.message(),
        "Cannot move directory /a into destination /a/b inside itself"
    );
    assert_eq!(
        FileHookError::InvalidPattern { pos: 3, msg: s("invalid range pattern") }.message(),
        "Invalid glob pattern: Pattern syntax error near position 3: invalid range pattern"
    );
    assert_eq!(
        FileHookError::ParentTraversalPattern { pattern: s("../x") }.message(),
        "Glob pattern cannot contain parent traversal ('..'): ../x"
    );
    assert_eq!(GitHookError::WorktreeMissing.message(), "Git repository has no worktree");
    assert_eq!(
        ParameterHookError::StripPrefixMismatch { prefix: s("config"), path: s("etc/a.json") }.message(),
        "strip_prefix 'config' is not a prefix of matched path 'etc/a.json'"
    );
    assert_eq!(
        YamlHookError::Io { path: s("/p/a.yaml"), message: s("denied") }.message(),
        "Failed to read YAML file '/p/a.yaml': denied"
    );
    assert_eq!(GitContextError::GitOperation(s("bad")).message(), "Git operation failed: bad");
}

#[test]
fn nested_errors_show_the_inner_message() {
    let inner = ProjectPathError::EscapesProjectRoot { input: s("../x"), resolved: s("/x"), project_root: s("/p") };
    let text = inner.message();
    assert_eq!(FileHookError::ProjectPath(inner).message(), text);
    let e = ParameterHookError::FileCapture(FileHookError::Walk(s("loop")));
    assert_eq!(e.message(), "Failed to walk project files: loop");
}

#[test]
fn hook_errors_become_hook_failures() {
    match FileHookError::ArtifactDirMissing.into_capsula() {
        CapsulaError::HookFailed { hook, message } => {
            assert_eq!(hook, "capture-file");
            assert_eq!(message, "capture-file hook requires an artifact directory but none was provided");
        }
        other => panic!("unexpected error: {other:?}"),
    }
    let e = GitHookError::NotARepository.into_capsula();
    assert_eq!(e.message(), "Hook 'capture-git-repo' failed");
}

#[test]
fn library_errors_display_their_messages() {
    assert_eq!(CapsulaError::Configuration { message: s("bad") }.message(), "Configuration error: bad");
    assert_eq!(CapsulaError::Serialization(s("eof")).message(), "Serialization failed: eof");
    assert_eq!(CapsulaError::Io(s("denied")).message(), "denied");
}

#[test]
fn server_status_is_checked() {
    assert!(check_status(&ClientRequest::ListVaults, 200, "200 OK").is_ok());
    assert!(check_status(&ClientRequest::Upload, 299, "299").is_ok());
    let e = check_status(&ClientRequest::GetRun { run_id: s("01H") }, 404, "404 Not Found").unwrap_err();
    assert_eq!(e.message(), "Server returned error: Failed to fetch run 01H: 404 Not Found");
    let e = check_status(
        &ClientRequest::DownloadFile { run_id: s("01H"), file_path: s("out/a.txt") },
        500,
        "500 Internal Server Error",
    )
    .unwrap_err();
    assert!(matches!(e, ClientError::ServerError(ref m)
        if m == "Failed to download file 'out/a.txt' of run 01H: 500 Internal Server Error"));
    assert!(check_status(&ClientRequest::VaultExists, 199, "199").is_err());
}

#[test]
fn context_errors_display_their_messages() {
    assert_eq!(CommandContextError::EmptyCommand.message(), "Command cannot be empty");
    assert_eq!(
        CommandContextError::NonZeroExit { command: s("make test"), status: -2 }.message(),
        "Command 'make test' exited with status -2"
    );
    assert_eq!(
        CommandContextError::ExecutionFailed { command: s("nope"), source: s("not found") }.message(),
        "Failed to execute command 'nope': not found"
    );
    assert_eq!(CwdContextError::CurrentDirError { source: s("gone") }.message(), "Failed to get current working directory: gone");
    assert_eq!(
        FileContextError::HashError { path: s("a.bin"), message: s("short read") }.message(),
        "Failed to compute hash for a.bin: short read"
    );
    assert_eq!(MachineContextError::CpuInfoError.message(), "Failed to get CPU information");
    let missing = FileContextError::FileNotFound { path: s("a.txt") };
    match missing.into_capsula() {
        CapsulaError::Io(m) => assert_eq!(m, "File not found: a.txt"),
        other => panic!("unexpected error: {other:?}"),
    }
    let unmatched = FileContextError::NoFilesMatched { pattern: s("*.csv") };
    match unmatched.into_capsula() {
        CapsulaError::HookFailed { hook, message } => {
            assert_eq!(hook, "file");
            assert_eq!(message, "No files matched the pattern: *.csv");
        }
        other => panic!("unexpected error: {other:?}"),
    }
    match MachineContextError::HostnameError.into_capsula() {
        CapsulaError::HookFailed { hook, .. } => assert_eq!(hook, "machine"),
        other => panic!("unexpected error: {other:?}"),
    }
}

#[test]
fn mapping_an_outcome_keeps_its_kind_and_reason() {
    let o: HookOutcome<i32> = HookOutcome::Failed { output: 2, reason: s("why") };
    match o.map(|x| x + 1).map(|x| x * 10) {
        HookOutcome::Failed { output, reason } => {
            assert_eq!(output, 30);
            assert_eq!(reason, "why");
        }
        _ => panic!("a failure stays a failure"),
    }
    match HookOutcome::Succeeded(5).map(|x: i32| x) {
        HookOutcome::Succeeded(v) => assert_eq!(v, 5),
        _ => panic!("a success stays a success"),
    }
}
