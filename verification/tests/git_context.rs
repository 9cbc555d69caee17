use capsula::git_context::{create_factory, GitCaptured, GitContext, GitContextConfig, GitContextError, RepoOpenFailure};
use capsula::hook::CapsulaError;
use capsula::json::JsonValue;
use std::cell::RefCell;

fn s(t: &str) -> String {
    t.to_string()
}

fn run(
    ctx: &GitContext,
    run_dir: Option<&str>,
    head: Result<Option<String>, String>,
    changes: usize,
) -> (Result<GitCaptured, GitContextError>, Vec<(String, String)>) {
    let written: RefCell<Vec<(String, String)>> = RefCell::new(Vec::new());
    let r = ctx
        .plan(
            run_dir,
            &|| -> Result<String, String> { Ok(s("/current")) },
            &|p: &str| -> Result<String, RepoOpenFailure> { Ok(s(p)) },
            &|_: &String| head.clone(),
            &|_: &String| -> Result<usize, String> { Ok(changes) },
            &|_: &String| -> Result<String, String> { Ok(s("diff --git a/x b/x\n")) },
        )
        .and_then(|plan| {
            ctx.run(plan, &|p: &str, t: &str| -> Result<(), String> {
                written.borrow_mut().push((s(p), s(t)));
                Ok(())
            })
        });
    (r, written.into_inner())
}

fn context(working_dir: &str, allow_dirty: bool) -> GitContext {
    GitContext { name: s("main"), working_dir: s(working_dir), allow_dirty }
}

#[test]
fn git_context_captures_clean_repository() {
    let (r, written) = run(&context("/repo", false), None, Ok(Some(s("abc123"))), 0);
    let c = r.unwrap();
    assert_eq!(c.name, "main");
    assert_eq!(c.working_dir, "/repo");
    assert_eq!(c.sha, "abc123");
    assert!(!c.is_dirty);
    assert!(c.abort_on_dirty);
    assert!(!c.abort_requested());
    assert!(written.is_empty());
}

#[test]
fn git_context_uses_current_dir_when_working_dir_is_empty() {
    let (r, _) = run(&context("", true), None, Ok(Some(s("abc123"))), 0);
    assert_eq!(r.unwrap().working_dir, "/current");
}

#[test]
fn git_context_writes_patch_of_dirty_worktree() {
    let (r, written) = run(&context("/repo", false), Some("/runs/r1"), Ok(Some(s("abc123"))), 2);
    let c = r.unwrap();
    assert!(c.is_dirty);
    assert!(c.abort_requested());
    assert_eq!(written, vec![(s("/runs/r1/main.patch"), s("diff --git a/x b/x\n"))]);
}

#[test]
fn git_context_dirty_worktree_needs_run_dir() {
    let (r, _) = run(&context("/repo", true), None, Ok(Some(s("abc123"))), 1);
    assert!(matches!(r, Err(GitContextError::RunDirNotSpecified { ref message })
        if message == "Run directory is not specified in runtime parameters"));
}

#[test]
fn git_context_head_must_name_a_commit() {
    let (r, _) = run(&context("/repo", true), None, Ok(None), 0);
    assert!(matches!(r, Err(GitContextError::HeadNotFound { ref message })
        if message == "HEAD does not point to a valid commit"));
}

#[test]
fn git_context_reports_missing_repository() {
    let ctx = context("/nowhere", true);
    let r = ctx.plan(
        None,
        &|| -> Result<String, String> { Ok(s("/current")) },
        &|_: &str| -> Result<(), RepoOpenFailure> { Err(RepoOpenFailure::NotFound) },
        &|_: &()| -> Result<Option<String>, String> { unreachable!() },
        &|_: &()| -> Result<usize, String> { unreachable!() },
        &|_: &()| -> Result<String, String> { unreachable!() },
    );
    assert!(matches!(r, Err(GitContextError::NotARepository)));
}

#[test]
fn git_captured_serializes_with_type_key() {
    let c = GitCaptured { name: s("main"), working_dir: s("/repo"), sha: s("abc"), is_dirty: true, abort_on_dirty: false };
    assert!(!c.abort_requested());
    assert_eq!(
        c.to_json(),
        JsonValue::Object(vec![
            (s("abort_on_dirty"), JsonValue::Bool(false)),
            (s("is_dirty"), JsonValue::Bool(true)),
            (s("name"), JsonValue::String(s("main"))),
            (s("sha"), JsonValue::String(s("abc"))),
            (s("type"), JsonValue::String(s("git"))),
            (s("working_dir"), JsonValue::String(s("/repo"))),
        ])
    );
}

#[test]
fn git_context_factory_resolves_relative_paths() {
    let factory = create_factory();
    assert_eq!(factory.key(), "git");
    let canon = |p: &str| -> Result<String, String> { Ok(format!("{p}-canonical")) };
    let abs = factory
        .create_context(GitContextConfig { name: s("a"), path: s("/abs/repo"), allow_dirty: true }, "/proj", &canon)
        .unwrap();
    assert_eq!(abs.working_dir, "/abs/repo");
    let rel = factory
        .create_context(GitContextConfig { name: s("b"), path: s("sub"), allow_dirty: false }, "/proj", &canon)
        .unwrap();
    assert_eq!(rel.working_dir, "/proj/sub-canonical");
    assert!(!rel.allow_dirty);
    let missing = |_: &str| -> Result<String, String> { Err(s("No such file or directory")) };
    let err = factory
        .create_context(GitContextConfig { name: s("c"), path: s("gone"), allow_dirty: false }, "/proj", &missing)
        .unwrap_err();
    assert!(matches!(err, CapsulaError::Io(ref m) if m == "No such file or directory"));
}
