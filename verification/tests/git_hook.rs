use capsula::capture_git_repo::{
    append_file_patch, check_pushed, hunk_range, is_ancestor, DiscoverFailure, GitCaptured, GitHook, GitHookConfig,
    GitHookError, IndexChange, MergeBase, RefListFailure, RemoteRef, StatusChange, StatusFailure,
};
use std::cell::RefCell;

fn s(t: &str) -> String {
    t.to_string()
}

const HEAD: &str = "1111111111111111111111111111111111111111";
const OTHER: &str = "2222222222222222222222222222222222222222";

struct FakeRepo {
    head: Result<String, String>,
    changes: fn() -> Vec<Result<StatusChange, String>>,
    refs: Vec<(String, Option<String>)>,
    descendants_of_head: Vec<String>,
    blobs: Vec<(String, Vec<u8>)>,
    files: Vec<(String, Vec<u8>)>,
}

fn clean() -> Vec<Result<StatusChange, String>> {
    Vec::new()
}

fn config(allow_dirty: bool, require_pushed: bool, remote: &str, tag_head: bool) -> GitHookConfig {
    GitHookConfig { name: s("repo"), path: s("."), allow_dirty, require_pushed, remote: s(remote), tag_head }
}

fn hook(c: GitHookConfig) -> GitHook {
    let canon = |p: &str| -> Result<String, String> {
        Ok(if p.ends_with("/.") { p.trim_end_matches("/.").to_string() } else { p.to_string() })
    };
    GitHook::from_config(c, "/work/project", &canon).expect("from_config ok")
}

/// Runs the hook against the fake repository; returns the result, the files
/// written and the tags created.
fn run(
    h: &GitHook,
    repo: &FakeRepo,
    artifact_dir: Option<&str>,
) -> (Result<GitCaptured, GitHookError>, Vec<(String, String)>, Vec<(String, String)>) {
    let written: RefCell<Vec<(String, String)>> = RefCell::new(Vec::new());
    let tags: RefCell<Vec<(String, String)>> = RefCell::new(Vec::new());
    let result = h
        .plan(
            "/runs/r1",
            artifact_dir,
            &|| -> Result<String, String> { Ok(s("/cwd")) },
            &|p: &str| -> Result<&FakeRepo, DiscoverFailure> {
                assert_eq!(p, "/work/project");
                Ok(repo)
            },
            &|r: &&FakeRepo| r.head.clone(),
            &|_: &&FakeRepo| Some(s("/work/project")),
            &|r: &&FakeRepo| -> Result<Vec<Result<StatusChange, String>>, StatusFailure> { Ok((r.changes)()) },
            &|r: &&FakeRepo, id: &str| -> Result<Vec<u8>, String> {
                r.blobs.iter().find(|(k, _)| k == id).map(|(_, v)| v.clone()).ok_or_else(|| format!("object {id} not found"))
            },
            &|path: &str| -> Result<Vec<u8>, String> {
                repo.files.iter().find(|(k, _)| k == path).map(|(_, v)| v.clone()).ok_or_else(|| s("No such file"))
            },
        )
        .and_then(|plan| {
            h.write_patch(plan, &|path: &str, text: &str| -> Result<(), String> {
                written.borrow_mut().push((s(path), s(text)));
                Ok(())
            })
        })
        .and_then(|plan| {
            h.check_remote(
                plan,
                &|r: &&FakeRepo, prefix: &str| -> Result<Vec<Result<RemoteRef, String>>, RefListFailure> {
                    Ok(r.refs
                        .iter()
                        .filter(|(n, _)| n.starts_with(prefix))
                        .map(|(n, t)| Ok(RemoteRef { name: n.clone(), target: t.clone() }))
                        .collect())
                },
                &|r: &&FakeRepo, a: &str, d: &str| -> MergeBase {
                    if r.descendants_of_head.iter().any(|x| x == d) && a == HEAD {
                        MergeBase::Found(s(HEAD))
                    } else {
                        MergeBase::NotFound
                    }
                },
            )
        })
        .and_then(|plan| {
            h.run(plan, "run-1", &|_: &&FakeRepo, name: &str, id: &str| -> Result<(), String> {
                tags.borrow_mut().push((s(name), s(id)));
                Ok(())
            })
        });
    (result, written.into_inner(), tags.into_inner())
}

fn repo_with(changes: fn() -> Vec<Result<StatusChange, String>>, refs: Vec<(&str, &str)>) -> FakeRepo {
    FakeRepo {
        head: Ok(s(HEAD)),
        changes,
        refs: refs.into_iter().map(|(n, t)| (s(n), Some(s(t)))).collect(),
        descendants_of_head: vec![s(OTHER)],
        blobs: vec![(s("b0"), b"old line\n".to_vec())],
        files: vec![(s("/work/project/notes.txt"), b"new line\n".to_vec())],
    }
}

fn untracked_notes() -> Vec<Result<StatusChange, String>> {
    vec![Ok(StatusChange::Untracked { path: b"notes.txt".to_vec() })]
}

fn modified_notes() -> Vec<Result<StatusChange, String>> {
    vec![Ok(StatusChange::WorktreeModified { path: b"notes.txt".to_vec(), index_id: s("b0") })]
}

#[test]
fn git_hook_captures_clean_repo() {
    let h = hook(config(false, false, "origin", false));
    let repo = repo_with(clean, vec![("refs/remotes/origin/main", HEAD)]);
    let (result, written, tags) = run(&h, &repo, Some("/runs/r1/capture-git-repo"));
    let c = result.unwrap();
    assert_eq!(c.working_dir, "/work/project");
    assert_eq!(c.sha, HEAD);
    assert!(!c.is_dirty);
    assert!(c.is_pushed);
    assert_eq!(c.tag, None);
    assert!(!c.abort_requested());
    assert!(written.is_empty());
    assert!(tags.is_empty());
}

#[test]
fn git_hook_detects_unpushed_commit() {
    let h = hook(config(false, false, "origin", false));
    let repo = FakeRepo { descendants_of_head: Vec::new(), ..repo_with(clean, vec![("refs/remotes/origin/main", OTHER)]) };
    let c = run(&h, &repo, None).0.unwrap();
    assert!(!c.is_pushed);
    assert!(!c.abort_requested());
}

#[test]
fn git_hook_aborts_on_unpushed_when_required() {
    let h = hook(config(false, true, "origin", false));
    let repo = FakeRepo { descendants_of_head: Vec::new(), ..repo_with(clean, vec![("refs/remotes/origin/main", OTHER)]) };
    let c = run(&h, &repo, None).0.unwrap();
    assert!(!c.is_pushed);
    assert!(c.abort_requested());
}

#[test]
fn git_hook_pushed_commit_behind_remote() {
    let h = hook(config(false, true, "origin", false));
    let repo = repo_with(clean, vec![("refs/remotes/origin/main", OTHER)]);
    let c = run(&h, &repo, None).0.unwrap();
    assert!(c.is_pushed);
    assert!(!c.abort_requested());
}

#[test]
fn git_hook_custom_remote() {
    let h = hook(config(false, true, "upstream", false));
    let repo = repo_with(clean, vec![("refs/remotes/origin/main", HEAD), ("refs/remotes/upstream/dev", HEAD)]);
    assert!(run(&h, &repo, None).0.unwrap().is_pushed);
    let only_origin = repo_with(clean, vec![("refs/remotes/origin/main", HEAD)]);
    let c = run(&h, &only_origin, None).0.unwrap();
    assert!(!c.is_pushed);
    assert!(c.abort_requested());
}

fn named_config(name: &str, allow_dirty: bool) -> GitHookConfig {
    GitHookConfig { name: s(name), path: s("."), allow_dirty, require_pushed: false, remote: s("origin"), tag_head: false }
}

#[test]
fn git_hook_captures_dirty_repo_with_allow_dirty() {
    let h = hook(named_config("test-repo", true));
    let repo = repo_with(modified_notes, vec![("refs/remotes/origin/main", HEAD)]);
    let (result, written, _) = run(&h, &repo, None);
    let c = result.unwrap();
    assert!(c.is_dirty);
    assert!(!c.abort_requested());
    assert_eq!(written.len(), 1);
    assert_eq!(written[0].0, "/runs/r1/test-repo.patch");
    assert_eq!(
        written[0].1,
        "diff --git a/notes.txt b/notes.txt\n--- a/notes.txt\n+++ b/notes.txt\n@@ -1,1 +1,1 @@\n-old line\n+new line\n"
    );
}

#[test]
fn git_hook_requests_abort_for_dirty_repo_when_not_allowed() {
    let h = hook(named_config("test-repo", false));
    let repo = repo_with(modified_notes, vec![("refs/remotes/origin/main", HEAD)]);
    let (result, written, _) = run(&h, &repo, None);
    let c = result.unwrap();
    assert!(c.is_dirty);
    assert!(c.abort_requested());
    assert_eq!(written.len(), 1);
    assert_eq!(written[0].0, "/runs/r1/test-repo.patch");
}

#[test]
fn git_hook_writes_the_patch_into_its_artifact_dir_when_it_has_one() {
    let h = hook(named_config("test-repo", true));
    let repo = repo_with(modified_notes, vec![("refs/remotes/origin/main", HEAD)]);
    let (result, written, _) = run(&h, &repo, Some("/runs/r1/pre-0-capture-git-repo"));
    assert!(result.unwrap().is_dirty);
    assert_eq!(written[0].0, "/runs/r1/pre-0-capture-git-repo/test-repo.patch");
}

#[test]
fn git_hook_detects_untracked_files_as_dirty() {
    let h = hook(config(true, false, "origin", false));
    let repo = repo_with(untracked_notes, vec![]);
    let (result, written, _) = run(&h, &repo, Some("/art"));
    assert!(result.unwrap().is_dirty);
    assert_eq!(
        written[0].1,
        "diff --git a/notes.txt b/notes.txt\nnew file mode 100644\n--- /dev/null\n+++ b/notes.txt\n@@ -0,0 +1,1 @@\n+new line\n"
    );
}

#[test]
fn git_hook_tags_head_when_configured() {
    let h = hook(config(false, false, "origin", true));
    let repo = repo_with(clean, vec![]);
    let (result, _, tags) = run(&h, &repo, None);
    assert_eq!(result.unwrap().tag, Some(s("capsula/run-1")));
    assert_eq!(tags, vec![(s("capsula/run-1"), s(HEAD))]);
}

#[test]
fn git_hook_reports_missing_head() {
    let h = hook(config(false, false, "origin", false));
    let repo = FakeRepo { head: Err(s("reference HEAD is unborn")), ..repo_with(clean, vec![]) };
    assert!(matches!(run(&h, &repo, None).0, Err(GitHookError::HeadNotFound { ref message }) if message == "reference HEAD is unborn"));
}

#[test]
fn git_hook_reports_status_item_failure() {
    fn broken() -> Vec<Result<StatusChange, String>> {
        vec![Err(s("index is corrupt"))]
    }
    let h = hook(config(false, false, "origin", false));
    let repo = repo_with(broken, vec![]);
    assert!(matches!(run(&h, &repo, Some("/art")).0, Err(GitHookError::StatusItem(ref m)) if m == "index is corrupt"));
}

#[test]
fn git_hook_reports_not_a_repository() {
    let h = hook(config(false, false, "origin", false));
    let result = h.plan(
        "/runs/r1",
        None,
        &|| -> Result<String, String> { Ok(s("/cwd")) },
        &|_: &str| -> Result<(), DiscoverFailure> { Err(DiscoverFailure::NotARepository) },
        &|_: &()| -> Result<String, String> { unreachable!() },
        &|_: &()| -> Option<String> { unreachable!() },
        &|_: &()| -> Result<Vec<Result<StatusChange, String>>, StatusFailure> { unreachable!() },
        &|_: &(), _: &str| -> Result<Vec<u8>, String> { unreachable!() },
        &|_: &str| -> Result<Vec<u8>, String> { unreachable!() },
    );
    assert!(matches!(result, Err(GitHookError::NotARepository)));
}

// ---- patch text --------------------------------------------------------

#[test]
fn file_patch_for_deleted_file_without_trailing_newline() {
    let mut out = String::new();
    append_file_patch(&mut out, b"a.txt", Some(b"one\ntwo"), None);
    assert_eq!(
        out,
        "diff --git a/a.txt b/a.txt\ndeleted file mode 100644\n--- a/a.txt\n+++ /dev/null\n@@ -1,2 +0,0 @@\n-one\n-two\n\\ No newline at end of file\n"
    );
}

#[test]
fn file_patch_for_binary_change() {
    let mut out = String::new();
    append_file_patch(&mut out, b"img.bin", Some(&[0, 1, 2]), Some(&[0, 1, 3]));
    assert_eq!(out, "diff --git a/img.bin b/img.bin\nBinary files a/img.bin and b/img.bin differ\n");
}

#[test]
fn file_patch_for_unchanged_file_is_empty() {
    let mut out = String::from("keep");
    append_file_patch(&mut out, b"same.txt", Some(b"x\n"), Some(b"x\n"));
    assert_eq!(out, "keep");
}

#[test]
fn hunk_range_counts_lines() {
    assert_eq!(hunk_range(b""), "0,0");
    assert_eq!(hunk_range(b"a"), "1,1");
    assert_eq!(hunk_range(b"a\nb\n"), "1,2");
    assert_eq!(hunk_range(b"a\nb\nc"), "1,3");
}

#[test]
fn index_patch_reads_both_blobs() {
    let mut out = String::new();
    let blobs = |_: &(), id: &str| -> Result<Vec<u8>, String> {
        if id == "old" { Ok(b"1\n".to_vec()) } else { Ok(b"2\n".to_vec()) }
    };
    let change = IndexChange::Modification { path: b"v.txt".to_vec(), previous_id: s("old"), id: s("new") };
    GitHook::append_index_patch(&(), &mut out, &change, &blobs).unwrap();
    assert_eq!(out, "diff --git a/v.txt b/v.txt\n--- a/v.txt\n+++ b/v.txt\n@@ -1,1 +1,1 @@\n-1\n+2\n");
}

#[test]
fn index_patch_reports_missing_blob() {
    let mut out = String::new();
    let blobs = |_: &(), _: &str| -> Result<Vec<u8>, String> { Err(s("object not found")) };
    let change = IndexChange::Addition { path: b"n.txt".to_vec(), id: s("gone") };
    let r = GitHook::append_index_patch(&(), &mut out, &change, &blobs);
    assert!(matches!(r, Err(GitHookError::FindBlob(ref m)) if m == "object not found"));
    assert!(out.is_empty());
}

// ---- pushed check -----------------------------------------------------

#[test]
fn check_pushed_ignores_symbolic_refs_and_other_prefixes() {
    let refs = vec![
        Ok(RemoteRef { name: s("refs/remotes/origin/HEAD"), target: None }),
        Ok(RemoteRef { name: s("refs/remotes/originx/main"), target: Some(s(HEAD)) }),
    ];
    let mb = |_: &(), _: &str, _: &str| MergeBase::NotFound;
    assert!(matches!(check_pushed(&(), HEAD, "origin", &refs, &mb), Ok(false)));
}

#[test]
fn check_pushed_reports_unreadable_reference() {
    let refs = vec![Err(s("broken ref"))];
    let mb = |_: &(), _: &str, _: &str| MergeBase::NotFound;
    assert!(matches!(check_pushed(&(), HEAD, "origin", &refs, &mb), Err(GitHookError::ReferenceItem { ref message }) if message == "broken ref"));
}

#[test]
fn is_ancestor_follows_merge_base() {
    let found = |_: &(), a: &str, _: &str| MergeBase::Found(s(a));
    assert!(matches!(is_ancestor(&(), HEAD, OTHER, &found), Ok(true)));
    let elsewhere = |_: &(), _: &str, _: &str| MergeBase::Found(s("3333"));
    assert!(matches!(is_ancestor(&(), HEAD, OTHER, &elsewhere), Ok(false)));
    let failed = |_: &(), _: &str, _: &str| MergeBase::Failed(s("graph broken"));
    assert!(matches!(is_ancestor(&(), HEAD, OTHER, &failed), Err(GitHookError::MergeBase(ref m)) if m == "graph broken"));
}
