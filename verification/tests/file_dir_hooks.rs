use capsula::capture_dir::{walk_step, CanonFailure, DirCaptured, DirHook, DirHookConfig, DirHookError};
use capsula::capture_file::{
    CaptureMode, CopyFailure, DestinationProbe, EntryKind, FileCaptured, FileHook, FileHookConfig, FileHookError, HashAlgorithm, WalkEntry,
    WalkPlan,
};
use capsula::digest::sha256_label;
use std::cell::RefCell;

fn s(t: &str) -> String {
    t.to_string()
}

fn same(p: &str) -> Result<String, String> {
    Ok(s(p))
}

fn file_entry(p: &str, kind: EntryKind) -> Result<WalkEntry, String> {
    Ok(WalkEntry { path: s(p), kind })
}

fn file_hook(glob: &str, mode: CaptureMode, hash: HashAlgorithm) -> FileHook {
    FileHook::from_config(FileHookConfig { glob: s(glob), mode, hash }, "/proj", &same).unwrap()
}

/// Plans a file capture and, when the plan is made, carries it out.
#[allow(clippy::too_many_arguments)]
fn capture_files<F, G, M, C, R, X>(
    hook: &FileHook,
    artifact_dir: Option<&str>,
    entries: &Vec<Result<WalkEntry, String>>,
    canonicalize: &F,
    probe: &G,
    metadata: &M,
    copy: &C,
    read: &R,
    remove: &X,
) -> Result<FileCaptured, FileHookError>
where
    F: Fn(&str) -> Result<String, String>,
    G: Fn(&str) -> DestinationProbe,
    M: Fn(&str) -> Result<EntryKind, String>,
    C: Fn(&str, &str, &str) -> Result<(), CopyFailure>,
    R: Fn(&str) -> Result<Vec<u8>, String>,
    X: Fn(&str) -> Result<(), String>,
{
    let plan = hook.plan(artifact_dir, entries, canonicalize, probe)?;
    hook.run(plan, metadata, canonicalize, copy, read, remove)
}

/// Plans a directory capture and, when the plan is made, carries it out.
#[allow(clippy::too_many_arguments)]
fn capture_dir<F1, D, F2, W, R, K, C, E, N>(
    hook: &DirHook,
    project_root: &str,
    run_dir: &str,
    artifact_dir: Option<&str>,
    canonicalize_dir: &F1,
    is_dir: &D,
    canonicalize: &F2,
    walk: &W,
    read: &R,
    mkdirs: &K,
    copy: &C,
    present: &E,
    rename: &N,
) -> Result<DirCaptured, DirHookError>
where
    F1: Fn(&str) -> Result<String, CanonFailure>,
    D: Fn(&str) -> bool,
    F2: Fn(&str) -> Result<String, String>,
    W: Fn(&str, &Vec<String>) -> Result<Vec<(String, EntryKind)>, String>,
    R: Fn(&str) -> Result<Vec<u8>, String>,
    K: Fn(&str) -> Result<(), String>,
    C: Fn(&str, &str) -> Result<(), String>,
    E: Fn(&str) -> bool,
    N: Fn(&str, &str) -> Result<(), String>,
{
    let plan = hook.plan(project_root, run_dir, artifact_dir, canonicalize_dir, is_dir, canonicalize, walk, read, present)?;
    hook.run(plan, mkdirs, copy, rename)
}

#[test]
fn sha256_label_of_known_content() {
    assert_eq!(sha256_label(b"abc"), "sha256:ba7816bf8f01cfea414140de5dae2223b00361a396177a9cb410ff61f20015ad");
}

#[test]
fn file_hook_copies_matching_files_and_hashes_the_copies() {
    let hook = file_hook("*.txt", CaptureMode::Copy, HashAlgorithm::Sha256);
    assert_eq!(hook.walk_plan(), WalkPlan::Depth(1));
    let entries = vec![
        file_entry("/proj/a.txt", EntryKind::File),
        file_entry("/proj/b.csv", EntryKind::File),
        file_entry("/proj/dir.txt", EntryKind::Dir),
    ];
    let copies: RefCell<Vec<(String, String)>> = RefCell::new(Vec::new());
    let captured = capture_files(
            &hook,
            Some("/runs/r1/pre-0-capture-file"),
            &entries,
            &same,
            &|_: &str| DestinationProbe::Missing,
            &|_: &str| -> Result<EntryKind, String> { Ok(EntryKind::File) },
            &|from: &str, _parent: &str, to: &str| -> Result<(), CopyFailure> {
                copies.borrow_mut().push((s(from), s(to)));
                Ok(())
            },
            &|_: &str| -> Result<Vec<u8>, String> { Ok(b"abc".to_vec()) },
            &|_: &str| -> Result<(), String> { Ok(()) },
        )
        .unwrap();
    assert_eq!(captured.files.len(), 1);
    assert_eq!(captured.files[0].path, "/proj/a.txt");
    assert_eq!(captured.files[0].copied_path, Some(s("/runs/r1/pre-0-capture-file/a.txt")));
    assert_eq!(captured.files[0].hash, Some(sha256_label(b"abc")));
    assert_eq!(copies.into_inner(), vec![(s("/proj/a.txt"), s("/runs/r1/pre-0-capture-file/a.txt"))]);
}

#[test]
fn file_hook_needs_an_artifact_dir() {
    let hook = file_hook("*.txt", CaptureMode::Skip, HashAlgorithm::Disabled);
    let r = capture_files(
            &hook,
        None,
        &Vec::new(),
        &same,
        &|_: &str| DestinationProbe::Missing,
        &|_: &str| -> Result<EntryKind, String> { Ok(EntryKind::File) },
        &|_: &str, _: &str, _: &str| -> Result<(), CopyFailure> { Ok(()) },
        &|_: &str| -> Result<Vec<u8>, String> { Ok(Vec::new()) },
        &|_: &str| -> Result<(), String> { Ok(()) },
    );
    assert!(matches!(r, Err(FileHookError::ArtifactDirMissing)));
}

#[test]
fn file_hook_refuses_a_matching_symlink() {
    let hook = file_hook("*.txt", CaptureMode::Move, HashAlgorithm::Disabled);
    let entries = vec![file_entry("/proj/link.txt", EntryKind::Symlink)];
    let r = capture_files(
            &hook,
        Some("/art"),
        &entries,
        &same,
        &|_: &str| DestinationProbe::Missing,
        &|_: &str| -> Result<EntryKind, String> { Ok(EntryKind::File) },
        &|_: &str, _: &str, _: &str| -> Result<(), CopyFailure> { panic!("nothing may be copied") },
        &|_: &str| -> Result<Vec<u8>, String> { Ok(Vec::new()) },
        &|_: &str| -> Result<(), String> { panic!("nothing may be removed") },
    );
    assert!(matches!(r, Err(FileHookError::SymlinkNotAllowed { ref path }) if path == "/proj/link.txt"));
}

#[test]
fn file_hook_checks_every_match_before_moving_any() {
    let hook = file_hook("*.txt", CaptureMode::Move, HashAlgorithm::Sha256);
    let entries = vec![
        file_entry("/proj/a.txt", EntryKind::File),
        file_entry("/proj/b.txt", EntryKind::File),
        file_entry("/proj/link.txt", EntryKind::Symlink),
    ];
    let r = capture_files(
            &hook,
        Some("/art"),
        &entries,
        &same,
        &|_: &str| DestinationProbe::Missing,
        &|_: &str| -> Result<EntryKind, String> { Ok(EntryKind::File) },
        &|_: &str, _: &str, _: &str| -> Result<(), CopyFailure> { panic!("nothing may be copied") },
        &|_: &str| -> Result<Vec<u8>, String> { panic!("nothing may be read") },
        &|_: &str| -> Result<(), String> { panic!("nothing may be removed") },
    );
    assert!(matches!(r, Err(FileHookError::SymlinkNotAllowed { ref path }) if path == "/proj/link.txt"));
}

#[test]
fn file_hook_moves_each_file_after_copying_it() {
    let hook = file_hook("*.txt", CaptureMode::Move, HashAlgorithm::Disabled);
    let entries = vec![file_entry("/proj/a.txt", EntryKind::File), file_entry("/proj/b.txt", EntryKind::File)];
    let log: RefCell<Vec<String>> = RefCell::new(Vec::new());
    let captured = capture_files(
            &hook,
            Some("/art"),
            &entries,
            &same,
            &|_: &str| DestinationProbe::Missing,
            &|_: &str| -> Result<EntryKind, String> { Ok(EntryKind::File) },
            &|from: &str, _: &str, to: &str| -> Result<(), CopyFailure> {
                log.borrow_mut().push(format!("copy {from} {to}"));
                Ok(())
            },
            &|_: &str| -> Result<Vec<u8>, String> { panic!("digests are disabled") },
            &|p: &str| -> Result<(), String> {
                log.borrow_mut().push(format!("remove {p}"));
                Ok(())
            },
        )
        .unwrap();
    assert_eq!(captured.files.len(), 2);
    assert_eq!(captured.files[1].copied_path, Some(s("/art/b.txt")));
    assert_eq!(captured.files[1].hash, None);
    assert_eq!(
        log.into_inner(),
        vec![s("copy /proj/a.txt /art/a.txt"), s("remove /proj/a.txt"), s("copy /proj/b.txt /art/b.txt"), s("remove /proj/b.txt")]
    );
}

#[test]
fn file_hook_reports_a_failed_removal_of_a_moved_source() {
    let hook = file_hook("a.txt", CaptureMode::Move, HashAlgorithm::Disabled);
    let entries = vec![file_entry("/proj/a.txt", EntryKind::File)];
    let r = capture_files(
            &hook,
        Some("/art"),
        &entries,
        &same,
        &|_: &str| DestinationProbe::Missing,
        &|_: &str| -> Result<EntryKind, String> { Ok(EntryKind::File) },
        &|_: &str, _: &str, _: &str| -> Result<(), CopyFailure> { Ok(()) },
        &|_: &str| -> Result<Vec<u8>, String> { Ok(Vec::new()) },
        &|_: &str| -> Result<(), String> { Err(s("busy")) },
    );
    assert!(matches!(r, Err(FileHookError::RemoveMovedSource { ref path, ref source }) if path == "/proj/a.txt" && source == "busy"));
}

#[test]
fn file_hook_refuses_to_overwrite_an_existing_destination() {
    let hook = file_hook("a.txt", CaptureMode::Copy, HashAlgorithm::Disabled);
    let entries = vec![file_entry("/proj/a.txt", EntryKind::File)];
    let r = capture_files(
            &hook,
        Some("/art"),
        &entries,
        &same,
        &|_: &str| DestinationProbe::Present,
        &|_: &str| -> Result<EntryKind, String> { Ok(EntryKind::File) },
        &|_: &str, _: &str, _: &str| -> Result<(), CopyFailure> { panic!("nothing may be copied") },
        &|_: &str| -> Result<Vec<u8>, String> { Ok(Vec::new()) },
        &|_: &str| -> Result<(), String> { Ok(()) },
    );
    assert!(matches!(r, Err(FileHookError::ArtifactDestinationExists { ref path }) if path == "/art/a.txt"));
}

fn dir_canon(p: &str) -> Result<String, CanonFailure> {
    match p {
        "/proj/data" => Ok(s("/proj/data")),
        "/proj/notes.txt" => Ok(s("/proj/notes.txt")),
        _ => Err(CanonFailure::NotFound),
    }
}

fn dir_walk(root: &str, excluded: &Vec<String>) -> Result<Vec<(String, EntryKind)>, String> {
    assert_eq!(root, "/proj/data");
    assert!(excluded.is_empty());
    Ok(vec![
        (s("/proj/data/z.bin"), EntryKind::File),
        (s("/proj/data/sub"), EntryKind::Dir),
        (s("/proj/data/sub/a.bin"), EntryKind::File),
        (s("/proj/data/pipe"), EntryKind::Other),
    ])
}

#[test]
fn dir_hook_copies_directory_contents_preserving_tree() {
    let hook = DirHook::from_config(DirHookConfig { path: s("data"), mode: CaptureMode::Copy, hash: HashAlgorithm::Disabled });
    let made: RefCell<Vec<String>> = RefCell::new(Vec::new());
    let copied: RefCell<Vec<(String, String)>> = RefCell::new(Vec::new());
    let captured = capture_dir(
            &hook,
            "/proj",
            "/runs/r1",
            Some("/runs/r1/pre-0-capture-dir"),
            &dir_canon,
            &|p: &str| p == "/proj/data",
            &same,
            &dir_walk,
            &|_: &str| -> Result<Vec<u8>, String> { Ok(Vec::new()) },
            &|p: &str| -> Result<(), String> {
                made.borrow_mut().push(s(p));
                Ok(())
            },
            &|a: &str, b: &str| -> Result<(), String> {
                copied.borrow_mut().push((s(a), s(b)));
                Ok(())
            },
            &|_: &str| false,
            &|_: &str, _: &str| -> Result<(), String> { panic!("copy mode does not move") },
        )
        .unwrap();
    assert_eq!(captured.path, "/proj/data");
    assert_eq!(captured.captured_path, Some(s("/runs/r1/pre-0-capture-dir/data")));
    assert_eq!(captured.directories, vec![s("sub")]);
    let rel: Vec<&str> = captured.files.iter().map(|f| f.relative_path.as_str()).collect();
    assert_eq!(rel, vec!["sub/a.bin", "z.bin"]);
    assert_eq!(captured.files[0].captured_path, Some(s("/runs/r1/pre-0-capture-dir/data/sub/a.bin")));
    assert!(copied.into_inner().contains(&(s("/proj/data/z.bin"), s("/runs/r1/pre-0-capture-dir/data/z.bin"))));
    assert!(!made.into_inner().is_empty());
}

#[test]
fn dir_hook_errors_when_path_is_file() {
    let hook = DirHook::from_config(DirHookConfig { path: s("notes.txt"), mode: CaptureMode::Copy, hash: HashAlgorithm::Sha256 });
    let r = capture_dir(
            &hook,
        "/proj",
        "/runs/r1",
        Some("/art"),
        &dir_canon,
        &|p: &str| p == "/proj/data",
        &same,
        &dir_walk,
        &|_: &str| -> Result<Vec<u8>, String> { Ok(Vec::new()) },
        &|_: &str| -> Result<(), String> { Ok(()) },
        &|_: &str, _: &str| -> Result<(), String> { Ok(()) },
        &|_: &str| false,
        &|_: &str, _: &str| -> Result<(), String> { Ok(()) },
    );
    assert!(matches!(r, Err(DirHookError::NotADirectory { ref path }) if path == "/proj/notes.txt"));
}

#[test]
fn dir_hook_reports_missing_directory() {
    let hook = DirHook::from_config(DirHookConfig { path: s("gone"), mode: CaptureMode::Skip, hash: HashAlgorithm::Sha256 });
    let r = capture_dir(
            &hook,
        "/proj",
        "/runs/r1",
        None,
        &dir_canon,
        &|_: &str| true,
        &same,
        &dir_walk,
        &|_: &str| -> Result<Vec<u8>, String> { Ok(Vec::new()) },
        &|_: &str| -> Result<(), String> { Ok(()) },
        &|_: &str, _: &str| -> Result<(), String> { Ok(()) },
        &|_: &str| false,
        &|_: &str, _: &str| -> Result<(), String> { Ok(()) },
    );
    assert!(matches!(r, Err(DirHookError::DirectoryNotFound { ref path }) if path == "/proj/gone"));
}

#[test]
fn dir_hook_records_digests_without_an_artifact_dir_when_only_recording() {
    let hook = DirHook::from_config(DirHookConfig { path: s("data"), mode: CaptureMode::Skip, hash: HashAlgorithm::Sha256 });
    let captured = capture_dir(
            &hook,
            "/proj",
            "/runs/r1",
            None,
            &dir_canon,
            &|p: &str| p == "/proj/data",
            &same,
            &dir_walk,
            &|_: &str| -> Result<Vec<u8>, String> { Ok(b"abc".to_vec()) },
            &|_: &str| -> Result<(), String> { panic!("nothing is made when only recording") },
            &|_: &str, _: &str| -> Result<(), String> { panic!("nothing is copied when only recording") },
            &|_: &str| false,
            &|_: &str, _: &str| -> Result<(), String> { panic!("nothing is moved when only recording") },
        )
        .unwrap();
    assert_eq!(captured.captured_path, None);
    assert_eq!(captured.files.len(), 2);
    assert!(captured.files.iter().all(|f| f.captured_path.is_none() && f.hash == Some(sha256_label(b"abc"))));
}

#[test]
fn dir_hook_passes_on_a_failed_read() {
    let hook = DirHook::from_config(DirHookConfig { path: s("data"), mode: CaptureMode::Copy, hash: HashAlgorithm::Sha256 });
    let r = capture_dir(
            &hook,
        "/proj",
        "/runs/r1",
        Some("/art"),
        &dir_canon,
        &|p: &str| p == "/proj/data",
        &same,
        &dir_walk,
        &|p: &str| -> Result<Vec<u8>, String> { if p.ends_with("z.bin") { Err(s("unreadable")) } else { Ok(Vec::new()) } },
        &|_: &str| -> Result<(), String> { Ok(()) },
        &|_: &str, _: &str| -> Result<(), String> { panic!("nothing is copied after a failed read") },
        &|_: &str| false,
        &|_: &str, _: &str| -> Result<(), String> { Ok(()) },
    );
    assert!(matches!(r, Err(DirHookError::Io(ref m)) if m == "unreadable"));
}

#[test]
fn dir_hook_moves_the_directory_to_its_destination() {
    let hook = DirHook::from_config(DirHookConfig { path: s("data"), mode: CaptureMode::Move, hash: HashAlgorithm::Disabled });
    let renamed: RefCell<Vec<(String, String)>> = RefCell::new(Vec::new());
    let captured = capture_dir(
            &hook,
            "/proj",
            "/runs/r1",
            Some("/runs/r1/post-0-capture-dir"),
            &dir_canon,
            &|p: &str| p == "/proj/data",
            &same,
            &dir_walk,
            &|_: &str| -> Result<Vec<u8>, String> { Ok(Vec::new()) },
            &|_: &str| -> Result<(), String> { Ok(()) },
            &|_: &str, _: &str| -> Result<(), String> { panic!("move mode does not copy") },
            &|_: &str| false,
            &|a: &str, b: &str| -> Result<(), String> {
                renamed.borrow_mut().push((s(a), s(b)));
                Ok(())
            },
        )
        .unwrap();
    assert_eq!(captured.captured_path, Some(s("/runs/r1/post-0-capture-dir/data")));
    assert_eq!(renamed.into_inner(), vec![(s("/proj/data"), s("/runs/r1/post-0-capture-dir/data"))]);
}

#[test]
fn dir_hook_refuses_to_move_into_itself_or_onto_an_existing_path() {
    let inside = DirHook::from_config(DirHookConfig { path: s("data"), mode: CaptureMode::Move, hash: HashAlgorithm::Disabled });
    let walk_inside = |root: &str, _: &Vec<String>| -> Result<Vec<(String, EntryKind)>, String> {
        assert_eq!(root, "/proj/data");
        Ok(Vec::new())
    };
    let r = capture_dir(
            &inside,
        "/proj",
        "/proj/data/runs",
        Some("/proj/data/runs/post-0-capture-dir"),
        &dir_canon,
        &|p: &str| p == "/proj/data",
        &|p: &str| -> Result<String, String> { Err(format!("{p} does not exist yet")) },
        &walk_inside,
        &|_: &str| -> Result<Vec<u8>, String> { Ok(Vec::new()) },
        &|_: &str| -> Result<(), String> { Ok(()) },
        &|_: &str, _: &str| -> Result<(), String> { Ok(()) },
        &|_: &str| false,
        &|_: &str, _: &str| -> Result<(), String> { panic!("nothing may be renamed") },
    );
    assert!(matches!(r, Err(DirHookError::DestinationInsideSource { ref source_dir, ref destination })
        if source_dir == "/proj/data" && destination == "/proj/data/runs/post-0-capture-dir/data"));
    let r = capture_dir(
            &inside,
        "/proj",
        "/runs/r1",
        Some("/art"),
        &dir_canon,
        &|p: &str| p == "/proj/data",
        &same,
        &dir_walk,
        &|_: &str| -> Result<Vec<u8>, String> { Ok(Vec::new()) },
        &|_: &str| -> Result<(), String> { Ok(()) },
        &|_: &str, _: &str| -> Result<(), String> { Ok(()) },
        &|p: &str| p == "/art/data",
        &|_: &str, _: &str| -> Result<(), String> { panic!("nothing may be renamed") },
    );
    assert!(matches!(r, Err(DirHookError::DestinationAlreadyExists { ref path }) if path == "/art/data"));
}

#[test]
fn dir_hook_passes_on_a_failed_copy() {
    let hook = DirHook::from_config(DirHookConfig { path: s("data"), mode: CaptureMode::Copy, hash: HashAlgorithm::Disabled });
    let r = capture_dir(
            &hook,
        "/proj",
        "/runs/r1",
        Some("/art"),
        &dir_canon,
        &|p: &str| p == "/proj/data",
        &same,
        &dir_walk,
        &|_: &str| -> Result<Vec<u8>, String> { Ok(Vec::new()) },
        &|_: &str| -> Result<(), String> { Ok(()) },
        &|a: &str, _: &str| -> Result<(), String> { if a.ends_with("a.bin") { Err(s("disk full")) } else { Ok(()) } },
        &|_: &str| false,
        &|_: &str, _: &str| -> Result<(), String> { Ok(()) },
    );
    assert!(matches!(r, Err(DirHookError::Io(ref m)) if m == "disk full"));
}

#[test]
fn walk_step_keeps_what_is_not_excluded_and_enters_its_directories() {
    let listing = vec![
        (s("/proj/data/a.bin"), EntryKind::File),
        (s("/proj/data/runs"), EntryKind::Dir),
        (s("/proj/data/sub"), EntryKind::Dir),
        (s("/proj/data/link"), EntryKind::Symlink),
    ];
    let (kept, entered) = walk_step(listing, &vec![s("/proj/data/runs")]);
    assert_eq!(
        kept,
        vec![(s("/proj/data/a.bin"), EntryKind::File), (s("/proj/data/sub"), EntryKind::Dir), (s("/proj/data/link"), EntryKind::Symlink)]
    );
    assert_eq!(entered, vec![s("/proj/data/sub")]);
}
