use capsula::hook::{artifact_dir_name, PhaseMarker, PostRun, PreRun};

#[test]
fn artifact_dirs_are_named_by_phase_index_and_id() {
    assert_eq!(artifact_dir_name(PreRun::phase_name(), 0, "capture-git-repo"), "pre-0-capture-git-repo");
    assert_eq!(artifact_dir_name(PostRun::phase_name(), 0, "capture-file"), "post-0-capture-file");
    assert_eq!(artifact_dir_name("post", 12, "capture-dir"), "post-12-capture-dir");
}

#[test]
fn artifact_dirs_of_different_hooks_differ() {
    let names = vec![
        artifact_dir_name("pre", 1, "capture-file"),
        artifact_dir_name("pre", 11, "capture-file"),
        artifact_dir_name("pre", 1, "1-capture-file"),
        artifact_dir_name("post", 1, "capture-file"),
        artifact_dir_name("pre", 2, "capture-file"),
    ];
    for i in 0..names.len() {
        for j in 0..names.len() {
            if i != j {
                assert_ne!(names[i], names[j]);
            }
        }
    }
}
