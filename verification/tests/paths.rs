use capsula::capture_file::{FileHookError, ProjectRelativeGlob};
use capsula::json::{json_eq, JsonNumber, JsonValue};
use capsula::path::{extension, file_name, file_stem, is_absolute, join, parent, starts_with, strip_prefix};
use capsula::path_order::{path_less, sort_paths};
use capsula::project_path::{ProjectPathError, ResolvedProjectPath};

fn s(t: &str) -> String {
    t.to_string()
}

/// Canonicalization in a fixed tree: `/proj/link` points outside the project.
fn canon(p: &str) -> Result<String, String> {
    let p = p.trim_end_matches("/.");
    match p {
        "/proj" | "/proj/a.txt" | "/proj/sub" | "/proj/sub/b.txt" => Ok(s(p)),
        "/proj/sub/../a.txt" => Ok(s("/proj/a.txt")),
        "/proj/../etc/passwd" | "/etc/passwd" => Ok(s("/etc/passwd")),
        "/proj/link" => Ok(s("/outside/target")),
        _ => Err(s("No such file or directory (os error 2)")),
    }
}

#[test]
fn resolves_relative_path_inside_project_root() {
    let r = ResolvedProjectPath::resolve_existing("sub/b.txt", "/proj", &canon).unwrap();
    assert_eq!(r.as_path(), "/proj/sub/b.txt");
    assert_eq!(r.project_root(), "/proj");
}

#[test]
fn canonicalizes_absolute_path_inside_project_root() {
    let r = ResolvedProjectPath::resolve_existing("/proj/sub/../a.txt", "/proj", &canon).unwrap();
    assert_eq!(r.into_path_buf(), "/proj/a.txt");
}

#[test]
fn rejects_relative_path_that_escapes_project_root() {
    let e = ResolvedProjectPath::resolve_existing("../etc/passwd", "/proj", &canon).unwrap_err();
    assert!(matches!(e, ProjectPathError::EscapesProjectRoot { ref resolved, .. } if resolved == "/etc/passwd"));
}

#[test]
fn rejects_symlink_that_escapes_project_root() {
    let e = ResolvedProjectPath::resolve_existing("link", "/proj", &canon).unwrap_err();
    assert!(matches!(e, ProjectPathError::EscapesProjectRoot { .. }));
}

#[test]
fn rejects_missing_path() {
    let e = ResolvedProjectPath::resolve_existing("missing.txt", "/proj", &canon).unwrap_err();
    assert!(matches!(e, ProjectPathError::PathCanonicalize { .. }));
}

#[test]
fn path_operations_follow_components() {
    assert_eq!(join("/a/b", "c/d"), "/a/b/c/d");
    assert_eq!(join("/a/b", "/abs"), "/abs");
    assert!(is_absolute("/x"));
    assert!(!is_absolute("x/y"));
    assert!(starts_with("/a/b/c", "/a/b"));
    assert!(!starts_with("/a/bc", "/a/b"));
    assert_eq!(strip_prefix("/a/b/c.txt", "/a"), Some(s("b/c.txt")));
    assert_eq!(strip_prefix("/a/b", "/c"), None);
    assert_eq!(file_name("/a/b/c.tar.gz"), Some(s("c.tar.gz")));
    assert_eq!(file_stem("/a/b/c.tar.gz"), Some(s("c.tar")));
    assert_eq!(extension("/a/b/c.tar.gz"), Some(s("gz")));
    assert_eq!(extension("/a/.hidden"), None);
    assert_eq!(parent("/a/b"), Some(s("/a")));
}

#[test]
fn sorting_paths_orders_by_components() {
    let sorted = sort_paths(vec![s("/p/b.json"), s("/p/a/z.json"), s("/p/a.json"), s("/p/a-b.json")]);
    assert_eq!(sorted, vec![s("/p/a/z.json"), s("/p/a-b.json"), s("/p/a.json"), s("/p/b.json")]);
    assert!(path_less("/p/a/z", "/p/a-b"));
    assert!(!path_less("/p/a", "/p/a"));
}

#[test]
fn project_globs_are_relative_and_bounded() {
    let g = ProjectRelativeGlob::parse("./data/*.csv").unwrap();
    assert_eq!(g.pattern(), "data/*.csv");
    assert_eq!(g.max_depth(), Some(2));
    assert!(g.matches("data/a.csv"));
    assert!(!g.matches("data/sub/a.csv"));
    let deep = ProjectRelativeGlob::parse("out/**/*.txt").unwrap();
    assert_eq!(deep.max_depth(), None);
    assert!(matches!(ProjectRelativeGlob::parse("/abs/*.txt"), Err(FileHookError::NonRelativePattern { .. })));
    assert!(matches!(ProjectRelativeGlob::parse("a/../b"), Err(FileHookError::ParentTraversalPattern { .. })));
}

#[test]
fn json_equality_follows_values() {
    let a = JsonValue::Object(vec![(s("k"), JsonValue::Number(JsonNumber::PosInt(1)))]);
    let b = JsonValue::Object(vec![(s("k"), JsonValue::Number(JsonNumber::PosInt(1)))]);
    let c = JsonValue::Object(vec![(s("k"), JsonValue::Number(JsonNumber::NegInt(-1)))]);
    assert!(json_eq(&a, &a));
    assert!(json_eq(&a, &b));
    assert!(!json_eq(&a, &c));
}

#[test]
fn resolving_a_resolved_path_again_gives_it_back() {
    for p in ["sub/b.txt", "/proj/sub/../a.txt", "a.txt"] {
        let r = ResolvedProjectPath::resolve_existing(p, "/proj", &canon).unwrap();
        assert!(is_absolute(r.as_path()) && is_absolute(r.project_root()));
        let again = ResolvedProjectPath::resolve_existing(r.as_path(), r.project_root(), &canon).unwrap();
        assert!(again.same_as(&r));
    }
}

#[test]
fn relative_and_absolute_spellings_resolve_alike() {
    for p in ["sub/b.txt", "a.txt", "missing.txt", "link"] {
        let rel = ResolvedProjectPath::resolve_existing(p, "/proj", &canon);
        let abs = ResolvedProjectPath::resolve_existing(&join("/proj", p), "/proj", &canon);
        assert_eq!(rel.is_ok(), abs.is_ok());
        if let (Ok(a), Ok(b)) = (rel, abs) {
            assert!(a.same_as(&b));
        }
    }
}
