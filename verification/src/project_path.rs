//! Project-root-aware path resolution.
//!
//! A [`ResolvedProjectPath`] holds a canonical path together with the
//! canonical project root it was resolved against, and every value keeps the
//! path inside that root. Canonicalization itself touches the filesystem, so
//! the caller supplies it as a function; the containment decision is made
//! here.

use vstd::prelude::*;
use crate::path::{is_absolute, is_absolute_spec, join, join_spec, path_starts_with, starts_with};
use crate::text::{copy_string, push_str};

verus! {

/// Errors that can occur while resolving a project-root-aware path.
#[derive(Debug)]
pub enum ProjectPathError {
    /// The configured project root could not be canonicalized.
    ProjectRootCanonicalize { project_root: String, source: String },
    /// The configured path could not be canonicalized after joining it to the
    /// project root when needed.
    PathCanonicalize { input: String, resolved: String, project_root: String, source: String },
    /// The canonical target is outside the canonical project root.
    EscapesProjectRoot { input: String, resolved: String, project_root: String },
}

/// Whether `canonicalize`, called on some string whose characters are `s`,
/// may return `out`.
pub open spec fn canon_gives<F: Fn(&str) -> Result<String, String>>(
    canonicalize: F,
    s: Seq<char>,
    out: Result<String, String>,
) -> bool {
    exists|a: &str| a@ == s && #[trigger] canonicalize.ensures((a,), out)
}

/// The path that is canonicalized for `path` under the canonical root
/// `root`: absolute paths as they are, relative ones joined to the root.
pub open spec fn resolution_candidate(path: Seq<char>, root: Seq<char>) -> Seq<char> {
    if is_absolute_spec(path) {
        path
    } else {
        join_spec(root, path)
    }
}

/// A canonicalized path proven to be inside a canonical project root.
#[derive(Debug)]
pub struct ResolvedProjectPath {
    path: String,
    project_root: String,
}

/// The mathematical value of a resolved path.
pub struct ResolvedView {
    pub path: Seq<char>,
    pub project_root: Seq<char>,
}

impl View for ResolvedProjectPath {
    type V = ResolvedView;

    closed spec fn view(&self) -> ResolvedView {
        ResolvedView { path: self.path@, project_root: self.project_root@ }
    }
}

impl ResolvedProjectPath {
    #[verifier::type_invariant]
    closed spec fn contained(self) -> bool {
        path_starts_with(self.path@, self.project_root@)
    }

    /// What `resolve_existing` returns for the given canonicalization function.
    pub open spec fn resolve_spec<F: Fn(&str) -> Result<String, String>>(
        path: Seq<char>,
        project_root: Seq<char>,
        canonicalize: F,
        res: Result<ResolvedProjectPath, ProjectPathError>,
    ) -> bool {
        match res {
            Ok(r) => exists|cr: String, ct: String|
                {
                    &&& #[trigger] canon_gives(canonicalize, project_root, Ok(cr))
                    &&& #[trigger] canon_gives(canonicalize, resolution_candidate(path, cr@), Ok(ct))
                    &&& path_starts_with(ct@, cr@)
                    &&& r@.path == ct@
                    &&& r@.project_root == cr@
                },
            Err(ProjectPathError::ProjectRootCanonicalize { project_root: pr, source }) => {
                &&& pr@ == project_root
                &&& canon_gives(canonicalize, project_root, Err(source))
            },
            Err(ProjectPathError::PathCanonicalize { input, resolved, project_root: pr, source }) => {
                &&& input@ == path
                &&& canon_gives(canonicalize, project_root, Ok(pr))
                &&& resolved@ == resolution_candidate(path, pr@)
                &&& canon_gives(canonicalize, resolved@, Err(source))
            },
            Err(ProjectPathError::EscapesProjectRoot { input, resolved, project_root: pr }) => {
                &&& input@ == path
                &&& canon_gives(canonicalize, project_root, Ok(pr))
                &&& canon_gives(canonicalize, resolution_candidate(path, pr@), Ok(resolved))
                &&& !path_starts_with(resolved@, pr@)
            },
        }
    }

    /// Resolve `path` against `project_root`, canonicalize it, and require the
    /// result to stay inside the canonical project root.
    ///
    /// `canonicalize` returns the canonical form of an existing path, or an
    /// error message. Relative paths are resolved from the canonical root;
    /// absolute paths are canonicalized as they are.
    pub fn resolve_existing<F: Fn(&str) -> Result<String, String>>(
        path: &str,
        project_root: &str,
        canonicalize: &F,
    ) -> (res: Result<Self, ProjectPathError>)
        requires
            forall|s: &str| #[trigger] canonicalize.requires((s,)),
        ensures
            Self::resolve_spec(path@, project_root@, *canonicalize, res),
    {
        let root_result = canonicalize(project_root);
        proof {
            assert(canon_gives(*canonicalize, project_root@, root_result));
        }
        let canonical_root = match root_result {
            Ok(root) => root,
            Err(source) => {
                return Err(
                    ProjectPathError::ProjectRootCanonicalize {
                        project_root: copy_string(project_root),
                        source,
                    },
                );
            },
        };
        let joined = if is_absolute(path) {
            copy_string(path)
        } else {
            join(canonical_root.as_str(), path)
        };
        let joined_str = joined.as_str();
        let target_result = canonicalize(joined_str);
        proof {
            assert(joined@ == resolution_candidate(path@, canonical_root@));
            assert(canon_gives(*canonicalize, joined@, target_result));
        }
        let resolved = match target_result {
            Ok(r) => r,
            Err(source) => {
                return Err(
                    ProjectPathError::PathCanonicalize {
                        input: copy_string(path),
                        resolved: joined,
                        project_root: canonical_root,
                        source,
                    },
                );
            },
        };
        if starts_with(resolved.as_str(), canonical_root.as_str()) {
            let r = ResolvedProjectPath { path: resolved, project_root: canonical_root };
            Ok(r)
        } else {
            Err(
                ProjectPathError::EscapesProjectRoot {
                    input: copy_string(path),
                    resolved,
                    project_root: canonical_root,
                },
            )
        }
    }

    /// The canonicalized path; it lies inside the project root.
    pub fn as_path(&self) -> (r: &str)
        ensures
            r@ == self@.path,
            path_starts_with(r@, self@.project_root),
    {
        proof {
            use_type_invariant(self);
        }
        self.path.as_str()
    }

    /// The canonicalized project root used for containment.
    pub fn project_root(&self) -> (r: &str)
        ensures
            r@ == self@.project_root,
    {
        self.project_root.as_str()
    }

    /// A copy of the canonicalized path.
    pub fn to_path_buf(&self) -> (r: String)
        ensures
            r@ == self@.path,
    {
        copy_string(self.path.as_str())
    }

    /// The canonicalized path, consuming the value.
    pub fn into_path_buf(self) -> (r: String)
        ensures
            r@ == self@.path,
    {
        self.path
    }

    /// Whether two resolved paths are the same path under the same root.
    pub fn same_as(&self, other: &Self) -> (r: bool)
        ensures
            r == (self@ == other@),
    {
        let a = crate::text::str_eq(self.path.as_str(), other.path.as_str());
        let b = crate::text::str_eq(self.project_root.as_str(), other.project_root.as_str());
        proof {
            if a && b {
                assert(self@ == other@);
            }
            if self@ == other@ {
                assert(self.path@ == other.path@);
            }
        }
        a && b
    }
}

/// Whether `canonicalize` behaves as canonicalization does: one outcome per
/// path, every path it gives is absolute, and canonicalizing such a path
/// gives it back.
pub open spec fn canonicalization_stable<F: Fn(&str) -> Result<String, String>>(canonicalize: F) -> bool {
    &&& forall|s: Seq<char>, o1: Result<String, String>, o2: Result<String, String>|
        #![trigger canon_gives(canonicalize, s, o1), canon_gives(canonicalize, s, o2)]
        canon_gives(canonicalize, s, o1) && canon_gives(canonicalize, s, o2) ==> o1 == o2
    &&& forall|s: Seq<char>, c: String|
        #[trigger] canon_gives(canonicalize, s, Ok::<String, String>(c)) ==> is_absolute_spec(c@) && canon_gives(
            canonicalize,
            c@,
            Ok::<String, String>(c),
        )
}

/// Resolving a resolved path again, against its own project root, gives it
/// back; both it and its root are absolute. This holds when canonicalizing
/// is stable, as the file system's is while it does not change.
pub proof fn lemma_resolve_again<F: Fn(&str) -> Result<String, String>>(
    path: Seq<char>,
    project_root: Seq<char>,
    canonicalize: F,
    r: ResolvedProjectPath,
    again: Result<ResolvedProjectPath, ProjectPathError>,
)
    requires
        canonicalization_stable(canonicalize),
        ResolvedProjectPath::resolve_spec(path, project_root, canonicalize, Ok(r)),
        ResolvedProjectPath::resolve_spec(r@.path, r@.project_root, canonicalize, again),
    ensures
        is_absolute_spec(r@.path),
        is_absolute_spec(r@.project_root),
        again matches Ok(r2) && r2@ == r@,
{
    let (cr, ct) = choose|cr: String, ct: String|
        {
            &&& #[trigger] canon_gives(canonicalize, project_root, Ok(cr))
            &&& #[trigger] canon_gives(canonicalize, resolution_candidate(path, cr@), Ok(ct))
            &&& path_starts_with(ct@, cr@)
            &&& r@.path == ct@
            &&& r@.project_root == cr@
        };
    assert(canon_gives(canonicalize, cr@, Ok::<String, String>(cr)));
    assert(canon_gives(canonicalize, ct@, Ok::<String, String>(ct)));
    assert(resolution_candidate(ct@, cr@) == ct@);
    match again {
        Ok(r2) => {
            let (cr2, ct2) = choose|cr2: String, ct2: String|
                {
                    &&& #[trigger] canon_gives(canonicalize, cr@, Ok(cr2))
                    &&& #[trigger] canon_gives(canonicalize, resolution_candidate(ct@, cr2@), Ok(ct2))
                    &&& path_starts_with(ct2@, cr2@)
                    &&& r2@.path == ct2@
                    &&& r2@.project_root == cr2@
                };
            assert(Ok::<String, String>(cr2) == Ok::<String, String>(cr));
            assert(Ok::<String, String>(ct2) == Ok::<String, String>(ct));
        },
        Err(ProjectPathError::ProjectRootCanonicalize { project_root: pr, source }) => {
            assert(canon_gives(canonicalize, cr@, Err::<String, String>(source)));
            assert(Err::<String, String>(source) == Ok::<String, String>(cr));
        },
        Err(ProjectPathError::PathCanonicalize { input, resolved, project_root: pr, source }) => {
            assert(Ok::<String, String>(pr) == Ok::<String, String>(cr));
            assert(canon_gives(canonicalize, ct@, Err::<String, String>(source)));
            assert(Err::<String, String>(source) == Ok::<String, String>(ct));
        },
        Err(ProjectPathError::EscapesProjectRoot { input, resolved, project_root: pr }) => {
            assert(Ok::<String, String>(pr) == Ok::<String, String>(cr));
            assert(Ok::<String, String>(resolved) == Ok::<String, String>(ct));
        },
    }
}

/// A relative path and the same path joined to the canonical project root
/// resolve alike: one succeeds exactly when the other does, to the same
/// path under the same root. This holds when canonicalizing is stable.
pub proof fn lemma_resolve_relative_as_absolute<F: Fn(&str) -> Result<String, String>>(
    path: Seq<char>,
    project_root: Seq<char>,
    canonical_root: String,
    canonicalize: F,
    relative: Result<ResolvedProjectPath, ProjectPathError>,
    absolute: Result<ResolvedProjectPath, ProjectPathError>,
)
    requires
        canonicalization_stable(canonicalize),
        !is_absolute_spec(path),
        canon_gives(canonicalize, project_root, Ok::<String, String>(canonical_root)),
        ResolvedProjectPath::resolve_spec(path, project_root, canonicalize, relative),
        ResolvedProjectPath::resolve_spec(join_spec(canonical_root@, path), project_root, canonicalize, absolute),
    ensures
        relative is Ok <==> absolute is Ok,
        relative is Ok ==> relative->Ok_0@ == absolute->Ok_0@,
{
    let cr = canonical_root;
    assert(is_absolute_spec(cr@));
    let j = join_spec(cr@, path);
    assert(is_absolute_spec(j)) by {
        if cr@.last() == '/' {
            assert((cr@ + path)[0] == cr@[0]);
        } else {
            assert((cr@ + seq!['/'] + path)[0] == cr@[0]);
        }
    }
    assert(resolution_candidate(j, cr@) == resolution_candidate(path, cr@));
    // Both resolutions canonicalize the root to `cr` and the same candidate.
    assert forall|o: Result<String, String>| #[trigger] canon_gives(canonicalize, project_root, o) implies o
        == Ok::<String, String>(cr) by {}
    match relative {
        Ok(r1) => {
            let ct = choose|c1: String, ct: String|
                {
                    &&& #[trigger] canon_gives(canonicalize, project_root, Ok(c1))
                    &&& #[trigger] canon_gives(canonicalize, resolution_candidate(path, c1@), Ok(ct))
                    &&& path_starts_with(ct@, c1@)
                    &&& r1@.path == ct@
                    &&& r1@.project_root == c1@
                };
            assert(ct.0 == cr);
            match absolute {
                Ok(r2) => {
                    let ct2 = choose|c2: String, ct2: String|
                        {
                            &&& #[trigger] canon_gives(canonicalize, project_root, Ok(c2))
                            &&& #[trigger] canon_gives(canonicalize, resolution_candidate(j, c2@), Ok(ct2))
                            &&& path_starts_with(ct2@, c2@)
                            &&& r2@.path == ct2@
                            &&& r2@.project_root == c2@
                        };
                    assert(ct2.0 == cr);
                    assert(Ok::<String, String>(ct2.1) == Ok::<String, String>(ct.1));
                },
                Err(ProjectPathError::ProjectRootCanonicalize { project_root: pr, source }) => {
                    assert(canon_gives(canonicalize, project_root, Err::<String, String>(source)));
                },
                Err(ProjectPathError::PathCanonicalize { input, resolved, project_root: pr, source }) => {
                    assert(pr == cr);
                    assert(Err::<String, String>(source) == Ok::<String, String>(ct.1));
                },
                Err(ProjectPathError::EscapesProjectRoot { input, resolved, project_root: pr }) => {
                    assert(pr == cr);
                    assert(Ok::<String, String>(resolved) == Ok::<String, String>(ct.1));
                },
            }
        },
        Err(e1) => {
            match absolute {
                Ok(r2) => {
                    let ct2 = choose|c2: String, ct2: String|
                        {
                            &&& #[trigger] canon_gives(canonicalize, project_root, Ok(c2))
                            &&& #[trigger] canon_gives(canonicalize, resolution_candidate(j, c2@), Ok(ct2))
                            &&& path_starts_with(ct2@, c2@)
                            &&& r2@.path == ct2@
                            &&& r2@.project_root == c2@
                        };
                    assert(ct2.0 == cr);
                    match e1 {
                        ProjectPathError::ProjectRootCanonicalize { project_root: pr, source } => {
                            assert(canon_gives(canonicalize, project_root, Err::<String, String>(source)));
                        },
                        ProjectPathError::PathCanonicalize { input, resolved, project_root: pr, source } => {
                            assert(pr == cr);
                            assert(Err::<String, String>(source) == Ok::<String, String>(ct2.1));
                        },
                        ProjectPathError::EscapesProjectRoot { input, resolved, project_root: pr } => {
                            assert(pr == cr);
                            assert(Ok::<String, String>(resolved) == Ok::<String, String>(ct2.1));
                        },
                    }
                },
                Err(_) => {},
            }
        },
    }
}

impl ProjectPathError {
    /// The message this error displays.
    pub open spec fn message_spec(&self) -> Seq<char> {
        match self {
            ProjectPathError::ProjectRootCanonicalize { project_root, source } =>
                "failed to resolve project root '"@ + project_root@ + "': "@ + source@,
            ProjectPathError::PathCanonicalize { input, resolved, project_root, source } =>
                "failed to resolve project path '"@ + input@ + "' as '"@ + resolved@
                    + "' under project root '"@ + project_root@ + "': "@ + source@,
            ProjectPathError::EscapesProjectRoot { input, resolved, project_root } =>
                "project path '"@ + input@ + "' resolved to '"@ + resolved@
                    + "', outside project root '"@ + project_root@ + "'"@,
        }
    }

    /// The message this error displays.
    pub fn message(&self) -> (m: String)
        ensures
            m@ == self.message_spec(),
    {
        let mut m = String::new();
        match self {
            ProjectPathError::ProjectRootCanonicalize { project_root, source } => {
                push_str(&mut m, "failed to resolve project root '");
                push_str(&mut m, project_root.as_str());
                push_str(&mut m, "': ");
                push_str(&mut m, source.as_str());
            },
            ProjectPathError::PathCanonicalize { input, resolved, project_root, source } => {
                push_str(&mut m, "failed to resolve project path '");
                push_str(&mut m, input.as_str());
                push_str(&mut m, "' as '");
                push_str(&mut m, resolved.as_str());
                push_str(&mut m, "' under project root '");
                push_str(&mut m, project_root.as_str());
                push_str(&mut m, "': ");
                push_str(&mut m, source.as_str());
            },
            ProjectPathError::EscapesProjectRoot { input, resolved, project_root } => {
                push_str(&mut m, "project path '");
                push_str(&mut m, input.as_str());
                push_str(&mut m, "' resolved to '");
                push_str(&mut m, resolved.as_str());
                push_str(&mut m, "', outside project root '");
                push_str(&mut m, project_root.as_str());
                push_str(&mut m, "'");
            },
        }
        m
    }
}

} // verus!
