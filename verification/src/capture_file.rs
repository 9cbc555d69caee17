//! The `capture-file` hook: project-relative globs, the match walk, and the
//! capture plan.

use vstd::prelude::*;
use crate::hook::CapsulaError;
use crate::text::{nat_decimal, opt_str, opt_text, u64_to_decimal};
use crate::glob_pattern::{compile_glob, glob_compile_error, glob_matches, glob_matches_path};
use crate::digest::{sha256_label, sha256_label_spec};
use crate::path::{parent, parent_spec, components, components_of, Comp, PathComponent, comps_view, join, join_spec, strip_prefix, strip_prefix_spec, path_starts_with};
use crate::project_path::{canon_gives, ResolvedProjectPath};
use crate::text::str_eq;
use crate::project_path::ProjectPathError;
use crate::text::{chars_of, copy_string, push_char, push_str};

verus! {

/// How a matched file is captured.
#[derive(Debug, Clone, Copy, PartialEq, Eq)]
pub enum CaptureMode {
    Copy,
    Move,
    /// Record the file without copying or moving it (configured as `none`).
    Skip,
}

/// Which digest is recorded for a captured file.
#[derive(Debug, Clone, Copy, PartialEq, Eq)]
pub enum HashAlgorithm {
    Sha256,
    /// No digest (configured as `none`).
    Disabled,
}

/// Configuration of the `capture-file` hook.
#[derive(Debug)]
pub struct FileHookConfig {
    pub glob: String,
    pub mode: CaptureMode,
    pub hash: HashAlgorithm,
}

/// Errors of the `capture-file` hook.
#[derive(Debug)]
pub enum FileHookError {
    FileNotFound { path: String },
    NoFilesMatched { pattern: String },
    InvalidPattern { pos: usize, msg: String },
    NonRelativePattern { pattern: String },
    ParentTraversalPattern { pattern: String },
    WalkedPathOutsideProject { path: String, project_root: String },
    SymlinkNotAllowed { path: String },
    SourceNotRegularFile { path: String },
    SourcePathChanged { path: String, resolved: String },
    ProjectPath(ProjectPathError),
    Walk(String),
    RunDirNotSet,
    InvalidRunDir { path: String },
    InvalidArtifactDestination { path: String },
    ArtifactDestinationExists { path: String },
    RemoveMovedSource { path: String, source: String },
    ArtifactDirMissing,
    ReadError { path: String, source: String },
    HashError { path: String, message: String },
    Serialization(String),
    Io(String),
}

/// The outcome of reading the components of a configured glob.
pub enum GlobScan {
    /// A `..` component came first among the rejected ones.
    Parent,
    /// A root component came first among the rejected ones.
    NonRelative,
    /// Only normal and `.` components; these are the normal names in order.
    Names(Seq<Seq<char>>),
}

/// Reads the components of a glob left to right, stopping at the first
/// rejected one.
pub open spec fn scan_glob(cs: Seq<Comp>) -> GlobScan
    decreases cs.len(),
{
    if cs.len() == 0 {
        GlobScan::Names(seq![])
    } else {
        match cs[0] {
            Comp::Parent => GlobScan::Parent,
            Comp::Root => GlobScan::NonRelative,
            Comp::Cur => scan_glob(cs.drop_first()),
            Comp::Normal(n) => match scan_glob(cs.drop_first()) {
                GlobScan::Names(ns) => GlobScan::Names(seq![n] + ns),
                other => other,
            },
        }
    }
}

/// Names joined with `/`.
pub open spec fn join_names(ns: Seq<Seq<char>>) -> Seq<char>
    decreases ns.len(),
{
    if ns.len() == 0 {
        seq![]
    } else if ns.len() == 1 {
        ns[0]
    } else {
        join_names(ns.drop_last()) + seq!['/'] + ns.last()
    }
}

/// The normalized pattern text: the normal names joined with `/`, keeping a
/// trailing separator of the configured text.
pub open spec fn normalized_glob(configured: Seq<char>, ns: Seq<Seq<char>>) -> Seq<char> {
    let j = join_names(ns);
    if configured.len() > 0 && configured.last() == '/' && j.len() > 0 {
        j.push('/')
    } else {
        j
    }
}

/// The recursive wildcard component.
pub open spec fn double_star() -> Seq<char> {
    seq!['*', '*']
}

/// A glob relative to the project root, with the walk depth it needs.
#[derive(Debug)]
pub struct ProjectRelativeGlob {
    pattern: String,
    max_depth: Option<usize>,
}

/// The mathematical value of a project-relative glob.
pub struct GlobView {
    pub pattern: Seq<char>,
    pub max_depth: Option<nat>,
}

impl View for ProjectRelativeGlob {
    type V = GlobView;

    closed spec fn view(&self) -> GlobView {
        GlobView {
            pattern: self.pattern@,
            max_depth: match self.max_depth {
                Some(d) => Some(d as nat),
                None => None,
            },
        }
    }
}

/// Case-sensitive matching, `/` matched only literally, leading dots free.
pub open spec fn project_glob_matches(pattern: Seq<char>, path: Seq<char>) -> bool {
    glob_matches(pattern, path, true, true, false)
}

impl ProjectRelativeGlob {
    #[verifier::type_invariant]
    closed spec fn compiles(self) -> bool {
        glob_compile_error(self.pattern@) is None
    }

    /// What `parse` returns for a configured glob.
    pub open spec fn parse_spec(configured: Seq<char>, res: Result<ProjectRelativeGlob, FileHookError>) -> bool {
        match scan_glob(components(configured)) {
            GlobScan::Parent => res matches Err(FileHookError::ParentTraversalPattern { pattern })
                && pattern@ == configured,
            GlobScan::NonRelative => res matches Err(FileHookError::NonRelativePattern { pattern })
                && pattern@ == configured,
            GlobScan::Names(ns) => {
                let norm = normalized_glob(configured, ns);
                match glob_compile_error(norm) {
                    Some((pos, msg)) => res matches Err(FileHookError::InvalidPattern { pos: p, msg: m })
                        && p as int == pos && m@ == msg,
                    None => res matches Ok(g) && g@.pattern == norm && g@.max_depth == (if ns.contains(
                        double_star(),
                    ) {
                        None::<nat>
                    } else {
                        Some(ns.len())
                    }),
                }
            },
        }
    }

    /// Parse a configured glob: it must be relative and free of `..`; `.`
    /// components are dropped. A glob without a `**` component needs a walk
    /// only as deep as its component count.
    pub fn parse(configured: &str) -> (res: Result<Self, FileHookError>)
        ensures
            Self::parse_spec(configured@, res),
    {
        let cs = components_of(configured);
        let ghost all = comps_view(cs@);
        let mut normalized = String::new();
        let mut count: usize = 0;
        let mut recursive = false;
        let ghost mut names: Seq<Seq<char>> = seq![];
        let mut i: usize = 0;
        proof {
            assert(all.skip(0) =~= all);
        }
        while i < cs.len()
            invariant
                all == comps_view(cs@),
                all == components(configured@),
                i <= cs.len(),
                count as nat == names.len(),
                normalized@ == join_names(names),
                recursive == names.contains(double_star()),
                scan_glob(all) == match scan_glob(all.skip(i as int)) {
                    GlobScan::Names(ns) => GlobScan::Names(names + ns),
                    other => other,
                },
                forall|k: int| 0 <= k < names.len() ==> names[k].len() > 0,
                count <= i,
            decreases cs.len() - i,
        {
            proof {
                let rest = all.skip(i as int);
                assert(rest[0] == all[i as int]);
                assert(rest.drop_first() =~= all.skip(i + 1));
            }
            match &cs[i] {
                PathComponent::Normal(n) => {
                    let ghost old_names = names;
                    if count > 0 {
                        push_char(&mut normalized, '/');
                    }
                    push_str(&mut normalized, n.as_str());
                    let nc = chars_of(n.as_str());
                    if nc.len() == 2 && nc[0] == '*' && nc[1] == '*' {
                        recursive = true;
                        proof {
                            assert(n@ =~= double_star());
                        }
                    }
                    proof {
                        names = names.push(n@);
                        assert(names.drop_last() =~= old_names);
                        assert(names.last() == n@);
                        if old_names.len() == 0 {
                            assert(normalized@ =~= n@);
                        }
                        assert(normalized@ =~= join_names(names));
                        assert forall|k: int| 0 <= k < names.len() implies names[k].len() > 0 by {
                            if k == names.len() - 1 {
                                lemma_normal_component_nonempty(configured@, i as int);
                            }
                        }
                        if !(nc.len() == 2 && nc[0] == '*' && nc[1] == '*') {
                            assert(n@ != double_star()) by {
                                if n@ == double_star() {
                                    assert(nc@.len() == 2);
                                }
                            }
                        }
                        assert(names.contains(double_star()) == (old_names.contains(double_star()) || n@
                            == double_star())) by {
                            if old_names.contains(double_star()) {
                                let k = choose|k: int| 0 <= k < old_names.len() && old_names[k] == double_star();
                                assert(names[k] == double_star());
                            }
                            if names.contains(double_star()) {
                                let k = choose|k: int| 0 <= k < names.len() && names[k] == double_star();
                                if k < old_names.len() {
                                    assert(old_names[k] == double_star());
                                }
                            }
                        }
                        let rest = all.skip(i as int);
                        match scan_glob(all.skip(i + 1)) {
                            GlobScan::Names(ns) => {
                                assert(names + ns =~= old_names + (seq![n@] + ns));
                            },
                            _ => {},
                        }
                    }
                    count = count + 1;
                },
                PathComponent::CurDir => {},
                PathComponent::ParentDir => {
                    return Err(FileHookError::ParentTraversalPattern { pattern: copy_string(configured) });
                },
                PathComponent::RootDir => {
                    return Err(FileHookError::NonRelativePattern { pattern: copy_string(configured) });
                },
            }
            i = i + 1;
        }
        proof {
            assert(all.skip(i as int).len() == 0);
            assert(names + seq![] =~= names);
        }
        let cfg = chars_of(configured);
        if cfg.len() > 0 && cfg[cfg.len() - 1] == '/' && count > 0 {
            push_char(&mut normalized, '/');
        }
        proof {
            lemma_join_names_len(names);
        }
        match compile_glob(normalized.as_str()) {
            Ok(()) => {
                let max_depth = if recursive { None } else { Some(count) };
                Ok(ProjectRelativeGlob { pattern: normalized, max_depth })
            },
            Err((pos, msg)) => Err(FileHookError::InvalidPattern { pos, msg }),
        }
    }

    /// Whether the project-relative `path` matches this glob.
    pub fn matches(&self, path: &str) -> (r: bool)
        ensures
            r == project_glob_matches(self@.pattern, path@),
    {
        proof {
            use_type_invariant(self);
        }
        glob_matches_path(self.pattern.as_str(), path, true, true, false)
    }

    /// The walk depth the glob needs: `None` for an unbounded walk.
    pub fn max_depth(&self) -> (r: Option<usize>)
        ensures
            r matches Some(d) ==> self@.max_depth == Some(d as nat),
            r is None ==> self@.max_depth is None,
    {
        self.max_depth
    }

    /// The normalized pattern text.
    pub fn pattern(&self) -> (r: &str)
        ensures
            r@ == self@.pattern,
    {
        self.pattern.as_str()
    }
}

/// A normal component of a path is never empty.
pub proof fn lemma_normal_component_nonempty(s: Seq<char>, i: int)
    requires
        0 <= i < components(s).len(),
        components(s)[i] is Normal,
    ensures
        components(s)[i]->Normal_0.len() > 0,
{
    crate::path::lemma_components_normals_nonempty(s);
}

/// Joined names are empty only when there are no names.
pub proof fn lemma_join_names_len(ns: Seq<Seq<char>>)
    requires
        forall|k: int| 0 <= k < ns.len() ==> ns[k].len() > 0,
    ensures
        (join_names(ns).len() > 0) == (ns.len() > 0),
    decreases ns.len(),
{
    if ns.len() > 1 {
        lemma_join_names_len(ns.drop_last());
    }
}

/// What a walked directory entry is.
#[derive(Debug, Clone, Copy, PartialEq, Eq)]
pub enum EntryKind {
    File,
    Dir,
    Symlink,
    Other,
}

/// One entry produced by walking the project root (without following links).
#[derive(Debug)]
pub struct WalkEntry {
    pub path: String,
    pub kind: EntryKind,
}

/// How deep the project walk must go.
#[derive(Debug, Clone, Copy, PartialEq, Eq)]
pub enum WalkPlan {
    /// Walk the whole tree.
    Unbounded,
    /// Nothing can match; skip the walk.
    Nothing,
    /// Walk at most this many levels below the root.
    Depth(usize),
}

/// The decision for one walked entry.
pub enum WalkDecision {
    Skip,
    Take,
    StopWalk(Seq<char>),
    StopOutside,
    StopSymlink,
}

/// The decision for one walked entry under the canonical root `root`.
pub open spec fn walk_decision(root: Seq<char>, pattern: Seq<char>, e: Result<WalkEntry, String>) -> WalkDecision {
    match e {
        Err(m) => WalkDecision::StopWalk(m@),
        Ok(entry) => match strip_prefix_spec(entry.path@, root) {
            None => WalkDecision::StopOutside,
            Some(rel) => if !project_glob_matches(pattern, rel) {
                WalkDecision::Skip
            } else if entry.kind == EntryKind::Symlink {
                WalkDecision::StopSymlink
            } else if entry.kind == EntryKind::File {
                WalkDecision::Take
            } else {
                WalkDecision::Skip
            },
        },
    }
}

/// Whether a decision stops the walk.
pub open spec fn is_stop(d: WalkDecision) -> bool {
    d is StopWalk || d is StopOutside || d is StopSymlink
}

/// The paths of the entries the walk takes, in order.
pub open spec fn taken_paths(root: Seq<char>, pattern: Seq<char>, es: Seq<Result<WalkEntry, String>>) -> Seq<Seq<char>>
    decreases es.len(),
{
    if es.len() == 0 {
        seq![]
    } else {
        let prev = taken_paths(root, pattern, es.drop_last());
        if walk_decision(root, pattern, es.last()) is Take {
            prev.push(es.last()->Ok_0.path@)
        } else {
            prev
        }
    }
}

/// The error a stopping decision reports for entry `e`.
pub open spec fn stop_error(root: Seq<char>, e: Result<WalkEntry, String>, d: WalkDecision, err: FileHookError) -> bool {
    match d {
        WalkDecision::StopWalk(m) => err matches FileHookError::Walk(x) && x@ == m,
        WalkDecision::StopOutside => err matches FileHookError::WalkedPathOutsideProject { path, project_root }
            && path@ == e->Ok_0.path@ && project_root@ == root,
        WalkDecision::StopSymlink => err matches FileHookError::SymlinkNotAllowed { path } && path@ == e->Ok_0.path@,
        _ => false,
    }
}

/// Where a planned capture of `source` lands under `artifact_dir`.
pub open spec fn destination_spec(source: Seq<char>, root: Seq<char>, artifact_dir: Seq<char>) -> Seq<char> {
    join_spec(artifact_dir, strip_prefix_spec(source, root)->Some_0)
}

/// What probing a destination path found.
#[derive(Debug)]
pub enum DestinationProbe {
    /// Nothing exists at the path.
    Missing,
    /// Something (a file, directory or link) exists at the path.
    Present,
    /// The probe failed with this message.
    Failed(String),
}

/// Whether `probe`, called on some string whose characters are `s`, may return `out`.
pub open spec fn probe_gives<G: Fn(&str) -> DestinationProbe>(probe: G, s: Seq<char>, out: DestinationProbe) -> bool {
    exists|a: &str| a@ == s && #[trigger] probe.ensures((a,), out)
}

/// Whether some string of `v` holds the characters of `s`.
pub fn contains_str(v: &Vec<String>, s: &str) -> (r: bool)
    ensures
        r == exists|j: int| 0 <= j < v.len() && (#[trigger] v@[j])@ == s@,
{
    let mut j: usize = 0;
    while j < v.len()
        invariant
            j <= v.len(),
            forall|k: int| 0 <= k < j ==> (#[trigger] v@[k])@ != s@,
        decreases v.len() - j,
    {
        if str_eq(v[j].as_str(), s) {
            return true;
        }
        j = j + 1;
    }
    false
}

/// A matched file with the artifact destination it will be captured to.
#[derive(Debug)]
pub struct PlannedFileCapture {
    pub source: ResolvedProjectPath,
    pub destination: Option<String>,
}

/// The `capture-file` hook.
#[derive(Debug)]
pub struct FileHook {
    config: FileHookConfig,
    project_root: ResolvedProjectPath,
    glob: ProjectRelativeGlob,
}

impl FileHook {
    /// The configured glob text.
    pub closed spec fn glob_text(&self) -> Seq<char> {
        self.config.glob@
    }

    /// The configured capture mode.
    pub closed spec fn mode(&self) -> CaptureMode {
        self.config.mode
    }

    /// The configured digest.
    pub closed spec fn hash(&self) -> HashAlgorithm {
        self.config.hash
    }

    /// The canonical project root.
    pub closed spec fn root(&self) -> Seq<char> {
        self.project_root@.path
    }

    /// The parsed glob.
    pub closed spec fn glob(&self) -> GlobView {
        self.glob@
    }

    /// Build the hook from its configuration: the glob is parsed first, then
    /// the project root is resolved against itself.
    pub fn from_config<F: Fn(&str) -> Result<String, String>>(
        config: FileHookConfig,
        project_root: &str,
        canonicalize: &F,
    ) -> (res: Result<FileHook, FileHookError>)
        requires
            forall|s: &str| #[trigger] canonicalize.requires((s,)),
        ensures
            match res {
                Ok(h) => {
                    &&& h.glob_text() == config.glob@
                    &&& h.mode() == config.mode
                    &&& h.hash() == config.hash
                    &&& exists|g: ProjectRelativeGlob|
                        #[trigger] ProjectRelativeGlob::parse_spec(config.glob@, Ok(g)) && g@ == h.glob()
                    &&& exists|rp: ResolvedProjectPath|
                        #[trigger] ResolvedProjectPath::resolve_spec(project_root@, project_root@, *canonicalize, Ok(rp))
                            && rp@.path == h.root()
                },
                Err(FileHookError::ProjectPath(pe)) => {
                    &&& exists|g: ProjectRelativeGlob| #[trigger] ProjectRelativeGlob::parse_spec(config.glob@, Ok(g))
                    &&& ResolvedProjectPath::resolve_spec(project_root@, project_root@, *canonicalize, Err(pe))
                },
                Err(e) => ProjectRelativeGlob::parse_spec(config.glob@, Err(e)),
            },
    {
        let glob = match ProjectRelativeGlob::parse(config.glob.as_str()) {
            Ok(g) => g,
            Err(e) => {
                proof {
                    assert(!(e is ProjectPath)) by {
                        assert(ProjectRelativeGlob::parse_spec(config.glob@, Err(e)));
                    }
                }
                return Err(e);
            },
        };
        let project_root = match ResolvedProjectPath::resolve_existing(project_root, project_root, canonicalize) {
            Ok(r) => r,
            Err(pe) => return Err(FileHookError::ProjectPath(pe)),
        };
        Ok(FileHook { config, project_root, glob })
    }

    /// The hook always captures into its own artifact directory.
    pub fn needs_artifact_dir(&self) -> (r: bool)
        ensures
            r,
    {
        true
    }

    /// How deep the walk for matching files must go.
    pub fn walk_plan(&self) -> (r: WalkPlan)
        ensures
            match self.glob().max_depth {
                None => r == WalkPlan::Unbounded,
                Some(d) => if d == 0 {
                    r == WalkPlan::Nothing
                } else {
                    r == WalkPlan::Depth(d as usize)
                },
            },
    {
        match self.glob.max_depth() {
            None => WalkPlan::Unbounded,
            Some(d) => if d == 0 {
                WalkPlan::Nothing
            } else {
                WalkPlan::Depth(d)
            },
        }
    }

    /// The canonical project root the walk starts from.
    pub fn root_path(&self) -> (r: &str)
        ensures
            r@ == self.root(),
    {
        self.project_root.as_path()
    }

    /// What folding the walked `entries` into the matching files may give:
    /// no entry stops the walk and each taken path resolves inside the
    /// project, or the first stopping entry (or the first taken path that
    /// does not resolve) gives the error.
    pub open spec fn matching_gives<F: Fn(&str) -> Result<String, String>>(
        &self,
        entries: Seq<Result<WalkEntry, String>>,
        canonicalize: F,
        res: Result<Vec<ResolvedProjectPath>, FileHookError>,
    ) -> bool {
        match res {
            Ok(files) => {
                let taken = taken_paths(self.root(), self.glob().pattern, entries);
                &&& forall|i: int| 0 <= i < entries.len()
                    ==> !is_stop(#[trigger] walk_decision(self.root(), self.glob().pattern, entries[i]))
                &&& files.len() == taken.len()
                &&& forall|j: int| 0 <= j < files.len() ==> #[trigger] ResolvedProjectPath::resolve_spec(
                    taken[j], self.root(), canonicalize, Ok(files@[j]))
            },
            Err(err) => exists|i: int| 0 <= i < entries.len() && {
                let d = walk_decision(self.root(), self.glob().pattern, #[trigger] entries[i]);
                &&& forall|k: int| 0 <= k < i ==> !is_stop(#[trigger] walk_decision(self.root(), self.glob().pattern, entries[k]))
                &&& (stop_error(self.root(), entries[i], d, err) || (err matches FileHookError::ProjectPath(pe) && d is Take
                    && ResolvedProjectPath::resolve_spec(entries[i]->Ok_0.path@, self.root(), canonicalize, Err(pe))))
            },
        }
    }

    /// Fold the walked entries (in walk order) into the matching files. An
    /// entry that matches the glob must not be a symbolic link; matching
    /// regular files are resolved inside the project root.
    pub fn walk_matching_files<F: Fn(&str) -> Result<String, String>>(
        &self,
        entries: &Vec<Result<WalkEntry, String>>,
        canonicalize: &F,
    ) -> (res: Result<Vec<ResolvedProjectPath>, FileHookError>)
        requires
            forall|s: &str| #[trigger] canonicalize.requires((s,)),
        ensures
            self.matching_gives(entries@, *canonicalize, res),
    {
        let root = self.project_root.as_path();
        let mut files: Vec<ResolvedProjectPath> = Vec::new();
        let mut i: usize = 0;
        let ghost pattern = self.glob().pattern;
        while i < entries.len()
            invariant
                i <= entries.len(),
                root@ == self.root(),
                pattern == self.glob().pattern,
                forall|s: &str| #[trigger] canonicalize.requires((s,)),
                forall|k: int| 0 <= k < i ==> !is_stop(#[trigger] walk_decision(self.root(), pattern, entries@[k])),
                files.len() == taken_paths(self.root(), pattern, entries@.take(i as int)).len(),
                forall|j: int| 0 <= j < files.len() ==> #[trigger] ResolvedProjectPath::resolve_spec(
                    taken_paths(self.root(), pattern, entries@.take(i as int))[j], self.root(), *canonicalize, Ok(files@[j])),
            decreases entries.len() - i,
        {
            let ghost prev = taken_paths(self.root(), pattern, entries@.take(i as int));
            proof {
                assert(entries@.take(i + 1).drop_last() =~= entries@.take(i as int));
                assert(entries@.take(i + 1).last() == entries@[i as int]);
            }
            match &entries[i] {
                Err(m) => {
                    return Err(FileHookError::Walk(copy_string(m.as_str())));
                },
                Ok(entry) => {
                    let rel = match strip_prefix(entry.path.as_str(), root) {
                        Some(r) => r,
                        None => {
                            return Err(FileHookError::WalkedPathOutsideProject {
                                path: copy_string(entry.path.as_str()),
                                project_root: copy_string(root),
                            });
                        },
                    };
                    if self.glob.matches(rel.as_str()) {
                        match entry.kind {
                            EntryKind::Symlink => {
                                return Err(FileHookError::SymlinkNotAllowed { path: copy_string(entry.path.as_str()) });
                            },
                            EntryKind::File => {
                                let r = ResolvedProjectPath::resolve_existing(entry.path.as_str(), root, canonicalize);
                                match r {
                                    Ok(rp) => {
                                        files.push(rp);
                                    },
                                    Err(pe) => {
                                        return Err(FileHookError::ProjectPath(pe));
                                    },
                                }
                            },
                            _ => {},
                        }
                    }
                },
            }
            proof {
                let now = taken_paths(self.root(), pattern, entries@.take(i + 1));
                assert forall|j: int| 0 <= j < files.len() implies #[trigger] ResolvedProjectPath::resolve_spec(
                    now[j], self.root(), *canonicalize, Ok(files@[j])) by {
                    if j < prev.len() {
                        assert(now[j] == prev[j]);
                    }
                }
            }
            i = i + 1;
        }
        proof {
            assert(entries@.take(entries.len() as int) =~= entries@);
        }
        Ok(files)
    }

    /// What assigning destinations under `artifact_dir` to the matching
    /// files may give: each file its destination (none when only recording),
    /// all distinct and missing when probed; or the first file whose
    /// destination repeats, is present, cannot be probed, or cannot be
    /// worked out gives the error.
    pub open spec fn planning_gives<G: Fn(&str) -> DestinationProbe>(
        &self,
        matching_files: Seq<ResolvedProjectPath>,
        artifact_dir: Seq<char>,
        probe: G,
        res: Result<Vec<PlannedFileCapture>, FileHookError>,
    ) -> bool {
        match res {
            Ok(plans) => {
                &&& plans.len() == matching_files.len()
                &&& forall|j: int| 0 <= j < plans.len() ==> (#[trigger] plans@[j]).source@ == matching_files[j]@
                &&& forall|j: int| 0 <= j < plans.len() ==> match (#[trigger] plans@[j]).destination {
                    None => self.mode() == CaptureMode::Skip,
                    Some(d) => {
                        &&& self.mode() != CaptureMode::Skip
                        &&& d@ == destination_spec(matching_files[j]@.path, self.root(), artifact_dir)
                        &&& probe_gives(probe, d@, DestinationProbe::Missing)
                    },
                }
                &&& forall|j: int, k: int| 0 <= j < k < plans.len() && plans@[j].destination is Some
                    ==> plans@[j].destination->Some_0@ != plans@[k].destination->Some_0@
            },
            Err(err) => {
                &&& self.mode() != CaptureMode::Skip
                &&& exists|i: int| 0 <= i < matching_files.len() && {
                    let d = destination_spec(#[trigger] matching_files[i]@.path, self.root(), artifact_dir);
                    ||| (err matches FileHookError::ArtifactDestinationExists { path } && path@ == d
                        && exists|k: int| 0 <= k < i && destination_spec(matching_files[k]@.path, self.root(), artifact_dir) == d)
                    ||| (err matches FileHookError::ArtifactDestinationExists { path } && path@ == d
                        && probe_gives(probe, d, DestinationProbe::Present))
                    ||| (err matches FileHookError::Io(x)
                        && probe_gives(probe, d, DestinationProbe::Failed(x)))
                    ||| (err matches FileHookError::WalkedPathOutsideProject { path, project_root }
                        && path@ == matching_files[i]@.path && project_root@ == self.root()
                        && strip_prefix_spec(matching_files[i]@.path, self.root()) is None)
                }
            },
        }
    }

    /// Assign each matched file its artifact destination, rejecting two
    /// files that would land on the same destination and destinations that
    /// already exist. In `Skip` mode no destination is assigned.
    pub fn plan_captures<G: Fn(&str) -> DestinationProbe>(
        &self,
        matching_files: Vec<ResolvedProjectPath>,
        artifact_dir: &str,
        probe: &G,
    ) -> (res: Result<Vec<PlannedFileCapture>, FileHookError>)
        requires
            forall|s: &str| #[trigger] probe.requires((s,)),
        ensures
            self.planning_gives(matching_files@, artifact_dir@, *probe, res),
    {
        let ghost sources = matching_files@;
        let n = matching_files.len();
        let root = self.project_root.as_path();
        let mut plans: Vec<PlannedFileCapture> = Vec::new();
        let mut seen: Vec<String> = Vec::new();
        let mut rest = matching_files;
        let mut rev: Vec<ResolvedProjectPath> = Vec::new();
        while rest.len() > 0
            invariant
                rev.len() + rest.len() == n,
                n == sources.len(),
                sources == matching_files@,
                forall|j: int| 0 <= j < rest.len() ==> rest@[j] == sources[j],
                forall|j: int| 0 <= j < rev.len() ==> rev@[j] == sources[n - 1 - j],
            decreases rest.len(),
        {
            let x = rest.pop().unwrap();
            rev.push(x);
        }
        let mut i: usize = 0;
        while rev.len() > 0
            invariant
                i + rev.len() == n,
                n == sources.len(),
                sources == matching_files@,
                root@ == self.root(),
                forall|j: int| 0 <= j < rev.len() ==> rev@[j] == sources[n - 1 - j],
                forall|s: &str| #[trigger] probe.requires((s,)),
                plans.len() == i,
                forall|j: int| 0 <= j < i ==> (#[trigger] plans@[j]).source@ == sources[j]@,
                forall|j: int| 0 <= j < i ==> match (#[trigger] plans@[j]).destination {
                    None => self.mode() == CaptureMode::Skip,
                    Some(d) => {
                        &&& self.mode() != CaptureMode::Skip
                        &&& d@ == destination_spec(sources[j]@.path, self.root(), artifact_dir@)
                        &&& probe_gives(*probe, d@, DestinationProbe::Missing)
                    },
                },
                forall|j: int, k: int| 0 <= j < k < i && plans@[j].destination is Some
                    ==> plans@[j].destination->Some_0@ != plans@[k].destination->Some_0@,
                self.mode() != CaptureMode::Skip ==> seen.len() == i,
                self.mode() != CaptureMode::Skip ==> forall|j: int| 0 <= j < i ==> (#[trigger] seen@[j])@ == plans@[j].destination->Some_0@,
            decreases rev.len(),
        {
            let source = rev.pop().unwrap();
            let destination = match self.config.mode {
                CaptureMode::Copy | CaptureMode::Move => {
                    let spath = source.as_path();
                    let rel = match strip_prefix(spath, root) {
                        Some(r) => r,
                        None => {
                            proof {
                                assert(sources[i as int] == matching_files@[i as int]);
                            }
                            return Err(FileHookError::WalkedPathOutsideProject {
                                path: copy_string(spath),
                                project_root: copy_string(root),
                            });
                        },
                    };
                    let dest = join(artifact_dir, rel.as_str());
                    proof {
                        assert(dest@ == destination_spec(sources[i as int]@.path, self.root(), artifact_dir@));
                    }
                    if contains_str(&seen, dest.as_str()) {
                        proof {
                            let k = choose|k: int| 0 <= k < seen.len() && seen@[k]@ == dest@;
                            assert(destination_spec(sources[k]@.path, self.root(), artifact_dir@) == dest@);
                            assert(sources[i as int] == matching_files@[i as int]);
                            assert(exists|k: int| 0 <= k < i && destination_spec(matching_files@[k]@.path, self.root(), artifact_dir@) == dest@);
                        }
                        return Err(FileHookError::ArtifactDestinationExists { path: dest });
                    }
                    let found = probe(dest.as_str());
                    proof {
                        assert(probe_gives(*probe, dest@, found));
                    }
                    match found {
                        DestinationProbe::Missing => {},
                        DestinationProbe::Present => {
                            proof {
                                assert(sources[i as int] == matching_files@[i as int]);
                            }
                            return Err(FileHookError::ArtifactDestinationExists { path: dest });
                        },
                        DestinationProbe::Failed(m) => {
                            proof {
                                assert(sources[i as int] == matching_files@[i as int]);
                                assert(probe_gives(*probe, dest@, DestinationProbe::Failed(m)));
                            }
                            return Err(FileHookError::Io(m));
                        },
                    }
                    seen.push(copy_string(dest.as_str()));
                    Some(dest)
                },
                CaptureMode::Skip => None,
            };
            let ghost old_plans = plans@;
            plans.push(PlannedFileCapture { source, destination });
            proof {
                assert forall|j: int, k: int| 0 <= j < k < i + 1 && plans@[j].destination is Some
                    implies plans@[j].destination->Some_0@ != plans@[k].destination->Some_0@ by {
                    if k < i {
                        assert(plans@[j] == old_plans[j]);
                        assert(plans@[k] == old_plans[k]);
                    } else {
                        assert(plans@[j] == old_plans[j]);
                        assert(seen@[j]@ == plans@[j].destination->Some_0@);
                    }
                }
            }
            i = i + 1;
        }
        Ok(plans)
    }
}

/// One captured file: where it is, where its copy went, and its digest.
#[derive(Debug)]
pub struct FileCapturedPerFile {
    pub path: String,
    pub copied_path: Option<String>,
    pub hash: Option<String>,
}

/// What the `capture-file` hook captures.
#[derive(Debug)]
pub struct FileCaptured {
    pub files: Vec<FileCapturedPerFile>,
}

/// Why copying a file into the artifact directory failed.
#[derive(Debug)]
pub enum CopyFailure {
    /// Something already exists at the destination.
    AlreadyExists,
    /// Another I/O failure; its message.
    Io(String),
}

/// Whether `f`, called on some string holding `s`, may give `out`.
pub open spec fn call_gives<T, F: Fn(&str) -> T>(f: F, s: Seq<char>, out: T) -> bool {
    exists|a: &str| a@ == s && #[trigger] f.ensures((a,), out)
}

/// What re-checking a planned source before capture gives, given what the
/// file system said the path is (`md`) and, for a regular file, how it
/// resolves again (`again`).
pub open spec fn revalidation(
    source: crate::project_path::ResolvedView,
    md: Result<EntryKind, String>,
    again: Result<ResolvedProjectPath, ProjectPathError>,
    r: Result<String, FileHookError>,
) -> bool {
    match md {
        Err(m) => r == Err::<String, FileHookError>(FileHookError::Io(m)),
        Ok(EntryKind::Symlink) => r matches Err(FileHookError::SymlinkNotAllowed { path }) && path@
            == source.path,
        Ok(EntryKind::File) => match again {
            Err(pe) => r == Err::<String, FileHookError>(FileHookError::ProjectPath(pe)),
            Ok(cur) => if cur@ == source {
                r matches Ok(p) && p@ == source.path
            } else {
                r matches Err(FileHookError::SourcePathChanged { path, resolved }) && path@
                    == source.path && resolved@ == cur@.path
            },
        },
        Ok(_) => r matches Err(FileHookError::SourceNotRegularFile { path }) && path@ == source.path,
    }
}

/// One possible course of re-checking `source`: the file system said `md`,
/// a regular file resolved again to `again`, and the result was `r`.
pub open spec fn revalidation_step<M: Fn(&str) -> Result<EntryKind, String>, F: Fn(&str) -> Result<String, String>>(
    metadata: M,
    canonicalize: F,
    source: crate::project_path::ResolvedView,
    md: Result<EntryKind, String>,
    again: Result<ResolvedProjectPath, ProjectPathError>,
    r: Result<String, FileHookError>,
) -> bool {
    &&& call_gives(metadata, source.path, md)
    &&& (md == Ok::<EntryKind, String>(EntryKind::File) ==> ResolvedProjectPath::resolve_spec(
        source.path,
        source.project_root,
        canonicalize,
        again,
    ))
    &&& revalidation(source, md, again, r)
}

impl FileHook {
    /// Re-checks a planned source just before it is captured: it must still
    /// be a regular file (not a link) and resolve to the same path.
    pub fn revalidate_source<M: Fn(&str) -> Result<EntryKind, String>, F: Fn(&str) -> Result<String, String>>(
        source: &ResolvedProjectPath,
        metadata: &M,
        canonicalize: &F,
    ) -> (r: Result<String, FileHookError>)
        requires
            forall|s: &str| #[trigger] metadata.requires((s,)),
            forall|s: &str| #[trigger] canonicalize.requires((s,)),
        ensures
            exists|md: Result<EntryKind, String>, again: Result<ResolvedProjectPath, ProjectPathError>|
                #[trigger] revalidation_step(*metadata, *canonicalize, source@, md, again, r),
    {
        let path = source.as_path();
        let md = metadata(path);
        let ghost md0 = md;
        proof {
            assert(call_gives(*metadata, source@.path, md0));
        }
        let ghost unused: Result<ResolvedProjectPath, ProjectPathError> = arbitrary();
        match md {
            Err(m) => {
                let r = Err(FileHookError::Io(m));
                assert(revalidation_step(*metadata, *canonicalize, source@, md0, unused, r));
                return r;
            },
            Ok(EntryKind::Symlink) => {
                let r = Err(FileHookError::SymlinkNotAllowed { path: copy_string(path) });
                assert(revalidation_step(*metadata, *canonicalize, source@, md0, unused, r));
                return r;
            },
            Ok(EntryKind::File) => {},
            Ok(_) => {
                let r = Err(FileHookError::SourceNotRegularFile { path: copy_string(path) });
                assert(revalidation_step(*metadata, *canonicalize, source@, md0, unused, r));
                return r;
            },
        }
        let current = ResolvedProjectPath::resolve_existing(path, source.project_root(), canonicalize);
        let ghost again = current;
        let r = match current {
            Err(pe) => Err(FileHookError::ProjectPath(pe)),
            Ok(cur) => {
                if !cur.same_as(source) {
                    let resolved = cur.into_path_buf();
                    Err(FileHookError::SourcePathChanged { path: copy_string(path), resolved })
                } else {
                    Ok(copy_string(path))
                }
            },
        };
        assert(revalidation_step(*metadata, *canonicalize, source@, md0, again, r));
        r
    }
}

/// Whether `copy`, called on strings holding `src`, `parent` and `dest`,
/// may give `out`.
pub open spec fn copy_gives<C: Fn(&str, &str, &str) -> Result<(), CopyFailure>>(
    copy: C,
    src: Seq<char>,
    parent: Seq<char>,
    dest: Seq<char>,
    out: Result<(), CopyFailure>,
) -> bool {
    exists|a: &str, b: &str, c: &str|
        a@ == src && b@ == parent && c@ == dest && #[trigger] copy.ensures((a, b, c), out)
}

/// One possible course of copying `src` to `dest`: `copy`, given the
/// destination's parent, gave `out`, and the result was `r`.
pub open spec fn copy_outcome<C: Fn(&str, &str, &str) -> Result<(), CopyFailure>>(
    copy: C,
    src: Seq<char>,
    dest: Seq<char>,
    out: Result<(), CopyFailure>,
    r: Result<(), FileHookError>,
) -> bool {
    &&& parent_spec(dest) is Some
    &&& copy_gives(copy, src, parent_spec(dest)->Some_0, dest, out)
    &&& match out {
        Ok(()) => r is Ok,
        Err(CopyFailure::AlreadyExists) => r matches Err(FileHookError::ArtifactDestinationExists { path })
            && path@ == dest,
        Err(CopyFailure::Io(m)) => r == Err::<(), FileHookError>(FileHookError::Io(m)),
    }
}

/// What copying `src` to `dest` may give: a destination without a parent
/// is refused; otherwise `copy` decides, as `copy_outcome` says.
pub open spec fn copy_stage<C: Fn(&str, &str, &str) -> Result<(), CopyFailure>>(
    copy: C,
    src: Seq<char>,
    dest: Seq<char>,
    r: Result<(), FileHookError>,
) -> bool {
    if parent_spec(dest) is None {
        r matches Err(FileHookError::InvalidArtifactDestination { path }) && path@ == dest
    } else {
        exists|out: Result<(), CopyFailure>| #[trigger] copy_outcome(copy, src, dest, out, r)
    }
}

impl FileHook {
    /// What recording the digest of the file at `path` may give: none when
    /// digests are disabled; otherwise `sha256:<hex>` of what `read` gave,
    /// or its failure.
    pub open spec fn hash_gives<R: Fn(&str) -> Result<Vec<u8>, String>>(
        &self,
        read: R,
        path: Seq<char>,
        r: Result<Option<String>, FileHookError>,
    ) -> bool {
        match self.hash() {
            HashAlgorithm::Disabled => r == Ok::<Option<String>, FileHookError>(None),
            HashAlgorithm::Sha256 => exists|out: Result<Vec<u8>, String>|
                {
                    &&& #[trigger] call_gives(read, path, out)
                    &&& match out {
                        Ok(b) => r matches Ok(Some(l)) && l@ == sha256_label_spec(b@),
                        Err(m) => r matches Err(FileHookError::ReadError { path: p, source })
                            && p@ == path && source == m,
                    }
                },
        }
    }

    /// The digest recorded for the file at `path`, read through `read`:
    /// `sha256:<hex>` of its content, or none when digests are disabled (the
    /// file is then not read).
    pub fn compute_hash<R: Fn(&str) -> Result<Vec<u8>, String>>(&self, path: &str, read: &R) -> (r: Result<
        Option<String>,
        FileHookError,
    >)
        requires
            forall|s: &str| #[trigger] read.requires((s,)),
        ensures
            self.hash_gives(*read, path@, r),
    {
        match self.config.hash {
            HashAlgorithm::Sha256 => {
                let out = read(path);
                let ghost out0 = out;
                proof {
                    assert(call_gives(*read, path@, out0));
                }
                match out {
                    Ok(b) => Ok(Some(sha256_label(b.as_slice()))),
                    Err(m) => Err(FileHookError::ReadError { path: copy_string(path), source: m }),
                }
            },
            HashAlgorithm::Disabled => Ok(None),
        }
    }

    /// Copies `source` to `destination` through `copy`, which creates the
    /// destination's parent directory and refuses to overwrite anything
    /// there. A destination without a parent is an error.
    pub fn copy_to_artifact<C: Fn(&str, &str, &str) -> Result<(), CopyFailure>>(
        source: &str,
        destination: &str,
        copy: &C,
    ) -> (r: Result<(), FileHookError>)
        requires
            forall|a: &str, b: &str, c: &str| #[trigger] copy.requires((a, b, c)),
        ensures
            copy_stage(*copy, source@, destination@, r),
    {
        let parent_dir = match parent(destination) {
            Some(p) => p,
            None => {
                return Err(FileHookError::InvalidArtifactDestination { path: copy_string(destination) });
            },
        };
        let out = copy(source, parent_dir.as_str(), destination);
        let ghost out0 = out;
        proof {
            assert(copy_gives(*copy, source@, parent_dir@, destination@, out0));
        }
        let r = match out {
            Ok(()) => Ok(()),
            Err(CopyFailure::AlreadyExists) => Err(
                FileHookError::ArtifactDestinationExists { path: copy_string(destination) },
            ),
            Err(CopyFailure::Io(m)) => Err(FileHookError::Io(m)),
        };
        assert(parent_spec(destination@) == Some(parent_dir@));
        assert(copy_outcome(*copy, source@, destination@, out0, r));
        r
    }

    /// The record of a planned capture whose digest is `h`.
    pub open spec fn capture_record(&self, planned: PlannedFileCapture, h: Option<String>, r: Result<FileCapturedPerFile, FileHookError>) -> bool {
        r matches Ok(c) && c.path@ == planned.source@.path && opt_text(c.copied_path) == opt_text(planned.destination)
            && c.hash == h
    }

    /// What capturing `planned` may give once its file at `target` (the copy
    /// if there is one) is in place: its digest, then in `Move` mode the
    /// removal of the source.
    pub open spec fn hashed_gives<R: Fn(&str) -> Result<Vec<u8>, String>, X: Fn(&str) -> Result<(), String>>(
        &self,
        planned: PlannedFileCapture,
        target: Seq<char>,
        read: R,
        remove: X,
        r: Result<FileCapturedPerFile, FileHookError>,
    ) -> bool {
        exists|hr: Result<Option<String>, FileHookError>|
            #[trigger] self.hash_gives(read, target, hr) && match hr {
                Err(e) => r == Err::<FileCapturedPerFile, FileHookError>(e),
                Ok(h) => if self.mode() == CaptureMode::Move {
                    exists|out: Result<(), String>|
                        #[trigger] call_gives(remove, planned.source@.path, out) && match out {
                            Ok(()) => self.capture_record(planned, h, r),
                            Err(m) => r matches Err(FileHookError::RemoveMovedSource { path, source })
                                && path@ == planned.source@.path && source == m,
                        }
                } else {
                    self.capture_record(planned, h, r)
                },
            }
    }

    /// What capturing `planned` may give: the source is re-checked (its
    /// failure is the result), copied to its destination if it has one (its
    /// failure is the result), and the rest is as `hashed_gives` says.
    pub open spec fn capture_gives<
        M: Fn(&str) -> Result<EntryKind, String>,
        F: Fn(&str) -> Result<String, String>,
        C: Fn(&str, &str, &str) -> Result<(), CopyFailure>,
        R: Fn(&str) -> Result<Vec<u8>, String>,
        X: Fn(&str) -> Result<(), String>,
    >(
        &self,
        planned: PlannedFileCapture,
        metadata: M,
        canonicalize: F,
        copy: C,
        read: R,
        remove: X,
        r: Result<FileCapturedPerFile, FileHookError>,
    ) -> bool {
        exists|md: Result<EntryKind, String>, again: Result<ResolvedProjectPath, ProjectPathError>, rv: Result<String, FileHookError>|
            #[trigger] revalidation_step(metadata, canonicalize, planned.source@, md, again, rv) && match rv {
                Err(e) => r == Err::<FileCapturedPerFile, FileHookError>(e),
                Ok(_) => match planned.destination {
                    Some(d) => exists|cr: Result<(), FileHookError>|
                        #[trigger] copy_stage(copy, planned.source@.path, d@, cr) && match cr {
                            Err(e) => r == Err::<FileCapturedPerFile, FileHookError>(e),
                            Ok(()) => self.hashed_gives(planned, d@, read, remove, r),
                        },
                    None => self.hashed_gives(planned, planned.source@.path, read, remove, r),
                },
            }
    }

    /// Captures one planned file: re-checks the source, copies it to its
    /// destination (if it has one), records its digest (of the copy when
    /// there is one; a copy whose digest fails is removed again), and in
    /// `Move` mode removes the source.
    pub fn capture_file<
        M: Fn(&str) -> Result<EntryKind, String>,
        F: Fn(&str) -> Result<String, String>,
        C: Fn(&str, &str, &str) -> Result<(), CopyFailure>,
        R: Fn(&str) -> Result<Vec<u8>, String>,
        X: Fn(&str) -> Result<(), String>,
    >(
        &self,
        planned: &PlannedFileCapture,
        metadata: &M,
        canonicalize: &F,
        copy: &C,
        read: &R,
        remove: &X,
    ) -> (r: Result<FileCapturedPerFile, FileHookError>)
        requires
            forall|s: &str| #[trigger] metadata.requires((s,)),
            forall|s: &str| #[trigger] canonicalize.requires((s,)),
            forall|a: &str, b: &str, c: &str| #[trigger] copy.requires((a, b, c)),
            forall|s: &str| #[trigger] read.requires((s,)),
            forall|s: &str| #[trigger] remove.requires((s,)),
        ensures
            self.capture_gives(*planned, *metadata, *canonicalize, *copy, *read, *remove, r),
            r matches Ok(c) ==> {
                &&& c.path@ == planned.source@.path
                &&& match planned.destination {
                    Some(d) => c.copied_path matches Some(x) && x@ == d@,
                    None => c.copied_path is None,
                }
                &&& (c.hash is None <==> self.hash() == HashAlgorithm::Disabled)
                &&& self.mode() == CaptureMode::Move ==> exists|out: Result<(), String>|
                    out is Ok && #[trigger] call_gives(*remove, planned.source@.path, out)
            },
    {
        let ghost src = planned.source@.path;
        let checked = Self::revalidate_source(&planned.source, metadata, canonicalize);
        let ghost rv0 = checked;
        let ghost (md0, again0) = choose|md: Result<EntryKind, String>, again: Result<ResolvedProjectPath, ProjectPathError>|
            #[trigger] revalidation_step(*metadata, *canonicalize, planned.source@, md, again, rv0);
        assert(revalidation_step(*metadata, *canonicalize, planned.source@, md0, again0, rv0));
        let path = match checked {
            Ok(p) => p,
            Err(e) => {
                assert(self.capture_gives(*planned, *metadata, *canonicalize, *copy, *read, *remove, Err(e)));
                return Err(e);
            },
        };
        assert(path@ == src);
        let ghost mut cr0: Result<(), FileHookError> = Ok(());
        let copied_path = match &planned.destination {
            Some(destination) => {
                let cr = Self::copy_to_artifact(path.as_str(), destination.as_str(), copy);
                proof {
                    cr0 = cr;
                    assert(copy_stage(*copy, src, destination@, cr0));
                }
                match cr {
                    Ok(()) => {},
                    Err(e) => {
                        assert(self.capture_gives(*planned, *metadata, *canonicalize, *copy, *read, *remove, Err(e)));
                        return Err(e);
                    },
                }
                Some(copy_string(destination.as_str()))
            },
            None => None,
        };
        assert(opt_text(copied_path) == opt_text(planned.destination));
        let target = match &copied_path {
            Some(d) => d.as_str(),
            None => path.as_str(),
        };
        let ghost tgt = target@;
        assert(tgt == match planned.destination {
            Some(d) => d@,
            None => src,
        });
        let hashed = self.compute_hash(target, read);
        let ghost hr0 = hashed;
        assert(self.hash_gives(*read, tgt, hr0));
        let hash = match hashed {
            Ok(h) => h,
            Err(e) => {
                match &copied_path {
                    Some(d) => {
                        let _ = remove(d.as_str());
                    },
                    None => {},
                }
                proof {
                    assert(self.hashed_gives(*planned, tgt, *read, *remove, Err(e)));
                    assert(self.capture_gives(*planned, *metadata, *canonicalize, *copy, *read, *remove, Err(e)));
                }
                return Err(e);
            },
        };
        assert(hash is None <==> self.hash() == HashAlgorithm::Disabled);
        let ghost mut removed_out: Result<(), String> = Ok(());
        match self.config.mode {
            CaptureMode::Move => {
                let removed = remove(path.as_str());
                let ghost removed0 = removed;
                proof {
                    removed_out = removed;
                    assert(call_gives(*remove, src, removed0));
                }
                match removed {
                    Ok(()) => {
                        assert(removed0 is Ok && call_gives(*remove, planned.source@.path, removed0));
                    },
                    Err(m) => {
                        let e = FileHookError::RemoveMovedSource { path: copy_string(path.as_str()), source: m };
                        proof {
                            assert(self.hashed_gives(*planned, tgt, *read, *remove, Err(e)));
                            assert(self.capture_gives(*planned, *metadata, *canonicalize, *copy, *read, *remove, Err(e)));
                        }
                        return Err(e);
                    },
                }
            },
            _ => {},
        }
        let c = FileCapturedPerFile { path, copied_path, hash };
        let r: Result<FileCapturedPerFile, FileHookError> = Ok(c);
        proof {
            assert(self.capture_record(*planned, hash, r));
            if self.mode() == CaptureMode::Move {
                assert(call_gives(*remove, src, removed_out));
            }
            assert(self.hashed_gives(*planned, tgt, *read, *remove, r));
            assert(self.capture_gives(*planned, *metadata, *canonicalize, *copy, *read, *remove, r));
        }
        assert(c.path@ == planned.source@.path);
        assert(match planned.destination {
            Some(d) => c.copied_path matches Some(x) && x@ == d@,
            None => c.copied_path is None,
        });
        r
    }
}

/// The checked capture plan of one run: each matched file with its
/// destination, no destination planned twice. Only `FileHook::plan` makes
/// one, so holding a plan means every check of the run has passed.
#[derive(Debug)]
pub struct FilePlan {
    plans: Vec<PlannedFileCapture>,
}

impl FilePlan {
    /// The planned captures, in walk order.
    pub closed spec fn planned(&self) -> Seq<PlannedFileCapture> {
        self.plans@
    }

    /// No two planned captures share a destination.
    #[verifier::type_invariant]
    spec fn destinations_distinct(self) -> bool {
        forall|j: int, k: int| 0 <= j < k < self.plans@.len() && self.plans@[j].destination is Some
            ==> self.plans@[j].destination->Some_0@ != self.plans@[k].destination->Some_0@
    }

    /// How many files the plan captures.
    pub fn len(&self) -> (n: usize)
        ensures
            n == self.planned().len(),
    {
        self.plans.len()
    }
}

impl FileHook {
    /// Whether `pl` plans the capture of the walked path `taken` into
    /// `artifact_dir`: its source is what `taken` resolves to, and its
    /// destination is where that lands (none when only recording).
    pub open spec fn planned_entry<F: Fn(&str) -> Result<String, String>>(
        &self,
        taken: Seq<char>,
        canonicalize: F,
        artifact_dir: Seq<char>,
        pl: PlannedFileCapture,
    ) -> bool {
        exists|rp: ResolvedProjectPath|
            #[trigger] ResolvedProjectPath::resolve_spec(taken, self.root(), canonicalize, Ok(rp))
            && pl.source@ == rp@ && match pl.destination {
                None => self.mode() == CaptureMode::Skip,
                Some(d) => d@ == destination_spec(rp@.path, self.root(), artifact_dir),
            }
    }

    /// What planning a run may give: without an artifact directory it is
    /// refused; otherwise the walked entries give the matching files (or the
    /// error), and the files are planned (or the error).
    pub open spec fn plan_gives<F: Fn(&str) -> Result<String, String>, G: Fn(&str) -> DestinationProbe>(
        &self,
        artifact_dir: Option<Seq<char>>,
        entries: Seq<Result<WalkEntry, String>>,
        canonicalize: F,
        probe: G,
        r: Result<FilePlan, FileHookError>,
    ) -> bool {
        if artifact_dir is None {
            r matches Err(FileHookError::ArtifactDirMissing)
        } else {
            exists|wr: Result<Vec<ResolvedProjectPath>, FileHookError>|
                #[trigger] self.matching_gives(entries, canonicalize, wr) && match wr {
                    Err(e) => r == Err::<FilePlan, FileHookError>(e),
                    Ok(_) => exists|pr: Result<Vec<PlannedFileCapture>, FileHookError>|
                        #[trigger] self.planning_gives(wr->Ok_0@, artifact_dir->Some_0, probe, pr) && match pr {
                            Err(e) => r == Err::<FilePlan, FileHookError>(e),
                            Ok(ps) => r matches Ok(p) && p.planned() == ps@,
                        },
                }
        }
    }

    /// What carrying out the planned captures `planned` may give: every
    /// plan is captured in order (the result holds each capture) or, after
    /// the plans before it were captured, one of them fails (its error is
    /// the result).
    pub open spec fn applied_gives<
        M: Fn(&str) -> Result<EntryKind, String>,
        F: Fn(&str) -> Result<String, String>,
        C: Fn(&str, &str, &str) -> Result<(), CopyFailure>,
        R: Fn(&str) -> Result<Vec<u8>, String>,
        X: Fn(&str) -> Result<(), String>,
    >(
        &self,
        planned: Seq<PlannedFileCapture>,
        metadata: M,
        canonicalize: F,
        copy: C,
        read: R,
        remove: X,
        r: Result<FileCaptured, FileHookError>,
    ) -> bool {
        match r {
            Ok(c) => c.files.len() == planned.len() && forall|j: int|
                0 <= j < c.files.len() ==> #[trigger] self.capture_gives(
                    planned[j],
                    metadata,
                    canonicalize,
                    copy,
                    read,
                    remove,
                    Ok::<FileCapturedPerFile, FileHookError>(c.files@[j]),
                ),
            Err(e) => exists|done: Seq<FileCapturedPerFile>|
                {
                    &&& done.len() < planned.len()
                    &&& forall|j: int| 0 <= j < done.len() ==> #[trigger] self.capture_gives(
                        planned[j],
                        metadata,
                        canonicalize,
                        copy,
                        read,
                        remove,
                        Ok::<FileCapturedPerFile, FileHookError>(done[j]),
                    )
                    &&& #[trigger] self.capture_gives(
                        planned[done.len() as int],
                        metadata,
                        canonicalize,
                        copy,
                        read,
                        remove,
                        Err::<FileCapturedPerFile, FileHookError>(e),
                    )
                },
        }
    }

    /// Plans the capture of every file that matches the glob into
    /// `artifact_dir`: the walked `entries` (walked as `walk_plan` says, in
    /// file-name order) give the matches, and each match gets its
    /// destination. Every check of the run is made here, before anything is
    /// copied or moved: planning is given no closure that copies, removes or
    /// writes, so a refused run leaves every file and the artifact directory
    /// as they were.
    pub fn plan<F: Fn(&str) -> Result<String, String>, G: Fn(&str) -> DestinationProbe>(
        &self,
        artifact_dir: Option<&str>,
        entries: &Vec<Result<WalkEntry, String>>,
        canonicalize: &F,
        probe: &G,
    ) -> (r: Result<FilePlan, FileHookError>)
        requires
            forall|s: &str| #[trigger] canonicalize.requires((s,)),
            forall|s: &str| #[trigger] probe.requires((s,)),
        ensures
            self.plan_gives(opt_str(artifact_dir), entries@, *canonicalize, *probe, r),
            artifact_dir is None ==> r matches Err(FileHookError::ArtifactDirMissing),
            r matches Ok(p) ==> artifact_dir is Some && p.planned().len() == taken_paths(
                self.root(),
                self.glob().pattern,
                entries@,
            ).len(),
            r matches Ok(p) ==> forall|j: int| 0 <= j < p.planned().len() ==> #[trigger] self.planned_entry(
                taken_paths(self.root(), self.glob().pattern, entries@)[j],
                *canonicalize,
                artifact_dir->Some_0@,
                p.planned()[j],
            ),
    {
        let dir = match artifact_dir {
            Some(d) => d,
            None => {
                return Err(FileHookError::ArtifactDirMissing);
            },
        };
        let walked = self.walk_matching_files(entries, canonicalize);
        let ghost wr0 = walked;
        let matching = match walked {
            Ok(m) => m,
            Err(e) => {
                assert(self.plan_gives(opt_str(artifact_dir), entries@, *canonicalize, *probe, Err(e)));
                return Err(e);
            },
        };
        let ghost matched = matching@;
        let planned = self.plan_captures(matching, dir, probe);
        let ghost pr0 = planned;
        proof {
            assert(self.matching_gives(entries@, *canonicalize, wr0));
            assert(wr0->Ok_0@ == matched);
            assert(opt_str(artifact_dir)->Some_0 == dir@);
            assert(self.planning_gives(wr0->Ok_0@, opt_str(artifact_dir)->Some_0, *probe, pr0));
        }
        match planned {
            Ok(plans) => {
                let p = FilePlan { plans };
                proof {
                    let taken = taken_paths(self.root(), self.glob().pattern, entries@);
                    assert forall|j: int| 0 <= j < p.planned().len() implies #[trigger] self.planned_entry(
                        taken[j],
                        *canonicalize,
                        dir@,
                        p.planned()[j],
                    ) by {
                        assert(ResolvedProjectPath::resolve_spec(taken[j], self.root(), *canonicalize, Ok(matched[j])));
                    }
                }
                assert(self.plan_gives(opt_str(artifact_dir), entries@, *canonicalize, *probe, Ok(p)));
                Ok(p)
            },
            Err(e) => {
                assert(self.plan_gives(opt_str(artifact_dir), entries@, *canonicalize, *probe, Err(e)));
                Err(e)
            },
        }
    }

    /// Carries out a checked plan: each planned file is captured in turn
    /// (copied or moved to its destination, and its digest taken); the first
    /// failure stops the run.
    pub fn run<
        M: Fn(&str) -> Result<EntryKind, String>,
        F: Fn(&str) -> Result<String, String>,
        C: Fn(&str, &str, &str) -> Result<(), CopyFailure>,
        R: Fn(&str) -> Result<Vec<u8>, String>,
        X: Fn(&str) -> Result<(), String>,
    >(
        &self,
        plan: FilePlan,
        metadata: &M,
        canonicalize: &F,
        copy: &C,
        read: &R,
        remove: &X,
    ) -> (r: Result<FileCaptured, FileHookError>)
        requires
            forall|s: &str| #[trigger] metadata.requires((s,)),
            forall|s: &str| #[trigger] canonicalize.requires((s,)),
            forall|a: &str, b: &str, c: &str| #[trigger] copy.requires((a, b, c)),
            forall|s: &str| #[trigger] read.requires((s,)),
            forall|s: &str| #[trigger] remove.requires((s,)),
        ensures
            self.applied_gives(plan.planned(), *metadata, *canonicalize, *copy, *read, *remove, r),
            r matches Ok(c) ==> forall|j: int| 0 <= j < c.files.len() ==> (#[trigger] c.files@[j]).path@
                == plan.planned()[j].source@.path && opt_text(c.files@[j].copied_path) == opt_text(
                plan.planned()[j].destination,
            ),
            r matches Ok(c) ==> forall|j: int, k: int|
                0 <= j < k < c.files.len() && (#[trigger] c.files@[j]).copied_path is Some ==> opt_text(
                    c.files@[j].copied_path,
                ) != opt_text((#[trigger] c.files@[k]).copied_path),
    {
        proof {
            use_type_invariant(&plan);
        }
        let ghost planned = plan.planned();
        let plans = plan.plans;
        let mut files: Vec<FileCapturedPerFile> = Vec::new();
        let mut i: usize = 0;
        while i < plans.len()
            invariant
                plans@ == planned,
                planned == plan.planned(),
                i <= plans.len(),
                files.len() == i,
                forall|s: &str| #[trigger] metadata.requires((s,)),
                forall|s: &str| #[trigger] canonicalize.requires((s,)),
                forall|a: &str, b: &str, c: &str| #[trigger] copy.requires((a, b, c)),
                forall|s: &str| #[trigger] read.requires((s,)),
                forall|s: &str| #[trigger] remove.requires((s,)),
                forall|j: int, k: int| 0 <= j < k < plans@.len() && plans@[j].destination is Some
                    ==> plans@[j].destination->Some_0@ != plans@[k].destination->Some_0@,
                forall|j: int| 0 <= j < i ==> (#[trigger] files@[j]).path@ == plans@[j].source@.path
                    && opt_text(files@[j].copied_path) == opt_text(plans@[j].destination),
                forall|j: int| 0 <= j < i ==> #[trigger] self.capture_gives(
                    plans@[j],
                    *metadata,
                    *canonicalize,
                    *copy,
                    *read,
                    *remove,
                    Ok::<FileCapturedPerFile, FileHookError>(files@[j]),
                ),
            decreases plans.len() - i,
        {
            let f = match self.capture_file(&plans[i], metadata, canonicalize, copy, read, remove) {
                Ok(f) => f,
                Err(e) => {
                    proof {
                        assert(self.capture_gives(plans@[i as int], *metadata, *canonicalize, *copy, *read, *remove, Err::<FileCapturedPerFile, FileHookError>(e)));
                        assert(files@.len() == i);
                    }
                    assert(self.applied_gives(planned, *metadata, *canonicalize, *copy, *read, *remove, Err(e)));
                    return Err(e);
                },
            };
            files.push(f);
            i = i + 1;
        }
        let c = FileCaptured { files };
        proof {
            assert forall|j: int, k: int|
                0 <= j < k < c.files.len() && (#[trigger] c.files@[j]).copied_path is Some implies opt_text(
                    c.files@[j].copied_path,
                ) != opt_text((#[trigger] c.files@[k]).copied_path) by {
                assert(plans@[j].destination is Some);
                assert(plans@[j].destination->Some_0@ != plans@[k].destination->Some_0@);
            }
        }
        assert(self.applied_gives(planned, *metadata, *canonicalize, *copy, *read, *remove, Ok(c)));
        Ok(c)
    }
}

impl FileHookError {
    /// The message this error displays.
    pub open spec fn message_spec(&self) -> Seq<char> {
        match self {
            FileHookError::FileNotFound { path } => "File not found: "@ + path@,
            FileHookError::NoFilesMatched { pattern } => "No files matched the pattern: "@ + pattern@,
            FileHookError::InvalidPattern { pos, msg } => "Invalid glob pattern: Pattern syntax error near position "@ + nat_decimal(*pos as nat) + ": "@ + msg@,
            FileHookError::NonRelativePattern { pattern } => "Glob pattern must be relative to the project root: "@ + pattern@,
            FileHookError::ParentTraversalPattern { pattern } => "Glob pattern cannot contain parent traversal ('..'): "@ + pattern@,
            FileHookError::WalkedPathOutsideProject { path, project_root } => "Walked path '"@ + path@ + "' is outside project root '"@ + project_root@ + "'"@,
            FileHookError::SymlinkNotAllowed { path } => "Refusing to capture symbolic link: "@ + path@,
            FileHookError::SourceNotRegularFile { path } => "Capture source is no longer a regular file: "@ + path@,
            FileHookError::SourcePathChanged { path, resolved } => "Capture source '"@ + path@ + "' changed to resolve as '"@ + resolved@ + "'"@,
            FileHookError::ProjectPath(e) => e.message_spec(),
            FileHookError::Walk(e) => "Failed to walk project files: "@ + e@,
            FileHookError::RunDirNotSet => "Run directory is not set"@,
            FileHookError::InvalidRunDir { path } => "Invalid run directory: "@ + path@,
            FileHookError::InvalidArtifactDestination { path } => "Artifact destination has no parent directory: "@ + path@,
            FileHookError::ArtifactDestinationExists { path } => "Refusing to overwrite existing artifact destination: "@ + path@,
            FileHookError::RemoveMovedSource { path, source } => "Failed to remove moved source "@ + path@ + ": "@ + source@,
            FileHookError::ArtifactDirMissing => "capture-file hook requires an artifact directory but none was provided"@,
            FileHookError::ReadError { path, source } => "Failed to read file "@ + path@ + ": "@ + source@,
            FileHookError::HashError { path, message } => "Failed to compute hash for "@ + path@ + ": "@ + message@,
            FileHookError::Serialization(e) => "Failed to serialize file hook: "@ + e@,
            FileHookError::Io(e) => e@,
        }
    }

    /// The message this error displays.
    pub fn message(&self) -> (m: String)
        ensures
            m@ == self.message_spec(),
    {
        let mut m = String::new();
        match self {
            FileHookError::FileNotFound { path } => {
                push_str(&mut m, "File not found: ");
                push_str(&mut m, path.as_str());
            },
            FileHookError::NoFilesMatched { pattern } => {
                push_str(&mut m, "No files matched the pattern: ");
                push_str(&mut m, pattern.as_str());
            },
            FileHookError::InvalidPattern { pos, msg } => {
                push_str(&mut m, "Invalid glob pattern: Pattern syntax error near position ");
                let d = u64_to_decimal(*pos as u64);
                push_str(&mut m, d.as_str());
                push_str(&mut m, ": ");
                push_str(&mut m, msg.as_str());
            },
            FileHookError::NonRelativePattern { pattern } => {
                push_str(&mut m, "Glob pattern must be relative to the project root: ");
                push_str(&mut m, pattern.as_str());
            },
            FileHookError::ParentTraversalPattern { pattern } => {
                push_str(&mut m, "Glob pattern cannot contain parent traversal ('..'): ");
                push_str(&mut m, pattern.as_str());
            },
            FileHookError::WalkedPathOutsideProject { path, project_root } => {
                push_str(&mut m, "Walked path '");
                push_str(&mut m, path.as_str());
                push_str(&mut m, "' is outside project root '");
                push_str(&mut m, project_root.as_str());
                push_str(&mut m, "'");
            },
            FileHookError::SymlinkNotAllowed { path } => {
                push_str(&mut m, "Refusing to capture symbolic link: ");
                push_str(&mut m, path.as_str());
            },
            FileHookError::SourceNotRegularFile { path } => {
                push_str(&mut m, "Capture source is no longer a regular file: ");
                push_str(&mut m, path.as_str());
            },
            FileHookError::SourcePathChanged { path, resolved } => {
                push_str(&mut m, "Capture source '");
                push_str(&mut m, path.as_str());
                push_str(&mut m, "' changed to resolve as '");
                push_str(&mut m, resolved.as_str());
                push_str(&mut m, "'");
            },
            FileHookError::ProjectPath(e) => {
                let t = e.message();
                push_str(&mut m, t.as_str());
            },
            FileHookError::Walk(e) => {
                push_str(&mut m, "Failed to walk project files: ");
                push_str(&mut m, e.as_str());
            },
            FileHookError::RunDirNotSet => {
                push_str(&mut m, "Run directory is not set");
            },
            FileHookError::InvalidRunDir { path } => {
                push_str(&mut m, "Invalid run directory: ");
                push_str(&mut m, path.as_str());
            },
            FileHookError::InvalidArtifactDestination { path } => {
                push_str(&mut m, "Artifact destination has no parent directory: ");
                push_str(&mut m, path.as_str());
            },
            FileHookError::ArtifactDestinationExists { path } => {
                push_str(&mut m, "Refusing to overwrite existing artifact destination: ");
                push_str(&mut m, path.as_str());
            },
            FileHookError::RemoveMovedSource { path, source } => {
                push_str(&mut m, "Failed to remove moved source ");
                push_str(&mut m, path.as_str());
                push_str(&mut m, ": ");
                push_str(&mut m, source.as_str());
            },
            FileHookError::ArtifactDirMissing => {
                push_str(&mut m, "capture-file hook requires an artifact directory but none was provided");
            },
            FileHookError::ReadError { path, source } => {
                push_str(&mut m, "Failed to read file ");
                push_str(&mut m, path.as_str());
                push_str(&mut m, ": ");
                push_str(&mut m, source.as_str());
            },
            FileHookError::HashError { path, message } => {
                push_str(&mut m, "Failed to compute hash for ");
                push_str(&mut m, path.as_str());
                push_str(&mut m, ": ");
                push_str(&mut m, message.as_str());
            },
            FileHookError::Serialization(e) => {
                push_str(&mut m, "Failed to serialize file hook: ");
                push_str(&mut m, e.as_str());
            },
            FileHookError::Io(e) => {
                push_str(&mut m, e.as_str());
            },
        }
        m
    }

    /// The error as the library-wide error: a failure of `capture-file`.
    pub fn into_capsula(self) -> (e: CapsulaError)
        ensures
            e matches CapsulaError::HookFailed { hook, message } && hook@ == "capture-file"@ && message@ == self.message_spec(),
    {
        let message = self.message();
        CapsulaError::HookFailed { hook: copy_string("capture-file"), message }
    }
}

} // verus!
