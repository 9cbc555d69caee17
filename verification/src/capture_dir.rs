//! The `capture-dir` hook: a snapshot of one directory tree, copied or moved
//! into the run's artifact directory.

use vstd::prelude::*;
use crate::hook::CapsulaError;
use crate::text::{copy_string, opt_str, opt_text, push_str};
use crate::capture_file::{call_gives, CaptureMode, EntryKind, HashAlgorithm};
use crate::digest::{sha256_label, sha256_label_spec};
use crate::path::{
    components, file_name, file_name_spec, is_absolute, is_absolute_spec, join, join_spec,
    parent, parent_spec, path_starts_with, starts_with, strip_prefix, strip_prefix_spec,
};
use crate::path_order::{lemma_path_lt_irreflexive, lemma_path_lt_transitive, path_less, path_lt, sort_paths, paths_sorted, texts_of};

verus! {

/// Configuration of the `capture-dir` hook.
#[derive(Debug)]
pub struct DirHookConfig {
    /// The directory, relative to the project root unless absolute.
    pub path: String,
    pub mode: CaptureMode,
    pub hash: HashAlgorithm,
}

/// The `capture-dir` hook.
#[derive(Debug)]
pub struct DirHook {
    pub config: DirHookConfig,
}

/// One regular file of the snapshot.
#[derive(Debug)]
pub struct SourceFile {
    pub path: String,
    pub relative_path: String,
}

/// The directories and files under the captured directory, each in path
/// order, relative to it.
#[derive(Debug)]
pub struct DirectorySnapshot {
    pub directories: Vec<String>,
    pub files: Vec<SourceFile>,
}

/// One captured file.
#[derive(Debug)]
pub struct DirCapturedFile {
    pub path: String,
    pub relative_path: String,
    pub captured_path: Option<String>,
    pub hash: Option<String>,
}

/// What the `capture-dir` hook captures.
#[derive(Debug)]
pub struct DirCaptured {
    pub path: String,
    pub captured_path: Option<String>,
    pub directories: Vec<String>,
    pub files: Vec<DirCapturedFile>,
}

/// Errors of the `capture-dir` hook.
#[derive(Debug)]
pub enum DirHookError {
    DirectoryNotFound { path: String },
    NotADirectory { path: String },
    ResolveDirectory { path: String, message: String },
    InvalidDirectoryName { path: String },
    ArtifactDirMissing,
    DestinationInsideSource { source_dir: String, destination: String },
    DestinationAlreadyExists { path: String },
    StripPrefix { path: String, base: String },
    Io(String),
    Serialization(String),
}

/// Why canonicalizing a path failed.
#[derive(Debug)]
pub enum CanonFailure {
    NotFound,
    Other(String),
}

/// The path to resolve for a configured directory.
pub open spec fn configured_dir_path(project_root: Seq<char>, configured: Seq<char>) -> Seq<char> {
    if is_absolute_spec(configured) {
        configured
    } else {
        join_spec(project_root, configured)
    }
}

/// What checking the canonical path `canonical` gives: it is the directory,
/// or it is not a directory.
pub open spec fn dir_check<D: Fn(&str) -> bool>(is_dir: D, canonical: Seq<char>, r: Result<String, DirHookError>) -> bool {
    ||| (call_gives(is_dir, canonical, true) && (r matches Ok(d) && d@ == canonical))
    ||| (call_gives(is_dir, canonical, false) && (r matches Err(DirHookError::NotADirectory { path })
        && path@ == canonical))
}

/// One possible course of resolving the directory at `path`: canonicalizing
/// it gave `c`, and the result was `r`.
pub open spec fn dir_resolution<F: Fn(&str) -> Result<String, CanonFailure>, D: Fn(&str) -> bool>(
    canonicalize: F,
    is_dir: D,
    path: Seq<char>,
    c: Result<String, CanonFailure>,
    r: Result<String, DirHookError>,
) -> bool {
    &&& call_gives(canonicalize, path, c)
    &&& match c {
        Err(CanonFailure::NotFound) => r matches Err(DirHookError::DirectoryNotFound { path: p })
            && p@ == path,
        Err(CanonFailure::Other(m)) => r matches Err(DirHookError::ResolveDirectory { path: p, message })
            && p@ == path && message == m,
        Ok(canonical) => dir_check(is_dir, canonical@, r),
    }
}

impl DirHook {
    /// The hook with the given configuration.
    pub fn from_config(config: DirHookConfig) -> (h: Self)
        ensures
            h.config == config,
    {
        DirHook { config }
    }

    /// The hook's configuration.
    pub fn config(&self) -> (c: &DirHookConfig)
        ensures
            *c == self.config,
    {
        &self.config
    }

    /// The hook needs an artifact directory unless it only records.
    pub fn needs_artifact_dir(&self) -> (r: bool)
        ensures
            r == (self.config.mode != CaptureMode::Skip),
    {
        match self.config.mode {
            CaptureMode::Skip => false,
            _ => true,
        }
    }

    /// The canonical directory to capture: the configured path (under the
    /// project root unless absolute), canonicalized; it must exist and be a
    /// directory.
    pub fn resolve_existing_directory<F: Fn(&str) -> Result<String, CanonFailure>, D: Fn(&str) -> bool>(
        project_root: &str,
        configured_path: &str,
        canonicalize: &F,
        is_dir: &D,
    ) -> (r: Result<String, DirHookError>)
        requires
            forall|s: &str| #[trigger] canonicalize.requires((s,)),
            forall|s: &str| #[trigger] is_dir.requires((s,)),
        ensures
            exists|c: Result<String, CanonFailure>|
                #[trigger] dir_resolution(
                    *canonicalize,
                    *is_dir,
                    configured_dir_path(project_root@, configured_path@),
                    c,
                    r,
                ),
    {
        let path = if is_absolute(configured_path) {
            copy_string(configured_path)
        } else {
            join(project_root, configured_path)
        };
        let c = canonicalize(path.as_str());
        let ghost c0 = c;
        proof {
            assert(call_gives(*canonicalize, path@, c0));
        }
        let ghost p0 = path@;
        assert(p0 == configured_dir_path(project_root@, configured_path@));
        let r = match c {
            Err(CanonFailure::NotFound) => Err(DirHookError::DirectoryNotFound { path }),
            Err(CanonFailure::Other(m)) => Err(DirHookError::ResolveDirectory { path, message: m }),
            Ok(canonical) => {
                let d = is_dir(canonical.as_str());
                proof {
                    assert(call_gives(*is_dir, canonical@, d));
                }
                if d {
                    Ok(canonical)
                } else {
                    Err(DirHookError::NotADirectory { path: canonical })
                }
            },
        };
        assert(dir_resolution(*canonicalize, *is_dir, p0, c0, r));
        r
    }

    /// Where the directory is captured: `<artifact dir>/<directory name>`
    /// when copying or moving, nowhere when only recording.
    pub fn destination_root(&self, source_dir: &str, artifact_dir: Option<&str>) -> (r: Result<
        Option<String>,
        DirHookError,
    >)
        ensures
            self.config.mode == CaptureMode::Skip ==> r == Ok::<Option<String>, DirHookError>(None),
            self.config.mode != CaptureMode::Skip ==> match artifact_dir {
                None => r matches Err(DirHookError::ArtifactDirMissing),
                Some(a) => match file_name_spec(source_dir@) {
                    None => r matches Err(DirHookError::InvalidDirectoryName { path }) && path@ == source_dir@,
                    Some(n) => r matches Ok(Some(d)) && d@ == join_spec(a@, n),
                },
            },
    {
        match self.config.mode {
            CaptureMode::Skip => Ok(None),
            _ => {
                let a = match artifact_dir {
                    Some(a) => a,
                    None => {
                        return Err(DirHookError::ArtifactDirMissing);
                    },
                };
                match file_name(source_dir) {
                    Some(n) => Ok(Some(join(a, n.as_str()))),
                    None => Err(DirHookError::InvalidDirectoryName { path: copy_string(source_dir) }),
                }
            },
        }
    }
}

/// Whether path `p` lies under `source` but is not `source` itself.
pub open spec fn strictly_under(p: Seq<char>, source: Seq<char>) -> bool {
    path_starts_with(p, source) && components(p) != components(source)
}

/// Whether `ex` may be the roots left out of a snapshot of `source`: at most
/// the run directory and the artifact directory, each as canonicalizing it
/// gave, and each strictly inside `source`.
pub open spec fn excluded_ok<F: Fn(&str) -> Result<String, String>>(
    source: Seq<char>,
    run_dir: Seq<char>,
    artifact_dir: Option<Seq<char>>,
    canonicalize: F,
    ex: Seq<String>,
) -> bool {
    &&& ex.len() <= 2
    &&& forall|k: int| 0 <= k < ex.len() ==> strictly_under((#[trigger] ex[k])@, source)
    &&& forall|k: int| 0 <= k < ex.len() ==> (call_gives(canonicalize, run_dir, Ok::<String, String>(#[trigger] ex[k]))
        || (artifact_dir is Some && call_gives(canonicalize, artifact_dir->Some_0, Ok::<String, String>(ex[k]))))
}

/// What a canonicalization outcome `c` contributes to the roots left out of
/// a snapshot of `source`: the canonical path when it lies strictly inside
/// `source`, nothing otherwise (or when canonicalizing failed).
pub open spec fn kept_root(source: Seq<char>, c: Result<String, String>) -> Seq<String> {
    match c {
        Ok(p) => if strictly_under(p@, source) {
            seq![p]
        } else {
            seq![]
        },
        Err(_) => seq![],
    }
}

/// The roots left out of a snapshot of `source`, for some outcome of
/// canonicalizing the run directory and (when there is one) the artifact
/// directory: what each outcome contributes, the run directory first.
pub open spec fn excluded_gives<F: Fn(&str) -> Result<String, String>>(
    source: Seq<char>,
    run_dir: Seq<char>,
    artifact_dir: Option<Seq<char>>,
    canonicalize: F,
    ex: Seq<String>,
) -> bool {
    exists|c1: Result<String, String>|
        #[trigger] call_gives(canonicalize, run_dir, c1) && if artifact_dir is None {
            ex == kept_root(source, c1)
        } else {
            exists|c2: Result<String, String>|
                #[trigger] call_gives(canonicalize, artifact_dir->Some_0, c2) && ex == kept_root(source, c1)
                    + kept_root(source, c2)
        }
}

/// The run and artifact directories, canonicalized where that works, that
/// lie strictly inside the captured directory: the snapshot leaves them out.
pub fn excluded_roots<F: Fn(&str) -> Result<String, String>>(
    source_dir: &str,
    run_dir: &str,
    artifact_dir: Option<&str>,
    canonicalize: &F,
) -> (r: Vec<String>)
    requires
        forall|s: &str| #[trigger] canonicalize.requires((s,)),
    ensures
        excluded_ok(source_dir@, run_dir@, opt_str(artifact_dir), *canonicalize, r@),
        excluded_gives(source_dir@, run_dir@, opt_str(artifact_dir), *canonicalize, r@),
{
    let mut r: Vec<String> = Vec::new();
    let c = canonicalize(run_dir);
    let ghost c0 = c;
    proof {
        assert(call_gives(*canonicalize, run_dir@, c0));
    }
    match c {
        Ok(p) => {
            if under_but_not(p.as_str(), source_dir) {
                r.push(p);
            }
        },
        Err(_) => {},
    }
    assert(r@ =~= kept_root(source_dir@, c0));
    let ghost first = r@;
    match artifact_dir {
        Some(a) => {
            let c = canonicalize(a);
            let ghost c1 = c;
            proof {
                assert(call_gives(*canonicalize, a@, c1));
            }
            match c {
                Ok(p) => {
                    if under_but_not(p.as_str(), source_dir) {
                        r.push(p);
                    }
                },
                Err(_) => {},
            }
            assert(r@ =~= first + kept_root(source_dir@, c1));
            assert(call_gives(*canonicalize, a@, c1));
            assert(opt_str(artifact_dir)->Some_0 == a@);
            assert(call_gives(*canonicalize, run_dir@, c0));
            assert(excluded_gives(source_dir@, run_dir@, opt_str(artifact_dir), *canonicalize, r@));
        },
        None => {
            assert(call_gives(*canonicalize, run_dir@, c0));
            assert(excluded_gives(source_dir@, run_dir@, opt_str(artifact_dir), *canonicalize, r@));
        },
    }
    r
}

/// Whether `p` lies strictly under `source`.
fn under_but_not(p: &str, source: &str) -> (r: bool)
    ensures
        r == strictly_under(p@, source@),
{
    if !starts_with(p, source) {
        return false;
    }
    !same_path(p, source)
}

/// Whether two paths have the same components.
pub fn same_path(a: &str, b: &str) -> (r: bool)
    ensures
        r == (components(a@) == components(b@)),
{
    let less = path_less(a, b);
    let more = path_less(b, a);
    proof {
        crate::path_order::lemma_path_lt_total(a@, b@);
        if components(a@) == components(b@) {
            lemma_path_lt_irreflexive(a@);
        }
    }
    !less && !more
}

/// Whether `p` lies under one of the excluded roots.
pub open spec fn is_excluded_spec(p: Seq<char>, excluded: Seq<String>) -> bool {
    exists|k: int| 0 <= k < excluded.len() && path_starts_with(p, (#[trigger] excluded[k])@)
}

/// Whether `path` lies under one of the excluded roots; the walk neither
/// records nor enters such a path.
pub fn is_excluded(path: &str, excluded: &Vec<String>) -> (r: bool)
    ensures
        r == is_excluded_spec(path@, excluded@),
{
    let mut k: usize = 0;
    while k < excluded.len()
        invariant
            k <= excluded.len(),
            forall|j: int| 0 <= j < k ==> !path_starts_with(path@, (#[trigger] excluded@[j])@),
        decreases excluded.len() - k,
    {
        if starts_with(path, excluded[k].as_str()) {
            return true;
        }
        k = k + 1;
    }
    false
}

/// The entries of one listed directory that the walk records, in listing
/// order: those that lie under no excluded root.
pub open spec fn walk_kept(listing: Seq<(String, EntryKind)>, excluded: Seq<String>) -> Seq<(Seq<char>, EntryKind)>
    decreases listing.len(),
{
    if listing.len() == 0 {
        seq![]
    } else {
        let prev = walk_kept(listing.drop_last(), excluded);
        let e = listing.last();
        if is_excluded_spec(e.0@, excluded) {
            prev
        } else {
            prev.push((e.0@, e.1))
        }
    }
}

/// The directories the walk enters next: the recorded entries that are
/// directories, in order.
pub open spec fn walk_entered(kept: Seq<(Seq<char>, EntryKind)>) -> Seq<Seq<char>>
    decreases kept.len(),
{
    if kept.len() == 0 {
        seq![]
    } else {
        let prev = walk_entered(kept.drop_last());
        if kept.last().1 == EntryKind::Dir {
            prev.push(kept.last().0)
        } else {
            prev
        }
    }
}

/// One step of walking a directory tree: given the entries listed in one
/// directory, the entries to record (those under no excluded root) and the
/// directories to enter next (the recorded directories). The walk records
/// what every step keeps, entering each directory it names; it never
/// records, nor enters, an excluded path.
pub fn walk_step(listing: Vec<(String, EntryKind)>, excluded: &Vec<String>) -> (r: (
    Vec<(String, EntryKind)>,
    Vec<String>,
))
    ensures
        r.0@.map_values(|e: (String, EntryKind)| (e.0@, e.1)) == walk_kept(listing@, excluded@),
        texts_of(r.1@) == walk_entered(walk_kept(listing@, excluded@)),
{
    let ghost ls = listing@;
    let mut kept: Vec<(String, EntryKind)> = Vec::new();
    let mut entered: Vec<String> = Vec::new();
    let mut i: usize = 0;
    while i < listing.len()
        invariant
            ls == listing@,
            i <= listing.len(),
            kept@.map_values(|e: (String, EntryKind)| (e.0@, e.1)) == walk_kept(ls.take(i as int), excluded@),
            texts_of(entered@) == walk_entered(walk_kept(ls.take(i as int), excluded@)),
        decreases listing.len() - i,
    {
        let ghost before = kept@;
        let ghost before_entered = entered@;
        proof {
            assert(ls.take(i + 1).drop_last() =~= ls.take(i as int));
            assert(ls.take(i + 1).last() == ls[i as int]);
        }
        let path = listing[i].0.as_str();
        let kind = listing[i].1;
        if !is_excluded(path, excluded) {
            kept.push((copy_string(path), kind));
            proof {
                assert(kept@.map_values(|e: (String, EntryKind)| (e.0@, e.1)) =~= before.map_values(
                    |e: (String, EntryKind)| (e.0@, e.1),
                ).push((path@, kind)));
            }
            if let EntryKind::Dir = kind {
                entered.push(copy_string(path));
                proof {
                    assert(texts_of(entered@) =~= texts_of(before_entered).push(path@));
                }
            }
            proof {
                let k = walk_kept(ls.take(i + 1), excluded@);
                assert(k.drop_last() =~= walk_kept(ls.take(i as int), excluded@));
            }
        }
        i = i + 1;
    }
    proof {
        assert(ls.take(i as int) =~= ls);
    }
    (kept, entered)
}

/// What the snapshot records of the walked entries taken so far: the
/// relative paths of directories and the paths and relative paths of
/// regular files, in walk order; or the first path that is not under the
/// root.
pub open spec fn snapshot_lists(
    root: Seq<char>,
    excluded: Seq<String>,
    entries: Seq<(String, EntryKind)>,
) -> Result<(Seq<Seq<char>>, Seq<(Seq<char>, Seq<char>)>), Seq<char>>
    decreases entries.len(),
{
    if entries.len() == 0 {
        Ok((seq![], seq![]))
    } else {
        match snapshot_lists(root, excluded, entries.drop_last()) {
            Err(p) => Err(p),
            Ok((ds, fs)) => {
                let e = entries.last();
                if is_excluded_spec(e.0@, excluded) || !(e.1 == EntryKind::Dir || e.1 == EntryKind::File) {
                    Ok((ds, fs))
                } else {
                    match strip_prefix_spec(e.0@, root) {
                        None => Err(e.0@),
                        Some(rel) => if e.1 == EntryKind::Dir {
                            Ok((ds.push(rel), fs))
                        } else {
                            Ok((ds, fs.push((e.0@, rel))))
                        },
                    }
                }
            },
        }
    }
}

/// The path and relative path of a snapshot file.
pub open spec fn file_view(f: SourceFile) -> (Seq<char>, Seq<char>) {
    (f.path@, f.relative_path@)
}

/// Whether files are in order of their relative paths.
pub open spec fn files_sorted(fs: Seq<(Seq<char>, Seq<char>)>) -> bool {
    forall|i: int, j: int| 0 <= i < j < fs.len() ==> !path_lt((#[trigger] fs[j]).1, (#[trigger] fs[i]).1)
}

/// The views of snapshot files.
pub open spec fn files_view(v: Seq<SourceFile>) -> Seq<(Seq<char>, Seq<char>)> {
    v.map_values(|f: SourceFile| file_view(f))
}

/// Sorts snapshot files by their relative paths (stably).
pub fn sort_files(files: Vec<SourceFile>) -> (r: Vec<SourceFile>)
    ensures
        files_view(r@).to_multiset() == files_view(files@).to_multiset(),
        files_sorted(files_view(r@)),
{
    let ghost input = files_view(files@);
    let mut out: Vec<SourceFile> = Vec::new();
    let mut rest = files;
    let mut n: usize = 0;
    let total = rest.len();
    proof {
        assert(files_view(rest@) =~= input.skip(0));
        assert(files_view(out@) =~= input.take(0));
    }
    while rest.len() > 0
        invariant
            total == input.len(),
            n + rest.len() == input.len(),
            files_view(rest@) == input.skip(n as int),
            files_view(out@).to_multiset() == input.take(n as int).to_multiset(),
            files_sorted(files_view(out@)),
        decreases rest.len(),
    {
        let ghost rest_before = rest@;
        let x = rest.remove(0);
        proof {
            assert(files_view(rest_before)[0] == file_view(x));
            assert(input.skip(n as int)[0] == input[n as int]);
            assert(files_view(rest@) =~= files_view(rest_before).drop_first());
            assert(files_view(rest@) =~= input.skip(n + 1));
            assert(input.take(n + 1) =~= input.take(n as int).push(file_view(x)));
        }
        let mut p: usize = 0;
        while p < out.len() && !path_less(x.relative_path.as_str(), out[p].relative_path.as_str())
            invariant
                p <= out.len(),
                forall|k: int| 0 <= k < p ==> !path_lt(x.relative_path@, #[trigger] out@[k].relative_path@),
            decreases out.len() - p,
        {
            p = p + 1;
        }
        let ghost before = out@;
        let ghost xv = file_view(x);
        out.insert(p, x);
        proof {
            let t = files_view(out@);
            let tb = files_view(before);
            assert(t =~= tb.insert(p as int, xv));
            vstd::seq_lib::to_multiset_insert(tb, p as int, xv);
            vstd::seq_lib::to_multiset_build(input.take(n as int), xv);
            assert forall|i: int, j: int| 0 <= i < j < t.len() implies !path_lt((#[trigger] t[j]).1, (#[trigger] t[i]).1) by {
                if j < p {
                    assert(t[i] == tb[i] && t[j] == tb[j]);
                } else if j == p {
                    assert(t[i] == tb[i] && t[j] == xv);
                } else if i < p {
                    assert(t[i] == tb[i] && t[j] == tb[j - 1]);
                    if path_lt(t[j].1, t[i].1) {
                        if j - 1 > p {
                            assert(path_lt(xv.1, tb[p as int].1));
                            lemma_path_lt_transitive(tb[j - 1].1, tb[i].1, xv.1);
                        }
                    }
                } else if i == p {
                    assert(t[i] == xv && t[j] == tb[j - 1]);
                    if path_lt(t[j].1, t[i].1) {
                        assert(path_lt(xv.1, tb[p as int].1));
                        if j - 1 > p {
                            lemma_path_lt_transitive(tb[j - 1].1, xv.1, tb[p as int].1);
                        } else {
                            lemma_path_lt_transitive(tb[p as int].1, xv.1, tb[p as int].1);
                            lemma_path_lt_irreflexive(tb[p as int].1);
                        }
                    }
                } else {
                    assert(t[i] == tb[i - 1] && t[j] == tb[j - 1]);
                }
            }
        }
        n = n + 1;
    }
    proof {
        assert(input.take(n as int) =~= input);
    }
    out
}

/// The snapshot of the walked entries under `root` (each a path and what it
/// is, in walk order): excluded paths are left out, directories and regular
/// files are recorded relative to the root, anything else is skipped; then
/// directories and files are each put in path order.
pub fn snapshot_directory(root: &str, entries: Vec<(String, EntryKind)>, excluded: &Vec<String>) -> (r: Result<
    DirectorySnapshot,
    DirHookError,
>)
    ensures
        match snapshot_lists(root@, excluded@, entries@) {
            Err(p) => r matches Err(DirHookError::StripPrefix { path, base }) && path@ == p && base@ == root@,
            Ok((ds, fs)) => r matches Ok(s) && texts_of(s.directories@).to_multiset() == ds.to_multiset()
                && paths_sorted(texts_of(s.directories@)) && files_view(s.files@).to_multiset()
                == fs.to_multiset() && files_sorted(files_view(s.files@)),
        },
{
    let ghost es = entries@;
    let mut directories: Vec<String> = Vec::new();
    let mut files: Vec<SourceFile> = Vec::new();
    let mut rest = entries;
    let mut n: usize = 0;
    let total = rest.len();
    proof {
        assert(es.skip(0) =~= es);
        assert(es.take(0) =~= Seq::<(String, EntryKind)>::empty());
        assert(texts_of(directories@) =~= Seq::<Seq<char>>::empty());
        assert(files_view(files@) =~= Seq::<(Seq<char>, Seq<char>)>::empty());
    }
    while rest.len() > 0
        invariant
            es == entries@,
            total == es.len(),
            n + rest.len() == es.len(),
            rest@ == es.skip(n as int),
            snapshot_lists(root@, excluded@, es.take(n as int)) == Ok::<
                (Seq<Seq<char>>, Seq<(Seq<char>, Seq<char>)>),
                Seq<char>,
            >((texts_of(directories@), files_view(files@))),
        decreases rest.len(),
    {
        let (path, kind) = rest.remove(0);
        proof {
            assert(es.skip(n as int)[0] == es[n as int]);
            assert(rest@ =~= es.skip(n + 1));
            assert(es.take(n + 1).drop_last() =~= es.take(n as int));
            assert(es.take(n + 1).last() == (path, kind));
        }
        let relevant = match kind {
            EntryKind::Dir => true,
            EntryKind::File => true,
            _ => false,
        };
        if relevant && !is_excluded(path.as_str(), excluded) {
            let rel = match strip_prefix(path.as_str(), root) {
                Some(r) => r,
                None => {
                    proof {
                        assert(snapshot_lists(root@, excluded@, es.take(n + 1)) == Err::<
                            (Seq<Seq<char>>, Seq<(Seq<char>, Seq<char>)>),
                            Seq<char>,
                        >(path@));
                        lemma_snapshot_lists_stop(root@, excluded@, es, n + 1);
                    }
                    return Err(DirHookError::StripPrefix { path, base: copy_string(root) });
                },
            };
            match kind {
                EntryKind::Dir => {
                    let ghost before = directories@;
                    directories.push(rel);
                    proof {
                        assert(texts_of(directories@) =~= texts_of(before).push(rel@));
                    }
                },
                _ => {
                    let ghost before = files@;
                    files.push(SourceFile { path, relative_path: rel });
                    proof {
                        assert(files_view(files@) =~= files_view(before).push(file_view(files@.last())));
                    }
                },
            }
        }
        n = n + 1;
    }
    proof {
        assert(es.take(n as int) =~= es);
    }
    let directories = sort_paths(directories);
    let files = sort_files(files);
    Ok(DirectorySnapshot { directories, files })
}

/// Once a path outside the root is met, later entries change nothing.
proof fn lemma_snapshot_lists_stop(
    root: Seq<char>,
    excluded: Seq<String>,
    es: Seq<(String, EntryKind)>,
    n: int,
)
    requires
        1 <= n <= es.len(),
        snapshot_lists(root, excluded, es.take(n)) is Err,
    ensures
        snapshot_lists(root, excluded, es) == snapshot_lists(root, excluded, es.take(n)),
    decreases es.len() - n,
{
    if n < es.len() {
        assert(es.take(n + 1).drop_last() =~= es.take(n));
        lemma_snapshot_lists_stop(root, excluded, es, n + 1);
    } else {
        assert(es.take(n) =~= es);
    }
}

/// Whether `f`, called on strings holding `a` and `b`, may give `out`.
pub open spec fn call2_gives<T, F: Fn(&str, &str) -> T>(f: F, a: Seq<char>, b: Seq<char>, out: T) -> bool {
    exists|x: &str, y: &str| x@ == a && y@ == b && #[trigger] f.ensures((x, y), out)
}

/// Whether `f`, called on a string holding `s`, may succeed.
pub open spec fn succeeds_on<F: Fn(&str) -> Result<(), String>>(f: F, s: Seq<char>) -> bool {
    exists|out: Result<(), String>| out is Ok && #[trigger] call_gives(f, s, out)
}

/// Whether `f`, called on strings holding `a` and `b`, may succeed.
pub open spec fn succeeds_on2<F: Fn(&str, &str) -> Result<(), String>>(f: F, a: Seq<char>, b: Seq<char>) -> bool {
    exists|out: Result<(), String>| out is Ok && #[trigger] call2_gives(f, a, b, out)
}

/// Whether copying a snapshot (directories `ds` and files `fs`, each a path
/// and a relative path) under `root` may have stopped with `m`: making the
/// root, one of the directories or a file's parent directory, or copying a
/// file, gave that message.
pub open spec fn copy_failed<K: Fn(&str) -> Result<(), String>, C: Fn(&str, &str) -> Result<(), String>>(
    mkdirs: K,
    copy: C,
    root: Seq<char>,
    ds: Seq<Seq<char>>,
    fs: Seq<(Seq<char>, Seq<char>)>,
    m: String,
) -> bool {
    ||| call_gives(mkdirs, root, Err::<(), String>(m))
    ||| exists|k: int| 0 <= k < ds.len() && #[trigger] call_gives(mkdirs, join_spec(root, ds[k]), Err::<(), String>(m))
    ||| exists|k: int| 0 <= k < fs.len() && (parent_spec(join_spec(root, (#[trigger] fs[k]).1)) matches Some(p)
        && call_gives(mkdirs, p, Err::<(), String>(m)))
    ||| exists|k: int| 0 <= k < fs.len() && call2_gives(copy, (#[trigger] fs[k]).0, join_spec(root, fs[k].1), Err::<(), String>(m))
}

/// What checking a move of the directory `source` to `destination` gives:
/// refused when the destination lies inside the source, or when `present`
/// finds it already there; allowed otherwise.
pub open spec fn move_check_gives<E: Fn(&str) -> bool>(
    source: Seq<char>,
    destination: Seq<char>,
    present: E,
    r: Result<(), DirHookError>,
) -> bool {
    if path_starts_with(destination, source) {
        r matches Err(DirHookError::DestinationInsideSource { source_dir: s, destination: d }) && s@ == source
            && d@ == destination
    } else {
        ||| call_gives(present, destination, true) && (r matches Err(DirHookError::DestinationAlreadyExists { path })
            && path@ == destination)
        ||| call_gives(present, destination, false) && r is Ok
    }
}

/// Whether moving `source` to `destination` may have stopped with `m`:
/// making the destination's parent, or the rename, gave that message.
pub open spec fn move_failed<K: Fn(&str) -> Result<(), String>, N: Fn(&str, &str) -> Result<(), String>>(
    source: Seq<char>,
    destination: Seq<char>,
    mkdirs: K,
    rename: N,
    m: String,
) -> bool {
    ||| parent_spec(destination) matches Some(p) && call_gives(mkdirs, p, Err::<(), String>(m))
    ||| call2_gives(rename, source, destination, Err::<(), String>(m))
}

/// Where a snapshot file lands under the destination root, if there is one.
pub open spec fn landing(destination_root: Option<Seq<char>>, relative_path: Seq<char>) -> Option<Seq<char>> {
    match destination_root {
        Some(d) => Some(join_spec(d, relative_path)),
        None => None,
    }
}

impl DirHook {
    /// Whether `c` records a captured file: where it lands under the
    /// destination root (if any) and, unless digests are disabled, the digest
    /// of its content as `read` gave it.
    pub open spec fn recorded<R: Fn(&str) -> Result<Vec<u8>, String>>(
        &self,
        read: R,
        destination_root: Option<Seq<char>>,
        c: DirCapturedFile,
    ) -> bool {
        &&& opt_text(c.captured_path) == landing(destination_root, c.relative_path@)
        &&& match self.config.hash {
            HashAlgorithm::Disabled => c.hash is None,
            HashAlgorithm::Sha256 => c.hash is Some && exists|b: Vec<u8>|
                #[trigger] call_gives(read, c.path@, Ok::<Vec<u8>, String>(b)) && c.hash->Some_0@
                    == sha256_label_spec(b@),
        }
    }

    /// Whether `c` records the snapshot file `f`: its paths, where it lands,
    /// and its digest as `read` gave the file's content.
    pub open spec fn records<R: Fn(&str) -> Result<Vec<u8>, String>>(
        &self,
        read: R,
        destination_root: Option<Seq<char>>,
        f: SourceFile,
        c: DirCapturedFile,
    ) -> bool {
        &&& c.path@ == f.path@
        &&& c.relative_path@ == f.relative_path@
        &&& self.recorded(read, destination_root, c)
    }

    /// The capture records of the snapshot's files, in order: each with where
    /// it lands under the destination root (if any) and, unless digests are
    /// disabled, the digest of its content as `read` gives it.
    pub fn captured_files<R: Fn(&str) -> Result<Vec<u8>, String>>(
        &self,
        snapshot: &DirectorySnapshot,
        destination_root: Option<&str>,
        read: &R,
    ) -> (r: Result<Vec<DirCapturedFile>, DirHookError>)
        requires
            forall|s: &str| #[trigger] read.requires((s,)),
        ensures
            r matches Ok(v) ==> v.len() == snapshot.files.len() && forall|i: int|
                0 <= i < v.len() ==> #[trigger] self.records(
                    *read,
                    opt_str(destination_root),
                    snapshot.files@[i],
                    v@[i],
                ),
            r matches Err(e) ==> self.config.hash == HashAlgorithm::Sha256 && exists|i: int, m: String|
                0 <= i < snapshot.files.len() && #[trigger] call_gives(
                    *read,
                    snapshot.files@[i].path@,
                    Err::<Vec<u8>, String>(m),
                ) && e == DirHookError::Io(m),
    {
        let mut out: Vec<DirCapturedFile> = Vec::new();
        let mut i: usize = 0;
        while i < snapshot.files.len()
            invariant
                i <= snapshot.files.len(),
                out.len() == i,
                forall|s: &str| #[trigger] read.requires((s,)),
                forall|k: int| 0 <= k < i ==> #[trigger] self.records(
                    *read,
                    opt_str(destination_root),
                    snapshot.files@[k],
                    out@[k],
                ),
            decreases snapshot.files.len() - i,
        {
            let file = &snapshot.files[i];
            let ghost mut content_read: Option<Vec<u8>> = None;
            let hash = match self.config.hash {
                HashAlgorithm::Sha256 => {
                    let content = read(file.path.as_str());
                    let ghost c0 = content;
                    proof {
                        assert(call_gives(*read, file.path@, c0));
                    }
                    match content {
                        Ok(b) => {
                            proof {
                                content_read = Some(b);
                            }
                            Some(sha256_label(b.as_slice()))
                        },
                        Err(m) => {
                            return Err(DirHookError::Io(m));
                        },
                    }
                },
                HashAlgorithm::Disabled => None,
            };
            let captured_path = match destination_root {
                Some(d) => Some(join(d, file.relative_path.as_str())),
                None => None,
            };
            let c = DirCapturedFile {
                path: copy_string(file.path.as_str()),
                relative_path: copy_string(file.relative_path.as_str()),
                captured_path,
                hash,
            };
            proof {
                if self.config.hash == HashAlgorithm::Sha256 {
                    assert(call_gives(*read, c.path@, Ok::<Vec<u8>, String>(content_read->Some_0)));
                }
            }
            assert(self.records(*read, opt_str(destination_root), snapshot.files@[i as int], c));
            out.push(c);
            i = i + 1;
        }
        Ok(out)
    }

    /// Copies the snapshot under `destination_root`: the root, then each
    /// directory, then each file (after its parent directory) through
    /// `mkdirs` and `copy`; the first failure stops the copy.
    pub fn copy_snapshot<K: Fn(&str) -> Result<(), String>, C: Fn(&str, &str) -> Result<(), String>>(
        snapshot: &DirectorySnapshot,
        destination_root: &str,
        mkdirs: &K,
        copy: &C,
    ) -> (r: Result<(), DirHookError>)
        requires
            forall|s: &str| #[trigger] mkdirs.requires((s,)),
            forall|a: &str, b: &str| #[trigger] copy.requires((a, b)),
        ensures
            r is Ok ==> forall|i: int| 0 <= i < snapshot.files.len() ==> #[trigger] succeeds_on2(
                *copy,
                snapshot.files@[i].path@,
                join_spec(destination_root@, snapshot.files@[i].relative_path@),
            ),
            r is Ok ==> forall|i: int| 0 <= i < snapshot.directories.len() ==> #[trigger] succeeds_on(
                *mkdirs,
                join_spec(destination_root@, snapshot.directories@[i]@),
            ),
            r matches Err(e) ==> exists|m: String| e == DirHookError::Io(m) && #[trigger] copy_failed(
                *mkdirs,
                *copy,
                destination_root@,
                texts_of(snapshot.directories@),
                files_view(snapshot.files@),
                m,
            ),
    {
        let ghost ds = texts_of(snapshot.directories@);
        let ghost fs = files_view(snapshot.files@);
        let made_root = mkdirs(destination_root);
        let ghost made_root0 = made_root;
        proof {
            assert(call_gives(*mkdirs, destination_root@, made_root0));
        }
        match made_root {
            Ok(()) => {},
            Err(m) => {
                assert(copy_failed(*mkdirs, *copy, destination_root@, ds, fs, m));
                return Err(DirHookError::Io(m));
            },
        }
        let mut i: usize = 0;
        while i < snapshot.directories.len()
            invariant
                i <= snapshot.directories.len(),
                ds == texts_of(snapshot.directories@),
                fs == files_view(snapshot.files@),
                forall|s: &str| #[trigger] mkdirs.requires((s,)),
                forall|k: int| 0 <= k < i ==> #[trigger] succeeds_on(
                    *mkdirs,
                    join_spec(destination_root@, snapshot.directories@[k]@),
                ),
            decreases snapshot.directories.len() - i,
        {
            let d = join(destination_root, snapshot.directories[i].as_str());
            let made = mkdirs(d.as_str());
            let ghost made0 = made;
            proof {
                assert(call_gives(*mkdirs, d@, made0));
            }
            match made {
                Ok(()) => {
                    assert(made0 is Ok && call_gives(*mkdirs, d@, made0));
                    assert(succeeds_on(*mkdirs, d@));
                },
                Err(m) => {
                    proof {
                        assert(ds[i as int] == snapshot.directories@[i as int]@);
                        assert(call_gives(*mkdirs, join_spec(destination_root@, ds[i as int]), Err::<(), String>(m)));
                        assert(copy_failed(*mkdirs, *copy, destination_root@, ds, fs, m));
                    }
                    return Err(DirHookError::Io(m));
                },
            }
            i = i + 1;
        }
        let mut j: usize = 0;
        while j < snapshot.files.len()
            invariant
                j <= snapshot.files.len(),
                ds == texts_of(snapshot.directories@),
                fs == files_view(snapshot.files@),
                forall|s: &str| #[trigger] mkdirs.requires((s,)),
                forall|a: &str, b: &str| #[trigger] copy.requires((a, b)),
                forall|k: int| 0 <= k < snapshot.directories.len() ==> #[trigger] succeeds_on(
                    *mkdirs,
                    join_spec(destination_root@, snapshot.directories@[k]@),
                ),
                forall|k: int| 0 <= k < j ==> #[trigger] succeeds_on2(
                    *copy,
                    snapshot.files@[k].path@,
                    join_spec(destination_root@, snapshot.files@[k].relative_path@),
                ),
            decreases snapshot.files.len() - j,
        {
            let file = &snapshot.files[j];
            let destination = join(destination_root, file.relative_path.as_str());
            proof {
                assert(fs[j as int] == file_view(snapshot.files@[j as int]));
            }
            match parent(destination.as_str()) {
                Some(p) => {
                    let made = mkdirs(p.as_str());
                    let ghost made0 = made;
                    proof {
                        assert(call_gives(*mkdirs, p@, made0));
                    }
                    match made {
                        Ok(()) => {},
                        Err(m) => {
                            proof {
                                assert(parent_spec(join_spec(destination_root@, fs[j as int].1)) == Some(p@));
                                assert(copy_failed(*mkdirs, *copy, destination_root@, ds, fs, m));
                            }
                            return Err(DirHookError::Io(m));
                        },
                    }
                },
                None => {},
            }
            let copied = copy(file.path.as_str(), destination.as_str());
            let ghost copied0 = copied;
            proof {
                assert(call2_gives(*copy, file.path@, destination@, copied0));
            }
            match copied {
                Ok(()) => {
                    assert(copied0 is Ok && call2_gives(*copy, file.path@, destination@, copied0));
                    assert(succeeds_on2(*copy, file.path@, destination@));
                },
                Err(m) => {
                    proof {
                        assert(call2_gives(*copy, fs[j as int].0, join_spec(destination_root@, fs[j as int].1), Err::<(), String>(m)));
                        assert(copy_failed(*mkdirs, *copy, destination_root@, ds, fs, m));
                    }
                    return Err(DirHookError::Io(m));
                },
            }
            j = j + 1;
        }
        Ok(())
    }

    /// Checks that the captured directory may be moved to `destination`:
    /// not into itself, and not onto something that is already there.
    pub fn check_move<E: Fn(&str) -> bool>(source_dir: &str, destination: &str, present: &E) -> (r: Result<
        (),
        DirHookError,
    >)
        requires
            forall|s: &str| #[trigger] present.requires((s,)),
        ensures
            move_check_gives(source_dir@, destination@, *present, r),
    {
        if starts_with(destination, source_dir) {
            return Err(
                DirHookError::DestinationInsideSource {
                    source_dir: copy_string(source_dir),
                    destination: copy_string(destination),
                },
            );
        }
        let there = present(destination);
        proof {
            assert(call_gives(*present, destination@, there));
        }
        if there {
            return Err(DirHookError::DestinationAlreadyExists { path: copy_string(destination) });
        }
        Ok(())
    }

    /// Moves the captured directory to `destination` (checked beforehand by
    /// `check_move`): the destination's parent is made (if it has one) and
    /// the directory renamed; a failure of either is passed on.
    pub fn move_directory<K: Fn(&str) -> Result<(), String>, N: Fn(&str, &str) -> Result<(), String>>(
        source_dir: &str,
        destination: &str,
        mkdirs: &K,
        rename: &N,
    ) -> (r: Result<(), DirHookError>)
        requires
            forall|s: &str| #[trigger] mkdirs.requires((s,)),
            forall|a: &str, b: &str| #[trigger] rename.requires((a, b)),
        ensures
            r is Ok ==> succeeds_on2(*rename, source_dir@, destination@),
            r matches Err(e) ==> exists|m: String| e == DirHookError::Io(m) && #[trigger] move_failed(
                source_dir@,
                destination@,
                *mkdirs,
                *rename,
                m,
            ),
    {
        match parent(destination) {
            Some(p) => {
                let made = mkdirs(p.as_str());
                let ghost made0 = made;
                proof {
                    assert(call_gives(*mkdirs, p@, made0));
                }
                match made {
                    Ok(()) => {},
                    Err(m) => {
                        assert(move_failed(source_dir@, destination@, *mkdirs, *rename, m));
                        return Err(DirHookError::Io(m));
                    },
                }
            },
            None => {},
        }
        let moved = rename(source_dir, destination);
        let ghost moved0 = moved;
        proof {
            assert(call2_gives(*rename, source_dir@, destination@, moved0));
        }
        match moved {
            Ok(()) => {
                assert(moved0 is Ok && call2_gives(*rename, source_dir@, destination@, moved0));
                assert(succeeds_on2(*rename, source_dir@, destination@));
                Ok(())
            },
            Err(m) => {
                assert(move_failed(source_dir@, destination@, *mkdirs, *rename, m));
                Err(DirHookError::Io(m))
            },
        }
    }
}

/// The relative paths of captured files, as file views.
pub open spec fn captured_files_view(v: Seq<DirCapturedFile>) -> Seq<(Seq<char>, Seq<char>)> {
    v.map_values(|f: DirCapturedFile| (f.path@, f.relative_path@))
}

/// Copies of the strings of `v`.
fn copy_strings(v: &Vec<String>) -> (r: Vec<String>)
    ensures
        texts_of(r@) == texts_of(v@),
{
    let mut r: Vec<String> = Vec::new();
    let mut i: usize = 0;
    while i < v.len()
        invariant
            i <= v.len(),
            texts_of(r@) == texts_of(v@).take(i as int),
        decreases v.len() - i,
    {
        let ghost before = r@;
        r.push(copy_string(v[i].as_str()));
        proof {
            assert(texts_of(r@) =~= texts_of(before).push(v@[i as int]@));
            assert(texts_of(v@).take(i + 1) =~= texts_of(v@).take(i as int).push(v@[i as int]@));
        }
        i = i + 1;
    }
    proof {
        assert(texts_of(v@).take(i as int) =~= texts_of(v@));
    }
    r
}

/// Whether `walk`, called on a string holding `root` and a list holding
/// `excluded`, may give `out`.
pub open spec fn walk_gives<W: Fn(&str, &Vec<String>) -> Result<Vec<(String, EntryKind)>, String>>(
    walk: W,
    root: Seq<char>,
    excluded: Seq<String>,
    out: Result<Vec<(String, EntryKind)>, String>,
) -> bool {
    exists|x: &str, y: &Vec<String>| x@ == root && y@ == excluded && #[trigger] walk.ensures((x, y), out)
}

/// The checked plan of one `capture-dir` run: the snapshot taken, what the
/// run will report, and how the directory is captured. Only `DirHook::plan`
/// makes one, so holding a plan means every check of the run has passed.
#[derive(Debug)]
pub struct DirPlan {
    captured: DirCaptured,
    snapshot: DirectorySnapshot,
    mode: CaptureMode,
}

impl DirPlan {
    /// What the run reports once the plan is carried out.
    pub closed spec fn captured(&self) -> DirCaptured {
        self.captured
    }

    /// The snapshot's directories, relative to the captured directory.
    pub closed spec fn directories(&self) -> Seq<Seq<char>> {
        texts_of(self.snapshot.directories@)
    }

    /// The snapshot's files: each path with its relative path.
    pub closed spec fn files(&self) -> Seq<(Seq<char>, Seq<char>)> {
        files_view(self.snapshot.files@)
    }

    /// How the directory is captured.
    pub closed spec fn mode(&self) -> CaptureMode {
        self.mode
    }

    /// A plan that copies or moves the directory says where it lands.
    #[verifier::type_invariant]
    spec fn lands_unless_recording(self) -> bool {
        (self.captured.captured_path is None) == (self.mode == CaptureMode::Skip)
    }

    /// What carrying out the plan may give: the planned capture, after the
    /// snapshot was copied under its destination (each directory made and
    /// each file copied) or the directory moved there, as the mode says; or
    /// the failure of making a directory, copying a file or moving.
    pub open spec fn applied_gives<
        K: Fn(&str) -> Result<(), String>,
        C: Fn(&str, &str) -> Result<(), String>,
        N: Fn(&str, &str) -> Result<(), String>,
    >(&self, mkdirs: K, copy: C, rename: N, r: Result<DirCaptured, DirHookError>) -> bool {
        let c = self.captured();
        let dr = opt_text(c.captured_path)->Some_0;
        match r {
            Ok(x) => {
                &&& x == c
                &&& self.mode() == CaptureMode::Copy ==> {
                    &&& forall|k: int| 0 <= k < self.directories().len() ==> #[trigger] succeeds_on(
                        mkdirs,
                        join_spec(dr, self.directories()[k]),
                    )
                    &&& forall|k: int| 0 <= k < self.files().len() ==> #[trigger] succeeds_on2(
                        copy,
                        self.files()[k].0,
                        join_spec(dr, self.files()[k].1),
                    )
                }
                &&& self.mode() == CaptureMode::Move ==> succeeds_on2(rename, c.path@, dr)
            },
            Err(e) => {
                ||| self.mode() == CaptureMode::Copy && exists|m: String| e == DirHookError::Io(m) && #[trigger] copy_failed(
                    mkdirs,
                    copy,
                    dr,
                    self.directories(),
                    self.files(),
                    m,
                )
                ||| self.mode() == CaptureMode::Move && exists|m: String| e == DirHookError::Io(m) && #[trigger] move_failed(
                    c.path@,
                    dr,
                    mkdirs,
                    rename,
                    m,
                )
            },
        }
    }
}

impl DirHook {
    /// Where the directory `source` lands: nowhere when only recording,
    /// otherwise `<artifact dir>/<its name>`.
    pub open spec fn destination_spec(&self, source: Seq<char>, artifact_dir: Option<Seq<char>>) -> Option<Seq<char>> {
        if self.config.mode == CaptureMode::Skip {
            None
        } else {
            Some(join_spec(artifact_dir->Some_0, file_name_spec(source)->Some_0))
        }
    }

    /// What preparing the capture of `source` may give, once its directories
    /// `ds` and files `fs` (each a path and a relative path) are in path
    /// order: each file is recorded, and a move to `destination_root` is
    /// checked; the plan reports the capture and keeps the snapshot.
    pub open spec fn prepared_gives<R: Fn(&str) -> Result<Vec<u8>, String>, E: Fn(&str) -> bool>(
        &self,
        source: Seq<char>,
        destination_root: Option<Seq<char>>,
        ds: Seq<Seq<char>>,
        fs: Seq<(Seq<char>, Seq<char>)>,
        read: R,
        present: E,
        r: Result<DirPlan, DirHookError>,
    ) -> bool {
        match r {
            Ok(p) => {
                let c = p.captured();
                &&& c.path@ == source
                &&& opt_text(c.captured_path) == destination_root
                &&& texts_of(c.directories@) == ds
                &&& captured_files_view(c.files@) == fs
                &&& forall|i: int| 0 <= i < c.files.len() ==> #[trigger] self.recorded(read, destination_root, c.files@[i])
                &&& p.directories() == ds
                &&& p.files() == fs
                &&& p.mode() == self.config.mode
                &&& self.config.mode == CaptureMode::Move ==> destination_root is Some && move_check_gives(
                    source,
                    destination_root->Some_0,
                    present,
                    Ok::<(), DirHookError>(()),
                )
            },
            Err(e) => {
                ||| self.config.hash == HashAlgorithm::Sha256 && exists|k: int, m: String|
                    0 <= k < fs.len() && #[trigger] call_gives(read, fs[k].0, Err::<Vec<u8>, String>(m)) && e
                        == DirHookError::Io(m)
                ||| self.config.mode == CaptureMode::Move && destination_root is Some && move_check_gives(
                    source,
                    destination_root->Some_0,
                    present,
                    Err::<(), DirHookError>(e),
                )
            },
        }
    }

    /// What planning the capture of the resolved directory `source` may
    /// give: refused without an artifact directory or a directory name when
    /// it is copied or moved; otherwise the run and artifact directories
    /// inside it are left out, it is walked, the walk becomes a snapshot
    /// (sorted), and the rest is as `prepared_gives` says.
    pub open spec fn located_gives<
        F: Fn(&str) -> Result<String, String>,
        W: Fn(&str, &Vec<String>) -> Result<Vec<(String, EntryKind)>, String>,
        R: Fn(&str) -> Result<Vec<u8>, String>,
        E: Fn(&str) -> bool,
    >(
        &self,
        source: Seq<char>,
        run_dir: Seq<char>,
        artifact_dir: Option<Seq<char>>,
        canonicalize: F,
        walk: W,
        read: R,
        present: E,
        r: Result<DirPlan, DirHookError>,
    ) -> bool {
        if self.config.mode != CaptureMode::Skip && artifact_dir is None {
            r matches Err(DirHookError::ArtifactDirMissing)
        } else if self.config.mode != CaptureMode::Skip && file_name_spec(source) is None {
            r matches Err(DirHookError::InvalidDirectoryName { path }) && path@ == source
        } else {
            exists|ex: Seq<String>, w: Result<Vec<(String, EntryKind)>, String>|
                excluded_ok(source, run_dir, artifact_dir, canonicalize, ex) && #[trigger] walk_gives(
                    walk,
                    source,
                    ex,
                    w,
                ) && match w {
                    Err(m) => r == Err::<DirPlan, DirHookError>(DirHookError::Io(m)),
                    Ok(es) => match snapshot_lists(source, ex, es@) {
                        Err(p) => r matches Err(DirHookError::StripPrefix { path, base }) && path@ == p && base@
                            == source,
                        Ok((ds, fs)) => exists|sds: Seq<Seq<char>>, sfs: Seq<(Seq<char>, Seq<char>)>|
                            sds.to_multiset() == ds.to_multiset() && paths_sorted(sds) && sfs.to_multiset()
                                == fs.to_multiset() && files_sorted(sfs) && #[trigger] self.prepared_gives(
                                source,
                                self.destination_spec(source, artifact_dir),
                                sds,
                                sfs,
                                read,
                                present,
                                r,
                            ),
                    },
                }
        }
    }

    /// What planning a run may give: the configured directory resolves (or
    /// its failure is the result), and the rest is as `located_gives` says.
    pub open spec fn plan_gives<
        F1: Fn(&str) -> Result<String, CanonFailure>,
        D: Fn(&str) -> bool,
        F2: Fn(&str) -> Result<String, String>,
        W: Fn(&str, &Vec<String>) -> Result<Vec<(String, EntryKind)>, String>,
        R: Fn(&str) -> Result<Vec<u8>, String>,
        E: Fn(&str) -> bool,
    >(
        &self,
        project_root: Seq<char>,
        run_dir: Seq<char>,
        artifact_dir: Option<Seq<char>>,
        canonicalize_dir: F1,
        is_dir: D,
        canonicalize: F2,
        walk: W,
        read: R,
        present: E,
        r: Result<DirPlan, DirHookError>,
    ) -> bool {
        exists|c0: Result<String, CanonFailure>, res: Result<String, DirHookError>|
            #[trigger] dir_resolution(
                canonicalize_dir,
                is_dir,
                configured_dir_path(project_root, self.config.path@),
                c0,
                res,
            ) && match res {
                Err(e) => r == Err::<DirPlan, DirHookError>(e),
                Ok(source) => self.located_gives(
                    source@,
                    run_dir,
                    artifact_dir,
                    canonicalize,
                    walk,
                    read,
                    present,
                    r,
                ),
            }
    }

    /// Records the snapshot's files and, for a move, checks it; the plan
    /// keeps the snapshot for the copy.
    fn prepare<R: Fn(&str) -> Result<Vec<u8>, String>, E: Fn(&str) -> bool>(
        &self,
        source_dir: String,
        captured_path: Option<String>,
        snapshot: DirectorySnapshot,
        read: &R,
        present: &E,
    ) -> (r: Result<DirPlan, DirHookError>)
        requires
            forall|s: &str| #[trigger] read.requires((s,)),
            forall|s: &str| #[trigger] present.requires((s,)),
            (captured_path is None) == (self.config.mode == CaptureMode::Skip),
        ensures
            self.prepared_gives(
                source_dir@,
                opt_text(captured_path),
                texts_of(snapshot.directories@),
                files_view(snapshot.files@),
                *read,
                *present,
                r,
            ),
    {
        let ghost ds = texts_of(snapshot.directories@);
        let ghost fs = files_view(snapshot.files@);
        let ghost dr = opt_text(captured_path);
        let directories = copy_strings(&snapshot.directories);
        let dest: Option<&str> = match &captured_path {
            Some(d) => Some(d.as_str()),
            None => None,
        };
        assert(opt_str(dest) == dr);
        let files = match self.captured_files(&snapshot, dest, read) {
            Ok(f) => f,
            Err(e) => {
                proof {
                    let (i, m) = choose|i: int, m: String|
                        0 <= i < snapshot.files.len() && #[trigger] call_gives(
                            *read,
                            snapshot.files@[i].path@,
                            Err::<Vec<u8>, String>(m),
                        ) && e == DirHookError::Io(m);
                    assert(fs[i].0 == snapshot.files@[i].path@);
                    assert(call_gives(*read, fs[i].0, Err::<Vec<u8>, String>(m)));
                }
                return Err(e);
            },
        };
        proof {
            assert forall|i: int| 0 <= i < files.len() implies #[trigger] captured_files_view(files@)[i]
                == fs[i] by {
                assert(self.records(*read, dr, snapshot.files@[i], files@[i]));
            }
            assert(captured_files_view(files@) =~= fs);
        }
        if let CaptureMode::Move = self.config.mode {
            if let Some(d) = dest {
                match Self::check_move(source_dir.as_str(), d, present) {
                    Ok(()) => {},
                    Err(e) => {
                        return Err(e);
                    },
                }
            }
        }
        let c = DirCaptured { path: source_dir, captured_path, directories, files };
        proof {
            assert forall|i: int| 0 <= i < c.files.len() implies #[trigger] self.recorded(
                *read,
                dr,
                c.files@[i],
            ) by {
                assert(self.records(*read, dr, snapshot.files@[i], files@[i]));
            }
        }
        let p = DirPlan { captured: c, snapshot, mode: self.config.mode };
        Ok(p)
    }

    /// Plans the capture of the resolved directory `source_dir`: works out
    /// where it lands, leaves out the run and artifact directories inside
    /// it, walks it into a snapshot, and prepares as `prepare` does.
    fn plan_located<
        F: Fn(&str) -> Result<String, String>,
        W: Fn(&str, &Vec<String>) -> Result<Vec<(String, EntryKind)>, String>,
        R: Fn(&str) -> Result<Vec<u8>, String>,
        E: Fn(&str) -> bool,
    >(
        &self,
        source_dir: String,
        run_dir: &str,
        artifact_dir: Option<&str>,
        canonicalize: &F,
        walk: &W,
        read: &R,
        present: &E,
    ) -> (r: Result<DirPlan, DirHookError>)
        requires
            forall|s: &str| #[trigger] canonicalize.requires((s,)),
            forall|s: &str, e: &Vec<String>| #[trigger] walk.requires((s, e)),
            forall|s: &str| #[trigger] read.requires((s,)),
            forall|s: &str| #[trigger] present.requires((s,)),
        ensures
            self.located_gives(
                source_dir@,
                run_dir@,
                opt_str(artifact_dir),
                *canonicalize,
                *walk,
                *read,
                *present,
                r,
            ),
            r matches Ok(p) ==> {
                let c = p.captured();
                &&& c.path@ == source_dir@
                &&& opt_text(c.captured_path) == self.destination_spec(source_dir@, opt_str(artifact_dir))
                &&& self.config.mode != CaptureMode::Skip ==> artifact_dir is Some && file_name_spec(source_dir@) is Some
                &&& paths_sorted(texts_of(c.directories@))
                &&& files_sorted(captured_files_view(c.files@))
                &&& forall|i: int| 0 <= i < c.files.len() ==> #[trigger] self.recorded(
                    *read,
                    opt_text(c.captured_path),
                    c.files@[i],
                )
            },
    {
        let ghost ad = opt_str(artifact_dir);
        let captured_path = match self.destination_root(source_dir.as_str(), artifact_dir) {
            Ok(p) => p,
            Err(e) => {
                return Err(e);
            },
        };
        assert(opt_text(captured_path) == self.destination_spec(source_dir@, ad));
        let excluded = excluded_roots(source_dir.as_str(), run_dir, artifact_dir, canonicalize);
        let root: &str = source_dir.as_str();
        let walked = walk(root, &excluded);
        let ghost w0 = walked;
        proof {
            assert(walk.ensures((root, &excluded), w0));
            assert(walk_gives(*walk, source_dir@, excluded@, w0));
        }
        let entries = match walked {
            Ok(es) => es,
            Err(m) => {
                return Err(DirHookError::Io(m));
            },
        };
        let ghost es0 = entries@;
        let snapshot = match snapshot_directory(source_dir.as_str(), entries, &excluded) {
            Ok(s) => s,
            Err(e) => {
                return Err(e);
            },
        };
        let ghost sds = texts_of(snapshot.directories@);
        let ghost sfs = files_view(snapshot.files@);
        let ghost src = source_dir@;
        let r = self.prepare(source_dir, captured_path, snapshot, read, present);
        proof {
            assert(self.prepared_gives(src, self.destination_spec(src, ad), sds, sfs, *read, *present, r));
            if r is Ok {
                assert(paths_sorted(texts_of(r->Ok_0.captured().directories@)));
                assert(files_sorted(captured_files_view(r->Ok_0.captured().files@)));
            }
        }
        r
    }

    /// Plans the capture of the configured directory: resolves it, works out
    /// where it lands (`<artifact dir>/<its name>` unless only recording),
    /// leaves out the run and artifact directories when they lie inside it,
    /// walks it (through `walk`, which lists every entry below it without
    /// entering excluded paths) into a snapshot, records each file (with its
    /// digest), and checks a move. Every check of the run is made here:
    /// planning is given no closure that makes, copies or renames anything,
    /// so a refused run leaves the directory and the artifact directory as
    /// they were.
    pub fn plan<
        F1: Fn(&str) -> Result<String, CanonFailure>,
        D: Fn(&str) -> bool,
        F2: Fn(&str) -> Result<String, String>,
        W: Fn(&str, &Vec<String>) -> Result<Vec<(String, EntryKind)>, String>,
        R: Fn(&str) -> Result<Vec<u8>, String>,
        E: Fn(&str) -> bool,
    >(
        &self,
        project_root: &str,
        run_dir: &str,
        artifact_dir: Option<&str>,
        canonicalize_dir: &F1,
        is_dir: &D,
        canonicalize: &F2,
        walk: &W,
        read: &R,
        present: &E,
    ) -> (r: Result<DirPlan, DirHookError>)
        requires
            forall|s: &str| #[trigger] canonicalize_dir.requires((s,)),
            forall|s: &str| #[trigger] is_dir.requires((s,)),
            forall|s: &str| #[trigger] canonicalize.requires((s,)),
            forall|s: &str, e: &Vec<String>| #[trigger] walk.requires((s, e)),
            forall|s: &str| #[trigger] read.requires((s,)),
            forall|s: &str| #[trigger] present.requires((s,)),
        ensures
            self.plan_gives(
                project_root@,
                run_dir@,
                opt_str(artifact_dir),
                *canonicalize_dir,
                *is_dir,
                *canonicalize,
                *walk,
                *read,
                *present,
                r,
            ),
            r matches Ok(p) ==> exists|c0: Result<String, CanonFailure>|
                #[trigger] dir_resolution(
                    *canonicalize_dir,
                    *is_dir,
                    configured_dir_path(project_root@, self.config.path@),
                    c0,
                    Ok::<String, DirHookError>(p.captured().path),
                ),
            r matches Ok(p) ==> (p.captured().captured_path is None <==> self.config.mode == CaptureMode::Skip),
            r matches Ok(p) ==> (p.captured().captured_path matches Some(d) ==> artifact_dir is Some
                && file_name_spec(p.captured().path@) is Some && d@ == join_spec(
                artifact_dir->Some_0@,
                file_name_spec(p.captured().path@)->Some_0,
            )),
            r matches Ok(p) ==> paths_sorted(texts_of(p.captured().directories@)),
            r matches Ok(p) ==> files_sorted(captured_files_view(p.captured().files@)),
            r matches Ok(p) ==> forall|i: int| 0 <= i < p.captured().files.len() ==> opt_text(
                (#[trigger] p.captured().files@[i]).captured_path,
            ) == landing(opt_text(p.captured().captured_path), p.captured().files@[i].relative_path@),
    {
        let ghost path0 = configured_dir_path(project_root@, self.config.path@);
        let resolved = Self::resolve_existing_directory(
            project_root,
            self.config.path.as_str(),
            canonicalize_dir,
            is_dir,
        );
        let ghost res0 = resolved;
        let ghost c0 = choose|c: Result<String, CanonFailure>|
            #[trigger] dir_resolution(*canonicalize_dir, *is_dir, path0, c, res0);
        assert(dir_resolution(*canonicalize_dir, *is_dir, path0, c0, res0));
        let source_dir = match resolved {
            Ok(d) => d,
            Err(e) => {
                return Err(e);
            },
        };
        let r = self.plan_located(source_dir, run_dir, artifact_dir, canonicalize, walk, read, present);
        proof {
            if r is Ok {
                let c = r->Ok_0.captured();
                assert(dir_resolution(*canonicalize_dir, *is_dir, path0, c0, Ok::<String, DirHookError>(c.path)));
                assert forall|i: int| 0 <= i < c.files.len() implies opt_text(
                    (#[trigger] c.files@[i]).captured_path,
                ) == landing(opt_text(c.captured_path), c.files@[i].relative_path@) by {
                    assert(self.recorded(*read, opt_text(c.captured_path), c.files@[i]));
                }
            }
        }
        r
    }

    /// Carries out a checked plan: copies the snapshot under the
    /// destination, or moves the directory there, as the mode says; nothing
    /// is done when only recording.
    pub fn run<
        K: Fn(&str) -> Result<(), String>,
        C: Fn(&str, &str) -> Result<(), String>,
        N: Fn(&str, &str) -> Result<(), String>,
    >(&self, plan: DirPlan, mkdirs: &K, copy: &C, rename: &N) -> (r: Result<DirCaptured, DirHookError>)
        requires
            forall|s: &str| #[trigger] mkdirs.requires((s,)),
            forall|a: &str, b: &str| #[trigger] copy.requires((a, b)),
            forall|a: &str, b: &str| #[trigger] rename.requires((a, b)),
        ensures
            plan.applied_gives(*mkdirs, *copy, *rename, r),
    {
        proof {
            use_type_invariant(&plan);
        }
        let ghost p0 = plan;
        let DirPlan { captured, snapshot, mode } = plan;
        match mode {
            CaptureMode::Copy => {
                if let Some(d) = &captured.captured_path {
                    match Self::copy_snapshot(&snapshot, d.as_str(), mkdirs, copy) {
                        Ok(()) => {},
                        Err(e) => {
                            proof {
                                assert(p0.directories() == texts_of(snapshot.directories@));
                                assert(p0.files() == files_view(snapshot.files@));
                                assert(opt_text(p0.captured().captured_path)->Some_0 == d@);
                            }
                            return Err(e);
                        },
                    }
                }
            },
            CaptureMode::Move => {
                if let Some(d) = &captured.captured_path {
                    match Self::move_directory(captured.path.as_str(), d.as_str(), mkdirs, rename) {
                        Ok(()) => {},
                        Err(e) => {
                            proof {
                                assert(opt_text(p0.captured().captured_path)->Some_0 == d@);
                                assert(p0.captured().path@ == captured.path@);
                            }
                            return Err(e);
                        },
                    }
                }
            },
            CaptureMode::Skip => {},
        }
        proof {
            assert(p0.captured() == captured);
        }
        Ok(captured)
    }
}

impl DirHookError {
    /// The message this error displays.
    pub open spec fn message_spec(&self) -> Seq<char> {
        match self {
            DirHookError::DirectoryNotFound { path } => "Directory not found: "@ + path@,
            DirHookError::NotADirectory { path } => "Path is not a directory: "@ + path@,
            DirHookError::ResolveDirectory { path, message } => "Failed to resolve directory "@ + path@ + ": "@ + message@,
            DirHookError::InvalidDirectoryName { path } => "Invalid directory name: "@ + path@,
            DirHookError::ArtifactDirMissing => "capture-dir hook requires an artifact directory but none was provided"@,
            DirHookError::DestinationInsideSource { source_dir, destination } => "Cannot move directory "@ + source_dir@ + " into destination "@ + destination@ + " inside itself"@,
            DirHookError::DestinationAlreadyExists { path } => "Destination already exists: "@ + path@,
            DirHookError::StripPrefix { path, base } => "Failed to compute path of "@ + path@ + " relative to "@ + base@,
            DirHookError::Io(e) => "IO error: "@ + e@,
            DirHookError::Serialization(e) => "Failed to serialize directory hook: "@ + e@,
        }
    }

    /// The message this error displays.
    pub fn message(&self) -> (m: String)
        ensures
            m@ == self.message_spec(),
    {
        let mut m = String::new();
        match self {
            DirHookError::DirectoryNotFound { path } => {
                push_str(&mut m, "Directory not found: ");
                push_str(&mut m, path.as_str());
            },
            DirHookError::NotADirectory { path } => {
                push_str(&mut m, "Path is not a directory: ");
                push_str(&mut m, path.as_str());
            },
            DirHookError::ResolveDirectory { path, message } => {
                push_str(&mut m, "Failed to resolve directory ");
                push_str(&mut m, path.as_str());
                push_str(&mut m, ": ");
                push_str(&mut m, message.as_str());
            },
            DirHookError::InvalidDirectoryName { path } => {
                push_str(&mut m, "Invalid directory name: ");
                push_str(&mut m, path.as_str());
            },
            DirHookError::ArtifactDirMissing => {
                push_str(&mut m, "capture-dir hook requires an artifact directory but none was provided");
            },
            DirHookError::DestinationInsideSource { source_dir, destination } => {
                push_str(&mut m, "Cannot move directory ");
                push_str(&mut m, source_dir.as_str());
                push_str(&mut m, " into destination ");
                push_str(&mut m, destination.as_str());
                push_str(&mut m, " inside itself");
            },
            DirHookError::DestinationAlreadyExists { path } => {
                push_str(&mut m, "Destination already exists: ");
                push_str(&mut m, path.as_str());
            },
            DirHookError::StripPrefix { path, base } => {
                push_str(&mut m, "Failed to compute path of ");
                push_str(&mut m, path.as_str());
                push_str(&mut m, " relative to ");
                push_str(&mut m, base.as_str());
            },
            DirHookError::Io(e) => {
                push_str(&mut m, "IO error: ");
                push_str(&mut m, e.as_str());
            },
            DirHookError::Serialization(e) => {
                push_str(&mut m, "Failed to serialize directory hook: ");
                push_str(&mut m, e.as_str());
            },
        }
        m
    }

    /// The error as the library-wide error: a failure of `capture-dir`.
    pub fn into_capsula(self) -> (e: CapsulaError)
        ensures
            e matches CapsulaError::HookFailed { hook, message } && hook@ == "capture-dir"@ && message@ == self.message_spec(),
    {
        let message = self.message();
        CapsulaError::HookFailed { hook: copy_string("capture-dir"), message }
    }
}

} // verus!
