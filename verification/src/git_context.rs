//! The `git` context: the HEAD commit of a repository and whether its
//! worktree is dirty, with the patch of a dirty worktree written next to the
//! run.

use vstd::prelude::*;
use crate::capture_file::call_gives;
use crate::hook::CapsulaError;
use crate::json::{JView, JsonValue};
use crate::path::{is_absolute_spec, join_spec};
use crate::text::{copy_string, push_str};

verus! {

/// The id under which the context is configured.
pub const KEY: &'static str = "git";

/// The `git` context.
#[derive(Debug)]
pub struct GitContext {
    pub name: String,
    pub working_dir: String,
    pub allow_dirty: bool,
}

/// What the `git` context captures.
#[derive(Debug)]
pub struct GitCaptured {
    pub name: String,
    pub working_dir: String,
    pub sha: String,
    pub is_dirty: bool,
    pub abort_on_dirty: bool,
}

/// Errors of the `git` context.
#[derive(Debug)]
pub enum GitContextError {
    /// No repository was found.
    NotARepository,
    /// HEAD does not name a commit; why.
    HeadNotFound { message: String },
    /// A repository operation failed; its message.
    GitOperation(String),
    /// Serialization failed; its message.
    Serialization(String),
    /// A patch had to be written but no run directory was given; why.
    RunDirNotSpecified { message: String },
    /// An I/O operation failed; its message.
    IoError(String),
}

/// Why a repository could not be opened.
#[derive(Debug)]
pub enum RepoOpenFailure {
    /// There is no repository there or above.
    NotFound,
    /// Opening failed otherwise; why.
    Other(String),
}

/// The context error for a failure to open the repository.
pub open spec fn open_failure_error(f: RepoOpenFailure) -> GitContextError {
    match f {
        RepoOpenFailure::NotFound => GitContextError::NotARepository,
        RepoOpenFailure::Other(m) => GitContextError::GitOperation(m),
    }
}

/// The message of a missing HEAD commit.
pub open spec fn no_head_message() -> Seq<char> {
    "HEAD does not point to a valid commit"@
}

/// The message of a missing run directory.
pub open spec fn no_run_dir_message() -> Seq<char> {
    "Run directory is not specified in runtime parameters"@
}

/// What the context captured, as values: name, repository path, HEAD id,
/// dirtiness and whether a dirty worktree aborts the run.
pub type ContextView = (Seq<char>, Seq<char>, Seq<char>, bool, bool);

/// A run's result as values.
pub open spec fn context_view(r: Result<GitCaptured, GitContextError>) -> Result<ContextView, GitContextError> {
    match r {
        Ok(c) => Ok((c.name@, c.working_dir@, c.sha@, c.is_dirty, c.abort_on_dirty)),
        Err(e) => Err(e),
    }
}

/// Whether the repository path may be `out`: the configured working
/// directory, or the current directory when it is empty.
pub open spec fn context_path_gives<C: Fn() -> Result<String, String>>(
    working_dir: Seq<char>,
    current_dir: C,
    out: Result<Seq<char>, GitContextError>,
) -> bool {
    if working_dir.len() == 0 {
        exists|c: Result<String, String>| #[trigger] current_dir.ensures((), c) && out == match c {
            Ok(d) => Ok(d@),
            Err(m) => Err(GitContextError::IoError(m)),
        }
    } else {
        out == Ok::<Seq<char>, GitContextError>(working_dir)
    }
}

/// A planned run as values: what the context captured and, for a dirty
/// worktree, the patch to write (its path and its text).
pub type ContextPlanView = (ContextView, Option<(Seq<char>, Seq<char>)>);

/// The last step of planning a run: a dirty worktree needs a run
/// directory, and its diff becomes the patch to write to
/// `<run dir>/<name>.patch`.
pub open spec fn context_patch_gives<Rp, Df: Fn(&Rp) -> Result<String, String>>(
    repo: Rp,
    diff: Df,
    name: Seq<char>,
    allow_dirty: bool,
    run_dir: Option<Seq<char>>,
    path: Seq<char>,
    sha: Seq<char>,
    dirty: bool,
    out: Result<ContextPlanView, GitContextError>,
) -> bool {
    let done: ContextView = (name, path, sha, dirty, !allow_dirty);
    if !dirty {
        out == Ok::<ContextPlanView, GitContextError>((done, None))
    } else {
        match run_dir {
            None => out matches Err(GitContextError::RunDirNotSpecified { message }) && message@ == no_run_dir_message(),
            Some(rd) => exists|t: Result<String, String>| #[trigger] diff.ensures((&repo,), t) && match t {
                Err(m) => out == Err::<ContextPlanView, GitContextError>(GitContextError::GitOperation(m)),
                Ok(text) => out == Ok::<ContextPlanView, GitContextError>(
                    (done, Some((join_spec(rd, name + ".patch"@), text@))),
                ),
            },
        }
    }
}

/// What planning a run does once the repository is open: HEAD is read, the
/// status counted (dirty when not empty), and the patch step runs.
pub open spec fn context_inspect_gives<
    Rp,
    Hd: Fn(&Rp) -> Result<Option<String>, String>,
    St: Fn(&Rp) -> Result<usize, String>,
    Df: Fn(&Rp) -> Result<String, String>,
>(
    repo: Rp,
    head_target: Hd,
    status_count: St,
    diff: Df,
    name: Seq<char>,
    allow_dirty: bool,
    run_dir: Option<Seq<char>>,
    path: Seq<char>,
    out: Result<ContextPlanView, GitContextError>,
) -> bool {
    exists|h: Result<Option<String>, String>| #[trigger] head_target.ensures((&repo,), h) && match h {
        Err(m) => out == Err::<ContextPlanView, GitContextError>(GitContextError::GitOperation(m)),
        Ok(None) => out matches Err(GitContextError::HeadNotFound { message }) && message@ == no_head_message(),
        Ok(Some(sha)) => exists|n: Result<usize, String>| #[trigger] status_count.ensures((&repo,), n) && match n {
            Err(m) => out == Err::<ContextPlanView, GitContextError>(GitContextError::GitOperation(m)),
            Ok(count) => context_patch_gives(repo, diff, name, allow_dirty, run_dir, path, sha@, count > 0, out),
        },
    }
}

/// Whether planning a run of the context may give `out`.
pub open spec fn context_run_gives<
    Rp,
    C: Fn() -> Result<String, String>,
    Dv: Fn(&str) -> Result<Rp, RepoOpenFailure>,
    Hd: Fn(&Rp) -> Result<Option<String>, String>,
    St: Fn(&Rp) -> Result<usize, String>,
    Df: Fn(&Rp) -> Result<String, String>,
>(
    name: Seq<char>,
    working_dir: Seq<char>,
    allow_dirty: bool,
    run_dir: Option<Seq<char>>,
    current_dir: C,
    discover: Dv,
    head_target: Hd,
    status_count: St,
    diff: Df,
    out: Result<ContextPlanView, GitContextError>,
) -> bool {
    exists|p: Result<Seq<char>, GitContextError>| #[trigger] context_path_gives(working_dir, current_dir, p) && match p {
        Err(e) => out == Err::<ContextPlanView, GitContextError>(e),
        Ok(path) => exists|d: Result<Rp, RepoOpenFailure>| #[trigger] call_gives(discover, path, d) && match d {
            Err(f) => out == Err::<ContextPlanView, GitContextError>(open_failure_error(f)),
            Ok(repo) => context_inspect_gives(repo, head_target, status_count, diff, name, allow_dirty, run_dir, path, out),
        },
    }
}

/// A planned run of the context: everything it reads has been read and every
/// check made. Only `GitContext::plan` makes one.
#[derive(Debug)]
pub struct ContextPlan {
    captured: GitCaptured,
    patch: Option<(String, String)>,
}

impl ContextPlan {
    /// What the run captures.
    pub closed spec fn captured(&self) -> GitCaptured {
        self.captured
    }

    /// The patch to write, its path and its text; none for a clean worktree.
    pub closed spec fn patch(&self) -> Option<(Seq<char>, Seq<char>)> {
        match self.patch {
            Some((p, t)) => Some((p@, t@)),
            None => None,
        }
    }
}

/// A planned run as values.
pub open spec fn plan_view(r: Result<ContextPlan, GitContextError>) -> Result<ContextPlanView, GitContextError> {
    match r {
        Ok(p) => Ok((context_view(Ok(p.captured()))->Ok_0, p.patch())),
        Err(e) => Err(e),
    }
}

/// What carrying out a planned run may give: the planned capture, once the
/// patch (if there is one) was written; or the write's failure.
pub open spec fn context_write_gives<Wr: Fn(&str, &str) -> Result<(), String>>(
    plan: ContextPlan,
    write: Wr,
    r: Result<GitCaptured, GitContextError>,
) -> bool {
    match plan.patch() {
        None => r == Ok::<GitCaptured, GitContextError>(plan.captured()),
        Some((file, text)) => exists|x: &str, y: &str, w: Result<(), String>|
            x@ == file && y@ == text && #[trigger] write.ensures((x, y), w) && match w {
                Err(m) => r == Err::<GitCaptured, GitContextError>(GitContextError::IoError(m)),
                Ok(_) => r == Ok::<GitCaptured, GitContextError>(plan.captured()),
            },
    }
}

/// The value of a path result.
pub open spec fn path_view(r: Result<String, GitContextError>) -> Result<Seq<char>, GitContextError> {
    match r {
        Ok(s) => Ok(s@),
        Err(e) => Err(e),
    }
}

impl GitCaptured {
    /// Whether the run must be aborted: the worktree is dirty and that is not
    /// allowed.
    pub fn abort_requested(&self) -> (r: bool)
        ensures
            r == (self.is_dirty && self.abort_on_dirty),
    {
        self.is_dirty && self.abort_on_dirty
    }

    /// The capture as JSON, its keys in order.
    pub fn to_json(&self) -> (r: JsonValue)
        ensures
            r@ == JView::Object(
                seq![
                    ("abort_on_dirty"@, JView::Bool(self.abort_on_dirty)),
                    ("is_dirty"@, JView::Bool(self.is_dirty)),
                    ("name"@, JView::Str(self.name@)),
                    ("sha"@, JView::Str(self.sha@)),
                    ("type"@, JView::Str("git"@)),
                    ("working_dir"@, JView::Str(self.working_dir@)),
                ],
            ),
    {
        let mut entries: Vec<(String, JsonValue)> = Vec::new();
        entries.push((copy_string("abort_on_dirty"), JsonValue::Bool(self.abort_on_dirty)));
        entries.push((copy_string("is_dirty"), JsonValue::Bool(self.is_dirty)));
        entries.push((copy_string("name"), JsonValue::String(copy_string(self.name.as_str()))));
        entries.push((copy_string("sha"), JsonValue::String(copy_string(self.sha.as_str()))));
        entries.push((copy_string("type"), JsonValue::String(copy_string(KEY))));
        entries.push((copy_string("working_dir"), JsonValue::String(copy_string(self.working_dir.as_str()))));
        let r = JsonValue::Object(entries);
        proof {
            crate::json::lemma_object_view(entries);
            assert(crate::json::entries_view(entries@) =~= seq![
                ("abort_on_dirty"@, JView::Bool(self.abort_on_dirty)),
                ("is_dirty"@, JView::Bool(self.is_dirty)),
                ("name"@, JView::Str(self.name@)),
                ("sha"@, JView::Str(self.sha@)),
                ("type"@, JView::Str("git"@)),
                ("working_dir"@, JView::Str(self.working_dir@)),
            ]);
        }
        r
    }
}

fn context_path<C: Fn() -> Result<String, String>>(working_dir: &str, current_dir: &C) -> (r: Result<String, GitContextError>)
    requires
        current_dir.requires(()),
    ensures
        context_path_gives(working_dir@, *current_dir, path_view(r)),
{
    let v = crate::text::chars_of(working_dir);
    if v.len() == 0 {
        let c = current_dir();
        let ghost c0 = c;
        let r = match c {
            Ok(d) => Ok(d),
            Err(m) => Err(GitContextError::IoError(m)),
        };
        proof {
            assert(current_dir.ensures((), c0));
        }
        r
    } else {
        Ok(copy_string(working_dir))
    }
}

impl GitContext {
    fn patch_step<Rp, Df: Fn(&Rp) -> Result<String, String>>(
        &self,
        repo: &Rp,
        diff: &Df,
        run_dir: Option<&str>,
        path: String,
        sha: String,
        dirty: bool,
    ) -> (r: Result<ContextPlan, GitContextError>)
        requires
            forall|p: &Rp| #[trigger] diff.requires((p,)),
        ensures
            context_patch_gives(
                *repo,
                *diff,
                self.name@,
                self.allow_dirty,
                crate::text::opt_str(run_dir),
                path@,
                sha@,
                dirty,
                plan_view(r),
            ),
    {
        let captured = GitCaptured {
            name: copy_string(self.name.as_str()),
            working_dir: path,
            sha,
            is_dirty: dirty,
            abort_on_dirty: !self.allow_dirty,
        };
        if !dirty {
            return Ok(ContextPlan { captured, patch: None });
        }
        let rd = match run_dir {
            Some(d) => d,
            None => {
                return Err(
                    GitContextError::RunDirNotSpecified { message: copy_string("Run directory is not specified in runtime parameters") },
                );
            },
        };
        let t = diff(repo);
        let ghost t0 = t;
        proof {
            assert(diff.ensures((repo,), t0));
        }
        let text = match t {
            Ok(x) => x,
            Err(m) => {
                return Err(GitContextError::GitOperation(m));
            },
        };
        let mut file_name = copy_string(self.name.as_str());
        push_str(&mut file_name, ".patch");
        let file = crate::path::join(rd, file_name.as_str());
        Ok(ContextPlan { captured, patch: Some((file, text)) })
    }

    fn inspect<
        Rp,
        Hd: Fn(&Rp) -> Result<Option<String>, String>,
        St: Fn(&Rp) -> Result<usize, String>,
        Df: Fn(&Rp) -> Result<String, String>,
    >(
        &self,
        repo: &Rp,
        head_target: &Hd,
        status_count: &St,
        diff: &Df,
        run_dir: Option<&str>,
        path: String,
    ) -> (r: Result<ContextPlan, GitContextError>)
        requires
            forall|p: &Rp| #[trigger] head_target.requires((p,)),
            forall|p: &Rp| #[trigger] status_count.requires((p,)),
            forall|p: &Rp| #[trigger] diff.requires((p,)),
        ensures
            context_inspect_gives(
                *repo,
                *head_target,
                *status_count,
                *diff,
                self.name@,
                self.allow_dirty,
                crate::text::opt_str(run_dir),
                path@,
                plan_view(r),
            ),
    {
        let h = head_target(repo);
        let ghost h0 = h;
        proof {
            assert(head_target.ensures((repo,), h0));
        }
        let sha = match h {
            Err(m) => {
                return Err(GitContextError::GitOperation(m));
            },
            Ok(None) => {
                return Err(GitContextError::HeadNotFound { message: copy_string("HEAD does not point to a valid commit") });
            },
            Ok(Some(s)) => s,
        };
        let n = status_count(repo);
        let ghost n0 = n;
        proof {
            assert(status_count.ensures((repo,), n0));
        }
        match n {
            Err(m) => Err(GitContextError::GitOperation(m)),
            Ok(count) => self.patch_step(repo, diff, run_dir, path, sha, count > 0),
        }
    }

    /// Plans one run of the context: the repository is opened from the
    /// working directory (the current one when it is empty); HEAD must name
    /// a commit; the worktree is dirty when its status is not empty, and
    /// then its diff becomes the patch to write to `<run dir>/<name>.patch`.
    /// A dirty worktree does not fail the run: the capture asks for the run
    /// to be aborted unless dirtiness is allowed. Planning only reads: it is
    /// given no closure that writes, so a refused run writes nothing.
    pub fn plan<
        Rp,
        C: Fn() -> Result<String, String>,
        Dv: Fn(&str) -> Result<Rp, RepoOpenFailure>,
        Hd: Fn(&Rp) -> Result<Option<String>, String>,
        St: Fn(&Rp) -> Result<usize, String>,
        Df: Fn(&Rp) -> Result<String, String>,
    >(
        &self,
        run_dir: Option<&str>,
        current_dir: &C,
        discover: &Dv,
        head_target: &Hd,
        status_count: &St,
        diff: &Df,
    ) -> (r: Result<ContextPlan, GitContextError>)
        requires
            current_dir.requires(()),
            forall|x: &str| #[trigger] discover.requires((x,)),
            forall|p: &Rp| #[trigger] head_target.requires((p,)),
            forall|p: &Rp| #[trigger] status_count.requires((p,)),
            forall|p: &Rp| #[trigger] diff.requires((p,)),
        ensures
            context_run_gives(
                self.name@,
                self.working_dir@,
                self.allow_dirty,
                crate::text::opt_str(run_dir),
                *current_dir,
                *discover,
                *head_target,
                *status_count,
                *diff,
                plan_view(r),
            ),
    {
        let p = context_path(self.working_dir.as_str(), current_dir);
        let ghost p0 = path_view(p);
        let path = match p {
            Ok(x) => x,
            Err(e) => {
                return Err(e);
            },
        };
        let ghost pv = path@;
        let ps = path.as_str();
        let d = discover(ps);
        let ghost d0 = d;
        proof {
            assert(discover.ensures((ps,), d0));
            assert(call_gives(*discover, pv, d0));
            assert(p0 is Ok && p0->Ok_0 == pv);
        }
        let repo = match d {
            Ok(x) => x,
            Err(f) => {
                let ghost f0 = f;
                let e = match f {
                    RepoOpenFailure::NotFound => GitContextError::NotARepository,
                    RepoOpenFailure::Other(m) => GitContextError::GitOperation(m),
                };
                proof {
                    assert(e == open_failure_error(f0));
                    assert(d0 == Err::<Rp, RepoOpenFailure>(f0));
                }
                return Err(e);
            },
        };
        proof {
            assert(d0 is Ok && d0->Ok_0 == repo);
        }
        self.inspect(&repo, head_target, status_count, diff, run_dir, path)
    }

    /// Carries out a planned run: writes the patch, if there is one, and
    /// gives the capture.
    pub fn run<Wr: Fn(&str, &str) -> Result<(), String>>(&self, plan: ContextPlan, write: &Wr) -> (r: Result<
        GitCaptured,
        GitContextError,
    >)
        requires
            forall|x: &str, y: &str| #[trigger] write.requires((x, y)),
        ensures
            context_write_gives(plan, *write, r),
    {
        let ghost p0 = plan;
        let ContextPlan { captured, patch } = plan;
        match patch {
            None => Ok(captured),
            Some((file, text)) => {
                let fs = file.as_str();
                let ts = text.as_str();
                let w = write(fs, ts);
                let ghost w0 = w;
                proof {
                    assert(write.ensures((fs, ts), w0));
                    assert(p0.patch() == Some((fs@, ts@)));
                }
                match w {
                    Err(m) => Err(GitContextError::IoError(m)),
                    Ok(()) => Ok(captured),
                }
            },
        }
    }
}

/// How the `git` context is configured.
#[derive(Debug)]
pub struct GitContextConfig {
    pub name: String,
    pub path: String,
    pub allow_dirty: bool,
}

/// Makes `git` contexts.
#[derive(Debug, Clone, Copy, Default)]
pub struct GitContextFactory;

/// The factory of `git` contexts.
pub fn create_factory() -> (f: GitContextFactory) {
    GitContextFactory
}

impl GitContextFactory {
    /// The id under which the factory's contexts are configured.
    pub fn key(&self) -> (r: &'static str)
        ensures
            r@ == "git"@,
    {
        "git"
    }

    /// The context for a configuration: an absolute path is taken as it is;
    /// a relative one is joined to the project root and canonicalized.
    pub fn create_context<F: Fn(&str) -> Result<String, String>>(
        &self,
        config: GitContextConfig,
        project_root: &str,
        canonicalize: &F,
    ) -> (r: Result<GitContext, CapsulaError>)
        requires
            forall|x: &str| #[trigger] canonicalize.requires((x,)),
        ensures
            r matches Ok(c) ==> c.name == config.name && c.allow_dirty == config.allow_dirty,
            is_absolute_spec(config.path@) ==> (r matches Ok(c) && c.working_dir@ == config.path@),
            !is_absolute_spec(config.path@) ==> exists|x: &str, c: Result<String, String>|
                x@ == join_spec(project_root@, config.path@) && #[trigger] canonicalize.ensures((x,), c) && match c {
                    Ok(d) => r matches Ok(g) && g.working_dir == d,
                    Err(m) => r matches Err(CapsulaError::Io(e)) && e == m,
                },
    {
        if crate::path::is_absolute(config.path.as_str()) {
            Ok(GitContext { name: config.name, working_dir: config.path, allow_dirty: config.allow_dirty })
        } else {
            let full = crate::path::join(project_root, config.path.as_str());
            let fs = full.as_str();
            let c = canonicalize(fs);
            let ghost c0 = c;
            proof {
                assert(canonicalize.ensures((fs,), c0));
            }
            match c {
                Ok(d) => Ok(GitContext { name: config.name, working_dir: d, allow_dirty: config.allow_dirty }),
                Err(m) => Err(CapsulaError::Io(m)),
            }
        }
    }
}

impl GitContextError {
    /// The message this error displays.
    pub open spec fn message_spec(&self) -> Seq<char> {
        match self {
            GitContextError::NotARepository => "Not a git repository (or any parent up to mount point)"@,
            GitContextError::HeadNotFound { message } => "Failed to get repository HEAD: "@ + message@,
            GitContextError::GitOperation(e) => "Git operation failed: "@ + e@,
            GitContextError::Serialization(e) => "Failed to serialize git context: "@ + e@,
            GitContextError::RunDirNotSpecified { message } => "Run directory not specified and current directory could not be determined: "@ + message@,
            GitContextError::IoError(e) => "I/O error: "@ + e@,
        }
    }

    /// The message this error displays.
    pub fn message(&self) -> (m: String)
        ensures
            m@ == self.message_spec(),
    {
        let mut m = String::new();
        match self {
            GitContextError::NotARepository => {
                push_str(&mut m, "Not a git repository (or any parent up to mount point)");
            },
            GitContextError::HeadNotFound { message } => {
                push_str(&mut m, "Failed to get repository HEAD: ");
                push_str(&mut m, message.as_str());
            },
            GitContextError::GitOperation(e) => {
                push_str(&mut m, "Git operation failed: ");
                push_str(&mut m, e.as_str());
            },
            GitContextError::Serialization(e) => {
                push_str(&mut m, "Failed to serialize git context: ");
                push_str(&mut m, e.as_str());
            },
            GitContextError::RunDirNotSpecified { message } => {
                push_str(&mut m, "Run directory not specified and current directory could not be determined: ");
                push_str(&mut m, message.as_str());
            },
            GitContextError::IoError(e) => {
                push_str(&mut m, "I/O error: ");
                push_str(&mut m, e.as_str());
            },
        }
        m
    }

    /// The error as the library-wide error: a failure of the `git` context.
    pub fn into_capsula(self) -> (e: CapsulaError)
        ensures
            e matches CapsulaError::HookFailed { hook, message } && hook@ == "git"@ && message@ == self.message_spec(),
    {
        let message = self.message();
        CapsulaError::HookFailed { hook: copy_string("git"), message }
    }
}

} // verus!
