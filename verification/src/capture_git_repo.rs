//! The `capture-git-repo` hook: configuration, the abort decision, the
//! pushed-commit check, and the patch text written for a dirty worktree.

use vstd::prelude::*;
use crate::hook::CapsulaError;
use crate::text::{copy_string, push_char, push_str, str_starts_with, is_prefix_chars, u64_to_decimal, nat_decimal};
use crate::utf8_lossy::{from_utf8_lossy, lossy_utf8};
use crate::path::join_spec;
use crate::capture_file::call_gives;
use crate::text::opt_str;

verus! {

/// The remote consulted when none is configured.
pub open spec fn default_remote_spec() -> Seq<char> {
    "origin"@
}

/// The remote consulted when none is configured.
pub fn default_remote() -> (r: String)
    ensures
        r@ == default_remote_spec(),
{
    copy_string("origin")
}

/// The marker written after a last line without a newline.
pub open spec fn no_newline_marker() -> Seq<char> {
    "\\ No newline at end of file\n"@
}

/// The lines of `c` (the current line so far being `cur`), each written with
/// `prefix` and decoded lossily, each ending in a newline.
pub open spec fn prefixed_lines_from(prefix: char, c: Seq<u8>, cur: Seq<u8>) -> Seq<char>
    decreases c.len(),
{
    if c.len() == 0 {
        if cur.len() == 0 {
            seq![]
        } else {
            seq![prefix] + lossy_utf8(cur) + seq!['\n']
        }
    } else if c[0] == 10 {
        seq![prefix] + lossy_utf8(cur.push(10u8)) + prefixed_lines_from(prefix, c.drop_first(), seq![])
    } else {
        prefixed_lines_from(prefix, c.drop_first(), cur.push(c[0]))
    }
}

/// The text `append_prefixed_lines` adds for `content`.
pub open spec fn prefixed_lines(prefix: char, content: Seq<u8>) -> Seq<char> {
    if content.len() == 0 {
        seq![]
    } else if content.last() != 10 {
        prefixed_lines_from(prefix, content, seq![]) + no_newline_marker()
    } else {
        prefixed_lines_from(prefix, content, seq![])
    }
}

/// Number of lines of `c` (as `split_inclusive` on newlines yields them):
/// one for each position that starts a line.
pub open spec fn line_count(c: Seq<u8>) -> nat
    decreases c.len(),
{
    if c.len() == 0 {
        0
    } else {
        line_count(c.drop_last()) + (if c.drop_last().len() == 0 || c.drop_last().last() == 10 {
            1nat
        } else {
            0nat
        })
    }
}

/// The hunk range text for `content`: `0,0` when empty, else `1,<lines>`.
pub open spec fn hunk_range_spec(content: Seq<u8>) -> Seq<char> {
    if content.len() == 0 {
        "0,0"@
    } else {
        "1,"@ + nat_decimal(line_count(content))
    }
}

/// The unified hunk text replacing all of `old` by all of `new`.
pub open spec fn unified_hunk(old_path: Seq<char>, new_path: Seq<char>, old: Seq<u8>, new: Seq<u8>) -> Seq<char> {
    "--- "@ + old_path + "\n"@ + "+++ "@ + new_path + "\n"@ + "@@ -"@ + hunk_range_spec(old) + " +"@
        + hunk_range_spec(new) + " @@\n"@ + prefixed_lines('-', old) + prefixed_lines('+', new)
}

/// Whether content holds a zero byte.
pub open spec fn is_binary_spec(content: Seq<u8>) -> bool {
    content.contains(0u8)
}

/// The view of an optional byte slice.
pub open spec fn opt_bytes(o: Option<&[u8]>) -> Option<Seq<u8>> {
    match o {
        Some(b) => Some(b@),
        None => None,
    }
}

/// The patch text for one file whose content changes from `old` to `new`
/// (`None` for a missing side).
pub open spec fn file_patch(path: Seq<char>, old: Option<Seq<u8>>, new: Option<Seq<u8>>) -> Seq<char> {
    if old == new {
        seq![]
    } else {
        let header = "diff --git a/"@ + path + " b/"@ + path + "\n"@;
        match (old, new) {
            (None, Some(n)) => header + "new file mode 100644\n"@ + unified_hunk(
                "/dev/null"@,
                "b/"@ + path,
                seq![],
                n,
            ),
            (Some(o), None) => header + "deleted file mode 100644\n"@ + unified_hunk(
                "a/"@ + path,
                "/dev/null"@,
                o,
                seq![],
            ),
            (Some(o), Some(n)) => if is_binary_spec(o) || is_binary_spec(n) {
                header + "Binary files a/"@ + path + " and b/"@ + path + " differ\n"@
            } else {
                header + unified_hunk("a/"@ + path, "b/"@ + path, o, n)
            },
            (None, None) => header,
        }
    }
}

/// Whether the content holds a zero byte.
pub fn is_binary(content: &[u8]) -> (r: bool)
    ensures
        r == is_binary_spec(content@),
{
    let mut i: usize = 0;
    while i < content.len()
        invariant
            i <= content.len(),
            forall|k: int| 0 <= k < i ==> content@[k] != 0,
        decreases content.len() - i,
    {
        if content[i] == 0 {
            proof {
                assert(content@[i as int] == 0u8);
            }
            return true;
        }
        i = i + 1;
    }
    false
}

/// The repository path as patch text (lossy UTF-8).
pub fn path_for_patch(repo_path: &[u8]) -> (r: String)
    ensures
        r@ == lossy_utf8(repo_path@),
{
    from_utf8_lossy(repo_path)
}

/// The repository path as a filesystem path (lossy UTF-8).
pub fn path_for_filesystem(repo_path: &[u8]) -> (r: String)
    ensures
        r@ == lossy_utf8(repo_path@),
{
    path_for_patch(repo_path)
}

proof fn lemma_line_count_step(c: Seq<u8>)
    requires
        c.len() > 0,
    ensures
        line_count(c) == line_count(c.drop_last()) + (if c.drop_last().len() == 0 || c.drop_last().last() == 10 {
            1int
        } else {
            0int
        }),
{
}

/// Number of lines of `content`.
fn count_lines(content: &[u8]) -> (n: u64)
    ensures
        n as nat == line_count(content@),
{
    let mut n: u64 = 0;
    let mut i: usize = 0;
    proof {
        assert(content@.take(0) =~= Seq::<u8>::empty());
    }
    while i < content.len()
        invariant
            i <= content.len(),
            n as nat == line_count(content@.take(i as int)),
            n <= i,
        decreases content.len() - i,
    {
        proof {
            let t = content@.take(i + 1);
            assert(t.drop_last() =~= content@.take(i as int));
            lemma_line_count_step(t);
        }
        if i == 0 || content[i - 1] == 10 {
            n = n + 1;
        }
        i = i + 1;
    }
    proof {
        assert(content@.take(content.len() as int) =~= content@);
    }
    n
}

/// The hunk range text for `content`.
pub fn hunk_range(content: &[u8]) -> (r: String)
    ensures
        r@ == hunk_range_spec(content@),
{
    if content.len() == 0 {
        return copy_string("0,0");
    }
    let mut r = copy_string("1,");
    let n = count_lines(content);
    let digits = u64_to_decimal(n);
    push_str(&mut r, digits.as_str());
    r
}

/// Appends every line of `content`, prefixed with `prefix`.
pub fn append_prefixed_lines(diff_content: &mut String, prefix: char, content: &[u8])
    ensures
        final(diff_content)@ == old(diff_content)@ + prefixed_lines(prefix, content@),
{
    let ghost start_text = diff_content@;
    if content.len() == 0 {
        proof {
            assert(diff_content@ =~= start_text + Seq::<char>::empty());
        }
        return;
    }
    let mut start: usize = 0;
    let mut i: usize = 0;
    proof {
        assert(content@.skip(0) =~= content@);
        assert(content@.subrange(0, 0) =~= Seq::<u8>::empty());
    }
    while i < content.len()
        invariant
            start <= i <= content.len(),
            diff_content@ + prefixed_lines_from(prefix, content@.skip(i as int), content@.subrange(start as int, i as int))
                == start_text + prefixed_lines_from(prefix, content@, seq![]),
        decreases content.len() - i,
    {
        let ghost cur = content@.subrange(start as int, i as int);
        proof {
            let rest = content@.skip(i as int);
            assert(rest[0] == content@[i as int]);
            assert(rest.drop_first() =~= content@.skip(i + 1));
        }
        if content[i] == 10 {
            let line = &content[start..i + 1];
            let text = from_utf8_lossy(line);
            let ghost before = diff_content@;
            push_char(diff_content, prefix);
            push_str(diff_content, text.as_str());
            proof {
                assert(line@ =~= cur.push(10u8));
                assert(content@.subrange((i + 1) as int, (i + 1) as int) =~= Seq::<u8>::empty());
                assert(diff_content@ =~= before + (seq![prefix] + lossy_utf8(cur.push(10u8))));
            }
            start = i + 1;
        } else {
            proof {
                assert(content@.subrange(start as int, i + 1) =~= cur.push(content@[i as int]));
            }
        }
        i = i + 1;
    }
    let ghost cur = content@.subrange(start as int, i as int);
    proof {
        assert(content@.skip(i as int).len() == 0);
        assert(prefixed_lines_from(prefix, content@.skip(i as int), cur) == (if cur.len() == 0 {
            Seq::<char>::empty()
        } else {
            seq![prefix] + lossy_utf8(cur) + seq!['\n']
        }));
    }
    let ghost before_last = diff_content@;
    if start < content.len() {
        let line = &content[start..content.len()];
        let text = from_utf8_lossy(line);
        push_char(diff_content, prefix);
        push_str(diff_content, text.as_str());
        push_char(diff_content, '\n');
        proof {
            assert(line@ =~= cur);
        }
    } else {
        proof {
            assert(cur.len() == 0);
        }
    }
    proof {
        assert(diff_content@ =~= start_text + prefixed_lines_from(prefix, content@, seq![]));
    }
    if content[content.len() - 1] != 10 {
        push_str(diff_content, "\\ No newline at end of file\n");
    }
}

/// Appends a hunk replacing all of `old` by all of `new`.
pub fn append_unified_hunk(diff_content: &mut String, old_path: &str, new_path: &str, old_content: &[u8], new_content: &[u8])
    ensures
        final(diff_content)@ == old(diff_content)@ + unified_hunk(old_path@, new_path@, old_content@, new_content@),
{
    let ghost start_text = diff_content@;
    push_str(diff_content, "--- ");
    push_str(diff_content, old_path);
    push_str(diff_content, "\n");
    push_str(diff_content, "+++ ");
    push_str(diff_content, new_path);
    push_str(diff_content, "\n");
    push_str(diff_content, "@@ -");
    let ro = hunk_range(old_content);
    push_str(diff_content, ro.as_str());
    push_str(diff_content, " +");
    let rn = hunk_range(new_content);
    push_str(diff_content, rn.as_str());
    push_str(diff_content, " @@\n");
    append_prefixed_lines(diff_content, '-', old_content);
    append_prefixed_lines(diff_content, '+', new_content);
    proof {
        assert(diff_content@ =~= start_text + unified_hunk(old_path@, new_path@, old_content@, new_content@));
    }
}

/// Whether two byte slices hold the same bytes.
fn bytes_eq(a: &[u8], b: &[u8]) -> (r: bool)
    ensures
        r == (a@ == b@),
{
    if a.len() != b.len() {
        return false;
    }
    let mut i: usize = 0;
    while i < a.len()
        invariant
            a.len() == b.len(),
            i <= a.len(),
            forall|k: int| 0 <= k < i ==> a@[k] == b@[k],
        decreases a.len() - i,
    {
        if a[i] != b[i] {
            return false;
        }
        i = i + 1;
    }
    proof {
        assert(a@ =~= b@);
    }
    true
}

/// Appends the patch for one file changing from `old` to `new`; nothing is
/// appended when both sides are equal.
#[verifier::spinoff_prover]
#[verifier::rlimit(40)]
pub fn append_file_patch(diff_content: &mut String, repo_path: &[u8], old_content: Option<&[u8]>, new_content: Option<&[u8]>)
    ensures
        final(diff_content)@ == old(diff_content)@ + file_patch(lossy_utf8(repo_path@), opt_bytes(old_content), opt_bytes(new_content)),
{
    let ghost start_text = diff_content@;
    let same = match (old_content, new_content) {
        (None, None) => true,
        (Some(o), Some(n)) => bytes_eq(o, n),
        _ => false,
    };
    if same {
        proof {
            assert(opt_bytes(old_content) == opt_bytes(new_content));
            assert(diff_content@ =~= start_text + Seq::<char>::empty());
        }
        return;
    }
    let path = path_for_patch(repo_path);
    push_str(diff_content, "diff --git a/");
    push_str(diff_content, path.as_str());
    push_str(diff_content, " b/");
    push_str(diff_content, path.as_str());
    push_str(diff_content, "\n");
    let ghost header_text = diff_content@;
    match (old_content, new_content) {
        (None, Some(n)) => {
            push_str(diff_content, "new file mode 100644\n");
            let mut b = copy_string("b/");
            push_str(&mut b, path.as_str());
            let empty: [u8; 0] = [];
            append_unified_hunk(diff_content, "/dev/null", b.as_str(), &empty, n);
            proof {
                assert(empty@ =~= Seq::<u8>::empty());
            }
        },
        (Some(o), None) => {
            push_str(diff_content, "deleted file mode 100644\n");
            let mut a = copy_string("a/");
            push_str(&mut a, path.as_str());
            let empty: [u8; 0] = [];
            append_unified_hunk(diff_content, a.as_str(), "/dev/null", o, &empty);
            proof {
                assert(empty@ =~= Seq::<u8>::empty());
            }
        },
        (Some(o), Some(n)) => {
            if is_binary(o) || is_binary(n) {
                push_str(diff_content, "Binary files a/");
                push_str(diff_content, path.as_str());
                push_str(diff_content, " and b/");
                push_str(diff_content, path.as_str());
                push_str(diff_content, " differ\n");
            } else {
                let mut a = copy_string("a/");
                push_str(&mut a, path.as_str());
                let mut b = copy_string("b/");
                push_str(&mut b, path.as_str());
                append_unified_hunk(diff_content, a.as_str(), b.as_str(), o, n);
            }
        },
        (None, None) => {},
    }
    proof {
        assert(diff_content@ =~= start_text + file_patch(lossy_utf8(repo_path@), opt_bytes(old_content), opt_bytes(new_content)));
    }
}

/// Configuration of the `capture-git-repo` hook.
#[derive(Debug)]
pub struct GitHookConfig {
    pub name: String,
    pub path: String,
    pub allow_dirty: bool,
    pub require_pushed: bool,
    pub remote: String,
    /// Whether to create a lightweight tag `capsula/<run-name>` at HEAD.
    pub tag_head: bool,
}

/// Errors of the `capture-git-repo` hook.
#[derive(Debug)]
pub enum GitHookError {
    NotARepository,
    HeadNotFound { message: String },
    Discover(String),
    TagReference(String),
    Status(String),
    StatusIterator(String),
    StatusItem(String),
    References(String),
    ReferenceIterator(String),
    ReferenceItem { message: String },
    MergeBase(String),
    FindBlob(String),
    Serialization(String),
    RunDirNotSpecified { message: String },
    ArtifactDirMissing,
    WorktreeMissing,
    IoError(String),
    /// The configured path could not be resolved inside the project root.
    PathResolution(String),
}

/// The `capture-git-repo` hook.
#[derive(Debug)]
pub struct GitHook {
    config: GitHookConfig,
    working_dir: String,
}

/// What the `capture-git-repo` hook records.
#[derive(Debug)]
pub struct GitCaptured {
    pub working_dir: String,
    pub sha: String,
    pub is_dirty: bool,
    pub is_pushed: bool,
    pub tag: Option<String>,
    pub abort_requested: bool,
}

/// Whether a run must be aborted: a dirty worktree that is not allowed, or
/// a HEAD that must be pushed and is not.
pub open spec fn abort_spec(allow_dirty: bool, require_pushed: bool, is_dirty: bool, is_pushed: bool) -> bool {
    (is_dirty && !allow_dirty) || (require_pushed && !is_pushed)
}

impl GitCaptured {
    pub open spec fn abort_flag(&self) -> bool {
        self.abort_requested
    }

    /// Whether the run must be aborted after all hooks have captured.
    pub fn abort_requested(&self) -> (r: bool)
        ensures
            r == self.abort_flag(),
    {
        self.abort_requested
    }
}

/// The reference-name prefix of the branches of `remote`.
pub open spec fn remote_branch_prefix_spec(remote: Seq<char>) -> Seq<char> {
    "refs/remotes/"@ + remote + "/"@
}

/// The reference-name prefix of the branches of `remote`.
pub fn remote_branch_prefix(remote: &str) -> (r: String)
    ensures
        r@ == remote_branch_prefix_spec(remote@),
{
    let mut r = copy_string("refs/remotes/");
    push_str(&mut r, remote);
    push_str(&mut r, "/");
    r
}

/// A reference found under a remote's prefix: its name and the object it
/// points at directly (`None` for a symbolic reference).
#[derive(Debug)]
pub struct RemoteRef {
    pub name: String,
    pub target: Option<String>,
}

/// What the repository answers when asked for the merge base of two commits.
#[derive(Debug)]
pub enum MergeBase {
    /// The merge base, by id.
    Found(String),
    /// The commits have no common ancestor.
    NotFound,
    /// The question could not be answered; why.
    Failed(String),
}

/// What a merge-base answer means for "`ancestor` is an ancestor of the other
/// commit": it is exactly when the merge base is `ancestor`; with no merge
/// base it is not; a failure is reported.
pub open spec fn ancestry_outcome(ancestor: Seq<char>, m: MergeBase) -> Result<bool, GitHookError> {
    match m {
        MergeBase::Found(b) => Ok(b@ == ancestor),
        MergeBase::NotFound => Ok(false),
        MergeBase::Failed(e) => Err(GitHookError::MergeBase(e)),
    }
}

/// Whether asking `merge_base` in `repo` about commits `a` and `d` may give
/// the ancestry outcome `out`.
pub open spec fn ancestry_gives<Rp, M: Fn(&Rp, &str, &str) -> MergeBase>(
    merge_base: M,
    repo: Rp,
    a: Seq<char>,
    d: Seq<char>,
    out: Result<bool, GitHookError>,
) -> bool {
    exists|x: &str, y: &str, m: MergeBase|
        x@ == a && y@ == d && #[trigger] merge_base.ensures((&repo, x, y), m) && ancestry_outcome(a, m) == out
}

/// Turns a merge-base answer into the ancestry outcome.
pub fn ancestry_from_merge_base(ancestor: &str, merge_base: MergeBase) -> (r: Result<bool, GitHookError>)
    ensures
        r == ancestry_outcome(ancestor@, merge_base),
{
    match merge_base {
        MergeBase::Found(m) => Ok(crate::text::str_eq(m.as_str(), ancestor)),
        MergeBase::NotFound => Ok(false),
        MergeBase::Failed(e) => Err(GitHookError::MergeBase(e)),
    }
}

/// Whether `ancestor` is an ancestor of `descendant` in `repo`, from the merge
/// base that `merge_base` reports for the two.
pub fn is_ancestor<Rp, M: Fn(&Rp, &str, &str) -> MergeBase>(
    repo: &Rp,
    ancestor: &str,
    descendant: &str,
    merge_base: &M,
) -> (r: Result<bool, GitHookError>)
    requires
        forall|p: &Rp, x: &str, y: &str| #[trigger] merge_base.requires((p, x, y)),
    ensures
        ancestry_gives(*merge_base, *repo, ancestor@, descendant@, r),
{
    let m = merge_base(repo, ancestor, descendant);
    let ghost m0 = m;
    let r = ancestry_from_merge_base(ancestor, m);
    proof {
        assert(merge_base.ensures((repo, ancestor, descendant), m0) && ancestry_outcome(ancestor@, m0) == r);
    }
    r
}

/// Whether reference entry `e` shows HEAD (`head`) as pushed: it names a
/// branch under `prefix` whose target is HEAD or a descendant of HEAD.
pub open spec fn ref_hit<Rp, M: Fn(&Rp, &str, &str) -> MergeBase>(
    e: Result<RemoteRef, String>,
    head: Seq<char>,
    prefix: Seq<char>,
    merge_base: M,
    repo: Rp,
) -> bool {
    match e {
        Ok(r) => match r.target {
            Some(t) => is_prefix_chars(prefix, r.name@) && (t@ == head || ancestry_gives(merge_base, repo, head, t@, Ok(true))),
            None => false,
        },
        Err(_) => false,
    }
}

/// Whether reference entry `e` was looked at without showing HEAD as pushed.
pub open spec fn ref_miss<Rp, M: Fn(&Rp, &str, &str) -> MergeBase>(
    e: Result<RemoteRef, String>,
    head: Seq<char>,
    prefix: Seq<char>,
    merge_base: M,
    repo: Rp,
) -> bool {
    match e {
        Ok(r) => match r.target {
            None => true,
            Some(t) => if t@ == head {
                !is_prefix_chars(prefix, r.name@)
            } else {
                ancestry_gives(merge_base, repo, head, t@, Ok(false)) || (ancestry_gives(merge_base, repo, head, t@, Ok(true))
                    && !is_prefix_chars(prefix, r.name@))
            },
        },
        Err(_) => false,
    }
}

/// Whether looking at reference entry `e` failed with `err`: the entry could
/// not be read, or the ancestry test for its target failed.
pub open spec fn ref_failed<Rp, M: Fn(&Rp, &str, &str) -> MergeBase>(
    e: Result<RemoteRef, String>,
    head: Seq<char>,
    merge_base: M,
    repo: Rp,
    err: GitHookError,
) -> bool {
    match e {
        Err(m) => err matches GitHookError::ReferenceItem { message } && message@ == m@,
        Ok(r) => match r.target {
            Some(t) => t@ != head && ancestry_gives(merge_base, repo, head, t@, Err(err)),
            None => false,
        },
    }
}

/// What checking the references `refs` (in iteration order) for HEAD `head`
/// gives: `true` at the first entry that shows HEAD pushed, `false` when no
/// entry does, or the failure of the first entry that could not be checked.
pub open spec fn pushed_outcome<Rp, M: Fn(&Rp, &str, &str) -> MergeBase>(
    refs: Seq<Result<RemoteRef, String>>,
    head: Seq<char>,
    prefix: Seq<char>,
    merge_base: M,
    repo: Rp,
    res: Result<bool, GitHookError>,
) -> bool {
    match res {
        Ok(true) => exists|i: int| 0 <= i < refs.len() && #[trigger] ref_hit(refs[i], head, prefix, merge_base, repo)
            && forall|k: int| 0 <= k < i ==> #[trigger] ref_miss(refs[k], head, prefix, merge_base, repo),
        Ok(false) => forall|k: int| 0 <= k < refs.len() ==> #[trigger] ref_miss(refs[k], head, prefix, merge_base, repo),
        Err(e) => exists|i: int| 0 <= i < refs.len() && #[trigger] ref_failed(refs[i], head, merge_base, repo, e)
            && forall|k: int| 0 <= k < i ==> #[trigger] ref_miss(refs[k], head, prefix, merge_base, repo),
    }
}

/// Whether HEAD (`head_oid`) is at the tip of, or an ancestor of, a branch of
/// `remote`. `refs` lists the references under the remote's prefix in
/// iteration order; ancestry is decided from `merge_base` in `repo`.
pub fn check_pushed<Rp, M: Fn(&Rp, &str, &str) -> MergeBase>(
    repo: &Rp,
    head_oid: &str,
    remote: &str,
    refs: &Vec<Result<RemoteRef, String>>,
    merge_base: &M,
) -> (res: Result<bool, GitHookError>)
    requires
        forall|p: &Rp, x: &str, y: &str| #[trigger] merge_base.requires((p, x, y)),
    ensures
        pushed_outcome(refs@, head_oid@, remote_branch_prefix_spec(remote@), *merge_base, *repo, res),
{
    let prefix = remote_branch_prefix(remote);
    let ghost p = prefix@;
    let mut i: usize = 0;
    while i < refs.len()
        invariant
            i <= refs.len(),
            p == prefix@,
            p == remote_branch_prefix_spec(remote@),
            forall|q: &Rp, x: &str, y: &str| #[trigger] merge_base.requires((q, x, y)),
            forall|k: int| 0 <= k < i ==> #[trigger] ref_miss(refs@[k], head_oid@, p, *merge_base, *repo),
        decreases refs.len() - i,
    {
        match &refs[i] {
            Err(m) => {
                let message = copy_string(m.as_str());
                let res = Err(GitHookError::ReferenceItem { message });
                proof {
                    let e = GitHookError::ReferenceItem { message };
                    assert(ref_failed(refs@[i as int], head_oid@, *merge_base, *repo, e));
                }
                return res;
            },
            Ok(r) => {
                match &r.target {
                    None => {},
                    Some(t) => {
                        let at_tip = crate::text::str_eq(t.as_str(), head_oid);
                        let reaches = if at_tip {
                            true
                        } else {
                            let a = is_ancestor(repo, head_oid, t.as_str(), merge_base);
                            match a {
                                Ok(b) => b,
                                Err(e) => {
                                    let ghost e0 = e;
                                    proof {
                                        assert(ref_failed(refs@[i as int], head_oid@, *merge_base, *repo, e0));
                                    }
                                    return Err(e);
                                },
                            }
                        };
                        if reaches && str_starts_with(r.name.as_str(), prefix.as_str()) {
                            proof {
                                assert(ref_hit(refs@[i as int], head_oid@, p, *merge_base, *repo));
                            }
                            return Ok(true);
                        }
                        proof {
                            assert(ref_miss(refs@[i as int], head_oid@, p, *merge_base, *repo));
                        }
                    },
                }
            },
        }
        i = i + 1;
    }
    Ok(false)
}

impl GitHook {
    pub closed spec fn config_view(&self) -> (Seq<char>, bool, bool, Seq<char>, bool) {
        (self.config.name@, self.config.allow_dirty, self.config.require_pushed, self.config.remote@, self.config.tag_head)
    }

    pub closed spec fn working_dir_view(&self) -> Seq<char> {
        self.working_dir@
    }

    /// Build the hook: the configured path is resolved inside the project
    /// root.
    pub fn from_config<F: Fn(&str) -> Result<String, String>>(
        config: GitHookConfig,
        project_root: &str,
        canonicalize: &F,
    ) -> (res: Result<GitHook, GitHookError>)
        requires
            forall|s: &str| #[trigger] canonicalize.requires((s,)),
        ensures
            match res {
                Ok(h) => h.config_view() == (config.name@, config.allow_dirty, config.require_pushed, config.remote@, config.tag_head)
                    && exists|rp: crate::project_path::ResolvedProjectPath|
                        #[trigger] crate::project_path::ResolvedProjectPath::resolve_spec(config.path@, project_root@, *canonicalize, Ok(rp))
                        && rp@.path == h.working_dir_view(),
                Err(GitHookError::PathResolution(m)) => exists|e: crate::project_path::ProjectPathError|
                    #[trigger] crate::project_path::ResolvedProjectPath::resolve_spec(config.path@, project_root@, *canonicalize, Err(e))
                    && m@ == e.message_spec(),
                Err(_) => false,
            },
    {
        let r = crate::project_path::ResolvedProjectPath::resolve_existing(config.path.as_str(), project_root, canonicalize);
        match r {
            Ok(rp) => {
                let working_dir = rp.into_path_buf();
                Ok(GitHook { config, working_dir })
            },
            Err(e) => Err(GitHookError::PathResolution(e.message())),
        }
    }

    /// The hook writes its patch into its own artifact directory.
    pub fn needs_artifact_dir(&self) -> (r: bool)
        ensures
            r,
    {
        true
    }

    /// The directory the repository is discovered from: the resolved working
    /// directory, or `current_dir` when it is empty.
    pub fn repo_path(&self, current_dir: &str) -> (r: String)
        ensures
            r@ == (if self.working_dir_view().len() == 0 { current_dir@ } else { self.working_dir_view() }),
    {
        let v = crate::text::chars_of(self.working_dir.as_str());
        if v.len() == 0 {
            copy_string(current_dir)
        } else {
            copy_string(self.working_dir.as_str())
        }
    }

    /// The name of the patch file written for a dirty worktree.
    pub fn patch_file_name(&self) -> (r: String)
        ensures
            r@ == self.config_view().0 + ".patch"@,
    {
        let mut r = copy_string(self.config.name.as_str());
        push_str(&mut r, ".patch");
        r
    }

    /// The tag to create at HEAD for run `run_name`, when tagging is configured.
    pub fn tag_name(&self, run_name: &str) -> (r: Option<String>)
        ensures
            self.config_view().4 ==> (r matches Some(t) && t@ == "capsula/"@ + run_name@),
            !self.config_view().4 ==> r is None,
    {
        if self.config.tag_head {
            let mut t = copy_string("capsula/");
            push_str(&mut t, run_name);
            Some(t)
        } else {
            None
        }
    }

    /// The remote whose branches are checked.
    pub fn remote(&self) -> (r: &str)
        ensures
            r@ == self.config_view().3,
    {
        self.config.remote.as_str()
    }

    /// Whether the worktree may be dirty.
    pub fn allow_dirty(&self) -> (r: bool)
        ensures
            r == self.config_view().1,
    {
        self.config.allow_dirty
    }

    /// Whether HEAD must be pushed.
    pub fn require_pushed(&self) -> (r: bool)
        ensures
            r == self.config_view().2,
    {
        self.config.require_pushed
    }

    /// The record of one run of the hook.
    pub fn captured(&self, working_dir: String, sha: String, is_dirty: bool, is_pushed: bool, tag: Option<String>) -> (c: GitCaptured)
        ensures
            c.working_dir == working_dir,
            c.sha == sha,
            c.is_dirty == is_dirty,
            c.is_pushed == is_pushed,
            c.tag == tag,
            c.abort_flag() == abort_spec(self.config_view().1, self.config_view().2, is_dirty, is_pushed),
    {
        let abort_requested = (is_dirty && !self.config.allow_dirty) || (self.config.require_pushed && !is_pushed);
        GitCaptured { working_dir, sha, is_dirty, is_pushed, tag, abort_requested }
    }
}

/// Where one side of a file patch is read from.
#[derive(Debug, PartialEq, Eq)]
pub enum ContentSource {
    /// A blob of the object database, by id.
    Blob(String),
    /// The file in the worktree at this repository path.
    Worktree(Vec<u8>),
}

/// The value of a content source.
pub enum SourceView {
    Blob(Seq<char>),
    Worktree(Seq<u8>),
}

/// The value of an optional content source.
pub open spec fn source_view(o: Option<ContentSource>) -> Option<SourceView> {
    match o {
        Some(ContentSource::Blob(id)) => Some(SourceView::Blob(id@)),
        Some(ContentSource::Worktree(p)) => Some(SourceView::Worktree(p@)),
        None => None,
    }
}

/// One change reported by the repository status.
#[derive(Debug)]
#[allow(inconsistent_fields)]
pub enum StatusChange {
    /// A tracked file was removed from the worktree.
    WorktreeRemoved { path: Vec<u8>, index_id: String },
    /// A tracked file was modified in the worktree (content, type or submodule).
    WorktreeModified { path: Vec<u8>, index_id: String },
    /// A file marked as intended to be added.
    IntentToAdd { path: Vec<u8> },
    /// A conflict, or an entry that only needs its stat refreshed.
    Unchanged,
    /// An untracked file.
    Untracked { path: Vec<u8> },
    /// A rewrite in the worktree, from an index entry (`Some(id)`) or a copy
    /// from another untracked file (`None`).
    WorktreeRewrite { path: Vec<u8>, source_id: Option<String> },
    /// A change between HEAD's tree and the index.
    TreeIndex(IndexChange),
}

/// One change between HEAD's tree and the index.
#[derive(Debug)]
#[allow(inconsistent_fields)]
pub enum IndexChange {
    /// A file added to the index.
    Addition { path: Vec<u8>, id: String },
    /// A file deleted from the index.
    Deletion { path: Vec<u8>, id: String },
    /// A file modified in the index.
    Modification { path: Vec<u8>, previous_id: String, id: String },
    /// A file rewritten in the index.
    Rewrite { path: Vec<u8>, source_id: String, id: String },
}

/// Where the two sides of the patch for an index change come from: blobs,
/// the missing side being nothing.
pub open spec fn index_plan_spec(change: IndexChange) -> (Seq<u8>, Option<SourceView>, Option<SourceView>) {
    match change {
        IndexChange::Addition { path, id } => (path@, None, Some(SourceView::Blob(id@))),
        IndexChange::Deletion { path, id } => (path@, Some(SourceView::Blob(id@)), None),
        IndexChange::Modification { path, previous_id, id } => (
            path@,
            Some(SourceView::Blob(previous_id@)),
            Some(SourceView::Blob(id@)),
        ),
        IndexChange::Rewrite { path, source_id, id } => (path@, Some(SourceView::Blob(source_id@)), Some(SourceView::Blob(id@))),
    }
}

/// The patch to write for one status change: the path and where the old and
/// new contents come from. `None` means nothing is written.
#[derive(Debug)]
pub struct PatchPlan {
    pub path: Vec<u8>,
    pub old: Option<ContentSource>,
    pub new: Option<ContentSource>,
}

/// A plan as values: the path, and the old and new sources.
pub open spec fn plan_view(p: Option<PatchPlan>) -> Option<(Seq<u8>, Option<SourceView>, Option<SourceView>)> {
    match p {
        Some(q) => Some((q.path@, source_view(q.old), source_view(q.new))),
        None => None,
    }
}

/// Where the two sides of the patch for a status change come from: removals
/// and modifications in the worktree compare the index blob with the file
/// (or nothing); new and untracked files compare nothing with the file;
/// changes staged in the index compare blobs; conflicts and stat-only
/// entries give no patch.
pub open spec fn plan_spec(change: StatusChange) -> Option<(Seq<u8>, Option<SourceView>, Option<SourceView>)> {
    match change {
        StatusChange::WorktreeRemoved { path, index_id } => Some((path@, Some(SourceView::Blob(index_id@)), None)),
        StatusChange::WorktreeModified { path, index_id } => Some(
            (path@, Some(SourceView::Blob(index_id@)), Some(SourceView::Worktree(path@))),
        ),
        StatusChange::IntentToAdd { path } => Some((path@, None, Some(SourceView::Worktree(path@)))),
        StatusChange::Unchanged => None,
        StatusChange::Untracked { path } => Some((path@, None, Some(SourceView::Worktree(path@)))),
        StatusChange::WorktreeRewrite { path, source_id } => Some(
            (
                path@,
                match source_id {
                    Some(id) => Some(SourceView::Blob(id@)),
                    None => None,
                },
                Some(SourceView::Worktree(path@)),
            ),
        ),
        StatusChange::TreeIndex(c) => Some(index_plan_spec(c)),
    }
}

fn blob_source(id: &String) -> (r: Option<ContentSource>)
    ensures
        source_view(r) == Some(SourceView::Blob(id@)),
{
    Some(ContentSource::Blob(copy_string(id.as_str())))
}

fn worktree_source(path: &Vec<u8>) -> (r: Option<ContentSource>)
    ensures
        source_view(r) == Some(SourceView::Worktree(path@)),
{
    Some(ContentSource::Worktree(path.clone()))
}

/// Where the two sides of the patch for `change` come from.
pub fn patch_plan(change: &StatusChange) -> (r: Option<PatchPlan>)
    ensures
        plan_view(r) == plan_spec(*change),
{
    match change {
        StatusChange::WorktreeRemoved { path, index_id } => Some(
            PatchPlan { path: path.clone(), old: blob_source(index_id), new: None },
        ),
        StatusChange::WorktreeModified { path, index_id } => Some(
            PatchPlan { path: path.clone(), old: blob_source(index_id), new: worktree_source(path) },
        ),
        StatusChange::IntentToAdd { path } => Some(PatchPlan { path: path.clone(), old: None, new: worktree_source(path) }),
        StatusChange::Unchanged => None,
        StatusChange::Untracked { path } => Some(PatchPlan { path: path.clone(), old: None, new: worktree_source(path) }),
        StatusChange::WorktreeRewrite { path, source_id } => {
            let old = match source_id {
                Some(id) => blob_source(id),
                None => None,
            };
            Some(PatchPlan { path: path.clone(), old, new: worktree_source(path) })
        },
        StatusChange::TreeIndex(c) => match c {
            IndexChange::Addition { path, id } => Some(PatchPlan { path: path.clone(), old: None, new: blob_source(id) }),
            IndexChange::Deletion { path, id } => Some(PatchPlan { path: path.clone(), old: blob_source(id), new: None }),
            IndexChange::Modification { path, previous_id, id } => Some(
                PatchPlan { path: path.clone(), old: blob_source(previous_id), new: blob_source(id) },
            ),
            IndexChange::Rewrite { path, source_id, id } => Some(
                PatchPlan { path: path.clone(), old: blob_source(source_id), new: blob_source(id) },
            ),
        },
    }
}

/// Each status change is patched with the right sides: a file removed from
/// the worktree is a deletion (its index blob on the old side, nothing on
/// the new side); a file modified in the worktree compares its index blob
/// with the worktree file; an untracked or intended-to-add file is an
/// addition (nothing on the old side, the worktree file on the new side); a
/// change in the index compares HEAD's blob with the index's, with nothing
/// on the side where the file does not exist; a conflict or a stat-only
/// entry gives no patch.
pub proof fn lemma_patch_plan_sides(change: StatusChange, r: Option<PatchPlan>)
    requires
        call_ensures(patch_plan, (&change,), r),
    ensures
        change matches StatusChange::WorktreeRemoved { path, index_id } ==> r matches Some(p) && p.path@ == path@
            && (p.old matches Some(ContentSource::Blob(id)) && id@ == index_id@) && p.new is None,
        change matches StatusChange::WorktreeModified { path, index_id } ==> r matches Some(p) && p.path@ == path@
            && (p.old matches Some(ContentSource::Blob(id)) && id@ == index_id@) && (p.new matches Some(
            ContentSource::Worktree(w),
        ) && w@ == path@),
        change matches StatusChange::Untracked { path } ==> r matches Some(p) && p.path@ == path@ && p.old is None
            && (p.new matches Some(ContentSource::Worktree(w)) && w@ == path@),
        change matches StatusChange::IntentToAdd { path } ==> r matches Some(p) && p.path@ == path@ && p.old is None
            && (p.new matches Some(ContentSource::Worktree(w)) && w@ == path@),
        change matches StatusChange::TreeIndex(IndexChange::Addition { path, id }) ==> r matches Some(p) && p.path@
            == path@ && p.old is None && (p.new matches Some(ContentSource::Blob(x)) && x@ == id@),
        change matches StatusChange::TreeIndex(IndexChange::Deletion { path, id }) ==> r matches Some(p) && p.path@
            == path@ && (p.old matches Some(ContentSource::Blob(x)) && x@ == id@) && p.new is None,
        change is Unchanged ==> r is None,
{
    match r {
        Some(p) => {
            match p.old {
                Some(ContentSource::Blob(_)) => {},
                Some(ContentSource::Worktree(_)) => {},
                None => {},
            }
            match p.new {
                Some(ContentSource::Blob(_)) => {},
                Some(ContentSource::Worktree(_)) => {},
                None => {},
            }
        },
        None => {},
    }
}

/// What reading one side of a patch gives: the bytes, or the failure of the
/// read (a blob that cannot be found, a worktree file that cannot be read).
pub open spec fn content_outcome(v: Result<Vec<u8>, String>, from_blob: bool) -> Result<Option<Seq<u8>>, GitHookError> {
    match v {
        Ok(b) => Ok(Some(b@)),
        Err(m) => Err(if from_blob { GitHookError::FindBlob(m) } else { GitHookError::IoError(m) }),
    }
}

/// Whether looking up blob side `src` may give `out`: a blob is looked up by
/// id in `repo`; no side gives nothing.
pub open spec fn blob_fetch_gives<Rp, B: Fn(&Rp, &str) -> Result<Vec<u8>, String>>(
    src: Option<SourceView>,
    repo: Rp,
    find_blob: B,
    out: Result<Option<Seq<u8>>, GitHookError>,
) -> bool {
    match src {
        None => out == Ok::<Option<Seq<u8>>, GitHookError>(None),
        Some(SourceView::Blob(id)) => exists|x: &str, v: Result<Vec<u8>, String>|
            x@ == id && #[trigger] find_blob.ensures((&repo, x), v) && out == content_outcome(v, true),
        Some(SourceView::Worktree(_)) => false,
    }
}

/// Whether reading `src` may give `out`: a blob is looked up by id in
/// `repo`; a worktree file is read at its path under `workdir`.
pub open spec fn fetch_gives<
    Rp,
    B: Fn(&Rp, &str) -> Result<Vec<u8>, String>,
    W: Fn(&str) -> Result<Vec<u8>, String>,
>(
    src: Option<SourceView>,
    repo: Rp,
    workdir: Seq<char>,
    find_blob: B,
    read: W,
    out: Result<Option<Seq<u8>>, GitHookError>,
) -> bool {
    match src {
        Some(SourceView::Worktree(p)) => exists|x: &str, v: Result<Vec<u8>, String>|
            x@ == join_spec(workdir, lossy_utf8(p)) && #[trigger] read.ensures((x,), v) && out == content_outcome(v, false),
        _ => blob_fetch_gives(src, repo, find_blob, out),
    }
}

/// Read contents that are there, as values.
pub open spec fn some_view(r: Result<Vec<u8>, GitHookError>) -> Result<Option<Seq<u8>>, GitHookError> {
    match r {
        Ok(v) => Ok(Some(v@)),
        Err(e) => Err(e),
    }
}

/// The read contents as values.
pub open spec fn fetched_view(r: Result<Option<Vec<u8>>, GitHookError>) -> Result<Option<Seq<u8>>, GitHookError> {
    match r {
        Ok(Some(v)) => Ok(Some(v@)),
        Ok(None) => Ok(None),
        Err(e) => Err(e),
    }
}

impl GitHook {
    /// The content of the blob `id` of `repo`.
    pub fn blob_content<Rp, B: Fn(&Rp, &str) -> Result<Vec<u8>, String>>(repo: &Rp, id: &str, find_blob: &B) -> (r: Result<
        Vec<u8>,
        GitHookError,
    >)
        requires
            forall|p: &Rp, x: &str| #[trigger] find_blob.requires((p, x)),
        ensures
            blob_fetch_gives(Some(SourceView::Blob(id@)), *repo, *find_blob, some_view(r)),
    {
        let v = find_blob(repo, id);
        let ghost v0 = v;
        let r = match v {
            Ok(b) => Ok(b),
            Err(m) => Err(GitHookError::FindBlob(m)),
        };
        proof {
            assert(find_blob.ensures((repo, id), v0) && some_view(r) == content_outcome(v0, true));
        }
        r
    }

    /// The content of the worktree file at repository path `repo_path`
    /// under `workdir`.
    pub fn worktree_content<W: Fn(&str) -> Result<Vec<u8>, String>>(workdir: &str, repo_path: &[u8], read: &W) -> (r: Result<
        Vec<u8>,
        GitHookError,
    >)
        requires
            forall|x: &str| #[trigger] read.requires((x,)),
        ensures
            exists|x: &str, v: Result<Vec<u8>, String>|
                x@ == join_spec(workdir@, lossy_utf8(repo_path@)) && #[trigger] read.ensures((x,), v) && some_view(r)
                    == content_outcome(v, false),
    {
        let rel = path_for_filesystem(repo_path);
        let full = crate::path::join(workdir, rel.as_str());
        let fs = full.as_str();
        let v = read(fs);
        let ghost v0 = v;
        let r = match v {
            Ok(b) => Ok(b),
            Err(m) => Err(GitHookError::IoError(m)),
        };
        proof {
            assert(read.ensures((fs,), v0) && some_view(r) == content_outcome(v0, false));
        }
        r
    }
}

fn fetch_content<Rp, B: Fn(&Rp, &str) -> Result<Vec<u8>, String>, W: Fn(&str) -> Result<Vec<u8>, String>>(
    repo: &Rp,
    workdir: &str,
    src: &Option<ContentSource>,
    find_blob: &B,
    read: &W,
) -> (r: Result<Option<Vec<u8>>, GitHookError>)
    requires
        forall|p: &Rp, x: &str| #[trigger] find_blob.requires((p, x)),
        forall|x: &str| #[trigger] read.requires((x,)),
    ensures
        fetch_gives(source_view(*src), *repo, workdir@, *find_blob, *read, fetched_view(r)),
{
    match src {
        None => Ok(None),
        Some(ContentSource::Blob(id)) => match GitHook::blob_content(repo, id.as_str(), find_blob) {
            Ok(b) => Ok(Some(b)),
            Err(e) => Err(e),
        },
        Some(ContentSource::Worktree(p)) => match GitHook::worktree_content(workdir, p.as_slice(), read) {
            Ok(b) => Ok(Some(b)),
            Err(e) => Err(e),
        },
    }
}

/// Whether appending the patch for index change `change` may turn the text
/// `before` into `after`: both blob sides are looked up (old first) and the
/// file patch appended; a failed lookup leaves the text as it was and is the
/// `failure`.
pub open spec fn index_patch_gives<Rp, B: Fn(&Rp, &str) -> Result<Vec<u8>, String>>(
    change: IndexChange,
    repo: Rp,
    find_blob: B,
    before: Seq<char>,
    after: Seq<char>,
    failure: Option<GitHookError>,
) -> bool {
    let (path, old, new) = index_plan_spec(change);
    exists|fo: Result<Option<Seq<u8>>, GitHookError>| #[trigger] blob_fetch_gives(old, repo, find_blob, fo) && match fo {
        Err(e) => failure == Some(e) && after == before,
        Ok(o) => exists|fnew: Result<Option<Seq<u8>>, GitHookError>|
            #[trigger] blob_fetch_gives(new, repo, find_blob, fnew) && match fnew {
                Err(e) => failure == Some(e) && after == before,
                Ok(n) => failure is None && after == before + file_patch(lossy_utf8(path), o, n),
            },
    }
}

/// Whether appending the patch for `change` may turn the text `before` into
/// `after` with result `r`: both sides are read (old first), and the file
/// patch of what was read is appended; a failed read leaves the text as it
/// was and is the `failure`.
pub open spec fn status_patch_gives<
    Rp,
    B: Fn(&Rp, &str) -> Result<Vec<u8>, String>,
    W: Fn(&str) -> Result<Vec<u8>, String>,
>(
    change: StatusChange,
    repo: Rp,
    workdir: Seq<char>,
    find_blob: B,
    read: W,
    before: Seq<char>,
    after: Seq<char>,
    failure: Option<GitHookError>,
) -> bool {
    match plan_spec(change) {
        None => failure is None && after == before,
        Some((path, old, new)) => exists|fo: Result<Option<Seq<u8>>, GitHookError>|
            #[trigger] fetch_gives(old, repo, workdir, find_blob, read, fo) && match fo {
                Err(e) => failure == Some(e) && after == before,
                Ok(o) => exists|fnew: Result<Option<Seq<u8>>, GitHookError>|
                    #[trigger] fetch_gives(new, repo, workdir, find_blob, read, fnew) && match fnew {
                        Err(e) => failure == Some(e) && after == before,
                        Ok(n) => failure is None && after == before + file_patch(lossy_utf8(path), o, n),
                    },
            },
    }
}

/// A file removed from the worktree is written to the patch as a deletion:
/// when its patch is appended, the index blob it had is looked up, and the
/// text grows by the file patch from that content to nothing.
pub proof fn lemma_removed_file_appends_deletion<
    Rp,
    B: Fn(&Rp, &str) -> Result<Vec<u8>, String>,
    W: Fn(&str) -> Result<Vec<u8>, String>,
>(
    path: Vec<u8>,
    index_id: String,
    repo: Rp,
    workdir: Seq<char>,
    find_blob: B,
    read: W,
    before: Seq<char>,
    after: Seq<char>,
)
    requires
        status_patch_gives(
            StatusChange::WorktreeRemoved { path, index_id },
            repo,
            workdir,
            find_blob,
            read,
            before,
            after,
            None,
        ),
    ensures
        exists|x: &str, v: Result<Vec<u8>, String>|
            x@ == index_id@ && #[trigger] find_blob.ensures((&repo, x), v) && v is Ok && after == before
                + file_patch(lossy_utf8(path@), Some(v->Ok_0@), None),
{
}

/// The patch of a deletion is not the patch of an addition: the text for a
/// file going from `content` to nothing says "deleted file" where the text
/// for a file going from nothing to `content` says "new file".
pub proof fn lemma_deletion_is_not_addition(path: Seq<char>, content: Seq<u8>)
    ensures
        file_patch(path, Some(content), None) != file_patch(path, None, Some(content)),
{
    let header = "diff --git a/"@ + path + " b/"@ + path + "\n"@;
    let del = "deleted file mode 100644\n"@;
    let add = "new file mode 100644\n"@;
    reveal_strlit("deleted file mode 100644\n");
    reveal_strlit("new file mode 100644\n");
    let d = file_patch(path, Some(content), None);
    let a = file_patch(path, None, Some(content));
    let ud = unified_hunk("a/"@ + path, "/dev/null"@, content, seq![]);
    let ua = unified_hunk("/dev/null"@, "b/"@ + path, seq![], content);
    assert(d == header + del + ud);
    assert(a == header + add + ua);
    let k = header.len() as int;
    assert((header + del)[k] == del[0]);
    assert((header + add)[k] == add[0]);
    assert(d[k] == (header + del)[k]);
    assert(a[k] == (header + add)[k]);
    assert(del[0] == 'd');
    assert(add[0] == 'n');
}

/// The failure of a step, if it failed.
pub open spec fn failure_of(r: Result<(), GitHookError>) -> Option<GitHookError> {
    match r {
        Ok(_) => None,
        Err(e) => Some(e),
    }
}

fn as_opt_slice(v: &Option<Vec<u8>>) -> (r: Option<&[u8]>)
    ensures
        opt_bytes(r) == match v {
            Some(b) => Some(b@),
            None => None::<Seq<u8>>,
        },
{
    match v {
        Some(b) => Some(b.as_slice()),
        None => None,
    }
}

/// An index change's patch, read through blob lookups, is the patch of the
/// same change among status entries.
proof fn lemma_index_patch<
    Rp,
    B: Fn(&Rp, &str) -> Result<Vec<u8>, String>,
    W: Fn(&str) -> Result<Vec<u8>, String>,
>(
    change: IndexChange,
    repo: Rp,
    workdir: Seq<char>,
    find_blob: B,
    read: W,
    before: Seq<char>,
    after: Seq<char>,
    failure: Option<GitHookError>,
)
    requires
        index_patch_gives(change, repo, find_blob, before, after, failure),
    ensures
        status_patch_gives(StatusChange::TreeIndex(change), repo, workdir, find_blob, read, before, after, failure),
{
    let (path, old, new) = index_plan_spec(change);
    let fo = choose|fo: Result<Option<Seq<u8>>, GitHookError>| #[trigger] blob_fetch_gives(old, repo, find_blob, fo) && match fo {
        Err(e) => failure == Some(e) && after == before,
        Ok(o) => exists|fnew: Result<Option<Seq<u8>>, GitHookError>|
            #[trigger] blob_fetch_gives(new, repo, find_blob, fnew) && match fnew {
                Err(e) => failure == Some(e) && after == before,
                Ok(n) => failure is None && after == before + file_patch(lossy_utf8(path), o, n),
            },
    };
    assert(fetch_gives(old, repo, workdir, find_blob, read, fo));
    if let Ok(o) = fo {
        let fnew = choose|fnew: Result<Option<Seq<u8>>, GitHookError>|
            #[trigger] blob_fetch_gives(new, repo, find_blob, fnew) && match fnew {
                Err(e) => failure == Some(e) && after == before,
                Ok(n) => failure is None && after == before + file_patch(lossy_utf8(path), o, n),
            };
        assert(fetch_gives(new, repo, workdir, find_blob, read, fnew));
    }
}

impl GitHook {
    /// Appends the patch for one change between HEAD's tree and the index,
    /// reading both sides as blobs with `find_blob`.
    pub fn append_index_patch<Rp, B: Fn(&Rp, &str) -> Result<Vec<u8>, String>>(
        repo: &Rp,
        diff_content: &mut String,
        change: &IndexChange,
        find_blob: &B,
    ) -> (r: Result<(), GitHookError>)
        requires
            forall|p: &Rp, x: &str| #[trigger] find_blob.requires((p, x)),
        ensures
            index_patch_gives(*change, *repo, *find_blob, old(diff_content)@, final(diff_content)@, failure_of(r)),
    {
        let ghost none_side = Ok::<Option<Seq<u8>>, GitHookError>(None);
        proof {
            assert(blob_fetch_gives(None, *repo, *find_blob, none_side));
        }
        match change {
            IndexChange::Addition { path, id } => {
                let new = match Self::blob_content(repo, id.as_str(), find_blob) {
                    Ok(b) => b,
                    Err(e) => {
                        let ghost e0 = e;
                        proof {
                            assert(blob_fetch_gives(Some(SourceView::Blob(id@)), *repo, *find_blob, Err(e0)));
                        }
                        return Err(e);
                    },
                };
                proof {
                    assert(blob_fetch_gives(Some(SourceView::Blob(id@)), *repo, *find_blob, Ok(Some(new@))));
                }
                append_file_patch(diff_content, path.as_slice(), None, Some(new.as_slice()));
            },
            IndexChange::Deletion { path, id } => {
                let old_side = match Self::blob_content(repo, id.as_str(), find_blob) {
                    Ok(b) => b,
                    Err(e) => {
                        let ghost e0 = e;
                        proof {
                            assert(blob_fetch_gives(Some(SourceView::Blob(id@)), *repo, *find_blob, Err(e0)));
                        }
                        return Err(e);
                    },
                };
                proof {
                    assert(blob_fetch_gives(Some(SourceView::Blob(id@)), *repo, *find_blob, Ok(Some(old_side@))));
                }
                append_file_patch(diff_content, path.as_slice(), Some(old_side.as_slice()), None);
            },
            IndexChange::Modification { path, previous_id, id } => {
                let old_side = match Self::blob_content(repo, previous_id.as_str(), find_blob) {
                    Ok(b) => b,
                    Err(e) => {
                        let ghost e0 = e;
                        proof {
                            assert(blob_fetch_gives(Some(SourceView::Blob(previous_id@)), *repo, *find_blob, Err(e0)));
                        }
                        return Err(e);
                    },
                };
                proof {
                    assert(blob_fetch_gives(Some(SourceView::Blob(previous_id@)), *repo, *find_blob, Ok(Some(old_side@))));
                }
                let new = match Self::blob_content(repo, id.as_str(), find_blob) {
                    Ok(b) => b,
                    Err(e) => {
                        let ghost e0 = e;
                        proof {
                            assert(blob_fetch_gives(Some(SourceView::Blob(id@)), *repo, *find_blob, Err(e0)));
                        }
                        return Err(e);
                    },
                };
                proof {
                    assert(blob_fetch_gives(Some(SourceView::Blob(id@)), *repo, *find_blob, Ok(Some(new@))));
                }
                append_file_patch(diff_content, path.as_slice(), Some(old_side.as_slice()), Some(new.as_slice()));
            },
            IndexChange::Rewrite { path, source_id, id } => {
                let old_side = match Self::blob_content(repo, source_id.as_str(), find_blob) {
                    Ok(b) => b,
                    Err(e) => {
                        let ghost e0 = e;
                        proof {
                            assert(blob_fetch_gives(Some(SourceView::Blob(source_id@)), *repo, *find_blob, Err(e0)));
                        }
                        return Err(e);
                    },
                };
                proof {
                    assert(blob_fetch_gives(Some(SourceView::Blob(source_id@)), *repo, *find_blob, Ok(Some(old_side@))));
                }
                let new = match Self::blob_content(repo, id.as_str(), find_blob) {
                    Ok(b) => b,
                    Err(e) => {
                        let ghost e0 = e;
                        proof {
                            assert(blob_fetch_gives(Some(SourceView::Blob(id@)), *repo, *find_blob, Err(e0)));
                        }
                        return Err(e);
                    },
                };
                proof {
                    assert(blob_fetch_gives(Some(SourceView::Blob(id@)), *repo, *find_blob, Ok(Some(new@))));
                }
                append_file_patch(diff_content, path.as_slice(), Some(old_side.as_slice()), Some(new.as_slice()));
            },
        }
        Ok(())
    }
}

impl GitHook {
    /// Appends the patch for one status change to `diff_content`, reading
    /// blobs with `find_blob` and worktree files (under `workdir`) with `read`.
    pub fn append_status_patch<Rp, B: Fn(&Rp, &str) -> Result<Vec<u8>, String>, W: Fn(&str) -> Result<Vec<u8>, String>>(
        repo: &Rp,
        workdir: &str,
        change: &StatusChange,
        diff_content: &mut String,
        find_blob: &B,
        read: &W,
    ) -> (r: Result<(), GitHookError>)
        requires
            forall|p: &Rp, x: &str| #[trigger] find_blob.requires((p, x)),
            forall|x: &str| #[trigger] read.requires((x,)),
        ensures
            status_patch_gives(*change, *repo, workdir@, *find_blob, *read, old(diff_content)@, final(diff_content)@, failure_of(r)),
    {
        if let StatusChange::TreeIndex(c) = change {
            let ghost before = diff_content@;
            let r = Self::append_index_patch(repo, diff_content, c, find_blob);
            proof {
                lemma_index_patch(*c, *repo, workdir@, *find_blob, *read, before, diff_content@, failure_of(r));
            }
            return r;
        }
        let plan = match patch_plan(change) {
            Some(p) => p,
            None => {
                return Ok(());
            },
        };
        let ghost pv = plan_view(Some(plan));
        let old_side = fetch_content(repo, workdir, &plan.old, find_blob, read);
        let ghost fo = fetched_view(old_side);
        let old_bytes = match old_side {
            Ok(o) => o,
            Err(e) => {
                proof {
                    assert(fetch_gives(pv->Some_0.1, *repo, workdir@, *find_blob, *read, fo));
                }
                return Err(e);
            },
        };
        let new_side = fetch_content(repo, workdir, &plan.new, find_blob, read);
        let ghost fnew = fetched_view(new_side);
        let new_bytes = match new_side {
            Ok(n) => n,
            Err(e) => {
                proof {
                    assert(fetch_gives(pv->Some_0.1, *repo, workdir@, *find_blob, *read, fo));
                    assert(fetch_gives(pv->Some_0.2, *repo, workdir@, *find_blob, *read, fnew));
                }
                return Err(e);
            },
        };
        let o = as_opt_slice(&old_bytes);
        let n = as_opt_slice(&new_bytes);
        append_file_patch(diff_content, plan.path.as_slice(), o, n);
        proof {
            assert(fetch_gives(pv->Some_0.1, *repo, workdir@, *find_blob, *read, fo));
            assert(fetch_gives(pv->Some_0.2, *repo, workdir@, *find_blob, *read, fnew));
        }
        Ok(())
    }
}

/// Why the repository status could not be listed.
#[derive(Debug)]
pub enum StatusFailure {
    /// The status could not be set up.
    Status(String),
    /// Iterating over the status could not start.
    Iterator(String),
}

/// The hook error for a status failure.
pub open spec fn status_failure_error(f: StatusFailure) -> GitHookError {
    match f {
        StatusFailure::Status(m) => GitHookError::Status(m),
        StatusFailure::Iterator(m) => GitHookError::StatusIterator(m),
    }
}

/// Whether the worktree is dirty, from the status listing `s`: it is when the
/// listing has a first entry (ignored files are not listed); a first entry
/// that could not be read is reported.
pub open spec fn dirty_outcome(s: Result<Vec<Result<StatusChange, String>>, StatusFailure>) -> Result<bool, GitHookError> {
    match s {
        Err(f) => Err(status_failure_error(f)),
        Ok(items) => if items.len() == 0 {
            Ok(false)
        } else {
            match items@[0] {
                Ok(_) => Ok(true),
                Err(m) => Err(GitHookError::StatusItem(m)),
            }
        },
    }
}

/// Whether patching the first `n` status entries of `items` in turn may
/// pass through the texts `texts`: starting from empty text, entry `k` was
/// read and its patch turned `texts[k]` into `texts[k + 1]`.
pub open spec fn patch_steps<
    Rp,
    B: Fn(&Rp, &str) -> Result<Vec<u8>, String>,
    W: Fn(&str) -> Result<Vec<u8>, String>,
>(
    items: Seq<Result<StatusChange, String>>,
    n: int,
    repo: Rp,
    workdir: Seq<char>,
    find_blob: B,
    read: W,
    texts: Seq<Seq<char>>,
) -> bool {
    &&& 0 <= n <= items.len()
    &&& texts.len() == n + 1
    &&& texts[0].len() == 0
    &&& forall|k: int| 0 <= k < n ==> (#[trigger] items[k]) is Ok && status_patch_gives(
        items[k]->Ok_0,
        repo,
        workdir,
        find_blob,
        read,
        texts[k],
        texts[k + 1],
        None,
    )
}

/// Whether patching every status entry of `items` in turn, starting from
/// empty text, may give `text`.
pub open spec fn patches_gives<
    Rp,
    B: Fn(&Rp, &str) -> Result<Vec<u8>, String>,
    W: Fn(&str) -> Result<Vec<u8>, String>,
>(
    items: Seq<Result<StatusChange, String>>,
    repo: Rp,
    workdir: Seq<char>,
    find_blob: B,
    read: W,
    text: Seq<char>,
) -> bool {
    exists|texts: Seq<Seq<char>>|
        #[trigger] patch_steps(items, items.len() as int, repo, workdir, find_blob, read, texts) && texts.last() == text
}

/// Whether patching the entries of `items` in turn may stop with `e`: the
/// entries before entry `i` were patched, and entry `i` could not be read
/// or its contents could not be.
pub open spec fn patches_fail<
    Rp,
    B: Fn(&Rp, &str) -> Result<Vec<u8>, String>,
    W: Fn(&str) -> Result<Vec<u8>, String>,
>(
    items: Seq<Result<StatusChange, String>>,
    repo: Rp,
    workdir: Seq<char>,
    find_blob: B,
    read: W,
    e: GitHookError,
) -> bool {
    exists|i: int, texts: Seq<Seq<char>>|
        #[trigger] patch_steps(items, i, repo, workdir, find_blob, read, texts) && i < items.len() && match items[i] {
            Err(m) => e matches GitHookError::StatusItem(x) && x@ == m@,
            Ok(ch) => exists|after: Seq<char>|
                #[trigger] status_patch_gives(ch, repo, workdir, find_blob, read, texts.last(), after, Some(e)),
        }
}

/// The diff text as a value.
pub open spec fn text_view(r: Result<String, GitHookError>) -> Result<Seq<char>, GitHookError> {
    match r {
        Ok(s) => Ok(s@),
        Err(e) => Err(e),
    }
}

/// Whether building the patch of all uncommitted changes of `repo` may give
/// `out`: the worktree must exist; the status is listed and every entry
/// patched in order.
pub open spec fn diff_gives<
    Rp,
    Wd: Fn(&Rp) -> Option<String>,
    S: Fn(&Rp) -> Result<Vec<Result<StatusChange, String>>, StatusFailure>,
    B: Fn(&Rp, &str) -> Result<Vec<u8>, String>,
    W: Fn(&str) -> Result<Vec<u8>, String>,
>(
    repo: Rp,
    workdir: Wd,
    status: S,
    find_blob: B,
    read: W,
    out: Result<Seq<char>, GitHookError>,
) -> bool {
    exists|w: Option<String>| #[trigger] workdir.ensures((&repo,), w) && match w {
        None => out == Err::<Seq<char>, GitHookError>(GitHookError::WorktreeMissing),
        Some(wd) => exists|s: Result<Vec<Result<StatusChange, String>>, StatusFailure>|
            #[trigger] status.ensures((&repo,), s) && match s {
                Err(f) => out == Err::<Seq<char>, GitHookError>(status_failure_error(f)),
                Ok(items) => match out {
                    Ok(text) => patches_gives(items@, repo, wd@, find_blob, read, text),
                    Err(e) => patches_fail(items@, repo, wd@, find_blob, read, e),
                },
            },
    }
}

impl GitHook {
    /// Whether the worktree of `repo` has uncommitted changes, from the first
    /// entry of its status (untracked files included, ignored ones not).
    pub fn is_dirty<Rp, S: Fn(&Rp) -> Result<Vec<Result<StatusChange, String>>, StatusFailure>>(
        repo: &Rp,
        status: &S,
    ) -> (r: Result<bool, GitHookError>)
        requires
            forall|p: &Rp| #[trigger] status.requires((p,)),
        ensures
            exists|s: Result<Vec<Result<StatusChange, String>>, StatusFailure>|
                #[trigger] status.ensures((repo,), s) && r == dirty_outcome(s),
    {
        let s = status(repo);
        let ghost s0 = s;
        let r = match s {
            Err(StatusFailure::Status(m)) => Err(GitHookError::Status(m)),
            Err(StatusFailure::Iterator(m)) => Err(GitHookError::StatusIterator(m)),
            Ok(items) => {
                if items.len() == 0 {
                    Ok(false)
                } else {
                    let mut items = items;
                    let first = items.remove(0);
                    match first {
                        Ok(_) => Ok(true),
                        Err(m) => Err(GitHookError::StatusItem(m)),
                    }
                }
            },
        };
        proof {
            assert(status.ensures((repo,), s0) && r == dirty_outcome(s0));
        }
        r
    }

    /// The patch of all uncommitted changes: every status entry of `repo`, in
    /// order, patched against the worktree `workdir` reports.
    pub fn diff_content<
        Rp,
        Wd: Fn(&Rp) -> Option<String>,
        S: Fn(&Rp) -> Result<Vec<Result<StatusChange, String>>, StatusFailure>,
        B: Fn(&Rp, &str) -> Result<Vec<u8>, String>,
        W: Fn(&str) -> Result<Vec<u8>, String>,
    >(
        repo: &Rp,
        workdir: &Wd,
        status: &S,
        find_blob: &B,
        read: &W,
    ) -> (r: Result<String, GitHookError>)
        requires
            forall|p: &Rp| #[trigger] workdir.requires((p,)),
            forall|p: &Rp| #[trigger] status.requires((p,)),
            forall|p: &Rp, x: &str| #[trigger] find_blob.requires((p, x)),
            forall|x: &str| #[trigger] read.requires((x,)),
        ensures
            diff_gives(*repo, *workdir, *status, *find_blob, *read, text_view(r)),
    {
        let w = workdir(repo);
        let ghost w0 = w;
        let wd = match w {
            Some(d) => d,
            None => {
                proof {
                    assert(workdir.ensures((repo,), w0));
                }
                return Err(GitHookError::WorktreeMissing);
            },
        };
        let s = status(repo);
        let ghost s0 = s;
        let items = match s {
            Ok(items) => items,
            Err(f) => {
                let ghost f0 = f;
                let e = match f {
                    StatusFailure::Status(m) => GitHookError::Status(m),
                    StatusFailure::Iterator(m) => GitHookError::StatusIterator(m),
                };
                proof {
                    assert(workdir.ensures((repo,), w0));
                    assert(status.ensures((repo,), s0));
                    assert(e == status_failure_error(f0));
                }
                return Err(e);
            },
        };
        let mut diff = String::new();
        let mut i: usize = 0;
        let ghost mut texts: Seq<Seq<char>> = seq![diff@];
        while i < items.len()
            invariant
                i <= items.len(),
                forall|p: &Rp, x: &str| #[trigger] find_blob.requires((p, x)),
                forall|x: &str| #[trigger] read.requires((x,)),
                patch_steps(items@, i as int, *repo, wd@, *find_blob, *read, texts),
                texts.last() == diff@,
                workdir.ensures((repo,), w0),
                w0 == Some(wd),
                status.ensures((repo,), s0),
                s0 == Ok::<Vec<Result<StatusChange, String>>, StatusFailure>(items),
            decreases items.len() - i,
        {
            let ghost before = diff@;
            match &items[i] {
                Err(m) => {
                    let e = GitHookError::StatusItem(copy_string(m.as_str()));
                    proof {
                        assert(patch_steps(items@, i as int, *repo, wd@, *find_blob, *read, texts));
                        assert(patches_fail(items@, *repo, wd@, *find_blob, *read, e));
                    }
                    return Err(e);
                },
                Ok(ch) => {
                    let r = Self::append_status_patch(repo, wd.as_str(), ch, &mut diff, find_blob, read);
                    match r {
                        Err(e) => {
                            let ghost e0 = e;
                            proof {
                                assert(status_patch_gives(*ch, *repo, wd@, *find_blob, *read, texts.last(), diff@, Some(e0)));
                                assert(patch_steps(items@, i as int, *repo, wd@, *find_blob, *read, texts));
                                assert(patches_fail(items@, *repo, wd@, *find_blob, *read, e0));
                            }
                            return Err(e);
                        },
                        Ok(()) => {},
                    }
                    proof {
                        let old_texts = texts;
                        texts = texts.push(diff@);
                        assert forall|k: int| 0 <= k < i + 1 implies (#[trigger] items@[k]) is Ok && status_patch_gives(
                            items@[k]->Ok_0,
                            *repo,
                            wd@,
                            *find_blob,
                            *read,
                            texts[k],
                            texts[k + 1],
                            None,
                        ) by {
                            if k < i {
                                assert(texts[k] == old_texts[k]);
                                assert(texts[k + 1] == old_texts[k + 1]);
                            }
                        }
                    }
                },
            }
            i = i + 1;
        }
        proof {
            assert(patch_steps(items@, items@.len() as int, *repo, wd@, *find_blob, *read, texts));
        }
        Ok(diff)
    }
}

/// Why no repository was discovered.
#[derive(Debug)]
pub enum DiscoverFailure {
    /// No repository up to the file-system root (or a ceiling).
    NotARepository,
    /// Discovery failed otherwise; why.
    Other(String),
}

/// The hook error for a discovery failure.
pub open spec fn discover_error(f: DiscoverFailure) -> GitHookError {
    match f {
        DiscoverFailure::NotARepository => GitHookError::NotARepository,
        DiscoverFailure::Other(m) => GitHookError::Discover(m),
    }
}

/// Why the references of a remote could not be listed.
#[derive(Debug)]
pub enum RefListFailure {
    /// The references could not be opened.
    References(String),
    /// Iterating over the prefixed references could not start.
    Iterator(String),
}

/// The hook error for a reference-listing failure.
pub open spec fn ref_list_error(f: RefListFailure) -> GitHookError {
    match f {
        RefListFailure::References(m) => GitHookError::References(m),
        RefListFailure::Iterator(m) => GitHookError::ReferenceIterator(m),
    }
}

/// What one run of the hook records, as values: the repository path, the
/// HEAD id, dirtiness, pushed-ness, the tag and the abort flag.
pub type RunView = (Seq<char>, Seq<char>, bool, bool, Option<Seq<char>>, bool);

/// A run's result as values.
pub open spec fn run_view(r: Result<GitCaptured, GitHookError>) -> Result<RunView, GitHookError> {
    match r {
        Ok(c) => Ok(
            (
                c.working_dir@,
                c.sha@,
                c.is_dirty,
                c.is_pushed,
                match c.tag {
                    Some(t) => Some(t@),
                    None => None,
                },
                c.abort_requested,
            ),
        ),
        Err(e) => Err(e),
    }
}

/// Where the patch of a dirty worktree is written: the hook's artifact
/// directory, or the run directory when the hook was given none.
pub open spec fn patch_dir(run_dir: Seq<char>, artifact_dir: Option<Seq<char>>) -> Seq<char> {
    match artifact_dir {
        Some(ad) => ad,
        None => run_dir,
    }
}

/// Whether the directory a repository is discovered from may be `out`: the
/// configured working directory, or the current directory when it is empty.
pub open spec fn repo_path_gives<C: Fn() -> Result<String, String>>(
    working_dir: Seq<char>,
    current_dir: C,
    out: Result<Seq<char>, GitHookError>,
) -> bool {
    if working_dir.len() == 0 {
        exists|c: Result<String, String>| #[trigger] current_dir.ensures((), c) && out == match c {
            Ok(d) => Ok(d@),
            Err(m) => Err(GitHookError::IoError(m)),
        }
    } else {
        out == Ok::<Seq<char>, GitHookError>(working_dir)
    }
}

/// A planned run of the hook, as values: the repository, its path, the HEAD
/// id, dirtiness, and for a dirty worktree the patch to write (its path and
/// its text).
pub type PlanView<Rp> = (Rp, Seq<char>, Seq<char>, bool, Option<(Seq<char>, Seq<char>)>);

/// The last step of planning a run: a dirty worktree has its diff made into
/// the patch to write to `<name>.patch` in the artifact directory (or the
/// run directory when there is none).
pub open spec fn plan_patch_gives<
    Rp,
    Wd: Fn(&Rp) -> Option<String>,
    S: Fn(&Rp) -> Result<Vec<Result<StatusChange, String>>, StatusFailure>,
    B: Fn(&Rp, &str) -> Result<Vec<u8>, String>,
    W: Fn(&str) -> Result<Vec<u8>, String>,
>(
    repo: Rp,
    workdir: Wd,
    status: S,
    find_blob: B,
    read: W,
    name: Seq<char>,
    dir: Seq<char>,
    path: Seq<char>,
    sha: Seq<char>,
    dirty: bool,
    out: Result<PlanView<Rp>, GitHookError>,
) -> bool {
    if !dirty {
        out == Ok::<PlanView<Rp>, GitHookError>((repo, path, sha, false, None))
    } else {
        exists|d: Result<Seq<char>, GitHookError>|
            #[trigger] diff_gives(repo, workdir, status, find_blob, read, d) && match d {
                Err(e) => out == Err::<PlanView<Rp>, GitHookError>(e),
                Ok(text) => out == Ok::<PlanView<Rp>, GitHookError>(
                    (repo, path, sha, true, Some((join_spec(dir, name + ".patch"@), text))),
                ),
            }
    }
}

/// What planning a run does once the repository is discovered: HEAD is
/// read, the worktree checked for changes, and the patch step runs.
pub open spec fn plan_inspect_gives<
    Rp,
    H: Fn(&Rp) -> Result<String, String>,
    Wd: Fn(&Rp) -> Option<String>,
    S: Fn(&Rp) -> Result<Vec<Result<StatusChange, String>>, StatusFailure>,
    B: Fn(&Rp, &str) -> Result<Vec<u8>, String>,
    W: Fn(&str) -> Result<Vec<u8>, String>,
>(
    repo: Rp,
    head_id: H,
    workdir: Wd,
    status: S,
    find_blob: B,
    read: W,
    name: Seq<char>,
    dir: Seq<char>,
    path: Seq<char>,
    out: Result<PlanView<Rp>, GitHookError>,
) -> bool {
    exists|h: Result<String, String>| #[trigger] head_id.ensures((&repo,), h) && match h {
        Err(m) => out == Err::<PlanView<Rp>, GitHookError>(GitHookError::HeadNotFound { message: m }),
        Ok(sha) => exists|st: Result<Vec<Result<StatusChange, String>>, StatusFailure>|
            #[trigger] status.ensures((&repo,), st) && match dirty_outcome(st) {
                Err(e) => out == Err::<PlanView<Rp>, GitHookError>(e),
                Ok(dirty) => plan_patch_gives(repo, workdir, status, find_blob, read, name, dir, path, sha@, dirty, out),
            },
    }
}

/// Whether planning a run of the hook may give `out`: the repository is
/// discovered from the working directory (or the current one), then
/// inspected.
pub open spec fn plan_gives<
    Rp,
    C: Fn() -> Result<String, String>,
    Dv: Fn(&str) -> Result<Rp, DiscoverFailure>,
    H: Fn(&Rp) -> Result<String, String>,
    Wd: Fn(&Rp) -> Option<String>,
    S: Fn(&Rp) -> Result<Vec<Result<StatusChange, String>>, StatusFailure>,
    B: Fn(&Rp, &str) -> Result<Vec<u8>, String>,
    W: Fn(&str) -> Result<Vec<u8>, String>,
>(
    working_dir: Seq<char>,
    current_dir: C,
    discover: Dv,
    head_id: H,
    workdir: Wd,
    status: S,
    find_blob: B,
    read: W,
    name: Seq<char>,
    dir: Seq<char>,
    out: Result<PlanView<Rp>, GitHookError>,
) -> bool {
    exists|p: Result<Seq<char>, GitHookError>| #[trigger] repo_path_gives(working_dir, current_dir, p) && match p {
        Err(e) => out == Err::<PlanView<Rp>, GitHookError>(e),
        Ok(path) => exists|d: Result<Rp, DiscoverFailure>| #[trigger] call_gives(discover, path, d) && match d {
            Err(f) => out == Err::<PlanView<Rp>, GitHookError>(discover_error(f)),
            Ok(repo) => plan_inspect_gives(repo, head_id, workdir, status, find_blob, read, name, dir, path, out),
        },
    }
}

/// A planned run of the hook: the repository is open, HEAD read, the
/// worktree checked and its patch made. Only `GitHook::plan` makes one.
pub struct GitPlan<Rp> {
    repo: Rp,
    path: String,
    sha: String,
    dirty: bool,
    patch: Option<(String, String)>,
}

impl<Rp> GitPlan<Rp> {
    /// The plan as values.
    pub closed spec fn parts(&self) -> PlanView<Rp> {
        (
            self.repo,
            self.path@,
            self.sha@,
            self.dirty,
            match self.patch {
                Some((f, t)) => Some((f@, t@)),
                None => None,
            },
        )
    }
}

/// A run whose patch, if any, is written: the repository, its path, the
/// HEAD id and dirtiness. Only `GitHook::write_patch` makes one.
pub struct WrittenPlan<Rp> {
    repo: Rp,
    path: String,
    sha: String,
    dirty: bool,
}

impl<Rp> WrittenPlan<Rp> {
    /// The plan as values.
    pub closed spec fn parts(&self) -> (Rp, Seq<char>, Seq<char>, bool) {
        (self.repo, self.path@, self.sha@, self.dirty)
    }
}

/// A run whose HEAD has been checked against the remote: the repository,
/// its path, the HEAD id, dirtiness and pushed-ness. Only
/// `GitHook::check_remote` makes one.
pub struct TagPlan<Rp> {
    repo: Rp,
    path: String,
    sha: String,
    dirty: bool,
    pushed: bool,
}

impl<Rp> TagPlan<Rp> {
    /// The plan as values.
    pub closed spec fn parts(&self) -> (Rp, Seq<char>, Seq<char>, bool, bool) {
        (self.repo, self.path@, self.sha@, self.dirty, self.pushed)
    }
}

/// A planned run as values.
pub open spec fn run_plan_view<Rp>(r: Result<GitPlan<Rp>, GitHookError>) -> Result<PlanView<Rp>, GitHookError> {
    match r {
        Ok(p) => Ok(p.parts()),
        Err(e) => Err(e),
    }
}

/// What writing the patch of the planned run `p` may give: nothing is
/// written for a clean worktree; otherwise the patch is written, or the
/// write's failure is the result.
pub open spec fn written_gives<Rp, Wr: Fn(&str, &str) -> Result<(), String>>(
    p: PlanView<Rp>,
    write: Wr,
    r: Result<WrittenPlan<Rp>, GitHookError>,
) -> bool {
    let done = (p.0, p.1, p.2, p.3);
    match p.4 {
        None => r matches Ok(w) && w.parts() == done,
        Some((file, text)) => exists|x: &str, y: &str, w: Result<(), String>|
            x@ == file && y@ == text && #[trigger] write.ensures((x, y), w) && match w {
                Err(m) => r == Err::<WrittenPlan<Rp>, GitHookError>(GitHookError::IoError(m)),
                Ok(_) => r matches Ok(wp) && wp.parts() == done,
            },
    }
}

/// What checking HEAD of the run `p` against the remote `remote` may give:
/// the references under the remote's prefix are listed and checked; HEAD is
/// pushed when it is the tip or an ancestor of one of them.
pub open spec fn remote_checked_gives<
    Rp,
    L: Fn(&Rp, &str) -> Result<Vec<Result<RemoteRef, String>>, RefListFailure>,
    M: Fn(&Rp, &str, &str) -> MergeBase,
>(
    p: (Rp, Seq<char>, Seq<char>, bool),
    references: L,
    merge_base: M,
    remote: Seq<char>,
    r: Result<TagPlan<Rp>, GitHookError>,
) -> bool {
    let prefix = remote_branch_prefix_spec(remote);
    exists|x: &str, l: Result<Vec<Result<RemoteRef, String>>, RefListFailure>|
        x@ == prefix && #[trigger] references.ensures((&p.0, x), l) && match l {
            Err(f) => r == Err::<TagPlan<Rp>, GitHookError>(ref_list_error(f)),
            Ok(refs) => exists|pr: Result<bool, GitHookError>|
                #[trigger] pushed_outcome(refs@, p.2, prefix, merge_base, p.0, pr) && match pr {
                    Err(e) => r == Err::<TagPlan<Rp>, GitHookError>(e),
                    Ok(pushed) => r matches Ok(t) && t.parts() == (p.0, p.1, p.2, p.3, pushed),
                },
        }
}

/// The last step of a run of the checked run `p`: with tagging configured
/// (`tag_head`), the tag `capsula/<run name>` is created at HEAD; the run is
/// marked for abort as `abort_spec` says.
pub open spec fn tag_gives<Rp, T: Fn(&Rp, &str, &str) -> Result<(), String>>(
    p: (Rp, Seq<char>, Seq<char>, bool, bool),
    tag_reference: T,
    tag_head: bool,
    run_name: Seq<char>,
    allow_dirty: bool,
    require_pushed: bool,
    out: Result<RunView, GitHookError>,
) -> bool {
    let (repo, path, sha, dirty, pushed) = p;
    let abort = abort_spec(allow_dirty, require_pushed, dirty, pushed);
    if tag_head {
        let tag = "capsula/"@ + run_name;
        exists|x: &str, y: &str, t: Result<(), String>|
            x@ == tag && y@ == sha && #[trigger] tag_reference.ensures((&repo, x, y), t) && out == match t {
                Ok(_) => Ok((path, sha, dirty, pushed, Some(tag), abort)),
                Err(m) => Err(GitHookError::TagReference(m)),
            }
    } else {
        out == Ok::<RunView, GitHookError>((path, sha, dirty, pushed, None, abort))
    }
}

fn repo_path_from<C: Fn() -> Result<String, String>>(working_dir: &str, current_dir: &C) -> (r: Result<String, GitHookError>)
    requires
        current_dir.requires(()),
    ensures
        repo_path_gives(working_dir@, *current_dir, text_view(r)),
{
    let v = crate::text::chars_of(working_dir);
    if v.len() == 0 {
        let c = current_dir();
        let ghost c0 = c;
        let r = match c {
            Ok(d) => Ok(d),
            Err(m) => Err(GitHookError::IoError(m)),
        };
        proof {
            assert(current_dir.ensures((), c0));
        }
        r
    } else {
        Ok(copy_string(working_dir))
    }
}

impl GitHook {
    fn plan_patch<
        Rp,
        Wd: Fn(&Rp) -> Option<String>,
        S: Fn(&Rp) -> Result<Vec<Result<StatusChange, String>>, StatusFailure>,
        B: Fn(&Rp, &str) -> Result<Vec<u8>, String>,
        W: Fn(&str) -> Result<Vec<u8>, String>,
    >(
        &self,
        repo: Rp,
        workdir: &Wd,
        status: &S,
        find_blob: &B,
        read: &W,
        run_dir: &str,
        artifact_dir: Option<&str>,
        path: String,
        sha: String,
        dirty: bool,
    ) -> (r: Result<GitPlan<Rp>, GitHookError>)
        requires
            forall|p: &Rp| #[trigger] workdir.requires((p,)),
            forall|p: &Rp| #[trigger] status.requires((p,)),
            forall|p: &Rp, x: &str| #[trigger] find_blob.requires((p, x)),
            forall|x: &str| #[trigger] read.requires((x,)),
        ensures
            plan_patch_gives(
                repo,
                *workdir,
                *status,
                *find_blob,
                *read,
                self.config_view().0,
                patch_dir(run_dir@, opt_str(artifact_dir)),
                path@,
                sha@,
                dirty,
                run_plan_view(r),
            ),
    {
        if !dirty {
            return Ok(GitPlan { repo, path, sha, dirty, patch: None });
        }
        let ad = match artifact_dir {
            Some(a) => a,
            None => run_dir,
        };
        let d = Self::diff_content(&repo, workdir, status, find_blob, read);
        let ghost d0 = text_view(d);
        proof {
            assert(diff_gives(repo, *workdir, *status, *find_blob, *read, d0));
        }
        let text = match d {
            Ok(t) => t,
            Err(e) => {
                return Err(e);
            },
        };
        let file_name = self.patch_file_name();
        let file = crate::path::join(ad, file_name.as_str());
        Ok(GitPlan { repo, path, sha, dirty, patch: Some((file, text)) })
    }

    fn plan_inspect<
        Rp,
        H: Fn(&Rp) -> Result<String, String>,
        Wd: Fn(&Rp) -> Option<String>,
        S: Fn(&Rp) -> Result<Vec<Result<StatusChange, String>>, StatusFailure>,
        B: Fn(&Rp, &str) -> Result<Vec<u8>, String>,
        W: Fn(&str) -> Result<Vec<u8>, String>,
    >(
        &self,
        repo: Rp,
        head_id: &H,
        workdir: &Wd,
        status: &S,
        find_blob: &B,
        read: &W,
        run_dir: &str,
        artifact_dir: Option<&str>,
        path: String,
    ) -> (r: Result<GitPlan<Rp>, GitHookError>)
        requires
            forall|p: &Rp| #[trigger] head_id.requires((p,)),
            forall|p: &Rp| #[trigger] workdir.requires((p,)),
            forall|p: &Rp| #[trigger] status.requires((p,)),
            forall|p: &Rp, x: &str| #[trigger] find_blob.requires((p, x)),
            forall|x: &str| #[trigger] read.requires((x,)),
        ensures
            plan_inspect_gives(
                repo,
                *head_id,
                *workdir,
                *status,
                *find_blob,
                *read,
                self.config_view().0,
                patch_dir(run_dir@, opt_str(artifact_dir)),
                path@,
                run_plan_view(r),
            ),
    {
        let h = head_id(&repo);
        let ghost h0 = h;
        proof {
            assert(head_id.ensures((&repo,), h0));
        }
        let sha = match h {
            Ok(s) => s,
            Err(m) => {
                return Err(GitHookError::HeadNotFound { message: m });
            },
        };
        let dirty = Self::is_dirty(&repo, status);
        let ghost st = choose|st: Result<Vec<Result<StatusChange, String>>, StatusFailure>|
            #[trigger] status.ensures((&repo,), st) && dirty == dirty_outcome(st);
        proof {
            assert(status.ensures((&repo,), st));
        }
        match dirty {
            Err(e) => Err(e),
            Ok(b) => self.plan_patch(repo, workdir, status, find_blob, read, run_dir, artifact_dir, path, sha, b),
        }
    }

    /// Plans one run of the hook: the repository is discovered from the
    /// working directory (or the current one, when that is empty); HEAD is
    /// read; a dirty worktree has its patch made, to be written to
    /// `<name>.patch` in the hook's artifact directory, or in the run
    /// directory `run_dir` when the hook was given none. Planning only
    /// reads: it is given no closure that writes or tags, so a refused run
    /// changes nothing.
    pub fn plan<
        Rp,
        C: Fn() -> Result<String, String>,
        Dv: Fn(&str) -> Result<Rp, DiscoverFailure>,
        H: Fn(&Rp) -> Result<String, String>,
        Wd: Fn(&Rp) -> Option<String>,
        S: Fn(&Rp) -> Result<Vec<Result<StatusChange, String>>, StatusFailure>,
        B: Fn(&Rp, &str) -> Result<Vec<u8>, String>,
        W: Fn(&str) -> Result<Vec<u8>, String>,
    >(
        &self,
        run_dir: &str,
        artifact_dir: Option<&str>,
        current_dir: &C,
        discover: &Dv,
        head_id: &H,
        workdir: &Wd,
        status: &S,
        find_blob: &B,
        read: &W,
    ) -> (r: Result<GitPlan<Rp>, GitHookError>)
        requires
            current_dir.requires(()),
            forall|x: &str| #[trigger] discover.requires((x,)),
            forall|p: &Rp| #[trigger] head_id.requires((p,)),
            forall|p: &Rp| #[trigger] workdir.requires((p,)),
            forall|p: &Rp| #[trigger] status.requires((p,)),
            forall|p: &Rp, x: &str| #[trigger] find_blob.requires((p, x)),
            forall|x: &str| #[trigger] read.requires((x,)),
        ensures
            plan_gives(
                self.working_dir_view(),
                *current_dir,
                *discover,
                *head_id,
                *workdir,
                *status,
                *find_blob,
                *read,
                self.config_view().0,
                patch_dir(run_dir@, opt_str(artifact_dir)),
                run_plan_view(r),
            ),
    {
        let p = repo_path_from(self.working_dir.as_str(), current_dir);
        let ghost p0 = text_view(p);
        proof {
            assert(repo_path_gives(self.working_dir_view(), *current_dir, p0));
        }
        let path = match p {
            Ok(x) => x,
            Err(e) => {
                return Err(e);
            },
        };
        proof {
            assert(p0 == Ok::<Seq<char>, GitHookError>(path@));
        }
        let ps = path.as_str();
        let d = discover(ps);
        let ghost d0 = d;
        proof {
            assert(discover.ensures((ps,), d0));
            assert(call_gives(*discover, path@, d0));
        }
        let repo = match d {
            Ok(x) => x,
            Err(f) => {
                let ghost f0 = f;
                let e = match f {
                    DiscoverFailure::NotARepository => GitHookError::NotARepository,
                    DiscoverFailure::Other(m) => GitHookError::Discover(m),
                };
                proof {
                    assert(e == discover_error(f0));
                    assert(d0 == Err::<Rp, DiscoverFailure>(f0));
                    assert(p0 is Ok);
                    assert(p0->Ok_0 == path@);
                    assert(call_gives(*discover, p0->Ok_0, d0));
                }
                return Err(e);
            },
        };
        let ghost pv = path@;
        let ghost repo0 = repo;
        proof {
            assert(d0 == Ok::<Rp, DiscoverFailure>(repo));
        }
        let r = self.plan_inspect(repo, head_id, workdir, status, find_blob, read, run_dir, artifact_dir, path);
        proof {
            assert(p0 is Ok);
            assert(p0->Ok_0 == pv);
            assert(call_gives(*discover, p0->Ok_0, d0));
            assert(d0 is Ok && d0->Ok_0 == repo0);
        }
        r
    }

    /// Writes the patch of a planned run, if it has one; nothing else is
    /// done.
    pub fn write_patch<Rp, Wr: Fn(&str, &str) -> Result<(), String>>(&self, plan: GitPlan<Rp>, write: &Wr) -> (r: Result<
        WrittenPlan<Rp>,
        GitHookError,
    >)
        requires
            forall|x: &str, y: &str| #[trigger] write.requires((x, y)),
        ensures
            written_gives(plan.parts(), *write, r),
    {
        let ghost p0 = plan.parts();
        let GitPlan { repo, path, sha, dirty, patch } = plan;
        match patch {
            None => Ok(WrittenPlan { repo, path, sha, dirty }),
            Some((file, text)) => {
                let fs = file.as_str();
                let ts = text.as_str();
                let w = write(fs, ts);
                let ghost w0 = w;
                proof {
                    assert(write.ensures((fs, ts), w0));
                }
                match w {
                    Err(m) => Err(GitHookError::IoError(m)),
                    Ok(()) => Ok(WrittenPlan { repo, path, sha, dirty }),
                }
            },
        }
    }

    /// Checks whether HEAD of the run is pushed to the configured remote:
    /// the references under the remote's prefix are listed, and HEAD is
    /// pushed when it is the tip or an ancestor of one of them. Only reads.
    pub fn check_remote<
        Rp,
        L: Fn(&Rp, &str) -> Result<Vec<Result<RemoteRef, String>>, RefListFailure>,
        M: Fn(&Rp, &str, &str) -> MergeBase,
    >(&self, plan: WrittenPlan<Rp>, references: &L, merge_base: &M) -> (r: Result<TagPlan<Rp>, GitHookError>)
        requires
            forall|p: &Rp, x: &str| #[trigger] references.requires((p, x)),
            forall|p: &Rp, x: &str, y: &str| #[trigger] merge_base.requires((p, x, y)),
        ensures
            remote_checked_gives(plan.parts(), *references, *merge_base, self.config_view().3, r),
    {
        let ghost p0 = plan.parts();
        let WrittenPlan { repo, path, sha, dirty } = plan;
        let prefix = remote_branch_prefix(self.config.remote.as_str());
        let ps = prefix.as_str();
        let l = references(&repo, ps);
        let ghost l0 = l;
        proof {
            assert(p0 == (repo, path@, sha@, dirty));
            assert(references.ensures((&repo, ps), l0));
            assert(references.ensures((&p0.0, ps), l0));
            assert(ps@ == remote_branch_prefix_spec(self.config_view().3));
        }
        match l {
            Err(f) => {
                let ghost f0 = f;
                let e = match f {
                    RefListFailure::References(m) => GitHookError::References(m),
                    RefListFailure::Iterator(m) => GitHookError::ReferenceIterator(m),
                };
                proof {
                    assert(e == ref_list_error(f0));
                    assert(l0 == Err::<Vec<Result<RemoteRef, String>>, RefListFailure>(f0));
                }
                Err(e)
            },
            Ok(refs) => {
                let pr = check_pushed(&repo, sha.as_str(), self.config.remote.as_str(), &refs, merge_base);
                let ghost pr0 = pr;
                proof {
                    assert(pushed_outcome(refs@, sha@, remote_branch_prefix_spec(self.config_view().3), *merge_base, repo, pr0));
                }
                match pr {
                    Err(e) => Err(e),
                    Ok(pushed) => Ok(TagPlan { repo, path, sha, dirty, pushed }),
                }
            },
        }
    }

    /// Completes a checked run and gives its capture: with tagging
    /// configured, the tag `capsula/<run name>` is created at HEAD. The run
    /// is marked for abort when the worktree is dirty and that is not
    /// allowed, or HEAD must be pushed and is not. A whole run is `plan`,
    /// then `write_patch`, `check_remote` and this step, in that order.
    pub fn run<Rp, T: Fn(&Rp, &str, &str) -> Result<(), String>>(
        &self,
        plan: TagPlan<Rp>,
        run_name: &str,
        tag_reference: &T,
    ) -> (r: Result<GitCaptured, GitHookError>)
        requires
            forall|p: &Rp, x: &str, y: &str| #[trigger] tag_reference.requires((p, x, y)),
        ensures
            tag_gives(
                plan.parts(),
                *tag_reference,
                self.config_view().4,
                run_name@,
                self.config_view().1,
                self.config_view().2,
                run_view(r),
            ),
    {
        let ghost p0 = plan.parts();
        let TagPlan { repo, path, sha, dirty, pushed } = plan;
        assert(p0 == (repo, path@, sha@, dirty, pushed));
        match self.tag_name(run_name) {
            None => Ok(self.captured(path, sha, dirty, pushed, None)),
            Some(t) => {
                let ts = t.as_str();
                let ss = sha.as_str();
                let res = tag_reference(&repo, ts, ss);
                let ghost res0 = res;
                proof {
                    assert(tag_reference.ensures((&repo, ts, ss), res0));
                    assert(tag_reference.ensures((&p0.0, ts, ss), res0));
                }
                match res {
                    Ok(()) => Ok(self.captured(path, sha, dirty, pushed, Some(t))),
                    Err(m) => Err(GitHookError::TagReference(m)),
                }
            },
        }
    }
}

impl GitHookError {
    /// The message this error displays.
    pub open spec fn message_spec(&self) -> Seq<char> {
        match self {
            GitHookError::NotARepository => "Not a git repository (or any parent up to mount point)"@,
            GitHookError::HeadNotFound { message } => "Failed to get repository HEAD: "@ + message@,
            GitHookError::Discover(e) => "Failed to discover git repository: "@ + e@,
            GitHookError::TagReference(e) => "Failed to create git tag: "@ + e@,
            GitHookError::Status(e) => "Failed to create git status platform: "@ + e@,
            GitHookError::StatusIterator(e) => "Failed to create git status iterator: "@ + e@,
            GitHookError::StatusItem(e) => "Failed to read git status item: "@ + e@,
            GitHookError::References(e) => "Failed to read git references: "@ + e@,
            GitHookError::ReferenceIterator(e) => "Failed to initialize git reference iterator: "@ + e@,
            GitHookError::ReferenceItem { message } => "Failed to read git reference: "@ + message@,
            GitHookError::MergeBase(e) => "Failed to calculate git merge base: "@ + e@,
            GitHookError::FindBlob(e) => "Failed to read git blob: "@ + e@,
            GitHookError::Serialization(e) => "Failed to serialize git hook: "@ + e@,
            GitHookError::RunDirNotSpecified { message } => "Run directory not specified and current directory could not be determined: "@ + message@,
            GitHookError::ArtifactDirMissing => "capture-git-repo hook requires an artifact directory but none was provided"@,
            GitHookError::WorktreeMissing => "Git repository has no worktree"@,
            GitHookError::IoError(e) => "I/O error: "@ + e@,
            GitHookError::PathResolution(e) => e@,
        }
    }

    /// The message this error displays.
    pub fn message(&self) -> (m: String)
        ensures
            m@ == self.message_spec(),
    {
        let mut m = String::new();
        match self {
            GitHookError::NotARepository => {
                push_str(&mut m, "Not a git repository (or any parent up to mount point)");
            },
            GitHookError::HeadNotFound { message } => {
                push_str(&mut m, "Failed to get repository HEAD: ");
                push_str(&mut m, message.as_str());
            },
            GitHookError::Discover(e) => {
                push_str(&mut m, "Failed to discover git repository: ");
                push_str(&mut m, e.as_str());
            },
            GitHookError::TagReference(e) => {
                push_str(&mut m, "Failed to create git tag: ");
                push_str(&mut m, e.as_str());
            },
            GitHookError::Status(e) => {
                push_str(&mut m, "Failed to create git status platform: ");
                push_str(&mut m, e.as_str());
            },
            GitHookError::StatusIterator(e) => {
                push_str(&mut m, "Failed to create git status iterator: ");
                push_str(&mut m, e.as_str());
            },
            GitHookError::StatusItem(e) => {
                push_str(&mut m, "Failed to read git status item: ");
                push_str(&mut m, e.as_str());
            },
            GitHookError::References(e) => {
                push_str(&mut m, "Failed to read git references: ");
                push_str(&mut m, e.as_str());
            },
            GitHookError::ReferenceIterator(e) => {
                push_str(&mut m, "Failed to initialize git reference iterator: ");
                push_str(&mut m, e.as_str());
            },
            GitHookError::ReferenceItem { message } => {
                push_str(&mut m, "Failed to read git reference: ");
                push_str(&mut m, message.as_str());
            },
            GitHookError::MergeBase(e) => {
                push_str(&mut m, "Failed to calculate git merge base: ");
                push_str(&mut m, e.as_str());
            },
            GitHookError::FindBlob(e) => {
                push_str(&mut m, "Failed to read git blob: ");
                push_str(&mut m, e.as_str());
            },
            GitHookError::Serialization(e) => {
                push_str(&mut m, "Failed to serialize git hook: ");
                push_str(&mut m, e.as_str());
            },
            GitHookError::RunDirNotSpecified { message } => {
                push_str(&mut m, "Run directory not specified and current directory could not be determined: ");
                push_str(&mut m, message.as_str());
            },
            GitHookError::ArtifactDirMissing => {
                push_str(&mut m, "capture-git-repo hook requires an artifact directory but none was provided");
            },
            GitHookError::WorktreeMissing => {
                push_str(&mut m, "Git repository has no worktree");
            },
            GitHookError::IoError(e) => {
                push_str(&mut m, "I/O error: ");
                push_str(&mut m, e.as_str());
            },
            GitHookError::PathResolution(e) => {
                push_str(&mut m, e.as_str());
            },
        }
        m
    }

    /// The error as the library-wide error: a failure of `capture-git-repo`.
    pub fn into_capsula(self) -> (e: CapsulaError)
        ensures
            e matches CapsulaError::HookFailed { hook, message } && hook@ == "capture-git-repo"@ && message@ == self.message_spec(),
    {
        let message = self.message();
        CapsulaError::HookFailed { hook: copy_string("capture-git-repo"), message }
    }
}

} // verus!
