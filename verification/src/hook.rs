//! What every hook shares: the outcome of a hook run, the phase it runs in,
//! its runtime parameters, and the library-wide error.

use vstd::prelude::*;
use crate::text::{digit_char, nat_decimal, push_char, push_str, u64_to_decimal};
use std::marker::PhantomData;

verus! {

/// The semantic outcome of a hook that ran to completion: it succeeded, or
/// it captured output but its configured success condition failed.
#[derive(Debug)]
pub enum HookOutcome<T> {
    Succeeded(T),
    Failed { output: T, reason: String },
}

impl<T> HookOutcome<T> {
    /// The output that the outcome carries, whichever it is.
    pub open spec fn output_spec(&self) -> T {
        match self {
            HookOutcome::Succeeded(o) => *o,
            HookOutcome::Failed { output, .. } => *output,
        }
    }

    /// A successful outcome.
    pub fn success(output: T) -> (r: Self)
        ensures
            r == HookOutcome::Succeeded(output),
    {
        HookOutcome::Succeeded(output)
    }

    /// A failed outcome with its reason.
    pub fn failure(output: T, reason: String) -> (r: Self)
        ensures
            r == (HookOutcome::Failed { output, reason }),
    {
        HookOutcome::Failed { output, reason }
    }

    /// Whether the success condition passed.
    pub fn is_success(&self) -> (r: bool)
        ensures
            r == (self is Succeeded),
    {
        match self {
            HookOutcome::Succeeded(_) => true,
            HookOutcome::Failed { .. } => false,
        }
    }

    /// Whether the success condition failed.
    pub fn is_failure(&self) -> (r: bool)
        ensures
            r == (self is Failed),
    {
        match self {
            HookOutcome::Succeeded(_) => false,
            HookOutcome::Failed { .. } => true,
        }
    }

    /// Why the success condition failed, if it did.
    pub fn failure_reason(&self) -> (r: Option<&str>)
        ensures
            match self {
                HookOutcome::Succeeded(_) => r is None,
                HookOutcome::Failed { reason, .. } => r matches Some(s) && s@ == reason@,
            },
    {
        match self {
            HookOutcome::Succeeded(_) => None,
            HookOutcome::Failed { reason, .. } => Some(reason.as_str()),
        }
    }

    /// The captured output.
    pub fn output(&self) -> (r: &T)
        ensures
            *r == self.output_spec(),
    {
        match self {
            HookOutcome::Succeeded(output) => output,
            HookOutcome::Failed { output, .. } => output,
        }
    }

    /// The captured output, taken out of the outcome.
    pub fn into_output(self) -> (r: T)
        ensures
            r == self.output_spec(),
    {
        match self {
            HookOutcome::Succeeded(output) => output,
            HookOutcome::Failed { output, .. } => output,
        }
    }

    /// The outcome with the function `g` applied to its output; a failure
    /// keeps its reason.
    pub open spec fn map_spec<U>(self, g: spec_fn(T) -> U) -> HookOutcome<U> {
        match self {
            HookOutcome::Succeeded(o) => HookOutcome::Succeeded(g(o)),
            HookOutcome::Failed { output, reason } => HookOutcome::Failed { output: g(output), reason },
        }
    }

    /// Whether `r` is this outcome with `f` applied to its output, for some
    /// result that `f` may give; a failure keeps its reason.
    pub open spec fn mapped_by<U, F: FnOnce(T) -> U>(self, f: F, r: HookOutcome<U>) -> bool {
        match self {
            HookOutcome::Succeeded(o) => r matches HookOutcome::Succeeded(u) && f.ensures((o,), u),
            HookOutcome::Failed { output, reason } => r matches HookOutcome::Failed {
                output: u,
                reason: r2,
            } && f.ensures((output,), u) && r2 == reason,
        }
    }

    /// The outcome with `f` applied to its output; a failure keeps its reason.
    pub fn map<U, F: FnOnce(T) -> U>(self, f: F) -> (r: HookOutcome<U>)
        requires
            f.requires((self.output_spec(),)),
        ensures
            self.mapped_by(f, r),
    {
        match self {
            HookOutcome::Succeeded(output) => HookOutcome::Succeeded(f(output)),
            HookOutcome::Failed { output, reason } => HookOutcome::Failed { output: f(output), reason },
        }
    }
}

/// When `f` computes the function `g`, mapping an outcome by `f` maps it by
/// `g`: the variant and a failure's reason stay, the output becomes `g` of
/// it.
pub proof fn lemma_map_computes<T, U, F: FnOnce(T) -> U>(
    o: HookOutcome<T>,
    f: F,
    g: spec_fn(T) -> U,
    r: HookOutcome<U>,
)
    requires
        o.mapped_by(f, r),
        forall|x: T, u: U| #[trigger] f.ensures((x,), u) ==> u == g(x),
    ensures
        r == o.map_spec(g),
{
}

/// Mapping by the identity changes nothing.
pub proof fn lemma_map_identity<T>(o: HookOutcome<T>)
    ensures
        o.map_spec(|x: T| x) == o,
{
}

/// Mapping by `g` and then by `h` is mapping by `h` after `g`.
pub proof fn lemma_map_composition<T, U, V>(o: HookOutcome<T>, g: spec_fn(T) -> U, h: spec_fn(U) -> V)
    ensures
        o.map_spec(g).map_spec(h) == o.map_spec(|x: T| h(g(x))),
{
}

/// The phase before the command runs.
#[derive(Debug, Clone, Copy, Default)]
pub struct PreRun;

/// The phase after the command ran.
#[derive(Debug, Clone, Copy, Default)]
pub struct PostRun;

/// A run phase, named in artifact directory names.
pub trait PhaseMarker {
    /// The phase's short name (`pre` or `post`).
    fn phase_name() -> &'static str;
}

impl PhaseMarker for PreRun {
    fn phase_name() -> (r: &'static str)
        ensures
            r@ == "pre"@,
    {
        "pre"
    }
}

impl PhaseMarker for PostRun {
    fn phase_name() -> (r: &'static str)
        ensures
            r@ == "post"@,
    {
        "post"
    }
}

/// Whether `s` holds no `-`.
pub open spec fn no_dash(s: Seq<char>) -> bool {
    forall|k: int| 0 <= k < s.len() ==> s[k] != '-'
}

/// The name of the artifact directory of the hook with id `hook_id` at
/// position `index` of the phase named `phase`: `{phase}-{index}-{hook_id}`.
pub open spec fn artifact_dir_name_spec(phase: Seq<char>, index: nat, hook_id: Seq<char>) -> Seq<char> {
    phase + seq!['-'] + nat_decimal(index) + seq!['-'] + hook_id
}

/// The name of the artifact directory of the hook with id `hook_id` at
/// position `index` of the phase named `phase`: `{phase}-{index}-{hook_id}`.
pub fn artifact_dir_name(phase: &str, index: usize, hook_id: &str) -> (r: String)
    ensures
        r@ == artifact_dir_name_spec(phase@, index as nat, hook_id@),
{
    let mut r = String::new();
    push_str(&mut r, phase);
    push_char(&mut r, '-');
    let digits = u64_to_decimal(index as u64);
    push_str(&mut r, digits.as_str());
    push_char(&mut r, '-');
    push_str(&mut r, hook_id);
    r
}

/// No decimal numeral holds a `-`.
pub proof fn lemma_decimal_no_dash(n: nat)
    ensures
        no_dash(nat_decimal(n)),
        nat_decimal(n).len() >= 1,
    decreases n,
{
    assert(digit_char((n % 10) as nat) as u32 == 48 + (n % 10) as nat);
    if n >= 10 {
        lemma_decimal_no_dash(n / 10);
    }
}

/// Different numbers have different decimal numerals.
pub proof fn lemma_decimal_injective(a: nat, b: nat)
    requires
        nat_decimal(a) == nat_decimal(b),
    ensures
        a == b,
    decreases a,
{
    let da = digit_char((a % 10) as nat);
    let db = digit_char((b % 10) as nat);
    assert(da as u32 == 48 + (a % 10) as nat);
    assert(db as u32 == 48 + (b % 10) as nat);
    if a >= 10 {
        lemma_decimal_no_dash(a / 10);
    }
    if b >= 10 {
        lemma_decimal_no_dash(b / 10);
    }
    if a >= 10 && b >= 10 {
        assert(nat_decimal(a).drop_last() =~= nat_decimal(a / 10));
        assert(nat_decimal(b).drop_last() =~= nat_decimal(b / 10));
        assert(nat_decimal(a).last() == da);
        assert(nat_decimal(b).last() == db);
        lemma_decimal_injective(a / 10, b / 10);
    } else if a < 10 && b < 10 {
        assert(nat_decimal(a)[0] == da);
        assert(nat_decimal(b)[0] == db);
    } else {
        assert(nat_decimal(a).len() != nat_decimal(b).len());
    }
}

/// Splitting at the first `-`: two texts that are each a dash-free head, a
/// `-`, and a tail are equal only when heads and tails are.
pub proof fn lemma_split_at_first_dash(h1: Seq<char>, t1: Seq<char>, h2: Seq<char>, t2: Seq<char>)
    requires
        no_dash(h1),
        no_dash(h2),
        h1 + seq!['-'] + t1 == h2 + seq!['-'] + t2,
    ensures
        h1 == h2,
        t1 == t2,
{
    let s = h1 + seq!['-'] + t1;
    if h1.len() < h2.len() {
        assert(s[h1.len() as int] == '-');
        assert((h2 + seq!['-'] + t2)[h1.len() as int] == h2[h1.len() as int]);
    } else if h2.len() < h1.len() {
        assert((h2 + seq!['-'] + t2)[h2.len() as int] == '-');
        assert(s[h2.len() as int] == h1[h2.len() as int]);
    } else {
        assert(h1 =~= s.take(h1.len() as int));
        assert(h2 =~= (h2 + seq!['-'] + t2).take(h2.len() as int));
        assert(t1 =~= s.skip(h1.len() as int + 1));
        assert(t2 =~= (h2 + seq!['-'] + t2).skip(h2.len() as int + 1));
    }
}

/// Every hook of a run gets an artifact directory of its own: two hooks get
/// the same directory name only when they are the same hook, in the same
/// phase (phase names hold no `-`, as `pre` and `post` do not), at the same
/// position, with the same id.
pub proof fn lemma_artifact_dir_names_distinct(
    phase1: Seq<char>,
    index1: nat,
    id1: Seq<char>,
    phase2: Seq<char>,
    index2: nat,
    id2: Seq<char>,
)
    requires
        no_dash(phase1),
        no_dash(phase2),
        artifact_dir_name_spec(phase1, index1, id1) == artifact_dir_name_spec(phase2, index2, id2),
    ensures
        phase1 == phase2,
        index1 == index2,
        id1 == id2,
{
    let d1 = nat_decimal(index1);
    let d2 = nat_decimal(index2);
    lemma_decimal_no_dash(index1);
    lemma_decimal_no_dash(index2);
    let t1 = d1 + seq!['-'] + id1;
    let t2 = d2 + seq!['-'] + id2;
    assert(artifact_dir_name_spec(phase1, index1, id1) =~= phase1 + seq!['-'] + t1);
    assert(artifact_dir_name_spec(phase2, index2, id2) =~= phase2 + seq!['-'] + t2);
    lemma_split_at_first_dash(phase1, t1, phase2, t2);
    lemma_split_at_first_dash(d1, id1, d2, id2);
    lemma_decimal_injective(index1, index2);
}

/// The phase names `pre` and `post` differ and hold no `-`, so the artifact
/// directories of the two phases fall under the law above.
pub proof fn lemma_phase_names_dash_free()
    ensures
        no_dash("pre"@),
        no_dash("post"@),
        "pre"@ != "post"@,
{
    reveal_strlit("pre");
    reveal_strlit("post");
    assert("pre"@[1] != "post"@[1]);
}

/// What a hook gets when it runs: the artifact directory that the run made
/// for it, if it asked for one.
#[derive(Debug)]
pub struct RuntimeParams<P: PhaseMarker> {
    phase_marker: PhantomData<P>,
    pub artifact_dir: Option<String>,
}

impl<P: PhaseMarker> RuntimeParams<P> {
    /// The artifact directory.
    pub closed spec fn artifact(&self) -> Option<String> {
        self.artifact_dir
    }

    /// Parameters with no artifact directory.
    fn new() -> (r: Self)
        ensures
            r.artifact() is None,
    {
        RuntimeParams { phase_marker: PhantomData, artifact_dir: None }
    }

    /// Parameters with the given artifact directory.
    pub fn with_artifact_dir(artifact_dir: String) -> (r: Self)
        ensures
            r.artifact() == Some(artifact_dir),
    {
        RuntimeParams { phase_marker: PhantomData, artifact_dir: Some(artifact_dir) }
    }
}

impl<P: PhaseMarker> Default for RuntimeParams<P> {
    fn default() -> (r: Self)
        ensures
            r.artifact() is None,
    {
        Self::new()
    }
}

/// The library-wide error. A hook's own error is held by its message, under
/// the hook's id.
#[derive(Debug)]
pub enum CapsulaError {
    /// An I/O operation failed; its message.
    Io(String),
    /// (De)serialization failed; its message.
    Serialization(String),
    /// The configuration is wrong.
    Configuration { message: String },
    /// A hook failed; the hook's id and what its error says.
    HookFailed { hook: String, message: String },
    /// Anything else.
    Other(String),
}

/// Whether `e` is a failure of the hook `hook_id` whose error says `message`.
pub open spec fn hook_failed(e: CapsulaError, hook_id: Seq<char>, message: Seq<char>) -> bool {
    e matches CapsulaError::HookFailed { hook, message: m } && hook@ == hook_id && m@ == message
}

impl CapsulaError {
    /// The message this error displays. A hook failure names the hook; what
    /// the hook's own error says is its source, in `message`.
    pub open spec fn message_spec(&self) -> Seq<char> {
        match self {
            CapsulaError::Io(m) => m@,
            CapsulaError::Serialization(m) => "Serialization failed: "@ + m@,
            CapsulaError::Configuration { message } => "Configuration error: "@ + message@,
            CapsulaError::HookFailed { hook, .. } => "Hook '"@ + hook@ + "' failed"@,
            CapsulaError::Other(m) => m@,
        }
    }

    /// The message this error displays.
    pub fn message(&self) -> (m: String)
        ensures
            m@ == self.message_spec(),
    {
        let mut m = String::new();
        match self {
            CapsulaError::Io(e) => push_str(&mut m, e.as_str()),
            CapsulaError::Serialization(e) => {
                push_str(&mut m, "Serialization failed: ");
                push_str(&mut m, e.as_str());
            },
            CapsulaError::Configuration { message } => {
                push_str(&mut m, "Configuration error: ");
                push_str(&mut m, message.as_str());
            },
            CapsulaError::HookFailed { hook, .. } => {
                push_str(&mut m, "Hook '");
                push_str(&mut m, hook.as_str());
                push_str(&mut m, "' failed");
            },
            CapsulaError::Other(e) => push_str(&mut m, e.as_str()),
        }
        m
    }
}

} // verus!
