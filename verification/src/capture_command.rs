//! The `capture-command` hook: runs a command and decides from its exit
//! status whether the run's success condition holds.

use vstd::prelude::*;
use crate::hook::{hook_failed, CapsulaError, HookOutcome};
use crate::project_path::{ProjectPathError, ResolvedProjectPath};
use crate::text::{copy_string, i64_to_decimal, int_decimal, push_str};
use crate::utf8_lossy::{from_utf8_lossy, lossy_utf8};
use crate::util::resolve_relative;

verus! {

/// Configuration of the `capture-command` hook.
#[derive(Debug)]
pub struct CommandHookConfig {
    /// The program and its arguments.
    pub command: Vec<String>,
    /// The exit statuses that count as success.
    pub success_codes: Option<Vec<i32>>,
    /// Older policy knob: when `false`, any exit status counts as success.
    pub abort_on_failure: Option<bool>,
    /// Working directory, relative to the project root unless absolute.
    pub cwd: Option<String>,
}

/// Errors of the `capture-command` hook.
#[derive(Debug)]
pub enum CommandHookError {
    EmptyCommand,
    ExecutionFailed { command: String, message: String },
    EmptySuccessCodes,
    ConflictingStatusPolicy,
    InvalidUtf8 { message: String },
    NonZeroExit { command: String, status: i32 },
    Serialization(String),
}

/// The `capture-command` hook.
#[derive(Debug)]
pub struct CommandHook {
    config: CommandHookConfig,
    working_dir: String,
}

/// What the command printed and how it exited.
#[derive(Debug)]
pub struct CommandCaptured {
    pub stdout: String,
    pub stderr: String,
    pub status: i32,
}

/// The id of the `capture-command` hook.
pub open spec fn command_hook_id() -> Seq<char> {
    "capture-command"@
}

/// Whether an exit status counts as success: it is one of the configured
/// success codes; without them, it is `0`, or anything when
/// `abort_on_failure` is `false`.
pub open spec fn status_succeeds(
    success_codes: Option<Vec<i32>>,
    abort_on_failure: Option<bool>,
    status: i32,
) -> bool {
    match success_codes {
        Some(codes) => codes@.contains(status),
        None => abort_on_failure == Some(false) || status == 0,
    }
}

/// Texts joined with `, `.
pub open spec fn comma_list(items: Seq<Seq<char>>) -> Seq<char>
    decreases items.len(),
{
    if items.len() == 0 {
        seq![]
    } else if items.len() == 1 {
        items[0]
    } else {
        comma_list(items.drop_last()) + ", "@ + items.last()
    }
}

/// A list of status codes as `{:?}` writes it: `[0, 1]`.
pub open spec fn codes_text(codes: Seq<i32>) -> Seq<char> {
    "["@ + comma_list(codes.map_values(|c: i32| int_decimal(c as int))) + "]"@
}

/// Why a status failed the success condition.
pub open spec fn failure_text(success_codes: Option<Vec<i32>>, status: i32) -> Seq<char> {
    match success_codes {
        None => "command exited with status "@ + int_decimal(status as int) + "; expected 0"@,
        Some(codes) => "command exited with status "@ + int_decimal(status as int)
            + "; expected one of "@ + codes_text(codes@),
    }
}

/// Words joined with single spaces.
pub open spec fn space_joined(words: Seq<Seq<char>>) -> Seq<char>
    decreases words.len(),
{
    if words.len() == 0 {
        seq![]
    } else if words.len() == 1 {
        words[0]
    } else {
        space_joined(words.drop_last()) + " "@ + words.last()
    }
}

/// The texts of a sequence of strings.
pub open spec fn texts(v: Seq<String>) -> Seq<Seq<char>> {
    v.map_values(|s: String| s@)
}

/// `words` joined with `sep`.
fn join_with(words: &Vec<String>, sep: &str) -> (r: String)
    ensures
        sep@ == " "@ ==> r@ == space_joined(texts(words@)),
{
    let mut r = String::new();
    let mut i: usize = 0;
    while i < words.len()
        invariant
            i <= words.len(),
            sep@ == " "@ ==> r@ == space_joined(texts(words@.take(i as int))),
        decreases words.len() - i,
    {
        proof {
            assert(texts(words@.take(i + 1)).drop_last() =~= texts(words@.take(i as int)));
            assert(texts(words@.take(i + 1)).last() == words@[i as int]@);
        }
        if i > 0 {
            push_str(&mut r, sep);
        }
        push_str(&mut r, words[i].as_str());
        proof {
            if i == 0 {
                assert(texts(words@.take(1)) =~= seq![words@[0]@]);
            }
        }
        i = i + 1;
    }
    proof {
        assert(words@.take(i as int) =~= words@);
    }
    r
}

/// Status codes written as `{:?}` writes a list.
fn codes_to_text(codes: &Vec<i32>) -> (r: String)
    ensures
        r@ == codes_text(codes@),
{
    let ghost items = codes@.map_values(|c: i32| int_decimal(c as int));
    let mut r = String::new();
    let mut i: usize = 0;
    while i < codes.len()
        invariant
            i <= codes.len(),
            items == codes@.map_values(|c: i32| int_decimal(c as int)),
            r@ == comma_list(items.take(i as int)),
        decreases codes.len() - i,
    {
        proof {
            assert(items.take(i + 1).drop_last() =~= items.take(i as int));
            assert(items.take(i + 1).last() == int_decimal(codes@[i as int] as int));
        }
        if i > 0 {
            push_str(&mut r, ", ");
            proof {
                reveal_strlit(", ");
            }
        }
        let d = i64_to_decimal(codes[i] as i64);
        push_str(&mut r, d.as_str());
        proof {
            if i == 0 {
                assert(items.take(1) =~= seq![items[0]]);
            }
        }
        i = i + 1;
    }
    proof {
        assert(items.take(i as int) =~= items);
    }
    let mut out = String::new();
    push_str(&mut out, "[");
    push_str(&mut out, r.as_str());
    push_str(&mut out, "]");
    out
}

impl CommandHookError {
    /// The error's message.
    pub open spec fn message_spec(&self) -> Seq<char> {
        match self {
            CommandHookError::EmptyCommand => "Command cannot be empty"@,
            CommandHookError::ExecutionFailed { command, message } => "Failed to execute command '"@
                + command@ + "': "@ + message@,
            CommandHookError::EmptySuccessCodes => "success_codes cannot be empty"@,
            CommandHookError::ConflictingStatusPolicy => "success_codes and abort_on_failure cannot both be set"@,
            CommandHookError::InvalidUtf8 { message } => "Command output contains invalid UTF-8: "@
                + message@,
            CommandHookError::NonZeroExit { command, status } => "Command '"@ + command@
                + "' exited with status "@ + int_decimal(*status as int),
            CommandHookError::Serialization(m) => "Failed to serialize command hook: "@ + m@,
        }
    }

    /// The error's message.
    pub fn message(&self) -> (m: String)
        ensures
            m@ == self.message_spec(),
    {
        let mut m = String::new();
        match self {
            CommandHookError::EmptyCommand => push_str(&mut m, "Command cannot be empty"),
            CommandHookError::ExecutionFailed { command, message } => {
                push_str(&mut m, "Failed to execute command '");
                push_str(&mut m, command.as_str());
                push_str(&mut m, "': ");
                push_str(&mut m, message.as_str());
            },
            CommandHookError::EmptySuccessCodes => push_str(&mut m, "success_codes cannot be empty"),
            CommandHookError::ConflictingStatusPolicy => push_str(
                &mut m,
                "success_codes and abort_on_failure cannot both be set",
            ),
            CommandHookError::InvalidUtf8 { message } => {
                push_str(&mut m, "Command output contains invalid UTF-8: ");
                push_str(&mut m, message.as_str());
            },
            CommandHookError::NonZeroExit { command, status } => {
                push_str(&mut m, "Command '");
                push_str(&mut m, command.as_str());
                push_str(&mut m, "' exited with status ");
                let d = i64_to_decimal(*status as i64);
                push_str(&mut m, d.as_str());
            },
            CommandHookError::Serialization(e) => {
                push_str(&mut m, "Failed to serialize command hook: ");
                push_str(&mut m, e.as_str());
            },
        }
        m
    }

    /// The error as the library-wide error: a failure of `capture-command`.
    pub fn into_capsula(self) -> (e: CapsulaError)
        ensures
            e matches CapsulaError::HookFailed { hook, message } && hook@ == command_hook_id()
                && message@ == self.message_spec(),
    {
        let message = self.message();
        CapsulaError::HookFailed { hook: copy_string("capture-command"), message }
    }
}

impl CommandHook {
    /// The hook's configuration.
    pub closed spec fn hook_config(&self) -> CommandHookConfig {
        self.config
    }

    /// The directory the command runs in.
    pub closed spec fn working_dir_spec(&self) -> String {
        self.working_dir
    }

    /// A configured hook never has an empty list of success codes, nor both
    /// success codes and an abort policy.
    #[verifier::type_invariant]
    closed spec fn status_policy_checked(self) -> bool {
        &&& !(self.config.success_codes matches Some(c) && c@.len() == 0)
        &&& !(self.config.success_codes is Some && self.config.abort_on_failure is Some)
    }

    /// The directory the command runs in.
    pub fn working_dir(&self) -> (r: &str)
        ensures
            r@ == self.working_dir_spec()@,
    {
        self.working_dir.as_str()
    }

    /// The hook for a configuration: the success policy must be coherent, and
    /// the working directory, when given, must resolve inside the project.
    pub fn from_config<F: Fn(&str) -> Result<String, String>>(
        config: CommandHookConfig,
        project_root: &str,
        canonicalize: &F,
    ) -> (r: Result<Self, CapsulaError>)
        requires
            forall|s: &str| #[trigger] canonicalize.requires((s,)),
        ensures
            (config.success_codes matches Some(c) && c@.len() == 0) ==> (r matches Err(e)
                && hook_failed(e, command_hook_id(), CommandHookError::EmptySuccessCodes.message_spec())),
            ((config.success_codes matches Some(c) && c@.len() > 0) && config.abort_on_failure is Some)
                ==> (r matches Err(e) && hook_failed(
                e,
                command_hook_id(),
                CommandHookError::ConflictingStatusPolicy.message_spec(),
            )),
            (config.success_codes is None || config.abort_on_failure is None) && !(
            config.success_codes matches Some(c) && c@.len() == 0) ==> match config.cwd {
                None => r matches Ok(h) && h.hook_config() == config && h.working_dir_spec()@ == project_root@,
                Some(cwd) => exists|rr: Result<ResolvedProjectPath, ProjectPathError>|
                    {
                        &&& ResolvedProjectPath::resolve_spec(cwd@, project_root@, *canonicalize, rr)
                        &&& match rr {
                            Ok(rp) => r matches Ok(h) && h.hook_config() == config && h.working_dir_spec()@
                                == rp@.path,
                            Err(e) => r matches Err(CapsulaError::Io(m)) && m@ == e.message_spec(),
                        }
                    },
            },
    {
        let empty_codes = match &config.success_codes {
            Some(c) => c.len() == 0,
            None => false,
        };
        if empty_codes {
            return Err(CommandHookError::EmptySuccessCodes.into_capsula());
        }
        if config.success_codes.is_some() && config.abort_on_failure.is_some() {
            return Err(CommandHookError::ConflictingStatusPolicy.into_capsula());
        }
        let working_dir = match &config.cwd {
            Some(cwd) => match resolve_relative(cwd.as_str(), project_root, canonicalize) {
                Ok(p) => p,
                Err(m) => {
                    return Err(CapsulaError::Io(m));
                },
            },
            None => copy_string(project_root),
        };
        Ok(CommandHook { config, working_dir })
    }

    /// The hook's configuration.
    pub fn config(&self) -> (c: &CommandHookConfig)
        ensures
            *c == self.hook_config(),
    {
        &self.config
    }

    /// Whether an exit status counts as success.
    pub fn is_success_status(&self, status: i32) -> (r: bool)
        ensures
            r == status_succeeds(self.hook_config().success_codes, self.hook_config().abort_on_failure, status),
    {
        match &self.config.success_codes {
            Some(codes) => {
                let mut i: usize = 0;
                while i < codes.len()
                    invariant
                        i <= codes.len(),
                        self.config.success_codes == Some(*codes),
                        forall|k: int| 0 <= k < i ==> codes@[k] != status,
                    decreases codes.len() - i,
                {
                    if codes[i] == status {
                        assert(codes@[i as int] == status);
                        return true;
                    }
                    i = i + 1;
                }
                false
            },
            None => match self.config.abort_on_failure {
                Some(false) => true,
                _ => status == 0,
            },
        }
    }

    /// Why an exit status failed the success condition.
    pub fn failure_reason(&self, status: i32) -> (r: String)
        ensures
            r@ == failure_text(self.hook_config().success_codes, status),
    {
        let mut r = String::new();
        push_str(&mut r, "command exited with status ");
        let d = i64_to_decimal(status as i64);
        push_str(&mut r, d.as_str());
        match &self.config.success_codes {
            None => push_str(&mut r, "; expected 0"),
            Some(codes) => {
                push_str(&mut r, "; expected one of ");
                let t = codes_to_text(codes);
                push_str(&mut r, t.as_str());
            },
        }
        r
    }

    /// The outcome of a finished command: its output decoded (invalid UTF-8
    /// replaced), its status (`-1` when it has none, as when a signal ended
    /// it), and whether that status counts as success.
    pub fn outcome(&self, stdout: &[u8], stderr: &[u8], code: Option<i32>) -> (r: HookOutcome<
        CommandCaptured,
    >)
        ensures
            ({
                let status = match code {
                    Some(c) => c,
                    None => -1i32,
                };
                &&& r.output_spec().stdout@ == lossy_utf8(stdout@)
                &&& r.output_spec().stderr@ == lossy_utf8(stderr@)
                &&& r.output_spec().status == status
                &&& (r is Succeeded) == status_succeeds(
                    self.hook_config().success_codes,
                    self.hook_config().abort_on_failure,
                    status,
                )
                &&& r matches HookOutcome::Failed { reason, .. } ==> reason@ == failure_text(
                    self.hook_config().success_codes,
                    status,
                )
            }),
    {
        let status = match code {
            Some(c) => c,
            None => -1i32,
        };
        let captured = CommandCaptured {
            stdout: from_utf8_lossy(stdout),
            stderr: from_utf8_lossy(stderr),
            status,
        };
        if self.is_success_status(status) {
            HookOutcome::success(captured)
        } else {
            let reason = self.failure_reason(status);
            HookOutcome::failure(captured, reason)
        }
    }

    /// Runs the command in the working directory through `execute`, which
    /// gives the command's stdout, stderr and exit code, or why it could not
    /// start. An empty command is an error, refused before anything runs:
    /// `execute` is only ever called with a command that has a program.
    pub fn run<X: Fn(&Vec<String>, &String) -> Result<(Vec<u8>, Vec<u8>, Option<i32>), String>>(
        &self,
        execute: &X,
    ) -> (r: Result<HookOutcome<CommandCaptured>, CapsulaError>)
        requires
            forall|c: &Vec<String>, d: &String| c@.len() > 0 ==> #[trigger] execute.requires((c, d)),
        ensures
            self.hook_config().command@.len() == 0 ==> (r matches Err(e) && hook_failed(
                e,
                command_hook_id(),
                CommandHookError::EmptyCommand.message_spec(),
            )),
            self.hook_config().command@.len() > 0 ==> exists|out: Result<(Vec<u8>, Vec<u8>, Option<i32>), String>|
                {
                    &&& execute.ensures((&self.hook_config().command, &self.working_dir_spec()), out)
                    &&& match out {
                        Err(m) => r matches Err(CapsulaError::HookFailed { hook, message }) && hook@
                            == command_hook_id() && message@ == "Failed to execute command '"@
                            + space_joined(texts(self.hook_config().command@)) + "': "@ + m@,
                        Ok((o, e, c)) => r matches Ok(outcome) && ({
                            let status = match c {
                                Some(c) => c,
                                None => -1i32,
                            };
                            &&& outcome.output_spec().stdout@ == lossy_utf8(o@)
                            &&& outcome.output_spec().stderr@ == lossy_utf8(e@)
                            &&& outcome.output_spec().status == status
                            &&& (outcome is Succeeded) == status_succeeds(
                                self.hook_config().success_codes,
                                self.hook_config().abort_on_failure,
                                status,
                            )
                            &&& outcome matches HookOutcome::Failed { reason, .. } ==> reason@
                                == failure_text(self.hook_config().success_codes, status)
                        }),
                    }
                },
    {
        if self.config.command.len() == 0 {
            return Err(CommandHookError::EmptyCommand.into_capsula());
        }
        let out = execute(&self.config.command, &self.working_dir);
        match out {
            Err(m) => {
                let command = join_with(&self.config.command, " ");
                proof {
                    reveal_strlit(" ");
                }
                Err(CommandHookError::ExecutionFailed { command, message: m }.into_capsula())
            },
            Ok((o, e, c)) => Ok(self.outcome(o.as_slice(), e.as_slice(), c)),
        }
    }
}

} // verus!
