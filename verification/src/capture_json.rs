//! The `capture-json` hook: one JSON file, embedded as it parses.

use vstd::prelude::*;
use crate::hook::CapsulaError;
use crate::text::push_str;
use crate::parse::{json_text_parsed, parse_json_text};
use crate::json::JsonValue;
use crate::path::{join, join_spec};
use crate::text::copy_string;

verus! {

/// Configuration of the `capture-json` hook.
#[derive(Debug)]
pub struct JsonHookConfig {
    /// The JSON file, relative to the project root unless absolute.
    pub path: String,
}

/// The `capture-json` hook.
#[derive(Debug)]
pub struct JsonHook {
    pub config: JsonHookConfig,
    pub project_root: String,
}

/// What the `capture-json` hook captures: the path as configured and the
/// file's parsed content.
#[derive(Debug)]
pub struct JsonCaptured {
    pub file: String,
    pub parameters: JsonValue,
}

/// Errors of the `capture-json` hook.
#[derive(Debug)]
pub enum JsonHookError {
    /// The file could not be read; its path and why.
    Io { path: String, message: String },
    /// The file is not JSON; the parser's message.
    Json(String),
}

impl JsonHook {
    /// The hook for a configuration, reading under `project_root`.
    pub fn from_config(config: JsonHookConfig, project_root: &str) -> (h: Self)
        ensures
            h.config == config,
            h.project_root@ == project_root@,
    {
        JsonHook { config, project_root: copy_string(project_root) }
    }

    /// The hook's configuration.
    pub fn config(&self) -> (c: &JsonHookConfig)
        ensures
            *c == self.config,
    {
        &self.config
    }

    /// The file the hook reads: the configured path under the project root.
    pub fn full_path(&self) -> (r: String)
        ensures
            r@ == join_spec(self.project_root@, self.config.path@),
    {
        join(self.project_root.as_str(), self.config.path.as_str())
    }

    /// Reads the file through `read` and parses its text as JSON; the
    /// capture names the file by its configured path, verbatim.
    pub fn run<Rd: Fn(&String) -> Result<String, String>>(&self, read: &Rd) -> (r: Result<
        JsonCaptured,
        JsonHookError,
    >)
        requires
            forall|p: &String| #[trigger] read.requires((p,)),
        ensures
            exists|full: String, out: Result<String, String>|
                {
                    &&& full@ == join_spec(self.project_root@, self.config.path@)
                    &&& read.ensures((&full,), out)
                    &&& match out {
                        Err(m) => r matches Err(JsonHookError::Io { path, message }) && path@ == full@ && message
                            == m,
                        Ok(text) => match json_text_parsed(text@) {
                            Ok(v) => r matches Ok(c) && c.file@ == self.config.path@ && c.parameters@ == v,
                            Err(m) => r matches Err(JsonHookError::Json(x)) && x@ == m,
                        },
                    }
                },
    {
        let full = self.full_path();
        let out = read(&full);
        let ghost out0 = out;
        let ghost full0 = full;
        match out {
            Ok(text) => match parse_json_text(text.as_str()) {
                Ok(v) => Ok(JsonCaptured { file: copy_string(self.config.path.as_str()), parameters: v }),
                Err(m) => Err(JsonHookError::Json(m)),
            },
            Err(m) => Err(JsonHookError::Io { path: full, message: m }),
        }
    }
}

impl JsonHookError {
    /// The message this error displays.
    pub open spec fn message_spec(&self) -> Seq<char> {
        match self {
            JsonHookError::Io { path, message } => "Failed to read JSON file '"@ + path@ + "': "@ + message@,
            JsonHookError::Json(e) => "Failed to deserialize JSON: "@ + e@,
        }
    }

    /// The message this error displays.
    pub fn message(&self) -> (m: String)
        ensures
            m@ == self.message_spec(),
    {
        let mut m = String::new();
        match self {
            JsonHookError::Io { path, message } => {
                push_str(&mut m, "Failed to read JSON file '");
                push_str(&mut m, path.as_str());
                push_str(&mut m, "': ");
                push_str(&mut m, message.as_str());
            },
            JsonHookError::Json(e) => {
                push_str(&mut m, "Failed to deserialize JSON: ");
                push_str(&mut m, e.as_str());
            },
        }
        m
    }

    /// The error as the library-wide error: a failure of `capture-json`.
    pub fn into_capsula(self) -> (e: CapsulaError)
        ensures
            e matches CapsulaError::HookFailed { hook, message } && hook@ == "capture-json"@ && message@ == self.message_spec(),
    {
        let message = self.message();
        CapsulaError::HookFailed { hook: copy_string("capture-json"), message }
    }
}

} // verus!
