//! The `capture-yaml` hook: one YAML file, embedded as JSON.

use vstd::prelude::*;
use crate::hook::CapsulaError;
use crate::text::{copy_string, push_str};
use crate::parse::{parse_yaml_text, yaml_text_parsed};
use crate::json::JsonValue;
use crate::path::{join, join_spec};

verus! {

/// Configuration of the `capture-yaml` hook.
#[derive(Debug)]
pub struct YamlHookConfig {
    /// The YAML file, relative to the project root unless absolute.
    pub path: String,
}

/// The `capture-yaml` hook.
#[derive(Debug)]
pub struct YamlHook {
    pub config: YamlHookConfig,
}

/// What the `capture-yaml` hook captures: the file's content as JSON.
#[derive(Debug)]
pub struct YamlCaptured {
    pub content: JsonValue,
}

/// Errors of the `capture-yaml` hook.
#[derive(Debug)]
pub enum YamlHookError {
    /// The file could not be read; its path and why.
    Io { path: String, message: String },
    /// The file is not YAML that JSON can hold; the parser's message.
    Yaml(String),
    /// JSON (de)serialization failed; its message.
    Json(String),
}

impl YamlHook {
    /// The hook with the given configuration.
    pub fn from_config(config: YamlHookConfig) -> (h: Self)
        ensures
            h.config == config,
    {
        YamlHook { config }
    }

    /// The hook's configuration.
    pub fn config(&self) -> (c: &YamlHookConfig)
        ensures
            *c == self.config,
    {
        &self.config
    }

    /// Reads the configured file under `project_root` (the run's project
    /// root) through `read` and parses its text as YAML into JSON.
    pub fn run<Rd: Fn(&String) -> Result<String, String>>(
        &self,
        project_root: &str,
        read: &Rd,
    ) -> (r: Result<YamlCaptured, YamlHookError>)
        requires
            forall|p: &String| #[trigger] read.requires((p,)),
        ensures
            exists|full: String, out: Result<String, String>|
                {
                    &&& full@ == join_spec(project_root@, self.config.path@)
                    &&& read.ensures((&full,), out)
                    &&& match out {
                        Err(m) => r matches Err(YamlHookError::Io { path, message }) && path@ == full@ && message
                            == m,
                        Ok(text) => match yaml_text_parsed(text@) {
                            Ok(v) => r matches Ok(c) && c.content@ == v,
                            Err(m) => r matches Err(YamlHookError::Yaml(x)) && x@ == m,
                        },
                    }
                },
    {
        let full = join(project_root, self.config.path.as_str());
        let out = read(&full);
        let ghost out0 = out;
        let ghost full0 = full;
        match out {
            Ok(text) => match parse_yaml_text(text.as_str()) {
                Ok(v) => Ok(YamlCaptured { content: v }),
                Err(m) => Err(YamlHookError::Yaml(m)),
            },
            Err(m) => Err(YamlHookError::Io { path: full, message: m }),
        }
    }
}

impl YamlHookError {
    /// The message this error displays.
    pub open spec fn message_spec(&self) -> Seq<char> {
        match self {
            YamlHookError::Io { path, message } => "Failed to read YAML file '"@ + path@ + "': "@ + message@,
            YamlHookError::Yaml(e) => "Failed to parse YAML: "@ + e@,
            YamlHookError::Json(e) => "Failed to (de)serialize JSON: "@ + e@,
        }
    }

    /// The message this error displays.
    pub fn message(&self) -> (m: String)
        ensures
            m@ == self.message_spec(),
    {
        let mut m = String::new();
        match self {
            YamlHookError::Io { path, message } => {
                push_str(&mut m, "Failed to read YAML file '");
                push_str(&mut m, path.as_str());
                push_str(&mut m, "': ");
                push_str(&mut m, message.as_str());
            },
            YamlHookError::Yaml(e) => {
                push_str(&mut m, "Failed to parse YAML: ");
                push_str(&mut m, e.as_str());
            },
            YamlHookError::Json(e) => {
                push_str(&mut m, "Failed to (de)serialize JSON: ");
                push_str(&mut m, e.as_str());
            },
        }
        m
    }

    /// The error as the library-wide error: a failure of `capture-yaml`.
    pub fn into_capsula(self) -> (e: CapsulaError)
        ensures
            e matches CapsulaError::HookFailed { hook, message } && hook@ == "capture-yaml"@ && message@ == self.message_spec(),
    {
        let message = self.message();
        CapsulaError::HookFailed { hook: copy_string("capture-yaml"), message }
    }
}

} // verus!
