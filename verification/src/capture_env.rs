//! The `capture-env` hook: the value of one environment variable.

use vstd::prelude::*;
use crate::hook::CapsulaError;
use crate::text::push_str;
use crate::json::{JView, JsonValue};
use crate::text::copy_string;

verus! {

/// The id under which `capture-env` hooks are configured.
pub const KEY: &'static str = "capture-env";

/// Configuration of the `capture-env` hook.
#[derive(Debug)]
pub struct EnvVarHookConfig {
    /// The variable's name.
    pub name: String,
}

/// Makes `capture-env` hooks.
#[derive(Debug, Clone, Copy, Default)]
pub struct EnvVarHookFactory;

/// The `capture-env` hook.
#[derive(Debug)]
pub struct EnvVarHook {
    pub config: EnvVarHookConfig,
    pub name: String,
}

/// What the `capture-env` hook captures: the variable and its value, if it
/// is set.
#[derive(Debug)]
pub struct EnvVarCaptured {
    pub name: String,
    pub value: Option<String>,
}

/// Errors of the `capture-env` hook.
#[derive(Debug)]
pub enum EnvHookError {
    VariableNotFound { name: String },
    InvalidUtf8 { name: String, message: String },
    Serialization(String),
}

/// The factory of `capture-env` hooks.
pub fn create_factory() -> (f: EnvVarHookFactory) {
    EnvVarHookFactory
}

impl EnvVarHookFactory {
    /// The id under which the factory's hooks are configured.
    pub fn key(&self) -> (r: &'static str)
        ensures
            r@ == "capture-env"@,
    {
        "capture-env"
    }

    /// The hook for a configuration: it reads the configured variable.
    pub fn create_hook(&self, config: EnvVarHookConfig) -> (h: EnvVarHook)
        ensures
            h.config == config,
            h.name@ == config.name@,
    {
        let name = copy_string(config.name.as_str());
        EnvVarHook { config, name }
    }
}

impl EnvVarHook {
    /// The hook's id.
    pub fn id(&self) -> (r: String)
        ensures
            r@ == "capture-env"@,
    {
        copy_string("capture-env")
    }

    /// The hook's configuration.
    pub fn config(&self) -> (c: &EnvVarHookConfig)
        ensures
            *c == self.config,
    {
        &self.config
    }

    /// The capture, given the variable's value (`None` when it is not set
    /// or not valid UTF-8).
    pub fn run(&self, value: Option<String>) -> (r: EnvVarCaptured)
        ensures
            r.name@ == self.name@,
            r.value == value,
    {
        EnvVarCaptured { name: copy_string(self.name.as_str()), value }
    }
}

impl EnvVarCaptured {
    /// The capture as JSON: `{"value": <the value or null>}`.
    pub fn to_json(&self) -> (r: JsonValue)
        ensures
            r@ == JView::Object(
                seq![
                    ("value"@, match self.value {
                        Some(v) => JView::Str(v@),
                        None => JView::Null,
                    }),
                ],
            ),
    {
        let v = match &self.value {
            Some(s) => JsonValue::String(copy_string(s.as_str())),
            None => JsonValue::Null,
        };
        let mut entries: Vec<(String, JsonValue)> = Vec::new();
        entries.push((copy_string("value"), v));
        let r = JsonValue::Object(entries);
        proof {
            crate::json::lemma_object_view(entries);
            assert(crate::json::entries_view(entries@) =~= seq![
                ("value"@, match self.value {
                    Some(v) => JView::Str(v@),
                    None => JView::Null,
                }),
            ]);
        }
        r
    }
}

impl EnvHookError {
    /// The message this error displays.
    pub open spec fn message_spec(&self) -> Seq<char> {
        match self {
            EnvHookError::VariableNotFound { name } => "Required environment variable '"@ + name@ + "' not found"@,
            EnvHookError::InvalidUtf8 { name, .. } => "Environment variable '"@ + name@ + "' contains invalid UTF-8"@,
            EnvHookError::Serialization(e) => "Failed to serialize environment hook: "@ + e@,
        }
    }

    /// The message this error displays.
    pub fn message(&self) -> (m: String)
        ensures
            m@ == self.message_spec(),
    {
        let mut m = String::new();
        match self {
            EnvHookError::VariableNotFound { name } => {
                push_str(&mut m, "Required environment variable '");
                push_str(&mut m, name.as_str());
                push_str(&mut m, "' not found");
            },
            EnvHookError::InvalidUtf8 { name, .. } => {
                push_str(&mut m, "Environment variable '");
                push_str(&mut m, name.as_str());
                push_str(&mut m, "' contains invalid UTF-8");
            },
            EnvHookError::Serialization(e) => {
                push_str(&mut m, "Failed to serialize environment hook: ");
                push_str(&mut m, e.as_str());
            },
        }
        m
    }

    /// The error as the library-wide error: a failure of `capture-env`.
    pub fn into_capsula(self) -> (e: CapsulaError)
        ensures
            e matches CapsulaError::HookFailed { hook, message } && hook@ == "capture-env"@ && message@ == self.message_spec(),
    {
        let message = self.message();
        CapsulaError::HookFailed { hook: copy_string("capture-env"), message }
    }
}

} // verus!
