//! The `capture-cwd` hook: the working directory the run starts in.

use vstd::prelude::*;
use crate::hook::CapsulaError;
use crate::text::{copy_string, push_str};

verus! {

/// Configuration of the `capture-cwd` hook (it has none).
#[derive(Debug, Clone, Copy, Default)]
pub struct CwdHookConfig {}

/// The `capture-cwd` hook.
#[derive(Debug, Default)]
pub struct CwdHook {
    pub config: CwdHookConfig,
}

/// What the `capture-cwd` hook captures: the absolute working directory.
#[derive(Debug)]
pub struct CwdCaptured {
    pub cwd_abs: String,
}

/// Errors of the `capture-cwd` hook.
#[derive(Debug)]
pub enum CwdHookError {
    /// The working directory could not be read; why.
    CurrentDirError { message: String },
    Serialization(String),
}

/// Makes `capture-cwd` hooks.
#[derive(Debug, Clone, Copy, Default)]
pub struct CwdHookFactory;

impl CwdCaptured {
    /// The captured working directory.
    pub fn cwd_abs(&self) -> (r: &String)
        ensures
            *r == self.cwd_abs,
    {
        &self.cwd_abs
    }
}

impl CwdHook {
    /// The hook (its configuration is empty).
    pub fn from_config() -> (h: Self) {
        CwdHook { config: CwdHookConfig {} }
    }

    /// The hook's configuration.
    pub fn config(&self) -> (c: &CwdHookConfig)
        ensures
            *c == self.config,
    {
        &self.config
    }

    /// The capture, given the working directory as the process reports it
    /// or why it could not.
    pub fn run(&self, current_dir: Result<String, String>) -> (r: Result<CwdCaptured, CwdHookError>)
        ensures
            match current_dir {
                Ok(d) => r matches Ok(c) && c.cwd_abs == d,
                Err(m) => r matches Err(CwdHookError::CurrentDirError { message }) && message == m,
            },
    {
        match current_dir {
            Ok(d) => Ok(CwdCaptured { cwd_abs: d }),
            Err(m) => Err(CwdHookError::CurrentDirError { message: m }),
        }
    }
}

impl CwdHookFactory {
    /// The id under which the factory's hooks are configured.
    pub fn key(&self) -> (r: &'static str)
        ensures
            r@ == "capture-cwd"@,
    {
        "capture-cwd"
    }

    /// A `capture-cwd` hook.
    pub fn create_hook(&self) -> (h: CwdHook) {
        CwdHook::from_config()
    }
}

impl CwdHookError {
    /// The message this error displays.
    pub open spec fn message_spec(&self) -> Seq<char> {
        match self {
            CwdHookError::CurrentDirError { message } => "Failed to get current working directory: "@ + message@,
            CwdHookError::Serialization(e) => "Failed to serialize cwd hook: "@ + e@,
        }
    }

    /// The message this error displays.
    pub fn message(&self) -> (m: String)
        ensures
            m@ == self.message_spec(),
    {
        let mut m = String::new();
        match self {
            CwdHookError::CurrentDirError { message } => {
                push_str(&mut m, "Failed to get current working directory: ");
                push_str(&mut m, message.as_str());
            },
            CwdHookError::Serialization(e) => {
                push_str(&mut m, "Failed to serialize cwd hook: ");
                push_str(&mut m, e.as_str());
            },
        }
        m
    }

    /// The error as the library-wide error: a failure of `capture-cwd`.
    pub fn into_capsula(self) -> (e: CapsulaError)
        ensures
            e matches CapsulaError::HookFailed { hook, message } && hook@ == "capture-cwd"@ && message@ == self.message_spec(),
    {
        let message = self.message();
        CapsulaError::HookFailed { hook: copy_string("capture-cwd"), message }
    }
}

} // verus!
