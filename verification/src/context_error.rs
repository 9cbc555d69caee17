//! The errors of the `command`, `cwd`, `file` and `machine` contexts, with
//! the messages they display and their place among the library's errors.

use vstd::prelude::*;
use crate::hook::CapsulaError;
use crate::text::{copy_string, i64_to_decimal, int_decimal, push_str};

verus! {

/// Errors of the `command` context.
#[derive(Debug)]
pub enum CommandContextError {
    /// The command is empty.
    EmptyCommand,
    /// The command could not be run; why.
    ExecutionFailed { command: String, source: String },
    /// The command's output is not UTF-8; why.
    InvalidUtf8 { message: String },
    /// The command exited with a non-zero status.
    NonZeroExit { command: String, status: i32 },
    /// Serialization failed; its message.
    Serialization(String),
}

impl CommandContextError {
    /// The message this error displays.
    pub open spec fn message_spec(&self) -> Seq<char> {
        match self {
            CommandContextError::EmptyCommand => "Command cannot be empty"@,
            CommandContextError::ExecutionFailed { command, source } => "Failed to execute command '"@ + command@
                + "': "@ + source@,
            CommandContextError::InvalidUtf8 { message } => "Command output contains invalid UTF-8: "@ + message@,
            CommandContextError::NonZeroExit { command, status } => "Command '"@ + command@ + "' exited with status "@
                + int_decimal(*status as int),
            CommandContextError::Serialization(e) => "Failed to serialize command context: "@ + e@,
        }
    }

    /// The message this error displays.
    pub fn message(&self) -> (m: String)
        ensures
            m@ == self.message_spec(),
    {
        let mut m = String::new();
        match self {
            CommandContextError::EmptyCommand => {
                push_str(&mut m, "Command cannot be empty");
            },
            CommandContextError::ExecutionFailed { command, source } => {
                push_str(&mut m, "Failed to execute command '");
                push_str(&mut m, command.as_str());
                push_str(&mut m, "': ");
                push_str(&mut m, source.as_str());
            },
            CommandContextError::InvalidUtf8 { message } => {
                push_str(&mut m, "Command output contains invalid UTF-8: ");
                push_str(&mut m, message.as_str());
            },
            CommandContextError::NonZeroExit { command, status } => {
                push_str(&mut m, "Command '");
                push_str(&mut m, command.as_str());
                push_str(&mut m, "' exited with status ");
                let digits = i64_to_decimal(*status as i64);
                push_str(&mut m, digits.as_str());
            },
            CommandContextError::Serialization(e) => {
                push_str(&mut m, "Failed to serialize command context: ");
                push_str(&mut m, e.as_str());
            },
        }
        m
    }

    /// The error as the library-wide error: a failure of the `command`
    /// context.
    pub fn into_capsula(self) -> (e: CapsulaError)
        ensures
            e matches CapsulaError::HookFailed { hook, message } && hook@ == "command"@ && message@
                == self.message_spec(),
    {
        let message = self.message();
        CapsulaError::HookFailed { hook: copy_string("command"), message }
    }
}

/// Errors of the `cwd` context.
#[derive(Debug)]
pub enum CwdContextError {
    /// The current directory could not be read; why.
    CurrentDirError { source: String },
    /// Serialization failed; its message.
    Serialization(String),
}

impl CwdContextError {
    /// The message this error displays.
    pub open spec fn message_spec(&self) -> Seq<char> {
        match self {
            CwdContextError::CurrentDirError { source } => "Failed to get current working directory: "@ + source@,
            CwdContextError::Serialization(e) => "Failed to serialize cwd context: "@ + e@,
        }
    }

    /// The message this error displays.
    pub fn message(&self) -> (m: String)
        ensures
            m@ == self.message_spec(),
    {
        let mut m = String::new();
        match self {
            CwdContextError::CurrentDirError { source } => {
                push_str(&mut m, "Failed to get current working directory: ");
                push_str(&mut m, source.as_str());
            },
            CwdContextError::Serialization(e) => {
                push_str(&mut m, "Failed to serialize cwd context: ");
                push_str(&mut m, e.as_str());
            },
        }
        m
    }

    /// The error as the library-wide error: a failure of the `cwd` context.
    pub fn into_capsula(self) -> (e: CapsulaError)
        ensures
            e matches CapsulaError::HookFailed { hook, message } && hook@ == "cwd"@ && message@ == self.message_spec(),
    {
        let message = self.message();
        CapsulaError::HookFailed { hook: copy_string("cwd"), message }
    }
}

/// Errors of the `file` context.
#[derive(Debug)]
pub enum FileContextError {
    /// No file at this path.
    FileNotFound { path: String },
    /// Nothing matched the pattern.
    NoFilesMatched { pattern: String },
    /// The pattern is not a valid glob; why.
    InvalidPattern { pattern: String, source: String },
    /// Reading the file failed; why.
    ReadError { path: String, source: String },
    /// The digest could not be computed; why.
    HashError { path: String, message: String },
    /// Serialization failed; its message.
    Serialization(String),
}

impl FileContextError {
    /// The message this error displays.
    pub open spec fn message_spec(&self) -> Seq<char> {
        match self {
            FileContextError::FileNotFound { path } => "File not found: "@ + path@,
            FileContextError::NoFilesMatched { pattern } => "No files matched the pattern: "@ + pattern@,
            FileContextError::InvalidPattern { pattern, .. } => "Invalid file pattern: "@ + pattern@,
            FileContextError::ReadError { path, source } => "Failed to read file "@ + path@ + ": "@ + source@,
            FileContextError::HashError { path, message } => "Failed to compute hash for "@ + path@ + ": "@
                + message@,
            FileContextError::Serialization(e) => "Failed to serialize file context: "@ + e@,
        }
    }

    /// The message this error displays.
    pub fn message(&self) -> (m: String)
        ensures
            m@ == self.message_spec(),
    {
        let mut m = String::new();
        match self {
            FileContextError::FileNotFound { path } => {
                push_str(&mut m, "File not found: ");
                push_str(&mut m, path.as_str());
            },
            FileContextError::NoFilesMatched { pattern } => {
                push_str(&mut m, "No files matched the pattern: ");
                push_str(&mut m, pattern.as_str());
            },
            FileContextError::InvalidPattern { pattern, .. } => {
                push_str(&mut m, "Invalid file pattern: ");
                push_str(&mut m, pattern.as_str());
            },
            FileContextError::ReadError { path, source } => {
                push_str(&mut m, "Failed to read file ");
                push_str(&mut m, path.as_str());
                push_str(&mut m, ": ");
                push_str(&mut m, source.as_str());
            },
            FileContextError::HashError { path, message } => {
                push_str(&mut m, "Failed to compute hash for ");
                push_str(&mut m, path.as_str());
                push_str(&mut m, ": ");
                push_str(&mut m, message.as_str());
            },
            FileContextError::Serialization(e) => {
                push_str(&mut m, "Failed to serialize file context: ");
                push_str(&mut m, e.as_str());
            },
        }
        m
    }

    /// The error as the library-wide error: a missing or unreadable file is
    /// an I/O error with this error's message; anything else is a failure of
    /// the `file` context.
    pub fn into_capsula(self) -> (e: CapsulaError)
        ensures
            (self is FileNotFound || self is ReadError) ==> (e matches CapsulaError::Io(m) && m@
                == self.message_spec()),
            !(self is FileNotFound || self is ReadError) ==> (e matches CapsulaError::HookFailed { hook, message }
                && hook@ == "file"@ && message@ == self.message_spec()),
    {
        let message = self.message();
        match self {
            FileContextError::FileNotFound { .. } | FileContextError::ReadError { .. } => CapsulaError::Io(message),
            _ => CapsulaError::HookFailed { hook: copy_string("file"), message },
        }
    }
}

/// Errors of the `machine` context.
#[derive(Debug)]
pub enum MachineContextError {
    /// The system could not be described; why.
    SystemInfoError { message: String },
    OsInfoError,
    CpuInfoError,
    MemoryInfoError,
    HostnameError,
    /// Serialization failed; its message.
    Serialization(String),
}

impl MachineContextError {
    /// The message this error displays.
    pub open spec fn message_spec(&self) -> Seq<char> {
        match self {
            MachineContextError::SystemInfoError { message } => "Failed to collect system information: "@ + message@,
            MachineContextError::OsInfoError => "Failed to get OS information"@,
            MachineContextError::CpuInfoError => "Failed to get CPU information"@,
            MachineContextError::MemoryInfoError => "Failed to get memory information"@,
            MachineContextError::HostnameError => "Failed to get hostname"@,
            MachineContextError::Serialization(e) => "Failed to serialize machine context: "@ + e@,
        }
    }

    /// The message this error displays.
    pub fn message(&self) -> (m: String)
        ensures
            m@ == self.message_spec(),
    {
        let mut m = String::new();
        match self {
            MachineContextError::SystemInfoError { message } => {
                push_str(&mut m, "Failed to collect system information: ");
                push_str(&mut m, message.as_str());
            },
            MachineContextError::OsInfoError => {
                push_str(&mut m, "Failed to get OS information");
            },
            MachineContextError::CpuInfoError => {
                push_str(&mut m, "Failed to get CPU information");
            },
            MachineContextError::MemoryInfoError => {
                push_str(&mut m, "Failed to get memory information");
            },
            MachineContextError::HostnameError => {
                push_str(&mut m, "Failed to get hostname");
            },
            MachineContextError::Serialization(e) => {
                push_str(&mut m, "Failed to serialize machine context: ");
                push_str(&mut m, e.as_str());
            },
        }
        m
    }

    /// The error as the library-wide error: a failure of the `machine`
    /// context.
    pub fn into_capsula(self) -> (e: CapsulaError)
        ensures
            e matches CapsulaError::HookFailed { hook, message } && hook@ == "machine"@ && message@
                == self.message_spec(),
    {
        let message = self.message();
        CapsulaError::HookFailed { hook: copy_string("machine"), message }
    }
}

} // verus!
