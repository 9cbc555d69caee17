//! The project configuration: the vault, and the hooks of each phase.

use vstd::prelude::*;
use crate::hook::CapsulaError;
use crate::json::JsonValue;
use crate::text::{copy_string, opt_str, opt_text, push_str};
use crate::path::{join, join_spec};

verus! {

/// Where the runs of a project are kept.
#[derive(Debug)]
pub struct VaultConfig {
    pub name: String,
    pub path: String,
}

/// The hooks of one phase, in order.
#[derive(Debug)]
pub struct HookPhaseConfig {
    pub hooks: Vec<HookEnvelope>,
}

/// One configured hook: its id and the rest of its configuration.
#[derive(Debug)]
pub struct HookEnvelope {
    pub id: String,
    pub rest: JsonValue,
}

/// The project configuration.
#[derive(Debug)]
pub struct CapsulaConfig {
    pub vault: VaultConfig,
    pub pre_run: HookPhaseConfig,
    pub post_run: HookPhaseConfig,
}

/// Errors of reading the configuration.
#[derive(Debug)]
pub enum ConfigError {
    /// The file is not valid configuration TOML; the parser's message.
    TomlParse(String),
    /// No configuration file at this path.
    FileNotFound { path: String },
    /// The configuration is invalid.
    Invalid { message: String },
    /// Reading failed otherwise; why.
    Io(String),
}

/// Why a file could not be read.
#[derive(Debug)]
pub enum ReadFailure {
    NotFound,
    Other(String),
}

/// The vault path used when none is configured: `.capsula/<name>`.
pub open spec fn default_vault_path(name: Seq<char>) -> Seq<char> {
    ".capsula/"@ + name
}

impl VaultConfig {
    /// The vault configuration as read: the path defaults to
    /// `.capsula/<name>`.
    pub fn new(name: String, path: Option<String>) -> (v: Self)
        ensures
            v.name == name,
            match path {
                Some(p) => v.path == p,
                None => v.path@ == default_vault_path(name@),
            },
    {
        let path = match path {
            Some(p) => p,
            None => {
                let mut p = String::new();
                push_str(&mut p, ".capsula/");
                push_str(&mut p, name.as_str());
                p
            },
        };
        VaultConfig { name, path }
    }
}

impl Default for HookPhaseConfig {
    /// No hooks.
    fn default() -> (r: Self)
        ensures
            r.hooks@.len() == 0,
    {
        HookPhaseConfig { hooks: Vec::new() }
    }
}

/// The first of three choices that is given.
pub open spec fn first_given(first: Option<Seq<char>>, second: Option<Seq<char>>, third: Option<Seq<char>>) -> Option<Seq<char>> {
    if first is Some {
        first
    } else if second is Some {
        second
    } else {
        third
    }
}

/// The vault directory: the one given on the command line, else the one
/// set in the environment (`CAPSULA_VAULT_PATH`), else the configured one;
/// a relative path lies under the project root.
pub fn resolve_vault_path(cli: Option<String>, env: Option<String>, configured: &str, project_root: &str) -> (r: String)
    ensures
        r@ == join_spec(project_root@, first_given(opt_text(cli), opt_text(env), Some(configured@))->Some_0),
{
    let chosen = match cli {
        Some(p) => p,
        None => match env {
            Some(p) => p,
            None => copy_string(configured),
        },
    };
    join(project_root, chosen.as_str())
}

/// The server's URL: the one given on the command line, else the one set in
/// the environment (`CAPSULA_SERVER_URL`), else the configured one, if any.
pub fn resolve_server_url(cli: Option<String>, env: Option<String>, configured: Option<&str>) -> (r: Option<String>)
    ensures
        opt_text(r) == first_given(opt_text(cli), opt_text(env), opt_str(configured)),
{
    match cli {
        Some(u) => Some(u),
        None => match env {
            Some(u) => Some(u),
            None => match configured {
                Some(u) => Some(copy_string(u)),
                None => None,
            },
        },
    }
}

/// The error for a configuration file that could not be read.
pub fn read_failure(path: &str, failure: ReadFailure) -> (e: ConfigError)
    ensures
        match failure {
            ReadFailure::NotFound => e matches ConfigError::FileNotFound { path: p } && p@ == path@,
            ReadFailure::Other(m) => e == ConfigError::Io(m),
        },
{
    match failure {
        ReadFailure::NotFound => ConfigError::FileNotFound { path: copy_string(path) },
        ReadFailure::Other(m) => ConfigError::Io(m),
    }
}

/// The message of a missing configuration file.
pub open spec fn not_found_message(path: Seq<char>) -> Seq<char> {
    "Configuration file not found at '"@ + path
        + "'. Create a 'capsula.toml' file or specify a custom path with --config"@
}

impl ConfigError {
    /// The error as the library-wide error: a configuration error with an
    /// explaining message, or an I/O error.
    pub fn into_capsula(self) -> (e: CapsulaError)
        ensures
            match self {
                ConfigError::TomlParse(m) => e matches CapsulaError::Configuration { message }
                    && message@ == "Failed to parse TOML configuration: "@ + m@,
                ConfigError::FileNotFound { path } => e matches CapsulaError::Configuration {
                    message,
                } && message@ == not_found_message(path@),
                ConfigError::Invalid { message } => e == CapsulaError::Configuration { message },
                ConfigError::Io(m) => e == CapsulaError::Io(m),
            },
    {
        match self {
            ConfigError::TomlParse(m) => {
                let mut message = String::new();
                push_str(&mut message, "Failed to parse TOML configuration: ");
                push_str(&mut message, m.as_str());
                CapsulaError::Configuration { message }
            },
            ConfigError::FileNotFound { path } => {
                let mut message = String::new();
                push_str(&mut message, "Configuration file not found at '");
                push_str(&mut message, path.as_str());
                push_str(
                    &mut message,
                    "'. Create a 'capsula.toml' file or specify a custom path with --config",
                );
                CapsulaError::Configuration { message }
            },
            ConfigError::Invalid { message } => CapsulaError::Configuration { message },
            ConfigError::Io(m) => CapsulaError::Io(m),
        }
    }
}

} // verus!
