//! Verified core logic of Capsula: path handling, hook decisions and
//! parameter merging.

use vstd::prelude::*;

pub mod text;
pub mod path;
pub mod project_path;
pub mod util;
pub mod glob_pattern;
pub mod capture_file;
pub mod utf8_lossy;
pub mod capture_git_repo;
pub mod hook;
pub mod json;
pub mod capture_command;
pub mod capture_machine;
pub mod capture_toml;
pub mod capture_json;
pub mod capture_yaml;
pub mod capture_cwd;
pub mod capture_env;
pub mod api_types;
pub mod config;
pub mod client;
pub mod digest;
pub mod path_order;
pub mod capture_dir;
pub mod capture_parameter;
pub mod git_context;
pub mod env_context;
pub mod report;
pub mod context_error;
pub mod run_layout;
pub mod merge_law;
pub mod parse;

verus! {

} // verus!
