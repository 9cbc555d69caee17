//! The types of the Capsula HTTP API, shared by client and server.

use vstd::prelude::*;
use crate::json::JsonValue;

verus! {

/// A vault and how many runs it holds.
#[derive(Debug)]
pub struct VaultInfo {
    pub name: String,
    pub run_count: i64,
}

/// The answer of the vault list endpoint.
#[derive(Debug)]
pub struct VaultsResponse {
    pub status: String,
    pub vaults: Vec<VaultInfo>,
}

/// The answer of the vault existence endpoint.
#[derive(Debug)]
pub struct VaultExistsResponse {
    pub status: String,
    pub exists: bool,
    pub vault: Option<VaultInfo>,
}

/// The answer of the run upload endpoint.
#[derive(Debug)]
pub struct UploadResponse {
    pub status: String,
    pub files_processed: u64,
    pub total_bytes: u64,
    pub pre_run_hooks: u64,
    pub post_run_hooks: u64,
}

/// An error answer.
#[derive(Debug)]
pub struct ErrorResponse {
    pub status: String,
    pub error: String,
}

/// A filter on one hook's configuration and output, as `JSONPath`
/// expressions.
#[derive(Debug)]
pub struct HookFilter {
    pub hook_id: String,
    pub config_filter: Option<String>,
    pub output_filter: String,
}

/// How a parameter compares with a value.
#[derive(Debug, Clone, Copy, PartialEq, Eq, Structural)]
pub enum ComparisonOp {
    Eq,
    Ne,
    Gt,
    Ge,
    Lt,
    Le,
}

/// The phase a hook ran in.
#[derive(Debug, Clone, Copy, PartialEq, Eq, Structural)]
pub enum Phase {
    Pre,
    Post,
}

/// One `<parameter> <operator> <value>` condition on captured content.
#[derive(Debug)]
pub struct ParameterCondition {
    pub parameter: String,
    pub operator: ComparisonOp,
    pub value: JsonValue,
}

/// A filter over parameter-capturing hooks: the phase, optionally the file
/// and hook position, and conditions that one captured row must all meet.
#[derive(Debug)]
pub struct ParameterMatch {
    pub phase: Phase,
    pub file: Option<String>,
    pub hook_index: Option<i32>,
    pub conditions: Vec<ParameterCondition>,
}

/// What a search answer may include.
#[derive(Debug, Clone, Copy, PartialEq, Eq, Structural)]
pub enum IncludeField {
    Metadata,
    Files,
    Stdout,
    Stderr,
    Hooks,
}

/// The order of search results.
#[derive(Debug, Clone, Copy, PartialEq, Eq, Structural)]
pub enum SortOrder {
    LatestFirst,
    OldestFirst,
}

impl Default for SortOrder {
    /// Latest first.
    fn default() -> (r: Self)
        ensures
            r == SortOrder::LatestFirst,
    {
        SortOrder::LatestFirst
    }
}

/// A run search.
#[derive(Debug)]
pub struct SearchRunsRequest {
    pub vault: Option<String>,
    pub from: Option<String>,
    pub to: Option<String>,
    pub exit_code: Option<i32>,
    pub success: Option<bool>,
    pub hook_filters: Vec<HookFilter>,
    pub parameter_matches: Vec<ParameterMatch>,
    pub included: Vec<IncludeField>,
    pub order: SortOrder,
    pub limit: Option<i64>,
    pub offset: Option<i64>,
}

/// A stored file in search results.
#[derive(Debug)]
pub struct FileInfo {
    pub path: String,
    pub size: i64,
    pub hash: Option<String>,
    pub url: String,
}

} // verus!
