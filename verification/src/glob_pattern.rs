//! Calls into the `glob` crate's pattern compiler and matcher.

use vstd::prelude::*;

verus! {

/// What `glob::Pattern::new` yields for a pattern text: `None` when the
/// pattern compiles, otherwise the error's position and message.
pub uninterp spec fn glob_compile_error(pattern: Seq<char>) -> Option<(int, Seq<char>)>;

/// Whether `glob::Pattern::matches_path_with` accepts `path` for the
/// compiled `pattern` under the given match options.
pub uninterp spec fn glob_matches(
    pattern: Seq<char>,
    path: Seq<char>,
    case_sensitive: bool,
    require_literal_separator: bool,
    require_literal_leading_dot: bool,
) -> bool;

/// Compiles `pattern` with `glob::Pattern::new`. The result is `Ok` exactly
/// when the pattern compiles; an error carries the `PatternError`'s position
/// and message. Both are whatever `glob_compile_error` names for the text.
#[verifier::external_body]
pub(crate) fn compile_glob(pattern: &str) -> (res: Result<(), (usize, String)>)
    ensures
        match res {
            Ok(()) => glob_compile_error(pattern@) is None,
            Err((pos, msg)) => glob_compile_error(pattern@) == Some((pos as int, msg@)),
        },
{
    match glob::Pattern::new(pattern) {
        Ok(_) => Ok(()),
        Err(e) => Err((e.pos, e.msg.to_string())),
    }
}

/// Matches `path` against the compiled `pattern` with
/// `glob::Pattern::matches_path_with` and the given options. The pattern is
/// compiled from its text for the call; it is required to compile.
#[verifier::external_body]
pub(crate) fn glob_matches_path(
    pattern: &str,
    path: &str,
    case_sensitive: bool,
    require_literal_separator: bool,
    require_literal_leading_dot: bool,
) -> (r: bool)
    requires
        glob_compile_error(pattern@) is None,
    ensures
        r == glob_matches(
            pattern@,
            path@,
            case_sensitive,
            require_literal_separator,
            require_literal_leading_dot,
        ),
{
    match glob::Pattern::new(pattern) {
        Ok(p) => p.matches_path_with(
            std::path::Path::new(path),
            glob::MatchOptions { case_sensitive, require_literal_separator, require_literal_leading_dot },
        ),
        Err(_) => false,
    }
}

} // verus!
