//! The text the command-line tool shows: the run and vault tables, the
//! summary of hook outputs, durations and the push summary.

use vstd::prelude::*;
use crate::text::{chars_of, copy_string, string_of, int_decimal, i64_to_decimal, nat_decimal, push_char, push_str, u64_to_decimal};

verus! {

/// The width the command column of the run table is cut to.
pub const COMMAND_WIDTH: usize = 70;

/// The width a hook field's value is cut to.
pub const VALUE_WIDTH: usize = 120;

/// `n` copies of `c`.
pub open spec fn repeated(c: char, n: nat) -> Seq<char> {
    Seq::new(n, |i: int| c)
}

/// `text` padded with spaces on the right to `width` characters, as a
/// left-aligned `{:<width}` writes it.
pub open spec fn padded(text: Seq<char>, width: nat) -> Seq<char> {
    if text.len() < width {
        text + repeated(' ', (width - text.len()) as nat)
    } else {
        text
    }
}

/// How many bytes `c` takes in UTF-8.
pub open spec fn utf8_width(c: char) -> nat {
    if (c as u32) < 0x80 {
        1
    } else if (c as u32) < 0x800 {
        2
    } else if (c as u32) < 0x10000 {
        3
    } else {
        4
    }
}

/// How many bytes a text takes in UTF-8.
pub open spec fn utf8_len(s: Seq<char>) -> nat
    decreases s.len(),
{
    if s.len() == 0 {
        0
    } else {
        utf8_len(s.drop_last()) + utf8_width(s.last())
    }
}

/// Whether the first `k` characters of `s` are the longest prefix of it
/// that takes at most `limit` bytes in UTF-8, so that cutting there keeps
/// whole characters.
pub open spec fn is_cut(s: Seq<char>, limit: nat, k: int) -> bool {
    &&& 0 <= k <= s.len()
    &&& utf8_len(s.take(k)) <= limit
    &&& k < s.len() ==> utf8_len(s.take(k + 1)) > limit
}

/// Whether `r` is `text` cut to fit `width` bytes: a text of more than
/// `width` bytes keeps its longest prefix of whole characters within
/// `width - 3` bytes, followed by `...`; a shorter one stays as it is.
pub open spec fn truncated(text: Seq<char>, width: nat, r: Seq<char>) -> bool {
    if utf8_len(text) > width {
        exists|k: int| #[trigger] is_cut(text, (width - 3) as nat, k) && r == text.take(k) + "..."@
    } else {
        r == text
    }
}

/// A prefix takes no more bytes than the text it starts.
pub proof fn lemma_utf8_len_prefix(s: Seq<char>, k: int)
    requires
        0 <= k <= s.len(),
    ensures
        utf8_len(s.take(k)) <= utf8_len(s),
    decreases s.len() - k,
{
    if k < s.len() {
        lemma_utf8_len_prefix(s, k + 1);
        assert(s.take(k + 1).drop_last() =~= s.take(k));
    } else {
        assert(s.take(k) =~= s);
    }
}

/// The bytes of two texts put together are the bytes of each.
pub proof fn lemma_utf8_len_concat(a: Seq<char>, b: Seq<char>)
    ensures
        utf8_len(a + b) == utf8_len(a) + utf8_len(b),
    decreases b.len(),
{
    if b.len() == 0 {
        assert(a + b =~= a);
    } else {
        lemma_utf8_len_concat(a, b.drop_last());
        assert((a + b).drop_last() =~= a + b.drop_last());
    }
}

/// The UTF-8 width of a character, as the exec code computes it.
fn char_width(c: char) -> (w: usize)
    ensures
        w == utf8_width(c),
{
    let u = c as u32;
    if u < 0x80 {
        1
    } else if u < 0x800 {
        2
    } else if u < 0x10000 {
        3
    } else {
        4
    }
}

/// Appends `n` copies of `c`.
fn push_repeated(s: &mut String, c: char, n: usize)
    ensures
        final(s)@ == old(s)@ + repeated(c, n as nat),
{
    let ghost start = s@;
    let mut i: usize = 0;
    while i < n
        invariant
            i <= n,
            s@ == start + repeated(c, i as nat),
        decreases n - i,
    {
        push_char(s, c);
        proof {
            assert(repeated(c, i as nat).push(c) =~= repeated(c, (i + 1) as nat));
        }
        i = i + 1;
    }
}

/// `text` padded with spaces on the right to `width` characters.
pub fn pad_right(text: &str, width: usize) -> (r: String)
    ensures
        r@ == padded(text@, width as nat),
{
    let mut r = copy_string(text);
    let n = chars_of(text).len();
    if n < width {
        push_repeated(&mut r, ' ', width - n);
    }
    r
}

/// A line of `n` dashes.
pub fn rule(n: usize) -> (r: String)
    ensures
        r@ == repeated('-', n as nat),
{
    let mut r = String::new();
    push_repeated(&mut r, '-', n);
    r
}

/// `text` cut to fit `width` bytes (at least 3): a longer text keeps as
/// many whole characters as fit in `width - 3` bytes, followed by `...`.
pub fn truncate_display(text: &str, width: usize) -> (r: String)
    requires
        width >= 3,
    ensures
        truncated(text@, width as nat, r@),
        utf8_len(r@) <= width,
{
    let cs = chars_of(text);
    let n = cs.len();
    // Does the whole text fit?
    let mut i: usize = 0;
    let mut acc: usize = 0;
    let mut fits = true;
    while i < n
        invariant_except_break
            fits,
        invariant
            cs@ == text@,
            n == cs.len(),
            i <= n,
            acc <= width,
            acc == utf8_len(text@.take(i as int)),
        ensures
            fits ==> i == n,
            !fits ==> utf8_len(text@) > width,
        decreases n - i,
    {
        let w = char_width(cs[i]);
        proof {
            assert(text@.take(i + 1).drop_last() =~= text@.take(i as int));
        }
        if w > width - acc {
            fits = false;
            proof {
                lemma_utf8_len_prefix(text@, i + 1);
            }
            break;
        }
        acc = acc + w;
        i = i + 1;
    }
    if fits {
        proof {
            assert(text@.take(n as int) =~= text@);
        }
        let r = copy_string(text);
        assert(utf8_len(r@) <= width);
        return r;
    }
    assert(utf8_len(text@) > width);
    let limit = width - 3;
    let mut k: usize = 0;
    let mut used: usize = 0;
    while k < n && char_width(cs[k]) <= limit - used
        invariant
            cs@ == text@,
            n == cs.len(),
            k <= n,
            used <= limit,
            used == utf8_len(text@.take(k as int)),
        decreases n - k,
    {
        proof {
            assert(text@.take(k + 1).drop_last() =~= text@.take(k as int));
        }
        used = used + char_width(cs[k]);
        k = k + 1;
    }
    proof {
        if k < n {
            assert(text@.take(k + 1).drop_last() =~= text@.take(k as int));
        }
        assert(is_cut(text@, limit as nat, k as int));
    }
    let mut r = string_of(&cs, 0, k);
    push_str(&mut r, "...");
    proof {
        assert(cs@.subrange(0, k as int) =~= text@.take(k as int));
        assert(is_cut(text@, (width - 3) as nat, k as int));
        reveal_strlit("...");
        lemma_utf8_len_concat(text@.take(k as int), "..."@);
        assert("..."@ =~= seq!['.', '.', '.']);
        assert(seq!['.', '.', '.'].drop_last() =~= seq!['.', '.']);
        assert(seq!['.', '.'].drop_last() =~= seq!['.']);
        assert(seq!['.'].drop_last() =~= Seq::<char>::empty());
        assert(('.' as u32) == 46u32);
        assert(utf8_width('.') == 1);
        assert(seq!['.'].last() == '.');
        assert(seq!['.', '.'].last() == '.');
        assert(seq!['.', '.', '.'].last() == '.');
        assert(utf8_len(Seq::<char>::empty()) == 0);
        assert(utf8_len(seq!['.']) == 1);
        assert(utf8_len(seq!['.', '.']) == 2);
        assert(utf8_len(seq!['.', '.', '.']) == 3);
    }
    r
}

/// The header of the run table.
pub fn runs_table_header() -> (r: String)
    ensures
        r@ == padded("TIMESTAMP (UTC)"@, 19) + "  "@ + padded("NAME"@, 20) + "  COMMAND"@,
{
    let mut r = pad_right("TIMESTAMP (UTC)", 19);
    push_str(&mut r, "  ");
    let name = pad_right("NAME", 20);
    push_str(&mut r, name.as_str());
    push_str(&mut r, "  COMMAND");
    r
}

/// The rule under the run table's header: as wide as its columns.
pub fn runs_table_rule() -> (r: String)
    ensures
        r@ == repeated('-', 113),
{
    rule(19 + 2 + 20 + 2 + COMMAND_WIDTH)
}

/// One row of the run table.
pub fn runs_table_row(timestamp: &str, name: &str, command: &str) -> (r: String)
    ensures
        r@ == padded(timestamp@, 19) + "  "@ + padded(name@, 20) + "  "@ + command@,
{
    let mut r = pad_right(timestamp, 19);
    push_str(&mut r, "  ");
    let n = pad_right(name, 20);
    push_str(&mut r, n.as_str());
    push_str(&mut r, "  ");
    push_str(&mut r, command);
    r
}

/// The header of the vault table.
pub fn vaults_table_header() -> (r: String)
    ensures
        r@ == padded("VAULT NAME"@, 30) + "  RUNS"@,
{
    let mut r = pad_right("VAULT NAME", 30);
    push_str(&mut r, "  RUNS");
    r
}

/// The rule under the vault table's header.
pub fn vaults_table_rule() -> (r: String)
    ensures
        r@ == repeated('-', 42),
{
    rule(30 + 2 + 10)
}

/// One row of the vault table.
pub fn vaults_table_row(name: &str, run_count: i64) -> (r: String)
    ensures
        r@ == padded(name@, 30) + "  "@ + int_decimal(run_count as int),
{
    let mut r = pad_right(name, 30);
    push_str(&mut r, "  ");
    let d = i64_to_decimal(run_count);
    push_str(&mut r, d.as_str());
    r
}

/// What `shlex::try_join` gives for words free of NUL characters: each word
/// quoted for a POSIX shell where needed, joined by single spaces.
pub uninterp spec fn shell_joined(words: Seq<Seq<char>>) -> Seq<char>;

/// Whether some word holds a NUL character.
pub open spec fn has_nul(words: Seq<Seq<char>>) -> bool {
    exists|i: int, j: int| 0 <= i < words.len() && 0 <= j < words[i].len() && words[i][j] == '\0'
}

/// The texts of a list of strings.
pub open spec fn word_texts(words: Seq<String>) -> Seq<Seq<char>> {
    words.map_values(|w: String| w@)
}

/// `shlex::try_join` on the words. Its documentation says the only error it
/// returns is for a NUL byte, which its source reports for any word holding
/// one; otherwise the result is named `shell_joined`.
#[verifier::external_body]
fn try_shell_join(words: &Vec<String>) -> (r: Option<String>)
    ensures
        r is None <==> has_nul(word_texts(words@)),
        r matches Some(s) ==> s@ == shell_joined(word_texts(words@)),
{
    shlex::try_join(words.iter().map(String::as_str)).ok()
}

/// Words joined by single spaces.
pub open spec fn space_separated(words: Seq<Seq<char>>) -> Seq<char>
    decreases words.len(),
{
    if words.len() == 0 {
        seq![]
    } else if words.len() == 1 {
        words[0]
    } else {
        space_separated(words.drop_last()) + " "@ + words.last()
    }
}

/// A command as shown: quoted for a shell, or (when a word holds a NUL
/// character) its words joined by spaces.
pub open spec fn command_text(words: Seq<Seq<char>>) -> Seq<char> {
    if has_nul(words) {
        space_separated(words)
    } else {
        shell_joined(words)
    }
}

/// A command as shown: quoted for a shell, or (when a word holds a NUL
/// character) its words joined by spaces.
pub fn command_display(words: &Vec<String>) -> (r: String)
    ensures
        r@ == command_text(word_texts(words@)),
{
    match try_shell_join(words) {
        Some(s) => s,
        None => {
            let mut r = String::new();
            let mut i: usize = 0;
            while i < words.len()
                invariant
                    i <= words.len(),
                    r@ == space_separated(word_texts(words@.take(i as int))),
                decreases words.len() - i,
            {
                if i > 0 {
                    push_str(&mut r, " ");
                }
                push_str(&mut r, words[i].as_str());
                proof {
                    let t = word_texts(words@.take(i + 1));
                    assert(t.drop_last() =~= word_texts(words@.take(i as int)));
                    assert(t.last() == words@[i as int]@);
                    reveal_strlit(" ");
                }
                i = i + 1;
            }
            proof {
                assert(words@.take(words.len() as int) =~= words@);
            }
            r
        },
    }
}

/// What `chrono` shows for an RFC 3339 timestamp formatted with a
/// `strftime` pattern, or `None` when the text is not RFC 3339.
pub uninterp spec fn rfc3339_formatted(timestamp: Seq<char>, pattern: Seq<char>) -> Option<Seq<char>>;

/// `chrono::DateTime::parse_from_rfc3339`, then `format(pattern)`. Its
/// result is named `rfc3339_formatted`. Only the two patterns the tool uses
/// are admitted: both are valid, so formatting cannot fail.
#[verifier::external_body]
fn format_rfc3339(timestamp: &str, pattern: &str) -> (r: Option<String>)
    requires
        pattern@ == "%Y-%m-%d %H:%M:%S"@ || pattern@ == "%Y-%m-%d %H:%M:%S %Z"@,
    ensures
        match r {
            Some(s) => rfc3339_formatted(timestamp@, pattern@) == Some(s@),
            None => rfc3339_formatted(timestamp@, pattern@) is None,
        },
{
    chrono::DateTime::parse_from_rfc3339(timestamp).ok().map(|dt| dt.format(pattern).to_string())
}

/// A timestamp as shown: formatted as `YYYY-MM-DD HH:MM:SS` (with the zone
/// when asked), or as it is when it is not RFC 3339.
pub fn timestamp_display(timestamp: &str, with_zone: bool) -> (r: String)
    ensures
        ({
            let pattern = if with_zone { "%Y-%m-%d %H:%M:%S %Z"@ } else { "%Y-%m-%d %H:%M:%S"@ };
            r@ == match rfc3339_formatted(timestamp@, pattern) {
                Some(t) => t,
                None => timestamp@,
            }
        }),
{
    let formatted = if with_zone {
        format_rfc3339(timestamp, "%Y-%m-%d %H:%M:%S %Z")
    } else {
        format_rfc3339(timestamp, "%Y-%m-%d %H:%M:%S")
    };
    match formatted {
        Some(t) => t,
        None => copy_string(timestamp),
    }
}

/// A duration of `secs` seconds and `nanos` nanoseconds in whole
/// milliseconds.
pub fn duration_ms(secs: u64, nanos: u64) -> (r: u64)
    requires
        secs * 1000 + nanos / 1_000_000 <= u64::MAX,
    ensures
        r == secs * 1000 + nanos / 1_000_000,
{
    secs * 1000 + nanos / 1_000_000
}

/// The line that opens a hook's output: its status (`ok` only for a recorded
/// success) and its id (`unknown` when none is recorded).
pub fn hook_status_line(id: Option<&str>, success: Option<bool>) -> (r: String)
    ensures
        r@ == "  ["@ + (if success == Some(true) { "ok"@ } else { "FAILED"@ }) + "] "@ + match id {
            Some(i) => i@,
            None => "unknown"@,
        },
{
    let mut r = copy_string("  [");
    if matches!(success, Some(true)) {
        push_str(&mut r, "ok");
    } else {
        push_str(&mut r, "FAILED");
    }
    push_str(&mut r, "] ");
    match id {
        Some(i) => push_str(&mut r, i),
        None => push_str(&mut r, "unknown"),
    }
    r
}

/// The error line of a hook's output: shown for a hook that did not succeed
/// and recorded an error.
pub fn hook_error_line(success: Option<bool>, error: Option<&str>) -> (r: Option<String>)
    ensures
        match error {
            Some(e) => if success == Some(true) {
                r is None
            } else {
                r matches Some(l) && l@ == "    Error: "@ + e@
            },
            None => r is None,
        },
{
    if matches!(success, Some(true)) {
        return None;
    }
    match error {
        Some(e) => {
            let mut l = copy_string("    Error: ");
            push_str(&mut l, e);
            Some(l)
        },
        None => None,
    }
}

/// Whether `t` occurs in `s`.
pub open spec fn contains_text(s: Seq<char>, t: Seq<char>) -> bool {
    exists|i: int| 0 <= i && i + t.len() <= s.len() && #[trigger] s.subrange(i, i + t.len()) == t
}

fn occurs_at(s: &Vec<char>, t: &Vec<char>, i: usize) -> (r: bool)
    requires
        i + t.len() <= s.len(),
    ensures
        r == (s@.subrange(i as int, i + t.len()) == t@),
{
    let mut k: usize = 0;
    while k < t.len()
        invariant
            k <= t.len(),
            i + t.len() <= s.len(),
            forall|j: int| 0 <= j < k ==> s@[i + j] == t@[j],
        decreases t.len() - k,
    {
        if s[i + k] != t[k] {
            proof {
                assert(s@.subrange(i as int, i + t.len())[k as int] != t@[k as int]);
            }
            return false;
        }
        k = k + 1;
    }
    proof {
        assert(s@.subrange(i as int, i + t.len()) =~= t@);
    }
    true
}

/// Whether a push failed because the run is already on the server: its
/// message says "already exists".
pub fn is_already_exists(message: &str) -> (r: bool)
    ensures
        r == contains_text(message@, "already exists"@),
{
    let s = chars_of(message);
    let t = chars_of("already exists");
    if t.len() > s.len() {
        proof {
            assert forall|i: int| 0 <= i && i + t@.len() <= s@.len() implies #[trigger] s@.subrange(i, i + t@.len()) != t@ by {}
        }
        return false;
    }
    proof {
        reveal_strlit("already exists");
    }
    let last = s.len() - t.len();
    let mut i: usize = 0;
    while i <= last
        invariant
            t.len() <= s.len(),
            t.len() >= 1,
            last == s.len() - t.len(),
            i <= last + 1,
            s@ == message@,
            t@ == "already exists"@,
            forall|j: int| 0 <= j < i ==> #[trigger] s@.subrange(j, j + t@.len()) != t@,
        decreases last + 1 - i,
    {
        if occurs_at(&s, &t, i) {
            return true;
        }
        i = i + 1;
    }
    false
}

/// The summary of pushing every run of a vault.
pub fn push_summary(succeeded: u64, skipped: u64, failed: u64) -> (r: String)
    ensures
        r@ == "Push all completed: "@ + nat_decimal(succeeded as nat) + " succeeded, "@ + nat_decimal(skipped as nat)
            + " skipped (already exist), "@ + nat_decimal(failed as nat) + " failed"@,
{
    let mut r = copy_string("Push all completed: ");
    let a = u64_to_decimal(succeeded);
    push_str(&mut r, a.as_str());
    push_str(&mut r, " succeeded, ");
    let b = u64_to_decimal(skipped);
    push_str(&mut r, b.as_str());
    push_str(&mut r, " skipped (already exist), ");
    let c = u64_to_decimal(failed);
    push_str(&mut r, c.as_str());
    push_str(&mut r, " failed");
    r
}

/// The error of a push of every run in which some runs failed.
pub fn push_failure_message(failed: u64) -> (r: String)
    ensures
        r@ == nat_decimal(failed as nat) + " runs failed to push"@,
{
    let mut r = u64_to_decimal(failed);
    push_str(&mut r, " runs failed to push");
    r
}

/// What the tool says when the configuration file does not exist.
pub open spec fn config_missing_text(path: Seq<char>) -> Seq<char> {
    "Configuration file not found at '"@ + path
        + "'\n\nTo get started:\n  1. Create a 'capsula.toml' file in your project root\n  2. Or specify a custom path with --config <path>\n\nExample minimal configuration:\n[vault]\nname = \"my-project\"\n\n[[pre-run.hooks]]\nid = \"capture-git-repo\"\nname = \"my-project\"\npath = \".\"\n"@
}

/// What the tool says when the configuration file does not exist.
pub fn config_missing_message(path: &str) -> (r: String)
    ensures
        r@ == config_missing_text(path@),
{
    let mut r = copy_string("Configuration file not found at '");
    push_str(&mut r, path);
    push_str(
        &mut r,
        "'\n\nTo get started:\n  1. Create a 'capsula.toml' file in your project root\n  2. Or specify a custom path with --config <path>\n\nExample minimal configuration:\n[vault]\nname = \"my-project\"\n\n[[pre-run.hooks]]\nid = \"capture-git-repo\"\nname = \"my-project\"\npath = \".\"\n",
    );
    r
}

} // verus!
