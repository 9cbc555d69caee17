//! How a run is laid out and recorded: its generated name, its directory in
//! the vault, and the record each hook leaves in its phase's file.

use vstd::prelude::*;
use crate::hook::{CapsulaError, HookOutcome};
use crate::json::{
    entries_view, find_key, insert_entry, insert_position, key_index, lemma_entries_view_insert,
    lemma_entries_view_update, lemma_object_view, JEntry, JView, JsonValue,
};
use crate::path::{join, join_spec};
use crate::text::{copy_string, opt_text, push_str};

verus! {

/// The adjective of a run name, by number.
pub open spec fn adjective_spec(i: u64) -> Seq<char> {
    if i == 0 { "happy"@ } else if i == 1 { "brave"@ } else if i == 2 { "calm"@ } else if i == 3 { "eager"@ }
    else if i == 4 { "fancy"@ } else if i == 5 { "gentle"@ } else if i == 6 { "jolly"@ } else if i == 7 { "kind"@ }
    else if i == 8 { "lively"@ } else if i == 9 { "proud"@ } else if i == 10 { "quiet"@ } else if i == 11 { "silly"@ }
    else if i == 12 { "swift"@ } else if i == 13 { "witty"@ } else if i == 14 { "bold"@ } else { "bright"@ }
}

/// The noun of a run name, by number.
pub open spec fn noun_spec(i: u64) -> Seq<char> {
    if i == 0 { "river"@ } else if i == 1 { "mountain"@ } else if i == 2 { "forest"@ } else if i == 3 { "meadow"@ }
    else if i == 4 { "ocean"@ } else if i == 5 { "valley"@ } else if i == 6 { "canyon"@ } else if i == 7 { "desert"@ }
    else if i == 8 { "island"@ } else if i == 9 { "harbor"@ } else if i == 10 { "glacier"@ } else if i == 11 { "prairie"@ }
    else if i == 12 { "lagoon"@ } else if i == 13 { "summit"@ } else if i == 14 { "delta"@ } else { "grove"@ }
}

fn adjective(i: u64) -> (r: &'static str)
    ensures
        r@ == adjective_spec(i),
{
    if i == 0 { "happy" } else if i == 1 { "brave" } else if i == 2 { "calm" } else if i == 3 { "eager" }
    else if i == 4 { "fancy" } else if i == 5 { "gentle" } else if i == 6 { "jolly" } else if i == 7 { "kind" }
    else if i == 8 { "lively" } else if i == 9 { "proud" } else if i == 10 { "quiet" } else if i == 11 { "silly" }
    else if i == 12 { "swift" } else if i == 13 { "witty" } else if i == 14 { "bold" } else { "bright" }
}

fn noun(i: u64) -> (r: &'static str)
    ensures
        r@ == noun_spec(i),
{
    if i == 0 { "river" } else if i == 1 { "mountain" } else if i == 2 { "forest" } else if i == 3 { "meadow" }
    else if i == 4 { "ocean" } else if i == 5 { "valley" } else if i == 6 { "canyon" } else if i == 7 { "desert" }
    else if i == 8 { "island" } else if i == 9 { "harbor" } else if i == 10 { "glacier" } else if i == 11 { "prairie" }
    else if i == 12 { "lagoon" } else if i == 13 { "summit" } else if i == 14 { "delta" } else { "grove" }
}

/// The name of a run started with `seed`: an adjective chosen by its lowest
/// four bits and a noun by the next four, joined with `-`.
pub fn run_name(seed: u64) -> (r: String)
    ensures
        r@ == adjective_spec(seed % 16) + "-"@ + noun_spec((seed / 16) % 16),
{
    let mut r = copy_string(adjective(seed % 16));
    push_str(&mut r, "-");
    push_str(&mut r, noun((seed / 16) % 16));
    r
}

/// Where a run is kept in the vault: `<vault>/<date>/<time>-<name>`.
pub fn run_dir_path(vault: &str, date: &str, time: &str, name: &str) -> (r: String)
    ensures
        r@ == join_spec(join_spec(vault@, date@), time@ + "-"@ + name@),
{
    let day = join(vault, date);
    let mut leaf = copy_string(time);
    push_str(&mut leaf, "-");
    push_str(&mut leaf, name);
    join(day.as_str(), leaf.as_str())
}

/// The directory of a run that holds its records: `<run dir>/_capsula`.
pub fn records_dir(run_dir: &str) -> (r: String)
    ensures
        r@ == join_spec(run_dir@, "_capsula"@),
{
    join(run_dir, "_capsula")
}

/// The file that records the hooks of a phase: `<phase>-run.json`.
pub fn phase_record_file(phase: &str) -> (r: String)
    ensures
        r@ == phase@ + "-run.json"@,
{
    let mut r = copy_string(phase);
    push_str(&mut r, "-run.json");
    r
}

/// The `__meta` object of a hook's record: its configuration, the error that
/// failed it (if any), its id and whether it succeeded, keys in order.
pub open spec fn meta_view(id: Seq<char>, config: JView, success: bool, error: Option<Seq<char>>) -> JView {
    match error {
        Some(e) => JView::Object(
            seq![("config"@, config), ("error"@, JView::Str(e)), ("id"@, JView::Str(id)), ("success"@, JView::Bool(success))],
        ),
        None => JView::Object(seq![("config"@, config), ("id"@, JView::Str(id)), ("success"@, JView::Bool(success))]),
    }
}

/// The entries with `k` set to `v`: its value replaced where the key is
/// present, otherwise the entry put in its place.
pub open spec fn with_key(es: Seq<JEntry>, k: Seq<char>, v: JView) -> Seq<JEntry> {
    match key_index(es, k) {
        Some(j) => es.update(j, (k, v)),
        None => insert_entry(es, k, v),
    }
}

/// A hook's record: an object output with `__meta` set in it; any other
/// output under `output`, beside `__meta`.
pub open spec fn record_view(meta: JView, output: JView) -> JView {
    match output {
        JView::Object(es) => JView::Object(with_key(es, "__meta"@, meta)),
        _ => JView::Object(seq![("__meta"@, meta), ("output"@, output)]),
    }
}

/// The `__meta` object of a hook's record.
fn meta(id: &str, config: JsonValue, success: bool, error: Option<String>) -> (r: JsonValue)
    ensures
        r@ == meta_view(id@, config@, success, opt_text(error)),
{
    let ghost cv = config@;
    let ghost ev = opt_text(error);
    let mut entries: Vec<(String, JsonValue)> = Vec::new();
    entries.push((copy_string("config"), config));
    match error {
        Some(e) => {
            entries.push((copy_string("error"), JsonValue::String(e)));
        },
        None => {},
    }
    entries.push((copy_string("id"), JsonValue::String(copy_string(id))));
    entries.push((copy_string("success"), JsonValue::Bool(success)));
    let r = JsonValue::Object(entries);
    proof {
        lemma_object_view(entries);
        match ev {
            Some(e) => {
                assert(entries_view(entries@) =~= seq![
                    ("config"@, cv),
                    ("error"@, JView::Str(e)),
                    ("id"@, JView::Str(id@)),
                    ("success"@, JView::Bool(success)),
                ]);
            },
            None => {
                assert(entries_view(entries@) =~= seq![
                    ("config"@, cv),
                    ("id"@, JView::Str(id@)),
                    ("success"@, JView::Bool(success)),
                ]);
            },
        }
    }
    r
}

/// The record of a hook that ran to completion: its output with the
/// `__meta` object of its id and configuration, marked successful or failed
/// with the reason.
pub fn hook_record(id: &str, config: JsonValue, outcome: HookOutcome<JsonValue>) -> (r: JsonValue)
    ensures
        r@ == record_view(
            meta_view(id@, config@, outcome is Succeeded, match outcome {
                HookOutcome::Failed { reason, .. } => Some(reason@),
                HookOutcome::Succeeded(_) => None,
            }),
            outcome.output_spec()@,
        ),
{
    let (output, success, error) = match outcome {
        HookOutcome::Succeeded(v) => (v, true, None),
        HookOutcome::Failed { output, reason } => (output, false, Some(reason)),
    };
    let m = meta(id, config, success, error);
    let ghost mv = m@;
    let ghost ov = output@;
    match output {
        JsonValue::Object(mut es) => {
            let key = copy_string("__meta");
            proof {
                lemma_object_view(es);
            }
            match find_key(&es, key.as_str()) {
                Some(j) => {
                    let ghost before = es@;
                    es.set(j, (key, m));
                    proof {
                        lemma_entries_view_update(before, j as int, es@[j as int]);
                        assert(es@ == before.update(j as int, es@[j as int]));
                    }
                },
                None => {
                    let p = insert_position(&es, key.as_str());
                    let ghost before = es@;
                    es.insert(p, (key, m));
                    proof {
                        lemma_entries_view_insert(before, p as int, es@[p as int]);
                        assert(es@ == before.insert(p as int, es@[p as int]));
                    }
                },
            }
            let r = JsonValue::Object(es);
            proof {
                lemma_object_view(es);
                reveal_strlit("__meta");
            }
            r
        },
        other => {
            let mut entries: Vec<(String, JsonValue)> = Vec::new();
            entries.push((copy_string("__meta"), m));
            entries.push((copy_string("output"), other));
            let r = JsonValue::Object(entries);
            proof {
                lemma_object_view(entries);
                assert(entries_view(entries@) =~= seq![("__meta"@, mv), ("output"@, ov)]);
            }
            r
        },
    }
}

/// The record of a hook that could not run: only its `__meta` object,
/// failed with `message`.
pub fn failed_record(id: &str, config: JsonValue, message: String) -> (r: JsonValue)
    ensures
        r@ == JView::Object(seq![("__meta"@, meta_view(id@, config@, false, Some(message@)))]),
{
    let ghost mv = message@;
    let m = meta(id, config, false, Some(message));
    let ghost metav = m@;
    let mut entries: Vec<(String, JsonValue)> = Vec::new();
    entries.push((copy_string("__meta"), m));
    let r = JsonValue::Object(entries);
    proof {
        lemma_object_view(entries);
        assert(entries_view(entries@) =~= seq![("__meta"@, metav)]);
    }
    r
}

/// The message recorded for a hook that could not run: a hook's failure
/// with its own message after it, any other error as it displays.
pub open spec fn failure_text(e: CapsulaError) -> Seq<char> {
    match e {
        CapsulaError::HookFailed { message, .. } => e.message_spec() + ": "@ + message@,
        _ => e.message_spec(),
    }
}

/// The message recorded for a hook that could not run.
pub fn failure_message(e: &CapsulaError) -> (r: String)
    ensures
        r@ == failure_text(*e),
{
    let mut r = e.message();
    match e {
        CapsulaError::HookFailed { message, .. } => {
            push_str(&mut r, ": ");
            push_str(&mut r, message.as_str());
        },
        _ => {},
    }
    r
}

/// Whether a hook's record asks for the run to be aborted: the hook asked
/// for it, or its success condition failed.
pub fn requests_abort(success: bool, hook_asked: bool) -> (r: bool)
    ensures
        r == (hook_asked || !success),
{
    hook_asked || !success
}

} // verus!
