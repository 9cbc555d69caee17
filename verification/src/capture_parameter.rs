//! Parameter capture: parameter files become one nested JSON object, keyed
//! by the directories and stem of each file, with files that land on the same
//! keys merged deeply.

use vstd::prelude::*;
use crate::hook::CapsulaError;
use crate::capture_toml::{toml_json, toml_value_to_json, TomlValue};
use crate::parse::{json_text_parsed, parse_json_text, parse_toml_text, parse_yaml_text, toml_text_parsed, yaml_text_parsed};
use crate::capture_file::{call_gives, FileHookError};
use crate::path_order::{paths_sorted, sort_paths, texts_of};
use crate::json::{
    entries_view, find_key, lemma_entries_view_insert, lemma_entries_view_update, insert_entry, insert_position, jeq, json_eq, key_index,
    has_key, insert_pos, keys_ascending, lemma_first_where, lemma_first_where_props,
    lemma_insert_entry_ascending, lemma_jeq_refl, lemma_key_lt_irreflexive, lemma_object_view,
    key_lt, lemma_wf_values, not_before, wf, wf_values, JEntry, JView, JsonValue,
};
use crate::path::{
    comp_text, component_text, components, components_of, comps_view, extension, extension_spec,
    file_stem, file_stem_spec, is_prefix_of, join, join_spec,
    strip_prefix as strip_prefix_path, strip_prefix_spec, Comp, PathComponent,
};
use crate::text::{chars_of, copy_string, opt_text, push_char, push_str, str_eq};

verus! {

/// Errors of parameter capture.
#[derive(Debug)]
pub enum ParameterHookError {
    /// A JSON parameter file could not be parsed; the parser's message.
    JsonDeserializationFailed(String),
    /// A TOML parameter file could not be parsed; the parser's message.
    TomlDeserializationFailed(String),
    /// A YAML parameter file could not be parsed; the parser's message.
    YamlDeserializationFailed(String),
    /// The file's extension is none of the supported ones.
    UnsupportedFileType(String),
    /// Two files give different values at the same dotted key path.
    ParameterConflict(String),
    /// `strip_prefix` is not a prefix of a matched file's relative path.
    StripPrefixMismatch { prefix: String, path: String },
    /// Reading a matched file failed.
    FileCapture(FileHookError),
}

/// The texts of a sequence of strings.
pub open spec fn strs(v: Seq<String>) -> Seq<Seq<char>> {
    v.map_values(|s: String| s@)
}

/// Key path segments joined with `.`.
pub open spec fn join_dot(p: Seq<Seq<char>>) -> Seq<char>
    decreases p.len(),
{
    if p.len() == 0 {
        seq![]
    } else if p.len() == 1 {
        p[0]
    } else {
        join_dot(p.drop_last()) + seq!['.'] + p.last()
    }
}

/// The segments of a key path joined with `.`.
pub fn join_path(parts: &Vec<String>) -> (r: String)
    ensures
        r@ == join_dot(strs(parts@)),
{
    let mut r = String::new();
    let mut i: usize = 0;
    while i < parts.len()
        invariant
            i <= parts.len(),
            r@ == join_dot(strs(parts@.take(i as int))),
        decreases parts.len() - i,
    {
        proof {
            assert(strs(parts@.take(i + 1)).drop_last() =~= strs(parts@.take(i as int)));
            assert(strs(parts@.take(i + 1)).last() == parts@[i as int]@);
        }
        if i > 0 {
            push_str(&mut r, ".");
            proof {
                reveal_strlit(".");
            }
        }
        push_str(&mut r, parts[i].as_str());
        proof {
            if i == 0 {
                assert(strs(parts@.take(1)) =~= seq![parts@[0]@]);
            }
        }
        i = i + 1;
    }
    proof {
        assert(parts@.take(i as int) =~= parts@);
    }
    r
}

/// What a merge of `b` into `a` at key path `path` gives: the merged value
/// and, when two values conflict, the key path of the first conflict. Objects
/// merge key by key in the order of `b`'s keys; any other value must equal
/// the one already there. On a conflict the value holds what was merged
/// before it.
pub open spec fn merged(a: JView, b: JView, path: Seq<Seq<char>>) -> (JView, Option<
    Seq<Seq<char>>,
>)
    decreases b, 0int,
{
    match b {
        JView::Object(eb) => match a {
            JView::Object(ea) => {
                let r = merged_entries(ea, eb, eb.len() as int, path);
                (JView::Object(r.0), r.1)
            },
            _ => (a, Some(path)),
        },
        _ => if jeq(a, b) {
            (a, None)
        } else {
            (a, Some(path))
        },
    }
}

/// The first `n` entries of `eb` merged, in order, into the entries `ea`;
/// merging stops at the first conflict.
pub open spec fn merged_entries(ea: Seq<JEntry>, eb: Seq<JEntry>, n: int, path: Seq<Seq<char>>) -> (
    Seq<JEntry>,
    Option<Seq<Seq<char>>>,
)
    decreases eb, n,
{
    if n <= 0 || n > eb.len() {
        (ea, None)
    } else {
        let prev = merged_entries(ea, eb, n - 1, path);
        if prev.1 is Some {
            prev
        } else {
            let k = eb[n - 1].0;
            match key_index(prev.0, k) {
                Some(j) => {
                    proof {
                        assert(decreases_to!(eb => eb[n - 1]));
                        assert(decreases_to!(eb[n - 1] => eb[n - 1].1));
                    }
                    let m = merged(prev.0[j].1, eb[n - 1].1, path.push(k));
                    (prev.0.update(j, (prev.0[j].0, m.0)), m.1)
                },
                None => (insert_entry(prev.0, k, eb[n - 1].1), None),
            }
        }
    }
}

/// The state after merging the first `n` entries of `eb` into `ea`, as
/// `merged_entries` gives it; kept opaque so that proofs about the merge loop
/// unfold it only where they say so.
#[verifier::opaque]
pub open spec fn merge_state(ea: Seq<JEntry>, eb: Seq<JEntry>, n: int, path: Seq<Seq<char>>) -> (
    Seq<JEntry>,
    Option<Seq<Seq<char>>>,
) {
    merged_entries(ea, eb, n, path)
}

/// Once a conflict is found, merging more entries changes nothing.
pub proof fn lemma_merged_entries_stop(
    ea: Seq<JEntry>,
    eb: Seq<JEntry>,
    n: int,
    m: int,
    path: Seq<Seq<char>>,
)
    requires
        0 <= n <= m <= eb.len(),
        merge_state(ea, eb, n, path).1 is Some,
    ensures
        merge_state(ea, eb, m, path) == merge_state(ea, eb, n, path),
    decreases m - n,
{
    if m > n {
        lemma_merged_entries_stop(ea, eb, n, m - 1, path);
        reveal(merge_state);
    }
}

/// Merging an object into an object merges their entries.
pub proof fn lemma_merged_objects(ea: Seq<JEntry>, eb: Seq<JEntry>, path: Seq<Seq<char>>)
    ensures
        merged(JView::Object(ea), JView::Object(eb), path) == ({
            let r = merge_state(ea, eb, eb.len() as int, path);
            (JView::Object(r.0), r.1)
        }),
{
    reveal(merge_state);
}

/// Merging an object into anything else is a conflict at once.
pub proof fn lemma_merged_not_object(a: JView, eb: Seq<JEntry>, path: Seq<Seq<char>>)
    requires
        !(a is Object),
    ensures
        merged(a, JView::Object(eb), path) == (a, Some(path)),
{
}

/// Merging a value that is not an object asks for equality.
pub proof fn lemma_merged_other(a: JView, b: JView, path: Seq<Seq<char>>)
    requires
        !(b is Object),
    ensures
        merged(a, b, path) == (if jeq(a, b) {
            (a, None)
        } else {
            (a, Some(path))
        }),
{
}

/// Merging no entries changes nothing.
pub proof fn lemma_merged_entries_zero(ea: Seq<JEntry>, eb: Seq<JEntry>, path: Seq<Seq<char>>)
    ensures
        merge_state(ea, eb, 0, path) == (ea, None::<Seq<Seq<char>>>),
{
    reveal(merge_state);
}

/// One more entry merged, when its key is already present.
proof fn lemma_merged_entries_found(
    ea: Seq<JEntry>,
    eb: Seq<JEntry>,
    n: int,
    path: Seq<Seq<char>>,
    es: Seq<JEntry>,
    j: int,
)
    requires
        0 <= n < eb.len(),
        merge_state(ea, eb, n, path) == (es, None::<Seq<Seq<char>>>),
        key_index(es, eb[n].0) == Some(j),
    ensures
        merge_state(ea, eb, n + 1, path) == ({
            let m = merged(es[j].1, eb[n].1, path.push(eb[n].0));
            (es.update(j, (es[j].0, m.0)), m.1)
        }),
{
    reveal(merge_state);
}

/// One more entry merged, when its key is new.
proof fn lemma_merged_entries_new(
    ea: Seq<JEntry>,
    eb: Seq<JEntry>,
    n: int,
    path: Seq<Seq<char>>,
    es: Seq<JEntry>,
)
    requires
        0 <= n < eb.len(),
        merge_state(ea, eb, n, path) == (es, None::<Seq<Seq<char>>>),
        key_index(es, eb[n].0) is None,
    ensures
        merge_state(ea, eb, n + 1, path) == (insert_entry(es, eb[n].0, eb[n].1), None::<
            Seq<Seq<char>>,
        >),
{
    reveal(merge_state);
}

/// How a merge that reports through `r` ended, given the conflict `err` that
/// the specification names and the key path stack before and after.
pub open spec fn merge_outcome(
    r: Result<(), ParameterHookError>,
    err: Option<Seq<Seq<char>>>,
    before: Seq<String>,
    after: Seq<String>,
) -> bool {
    match r {
        Ok(()) => err is None && after == before,
        Err(e) => err == Some(strs(after)) && (e matches ParameterHookError::ParameterConflict(s)
            && s@ == join_dot(strs(after))),
    }
}

/// A conflict at the current key path.
fn conflict(path_stack: &Vec<String>) -> (e: ParameterHookError)
    ensures
        e matches ParameterHookError::ParameterConflict(s) && s@ == join_dot(strs(path_stack@)),
{
    ParameterHookError::ParameterConflict(join_path(path_stack))
}

/// The texts of a stack with one more string on top.
proof fn lemma_strs_push(v: Seq<String>, s: String)
    ensures
        strs(v.push(s)) == strs(v).push(s@),
{
    assert(strs(v.push(s)) =~= strs(v).push(s@));
}

/// Merges `b` into `a`: objects key by key, recursively; any other value must
/// equal the one already there. `path_stack` holds the key path of `a`; on a
/// conflict it is left holding the key path of the conflict, which the error
/// reports joined with `.`.
pub fn merge_value(a: &mut JsonValue, b: JsonValue, path_stack: &mut Vec<String>) -> (r: Result<
    (),
    ParameterHookError,
>)
    ensures
        final(a)@ == merged(old(a)@, b@, strs(old(path_stack)@)).0,
        merge_outcome(
            r,
            merged(old(a)@, b@, strs(old(path_stack)@)).1,
            old(path_stack)@,
            final(path_stack)@,
        ),
    decreases b,
{
    let ghost a0 = a@;
    let ghost b0 = b;
    let ghost ps0 = path_stack@;
    let ghost path0 = strs(ps0);
    match b {
        JsonValue::Object(mb) => {
            let is_object = match a {
                JsonValue::Object(_) => true,
                _ => false,
            };
            if !is_object {
                proof {
                    lemma_object_view(mb);
                    lemma_merged_not_object(a0, entries_view(mb@), path0);
                }
                return Err(conflict(path_stack));
            }
            let mut cur = JsonValue::Null;
            std::mem::swap(a, &mut cur);
            let mut ma = match cur {
                JsonValue::Object(ma) => ma,
                _ => Vec::new(),
            };
            let ghost mbv = mb;
            proof {
                lemma_object_view(ma);
                lemma_object_view(mb);
            }
            let ghost ea0 = entries_view(ma@);
            let ghost ebv = entries_view(mb@);
            let mut rest = mb;
            let total = rest.len();
            let mut n: usize = 0;
            proof {
                assert(mbv@.skip(0) =~= mbv@);
                lemma_merged_entries_zero(ea0, ebv, path0);
                lemma_merged_objects(ea0, ebv, path0);
            }
            while rest.len() > 0
                invariant
                    a0 == old(a)@,
                    ps0 == old(path_stack)@,
                    b0 == b,
                    b == JsonValue::Object(mbv),
                    ebv == entries_view(mbv@),
                    a0 == JView::Object(ea0),
                    path0 == strs(ps0),
                    n + rest.len() == mbv@.len(),
                    total == mbv@.len(),
                    rest@ == mbv@.skip(n as int),
                    merge_state(ea0, ebv, n as int, path0) == (
                        entries_view(ma@),
                        None::<Seq<Seq<char>>>,
                    ),
                    path_stack@ == ps0,
                decreases rest.len(),
            {
                let ghost e_before = entries_view(ma@);
                let (k, v) = rest.remove(0);
                proof {
                    assert(mbv@.skip(n as int)[0] == mbv@[n as int]);
                    assert(rest@ =~= mbv@.skip(n + 1));
                    assert(ebv[n as int] == (k@, v@));
                }
                let kc = copy_string(k.as_str());
                path_stack.push(kc);
                proof {
                    lemma_strs_push(ps0, kc);
                }
                match find_key(&ma, k.as_str()) {
                    Some(j) => {
                        let ghost ma_before = ma@;
                        let (kk, mut existing) = ma.remove(j);
                        proof {
                            assert(b->Object_0 == mbv);
                            assert(decreases_to!(b => b->Object_0));
                            assert(decreases_to!(mbv => mbv@));
                            assert(decreases_to!(mbv@ => mbv@[n as int]));
                            assert(decreases_to!(mbv@[n as int] => mbv@[n as int].1));
                        }
                        proof {
                            lemma_merged_entries_found(ea0, ebv, n as int, path0, e_before, j as int);
                        }
                        let ghost ex0 = existing;
                        let ghost v0 = v;
                        proof {
                            assert(e_before[j as int].1 == ex0@);
                            assert(path_stack@ == ps0.push(kc));
                        }
                        let r = merge_value(&mut existing, v, path_stack);
                        ma.insert(j, (kk, existing));
                        proof {
                            assert(ma@ =~= ma_before.update(j as int, (kk, existing)));
                            lemma_entries_view_update(ma_before, j as int, (kk, existing));
                        }
                        match r {
                            Ok(()) => {},
                            Err(e) => {
                                proof {
                                    let m = merged(ex0@, v0@, path0.push(k@));
                                    assert(merge_state(ea0, ebv, n + 1, path0) == (
                                        e_before.update(j as int, (e_before[j as int].0, m.0)),
                                        m.1,
                                    ));
                                    assert(m.1 is Some);
                                    lemma_merged_entries_stop(
                                        ea0,
                                        ebv,
                                        n + 1,
                                        ebv.len() as int,
                                        path0,
                                    );
                                    lemma_object_view(ma);
                                    lemma_object_view(mbv);
                                    lemma_merged_objects(ea0, ebv, path0);
                                }
                                *a = JsonValue::Object(ma);
                                return Err(e);
                            },
                        }
                    },
                    None => {
                        let pos = insert_position(&ma, k.as_str());
                        proof {
                            lemma_merged_entries_new(ea0, ebv, n as int, path0, e_before);
                        }
                        let ghost ma_before = ma@;
                        ma.insert(pos, (k, v));
                        proof {
                            lemma_entries_view_insert(ma_before, pos as int, (k, v));
                        }
                    },
                }
                path_stack.pop();
                proof {
                    assert(path_stack@ =~= ps0);
                }
                n = n + 1;
            }
            proof {
                lemma_object_view(ma);
                lemma_merged_objects(ea0, ebv, path0);
            }
            *a = JsonValue::Object(ma);
            Ok(())
        },
        other => {
            proof {
                lemma_merged_other(a0, other@, path0);
            }
            if json_eq(a, &other) {
                Ok(())
            } else {
                Err(conflict(path_stack))
            }
        },
    }
}

/// A conflict is always reported at a key path that extends the key path at
/// which the merge started.
pub proof fn lemma_conflict_path_extends(a: JView, b: JView, path: Seq<Seq<char>>)
    ensures
        merged(a, b, path).1 matches Some(q) ==> is_prefix_of(path, q),
    decreases b, 0int,
{
    match b {
        JView::Object(eb) => match a {
            JView::Object(ea) => {
                assert(decreases_to!(b => eb));
                lemma_conflict_path_extends_entries(ea, eb, eb.len() as int, path);
            },
            _ => {
                assert(path.take(path.len() as int) =~= path);
            },
        },
        _ => {
            assert(path.take(path.len() as int) =~= path);
        },
    }
}

/// `lemma_conflict_path_extends` for the entries of an object.
pub proof fn lemma_conflict_path_extends_entries(
    ea: Seq<JEntry>,
    eb: Seq<JEntry>,
    n: int,
    path: Seq<Seq<char>>,
)
    ensures
        merged_entries(ea, eb, n, path).1 matches Some(q) ==> is_prefix_of(path, q),
    decreases eb, n,
{
    if 0 < n <= eb.len() {
        lemma_conflict_path_extends_entries(ea, eb, n - 1, path);
        let prev = merged_entries(ea, eb, n - 1, path);
        if prev.1 is None {
            let k = eb[n - 1].0;
            match key_index(prev.0, k) {
                Some(j) => {
                    assert(decreases_to!(eb => eb[n - 1]));
                    assert(decreases_to!(eb[n - 1] => eb[n - 1].1));
                    lemma_conflict_path_extends(prev.0[j].1, eb[n - 1].1, path.push(k));
                    let m = merged(prev.0[j].1, eb[n - 1].1, path.push(k));
                    if m.1 is Some {
                        let q = m.1->Some_0;
                        assert(q.take(path.len() as int) =~= q.take(path.len() + 1int).take(
                            path.len() as int,
                        ));
                        assert(path.push(k).take(path.len() as int) =~= path);
                    }
                },
                None => {},
            }
        }
    }
}

/// Merging a well-formed value into itself succeeds and changes nothing.
pub proof fn lemma_merge_self(a: JView, path: Seq<Seq<char>>)
    requires
        wf(a),
    ensures
        merged(a, a, path) == (a, None::<Seq<Seq<char>>>),
    decreases a, 0int,
{
    match a {
        JView::Object(es) => {
            assert(decreases_to!(a => es));
            lemma_merge_self_entries(es, es.len() as int, path);
        },
        _ => {
            lemma_jeq_refl(a);
        },
    }
}

/// `lemma_merge_self` for the first `n` entries of an object.
pub proof fn lemma_merge_self_entries(es: Seq<JEntry>, n: int, path: Seq<Seq<char>>)
    requires
        keys_ascending(es),
        wf_values(es),
        0 <= n <= es.len(),
    ensures
        merged_entries(es, es, n, path) == (es, None::<Seq<Seq<char>>>),
    decreases es, n,
{
    if n > 0 {
        lemma_merge_self_entries(es, n - 1, path);
        let k = es[n - 1].0;
        assert forall|i: int| 0 <= i < n - 1 implies !has_key(k)(#[trigger] es[i]) by {
            assert(key_lt(es[i].0, es[n - 1].0));
            lemma_key_lt_irreflexive(k);
        }
        lemma_first_where(es, has_key(k), n - 1);
        lemma_wf_values(es);
        assert(wf(es[n - 1].1));
        assert(decreases_to!(es => es[n - 1]));
        assert(decreases_to!(es[n - 1] => es[n - 1].1));
        lemma_merge_self(es[n - 1].1, path.push(k));
        assert(es.update(n - 1, (es[n - 1].0, es[n - 1].1)) =~= es);
    }
}

/// Merging well-formed values gives a well-formed value, also when it stops
/// at a conflict.
pub proof fn lemma_merge_wf(a: JView, b: JView, path: Seq<Seq<char>>)
    requires
        wf(a),
        wf(b),
    ensures
        wf(merged(a, b, path).0),
    decreases b, 0int,
{
    match b {
        JView::Object(eb) => match a {
            JView::Object(ea) => {
                assert(decreases_to!(b => eb));
                lemma_merge_wf_entries(ea, eb, eb.len() as int, path);
            },
            _ => {},
        },
        _ => {},
    }
}

/// Replacing the value of an entry keeps the keys ascending and, if the new
/// value is well-formed, the values well-formed.
pub proof fn lemma_update_value_wf(es: Seq<JEntry>, j: int, v: JView)
    requires
        0 <= j < es.len(),
        keys_ascending(es),
        wf_values(es),
        wf(v),
    ensures
        keys_ascending(es.update(j, (es[j].0, v))),
        wf_values(es.update(j, (es[j].0, v))),
{
    let r = es.update(j, (es[j].0, v));
    assert forall|a: int, b: int| 0 <= a < b < r.len() implies key_lt(#[trigger] r[a].0, #[trigger] r[b].0) by {
        assert(r[a].0 == es[a].0 && r[b].0 == es[b].0);
    }
    lemma_wf_values(es);
    lemma_wf_values(r);
    assert forall|i: int| 0 <= i < r.len() implies #[trigger] wf(r[i].1) by {
        if i != j {
            assert(wf(es[i].1));
        }
    }
}

/// Inserting a well-formed value under a new key keeps the values
/// well-formed.
pub proof fn lemma_insert_value_wf(es: Seq<JEntry>, k: Seq<char>, v: JView)
    requires
        wf_values(es),
        wf(v),
    ensures
        wf_values(insert_entry(es, k, v)),
{
    let r = insert_entry(es, k, v);
    let pos = insert_pos(es, k);
    lemma_first_where_props(es, not_before(k));
    lemma_wf_values(es);
    lemma_wf_values(r);
    assert forall|i: int| 0 <= i < r.len() implies #[trigger] wf(r[i].1) by {
        if i < pos {
            assert(r[i] == es[i]);
        } else if i > pos {
            assert(r[i] == es[i - 1]);
        }
    }
}

/// `lemma_merge_wf` for the first `n` entries of an object.
pub proof fn lemma_merge_wf_entries(ea: Seq<JEntry>, eb: Seq<JEntry>, n: int, path: Seq<Seq<char>>)
    requires
        keys_ascending(ea),
        wf_values(ea),
        wf_values(eb),
    ensures
        keys_ascending(merged_entries(ea, eb, n, path).0),
        wf_values(merged_entries(ea, eb, n, path).0),
    decreases eb, n,
{
    if 0 < n <= eb.len() {
        lemma_merge_wf_entries(ea, eb, n - 1, path);
        let prev = merged_entries(ea, eb, n - 1, path);
        if prev.1 is None {
            let k = eb[n - 1].0;
            lemma_wf_values(eb);
            assert(wf(eb[n - 1].1));
            match key_index(prev.0, k) {
                Some(j) => {
                    lemma_first_where_props(prev.0, has_key(k));
                    lemma_wf_values(prev.0);
                    assert(wf(prev.0[j].1));
                    assert(decreases_to!(eb => eb[n - 1]));
                    assert(decreases_to!(eb[n - 1] => eb[n - 1].1));
                    lemma_merge_wf(prev.0[j].1, eb[n - 1].1, path.push(k));
                    let m = merged(prev.0[j].1, eb[n - 1].1, path.push(k));
                    lemma_update_value_wf(prev.0, j, m.0);
                },
                None => {
                    lemma_insert_entry_ascending(prev.0, k, eb[n - 1].1);
                    lemma_insert_value_wf(prev.0, k, eb[n - 1].1);
                },
            }
        }
    }
}

/// What merging `leaf` at the nested key path `keys` into the object entries
/// `target` gives: the entries and, on a conflict, its key path. Missing
/// intermediate keys get new objects; an intermediate value that is not an
/// object is a conflict.
pub open spec fn merged_at(
    target: Seq<JEntry>,
    keys: Seq<Seq<char>>,
    leaf: JView,
    path: Seq<Seq<char>>,
) -> (Seq<JEntry>, Option<Seq<Seq<char>>>)
    decreases keys.len(),
{
    if keys.len() == 0 {
        (target, None)
    } else {
        let first = keys[0];
        let p = path.push(first);
        match key_index(target, first) {
            Some(j) => if keys.len() == 1 {
                let m = merged(target[j].1, leaf, p);
                (target.update(j, (target[j].0, m.0)), m.1)
            } else {
                match target[j].1 {
                    JView::Object(inner) => {
                        let m = merged_at(inner, keys.drop_first(), leaf, p);
                        (target.update(j, (target[j].0, JView::Object(m.0))), m.1)
                    },
                    _ => (target, Some(p)),
                }
            },
            None => if keys.len() == 1 {
                (insert_entry(target, first, leaf), None)
            } else {
                let m = merged_at(Seq::empty(), keys.drop_first(), leaf, p);
                (insert_entry(target, first, JView::Object(m.0)), m.1)
            },
        }
    }
}

/// Merging a well-formed value at a key path into a well-formed object gives a
/// well-formed object, also when it stops at a conflict.
pub proof fn lemma_merged_at_wf(target: Seq<JEntry>, keys: Seq<Seq<char>>, leaf: JView, path: Seq<Seq<char>>)
    requires
        keys_ascending(target),
        wf_values(target),
        wf(leaf),
    ensures
        keys_ascending(merged_at(target, keys, leaf, path).0),
        wf_values(merged_at(target, keys, leaf, path).0),
    decreases keys.len(),
{
    if keys.len() > 0 {
        let first = keys[0];
        let p = path.push(first);
        match key_index(target, first) {
            Some(j) => {
                lemma_first_where_props(target, has_key(first));
                lemma_wf_values(target);
                assert(wf(target[j].1));
                if keys.len() == 1 {
                    lemma_merge_wf(target[j].1, leaf, p);
                    lemma_update_value_wf(target, j, merged(target[j].1, leaf, p).0);
                } else {
                    match target[j].1 {
                        JView::Object(inner) => {
                            lemma_merged_at_wf(inner, keys.drop_first(), leaf, p);
                            let m = merged_at(inner, keys.drop_first(), leaf, p);
                            lemma_update_value_wf(target, j, JView::Object(m.0));
                        },
                        _ => {},
                    }
                }
            },
            None => {
                if keys.len() == 1 {
                    lemma_insert_entry_ascending(target, first, leaf);
                    lemma_insert_value_wf(target, first, leaf);
                } else {
                    let empty = Seq::<JEntry>::empty();
                    lemma_merged_at_wf(empty, keys.drop_first(), leaf, p);
                    let m = merged_at(empty, keys.drop_first(), leaf, p);
                    lemma_insert_entry_ascending(target, first, JView::Object(m.0));
                    lemma_insert_value_wf(target, first, JView::Object(m.0));
                }
            },
        }
    }
}

/// `merge_at_keys` on the keys from position `from` on.
fn merge_at_keys_from(
    target: &mut Vec<(String, JsonValue)>,
    keys: &[String],
    from: usize,
    leaf: JsonValue,
    path_stack: &mut Vec<String>,
) -> (r: Result<(), ParameterHookError>)
    requires
        from <= keys@.len(),
    ensures
        entries_view(final(target)@) == merged_at(
            entries_view(old(target)@),
            strs(keys@).skip(from as int),
            leaf@,
            strs(old(path_stack)@),
        ).0,
        merge_outcome(
            r,
            merged_at(
                entries_view(old(target)@),
                strs(keys@).skip(from as int),
                leaf@,
                strs(old(path_stack)@),
            ).1,
            old(path_stack)@,
            final(path_stack)@,
        ),
    decreases keys@.len() - from,
{
    let ghost ks = strs(keys@).skip(from as int);
    let ghost t0 = entries_view(target@);
    let ghost ps0 = path_stack@;
    let ghost leaf0 = leaf;
    if from >= keys.len() {
        return Ok(());
    }
    proof {
        assert(ks[0] == keys@[from as int]@);
        assert(ks.drop_first() =~= strs(keys@).skip(from + 1));
    }
    let first = &keys[from];
    let kc = copy_string(first.as_str());
    path_stack.push(kc);
    proof {
        lemma_strs_push(ps0, kc);
    }
    let last = from + 1 == keys.len();
    match find_key(target, first.as_str()) {
        Some(j) => {
            let ghost tv = target@;
            let (kk, existing) = target.remove(j);
            if last {
                let mut existing = existing;
                let r = merge_value(&mut existing, leaf, path_stack);
                target.insert(j, (kk, existing));
                proof {
                    assert(target@ =~= tv.update(j as int, (kk, existing)));
                    lemma_entries_view_update(tv, j as int, (kk, existing));
                }
                match r {
                    Ok(()) => {},
                    Err(e) => {
                        return Err(e);
                    },
                }
            } else {
                match existing {
                    JsonValue::Object(mut inner) => {
                        proof {
                            lemma_object_view(inner);
                        }
                        let r = merge_at_keys_from(&mut inner, keys, from + 1, leaf, path_stack);
                        let ghost inner1 = inner;
                        target.insert(j, (kk, JsonValue::Object(inner)));
                        proof {
                            lemma_object_view(inner1);
                            assert(target@ =~= tv.update(j as int, (kk, JsonValue::Object(inner1))));
                            lemma_entries_view_update(tv, j as int, (kk, JsonValue::Object(inner1)));
                        }
                        match r {
                            Ok(()) => {},
                            Err(e) => {
                                return Err(e);
                            },
                        }
                    },
                    other => {
                        target.insert(j, (kk, other));
                        proof {
                            assert(target@ =~= tv);
                        }
                        return Err(conflict(path_stack));
                    },
                }
            }
        },
        None => {
            let pos = insert_position(target, first.as_str());
            let ghost tv = target@;
            if last {
                target.insert(pos, (copy_string(first.as_str()), leaf));
                proof {
                    lemma_entries_view_insert(tv, pos as int, target@[pos as int]);
                }
            } else {
                let mut inner: Vec<(String, JsonValue)> = Vec::new();
                proof {
                    assert(entries_view(inner@) =~= Seq::<JEntry>::empty());
                }
                let r = merge_at_keys_from(&mut inner, keys, from + 1, leaf, path_stack);
                let ghost inner1 = inner;
                target.insert(pos, (copy_string(first.as_str()), JsonValue::Object(inner)));
                proof {
                    lemma_object_view(inner1);
                    lemma_entries_view_insert(tv, pos as int, target@[pos as int]);
                }
                match r {
                    Ok(()) => {},
                    Err(e) => {
                        return Err(e);
                    },
                }
            }
        },
    }
    path_stack.pop();
    proof {
        assert(path_stack@ =~= ps0);
    }
    Ok(())
}

/// Merges `leaf` into `target` at the nested key path `keys`, creating
/// objects for missing intermediate keys. An intermediate value that is not
/// an object, or a leaf that conflicts with what is there, is a
/// `ParameterConflict` naming the dotted key path; `path_stack` is then left
/// holding that path.
pub fn merge_at_keys(
    target: &mut Vec<(String, JsonValue)>,
    keys: &[String],
    leaf: JsonValue,
    path_stack: &mut Vec<String>,
) -> (r: Result<(), ParameterHookError>)
    ensures
        entries_view(final(target)@) == merged_at(
            entries_view(old(target)@),
            strs(keys@),
            leaf@,
            strs(old(path_stack)@),
        ).0,
        merge_outcome(
            r,
            merged_at(entries_view(old(target)@), strs(keys@), leaf@, strs(old(path_stack)@)).1,
            old(path_stack)@,
            final(path_stack)@,
        ),
{
    proof {
        assert(strs(keys@).skip(0) =~= strs(keys@));
    }
    merge_at_keys_from(target, keys, 0, leaf, path_stack)
}

/// The nested key path of a parameter file: the texts of the components of
/// its parent directory, then its file stem.
pub open spec fn key_path(p: Seq<char>) -> Seq<Seq<char>> {
    let cs = components(p);
    let dirs = if cs.len() > 0 && !(cs.last() is Root) {
        cs.drop_last().map_values(|c: Comp| comp_text(c))
    } else {
        Seq::empty()
    };
    match file_stem_spec(p) {
        Some(stem) => dirs.push(stem),
        None => dirs,
    }
}

/// The key path of a matched file, given its path relative to the project
/// root: `strip_prefix`, when given, is removed first and must be a prefix
/// of the path.
pub fn compute_keys(rel_path: &str, strip_prefix: Option<&str>) -> (r: Result<
    Vec<String>,
    ParameterHookError,
>)
    ensures
        match strip_prefix {
            None => r matches Ok(v) && strs(v@) == key_path(rel_path@),
            Some(p) => match strip_prefix_spec(rel_path@, p@) {
                Some(t) => r matches Ok(v) && strs(v@) == key_path(t),
                None => r matches Err(ParameterHookError::StripPrefixMismatch { prefix, path })
                    && prefix@ == p@ && path@ == rel_path@,
            },
        },
{
    let trimmed = match strip_prefix {
        Some(prefix) => match strip_prefix_path(rel_path, prefix) {
            Some(t) => t,
            None => {
                return Err(
                    ParameterHookError::StripPrefixMismatch {
                        prefix: copy_string(prefix),
                        path: copy_string(rel_path),
                    },
                );
            },
        },
        None => copy_string(rel_path),
    };
    let cs = components_of(trimmed.as_str());
    let ghost cv = comps_view(cs@);
    let mut keys: Vec<String> = Vec::new();
    let has_parent = cs.len() > 0 && match &cs[cs.len() - 1] {
        PathComponent::RootDir => false,
        _ => true,
    };
    if has_parent {
        let mut i: usize = 0;
        while i + 1 < cs.len()
            invariant
                cv == comps_view(cs@),
                cs.len() > 0,
                i + 1 <= cs.len(),
                strs(keys@) == cv.drop_last().take(i as int).map_values(|c: Comp| comp_text(c)),
            decreases cs.len() - i,
        {
            let t = component_text(&cs[i]);
            let ghost before = keys@;
            keys.push(t);
            proof {
                lemma_strs_push(before, t);
                assert(cv.drop_last().take(i + 1).map_values(|c: Comp| comp_text(c))
                    =~= cv.drop_last().take(i as int).map_values(|c: Comp| comp_text(c)).push(
                    comp_text(cv[i as int]),
                ));
            }
            i = i + 1;
        }
        proof {
            assert(cv.drop_last().take(i as int) =~= cv.drop_last());
        }
    } else {
        proof {
            assert(strs(keys@) =~= Seq::<Seq<char>>::empty());
        }
    }
    match file_stem(trimmed.as_str()) {
        Some(stem) => {
            let ghost before = keys@;
            keys.push(stem);
            proof {
                lemma_strs_push(before, stem);
            }
        },
        None => {},
    }
    Ok(keys)
}

/// The file formats parameter files may have.
#[derive(Debug, Clone, Copy, PartialEq, Eq, Structural)]
pub enum ParameterFormat {
    Json,
    Toml,
    Yaml,
}

/// A character with ASCII capitals made small.
pub open spec fn ascii_lower(c: char) -> char {
    if 'A' <= c && c <= 'Z' {
        ((c as u8) + 32) as char
    } else {
        c
    }
}

/// A text with ASCII capitals made small.
pub open spec fn ascii_lower_text(s: Seq<char>) -> Seq<char> {
    s.map_values(|c: char| ascii_lower(c))
}

/// The lower-cased extension of a parameter file, empty when it has none.
pub open spec fn parameter_extension(path: Seq<char>) -> Seq<char> {
    match extension_spec(path) {
        Some(e) => ascii_lower_text(e),
        None => seq![],
    }
}

/// The format that a lower-cased extension names.
pub open spec fn format_of(ext: Seq<char>) -> Option<ParameterFormat> {
    if ext == "json"@ {
        Some(ParameterFormat::Json)
    } else if ext == "toml"@ {
        Some(ParameterFormat::Toml)
    } else if ext == "yaml"@ || ext == "yml"@ {
        Some(ParameterFormat::Yaml)
    } else {
        None
    }
}

/// `s` with ASCII capitals made small.
pub fn to_ascii_lowercase(s: &str) -> (r: String)
    ensures
        r@ == ascii_lower_text(s@),
{
    let cs = chars_of(s);
    let mut r = String::new();
    let mut i: usize = 0;
    while i < cs.len()
        invariant
            cs@ == s@,
            i <= cs.len(),
            r@ == ascii_lower_text(s@.take(i as int)),
        decreases cs.len() - i,
    {
        let c = cs[i];
        let l = if 'A' <= c && c <= 'Z' {
            ((c as u8) + 32) as char
        } else {
            c
        };
        push_char(&mut r, l);
        proof {
            assert(ascii_lower_text(s@.take(i + 1)) =~= ascii_lower_text(s@.take(i as int)).push(
                ascii_lower(c),
            ));
        }
        i = i + 1;
    }
    proof {
        assert(s@.take(i as int) =~= s@);
    }
    r
}

/// The format of a parameter file, by its extension without regard to case:
/// `json`, `toml`, `yaml` or `yml`; any other extension is unsupported.
pub fn parameter_format(path: &str) -> (r: Result<ParameterFormat, ParameterHookError>)
    ensures
        match format_of(parameter_extension(path@)) {
            Some(f) => r == Ok::<ParameterFormat, ParameterHookError>(f),
            None => r matches Err(ParameterHookError::UnsupportedFileType(e)) && e@
                == parameter_extension(path@),
        },
{
    let ext = match extension(path) {
        Some(e) => to_ascii_lowercase(e.as_str()),
        None => String::new(),
    };
    if str_eq(ext.as_str(), "json") {
        Ok(ParameterFormat::Json)
    } else if str_eq(ext.as_str(), "toml") {
        Ok(ParameterFormat::Toml)
    } else if str_eq(ext.as_str(), "yaml") || str_eq(ext.as_str(), "yml") {
        Ok(ParameterFormat::Yaml)
    } else {
        Err(ParameterHookError::UnsupportedFileType(ext))
    }
}

/// The text with each `\\` replaced by `/`.
pub open spec fn forward_slashes(s: Seq<char>) -> Seq<char> {
    s.map_values(|c: char| if c == '\\' { '/' } else { c })
}

/// The glob pattern to search: `pattern` under the project root, with
/// forward slashes only.
pub fn build_glob_pattern(base: &str, pattern: &str) -> (r: String)
    ensures
        r@ == forward_slashes(join_spec(base@, pattern@)),
{
    let joined = join(base, pattern);
    let cs = chars_of(joined.as_str());
    let mut r = String::new();
    let mut i: usize = 0;
    while i < cs.len()
        invariant
            cs@ == joined@,
            i <= cs.len(),
            r@ == forward_slashes(joined@.take(i as int)),
        decreases cs.len() - i,
    {
        let c = cs[i];
        push_char(&mut r, if c == '\\' { '/' } else { c });
        proof {
            assert(forward_slashes(joined@.take(i + 1)) =~= forward_slashes(joined@.take(i as int)).push(
                if c == '\\' { '/' } else { c },
            ));
        }
        i = i + 1;
    }
    proof {
        assert(joined@.take(i as int) =~= joined@);
    }
    r
}

/// Configuration of the `capture-parameter` hook.
#[derive(Debug)]
pub struct ParameterHookConfig {
    /// Glob pattern, relative to the project root, selecting parameter files.
    pub glob: String,
    /// Literal path prefix removed from each matched file's relative path
    /// before its key path is built.
    pub strip_prefix: Option<String>,
}

/// The `capture-parameter` hook.
#[derive(Debug)]
pub struct ParameterHook {
    pub config: ParameterHookConfig,
}

/// What the `capture-parameter` hook captures: the nested parameter object.
#[derive(Debug)]
pub struct ParameterCaptured {
    pub parameters: Vec<(String, JsonValue)>,
}

/// Why collecting parameters stops.
pub enum ParameterFailure {
    /// The relative path (given) does not start with `strip_prefix`.
    StripMismatch(Seq<char>),
    /// The file at this position could not be read or parsed.
    Unreadable(int),
    /// A conflict at this key path.
    Conflict(Seq<Seq<char>>),
}

/// The path of a matched file relative to the project root, or the path
/// itself when it is not under the root.
pub open spec fn relative_to(path: Seq<char>, root: Seq<char>) -> Seq<char> {
    match strip_prefix_spec(path, root) {
        Some(r) => r,
        None => path,
    }
}

/// The key path of a file's relative path, after `strip_prefix`.
pub open spec fn trimmed_path(rel: Seq<char>, strip: Option<Seq<char>>) -> Option<Seq<char>> {
    match strip {
        None => Some(rel),
        Some(p) => strip_prefix_spec(rel, p),
    }
}

/// The parameters collected from the first `n` files, in order.
pub open spec fn collected(
    root: Seq<char>,
    strip: Option<Seq<char>>,
    files: Seq<(String, Result<JsonValue, ParameterHookError>)>,
    n: int,
) -> Result<Seq<JEntry>, ParameterFailure>
    decreases n,
{
    if n <= 0 || n > files.len() {
        Ok(Seq::empty())
    } else {
        match collected(root, strip, files, n - 1) {
            Err(f) => Err(f),
            Ok(acc) => {
                let rel = relative_to(files[n - 1].0@, root);
                match trimmed_path(rel, strip) {
                    None => Err(ParameterFailure::StripMismatch(rel)),
                    Some(t) => match files[n - 1].1 {
                        Err(_) => Err(ParameterFailure::Unreadable(n - 1)),
                        Ok(v) => {
                            let m = merged_at(acc, key_path(t), v@, seq![]);
                            match m.1 {
                                Some(p) => Err(ParameterFailure::Conflict(p)),
                                None => Ok(m.0),
                            }
                        },
                    },
                }
            },
        }
    }
}

/// What collecting the parameters of `files` (each path with its parsed
/// content, in merge order) gives: the collected object, or the error of the
/// first file that fails.
pub open spec fn collect_outcome(
    root: Seq<char>,
    strip: Option<Seq<char>>,
    files: Seq<(String, Result<JsonValue, ParameterHookError>)>,
    r: Result<ParameterCaptured, ParameterHookError>,
) -> bool {
    match collected(root, strip, files, files.len() as int) {
        Ok(es) => r matches Ok(c) && entries_view(c.parameters@) == es,
        Err(ParameterFailure::StripMismatch(rel)) => r matches Err(ParameterHookError::StripPrefixMismatch { prefix, path })
            && strip == Some(prefix@) && path@ == rel,
        Err(ParameterFailure::Unreadable(i)) => r == Err::<ParameterCaptured, _>(files[i].1->Err_0),
        Err(ParameterFailure::Conflict(p)) => r matches Err(ParameterHookError::ParameterConflict(s)) && s@ == join_dot(p),
    }
}

/// What parsing the parameter file at `path` may give: `read` gives its
/// text (or the read error), and the text is parsed as its extension says:
/// JSON and YAML as they are, TOML converted to JSON; an unsupported
/// extension is refused.
pub open spec fn parameter_file_gives<Rd: Fn(&str) -> Result<String, String>>(
    read: Rd,
    path: Seq<char>,
    r: Result<JsonValue, ParameterHookError>,
) -> bool {
    exists|out: Result<String, String>| #[trigger] call_gives(read, path, out) && match out {
        Err(m) => r matches Err(ParameterHookError::FileCapture(FileHookError::ReadError { path: p, source }))
            && p@ == path && source == m,
        Ok(text) => match format_of(parameter_extension(path)) {
            None => r matches Err(ParameterHookError::UnsupportedFileType(e)) && e@ == parameter_extension(path),
            Some(ParameterFormat::Json) => match json_text_parsed(text@) {
                Ok(v) => r matches Ok(x) && x@ == v,
                Err(m) => r matches Err(ParameterHookError::JsonDeserializationFailed(x)) && x@ == m,
            },
            Some(ParameterFormat::Toml) => match toml_text_parsed(text@) {
                Ok(tv) => exists|t: TomlValue| t@ == tv && (r matches Ok(x) && x@ == toml_json(t)),
                Err(m) => r matches Err(ParameterHookError::TomlDeserializationFailed(x)) && x@ == m,
            },
            Some(ParameterFormat::Yaml) => match yaml_text_parsed(text@) {
                Ok(v) => r matches Ok(x) && x@ == v,
                Err(m) => r matches Err(ParameterHookError::YamlDeserializationFailed(x)) && x@ == m,
            },
        },
    }
}

/// Reads the parameter file at `path` through `read` and parses it as its
/// extension says (without regard to case): `json`, `toml` (converted to
/// JSON), `yaml` or `yml`.
pub fn parse_file<Rd: Fn(&str) -> Result<String, String>>(path: &str, read: &Rd) -> (r: Result<
    JsonValue,
    ParameterHookError,
>)
    requires
        forall|x: &str| #[trigger] read.requires((x,)),
    ensures
        parameter_file_gives(*read, path@, r),
{
    let out = read(path);
    let ghost out0 = out;
    proof {
        assert(call_gives(*read, path@, out0));
    }
    let text = match out {
        Ok(t) => t,
        Err(m) => {
            return Err(ParameterHookError::FileCapture(FileHookError::ReadError { path: copy_string(path), source: m }));
        },
    };
    match parameter_format(path) {
        Err(e) => Err(e),
        Ok(ParameterFormat::Json) => match parse_json_text(text.as_str()) {
            Ok(v) => Ok(v),
            Err(m) => Err(ParameterHookError::JsonDeserializationFailed(m)),
        },
        Ok(ParameterFormat::Toml) => match parse_toml_text(text.as_str()) {
            Ok(t) => {
                let ghost t0 = t;
                let v = toml_value_to_json(t);
                assert(t0@ == toml_text_parsed(text@)->Ok_0 && v@ == toml_json(t0));
                Ok(v)
            },
            Err(m) => Err(ParameterHookError::TomlDeserializationFailed(m)),
        },
        Ok(ParameterFormat::Yaml) => match parse_yaml_text(text.as_str()) {
            Ok(v) => Ok(v),
            Err(m) => Err(ParameterHookError::YamlDeserializationFailed(m)),
        },
    }
}

/// Whether `parsed` holds the matched files `found` in path order, each with
/// what parsing it gave.
pub open spec fn parsed_in_order<Rd: Fn(&str) -> Result<String, String>>(
    found: Seq<String>,
    parsed: Seq<(String, Result<JsonValue, ParameterHookError>)>,
    read: Rd,
) -> bool {
    let paths = parsed.map_values(|e: (String, Result<JsonValue, ParameterHookError>)| e.0);
    &&& texts_of(paths).to_multiset() == texts_of(found).to_multiset()
    &&& paths_sorted(texts_of(paths))
    &&& forall|i: int| 0 <= i < parsed.len() ==> #[trigger] parameter_file_gives(read, parsed[i].0@, parsed[i].1)
}

impl ParameterHook {
    /// The hook with the given configuration.
    pub fn from_config(config: ParameterHookConfig) -> (h: Self)
        ensures
            h.config == config,
    {
        ParameterHook { config }
    }

    /// The hook's configuration.
    pub fn config(&self) -> (c: &ParameterHookConfig)
        ensures
            *c == self.config,
    {
        &self.config
    }

    /// Collects the parameters of the matched files, given in the order to
    /// merge them, each with its parsed content or the reason it could not be
    /// read. Each file's key path comes from its path relative to the project
    /// root; the first failure ends the collection.
    pub fn collect(
        &self,
        project_root: &str,
        files: Vec<(String, Result<JsonValue, ParameterHookError>)>,
    ) -> (r: Result<ParameterCaptured, ParameterHookError>)
        ensures
            collect_outcome(project_root@, opt_text(self.config.strip_prefix), files@, r),
    {
        let ghost fs = files@;
        let ghost root = project_root@;
        let ghost strip = opt_text(self.config.strip_prefix);
        let strip_ref: Option<&str> = match &self.config.strip_prefix {
            Some(s) => Some(s.as_str()),
            None => None,
        };
        let mut parameters: Vec<(String, JsonValue)> = Vec::new();
        let mut path_stack: Vec<String> = Vec::new();
        let mut rest = files;
        let total = rest.len();
        let mut n: usize = 0;
        proof {
            assert(fs.skip(0) =~= fs);
            assert(entries_view(parameters@) =~= Seq::<JEntry>::empty());
        }
        while rest.len() > 0
            invariant
                root == project_root@,
                fs == files@,
                total == fs.len(),
                n + rest.len() == fs.len(),
                rest@ == fs.skip(n as int),
                strip == opt_text(self.config.strip_prefix),
                match strip_ref {
                    Some(x) => strip == Some(x@),
                    None => strip is None,
                },
                collected(root, strip, fs, n as int) == Ok::<Seq<JEntry>, ParameterFailure>(
                    entries_view(parameters@),
                ),
                path_stack@.len() == 0,
            decreases rest.len(),
        {
            let (file_path, parsed) = rest.remove(0);
            proof {
                assert(fs.skip(n as int)[0] == fs[n as int]);
                assert(rest@ =~= fs.skip(n + 1));
            }
            let rel = match strip_prefix_path(file_path.as_str(), project_root) {
                Some(r) => r,
                None => copy_string(file_path.as_str()),
            };
            proof {
                assert(file_path == fs[n as int].0);
                assert(parsed == fs[n as int].1);
                assert(rel@ == relative_to(fs[n as int].0@, root));
            }
            let keys = match compute_keys(rel.as_str(), strip_ref) {
                Ok(k) => k,
                Err(e) => {
                    proof {
                        assert(trimmed_path(rel@, strip) is None);
                        assert(collected(root, strip, fs, n + 1) == Err::<Seq<JEntry>, ParameterFailure>(
                            ParameterFailure::StripMismatch(rel@),
                        ));
                        lemma_collected_stop(root, strip, fs, n as int + 1);
                    }
                    return Err(e);
                },
            };
            let ghost t = trimmed_path(rel@, strip)->Some_0;
            proof {
                assert(trimmed_path(rel@, strip) is Some);
                assert(strs(keys@) == key_path(t));
            }
            let value = match parsed {
                Ok(v) => v,
                Err(e) => {
                    proof {
                        assert(collected(root, strip, fs, n + 1) == Err::<Seq<JEntry>, ParameterFailure>(
                            ParameterFailure::Unreadable(n as int),
                        ));
                        lemma_collected_stop(root, strip, fs, n as int + 1);
                    }
                    return Err(e);
                },
            };
            let ghost acc = entries_view(parameters@);
            proof {
                assert(path_stack@ =~= Seq::<String>::empty());
                assert(strs(path_stack@) =~= Seq::<Seq<char>>::empty());
            }
            let ghost m = merged_at(acc, key_path(t), value@, seq![]);
            match merge_at_keys(&mut parameters, keys.as_slice(), value, &mut path_stack) {
                Ok(()) => {
                    assert(collected(root, strip, fs, n + 1) == Ok::<Seq<JEntry>, ParameterFailure>(m.0));
                },
                Err(e) => {
                    proof {
                        assert(collected(root, strip, fs, n + 1) == Err::<Seq<JEntry>, ParameterFailure>(
                            ParameterFailure::Conflict(m.1->Some_0),
                        ));
                        lemma_collected_stop(root, strip, fs, n as int + 1);
                    }
                    return Err(e);
                },
            }
            n = n + 1;
        }
        Ok(ParameterCaptured { parameters })
    }

    /// One run of the hook: the files matching the configured glob under
    /// `project_root` (found by `collect_files`, then put in path order) are
    /// read through `read` and parsed by `parse_file`, and their parameters
    /// collected.
    pub fn run<
        G: Fn(&str) -> Result<Vec<String>, FileHookError>,
        Rd: Fn(&str) -> Result<String, String>,
    >(
        &self,
        project_root: &str,
        collect_files: &G,
        read: &Rd,
    ) -> (r: Result<ParameterCaptured, ParameterHookError>)
        requires
            forall|x: &str| #[trigger] collect_files.requires((x,)),
            forall|x: &str| #[trigger] read.requires((x,)),
        ensures
            exists|g: Result<Vec<String>, FileHookError>|
                #[trigger] call_gives(*collect_files, forward_slashes(join_spec(project_root@, self.config.glob@)), g)
                && match g {
                    Err(e) => r == Err::<ParameterCaptured, ParameterHookError>(ParameterHookError::FileCapture(e)),
                    Ok(found) => exists|parsed: Seq<(String, Result<JsonValue, ParameterHookError>)>|
                        #[trigger] parsed_in_order(found@, parsed, *read)
                        && collect_outcome(project_root@, opt_text(self.config.strip_prefix), parsed, r),
                },
    {
        let pattern = build_glob_pattern(project_root, self.config.glob.as_str());
        let ps = pattern.as_str();
        let g = collect_files(ps);
        let ghost g0 = g;
        proof {
            assert(collect_files.ensures((ps,), g0));
            assert(call_gives(*collect_files, forward_slashes(join_spec(project_root@, self.config.glob@)), g0));
        }
        let found = match g {
            Ok(f) => f,
            Err(e) => {
                let r: Result<ParameterCaptured, ParameterHookError> = Err(ParameterHookError::FileCapture(e));
                return r;
            },
        };
        let ghost found0 = found@;
        let ghost found_v = found;
        proof {
            assert(g0 == Ok::<Vec<String>, FileHookError>(found_v));
        }
        let sorted = sort_paths(found);
        let mut parsed: Vec<(String, Result<JsonValue, ParameterHookError>)> = Vec::new();
        let mut i: usize = 0;
        while i < sorted.len()
            invariant
                i <= sorted.len(),
                parsed@.len() == i,
                forall|x: &str| #[trigger] read.requires((x,)),
                forall|k: int| 0 <= k < i ==> (#[trigger] parsed@[k]).0@ == sorted@[k]@,
                forall|k: int| 0 <= k < i ==> #[trigger] parameter_file_gives(*read, parsed@[k].0@, parsed@[k].1),
            decreases sorted.len() - i,
        {
            let path = copy_string(sorted[i].as_str());
            let ps = path.as_str();
            let v = parse_file(ps, read);
            let ghost v0 = v;
            parsed.push((path, v));
            proof {
                assert(parsed@[i as int].0@ == path@);
                assert(parsed@[i as int].1 == v0);
            }
            i = i + 1;
        }
        proof {
            let paths = parsed@.map_values(|e: (String, Result<JsonValue, ParameterHookError>)| e.0);
            assert(texts_of(paths) =~= texts_of(sorted@));
            assert(parsed_in_order(found0, parsed@, *read));
        }
        let ghost parsed0 = parsed@;
        let r = self.collect(project_root, parsed);
        proof {
            assert(g0 == Ok::<Vec<String>, FileHookError>(found_v) && found_v@ == found0);
            assert(parsed_in_order(found_v@, parsed0, *read));
        }
        r
    }
}

/// When every parameter file that was read holds a well-formed value, the
/// collected parameters form a well-formed object: keys ascend and no key
/// appears twice, at every depth.
pub proof fn lemma_collected_wf(
    root: Seq<char>,
    strip: Option<Seq<char>>,
    files: Seq<(String, Result<JsonValue, ParameterHookError>)>,
    n: int,
)
    requires
        forall|i: int|
            0 <= i < files.len() && (#[trigger] files[i]).1 is Ok ==> wf(files[i].1->Ok_0@),
    ensures
        collected(root, strip, files, n) matches Ok(es) ==> keys_ascending(es) && wf_values(es),
    decreases n,
{
    if 0 < n <= files.len() {
        lemma_collected_wf(root, strip, files, n - 1);
        match collected(root, strip, files, n - 1) {
            Ok(acc) => {
                let rel = relative_to(files[n - 1].0@, root);
                match trimmed_path(rel, strip) {
                    Some(t) => match files[n - 1].1 {
                        Ok(v) => {
                            assert(wf(v@));
                            lemma_merged_at_wf(acc, key_path(t), v@, seq![]);
                        },
                        Err(_) => {},
                    },
                    None => {},
                }
            },
            Err(_) => {},
        }
    } else {
        assert(keys_ascending(Seq::<JEntry>::empty()));
        assert(wf_values(Seq::<JEntry>::empty()));
    }
}

/// Once collecting fails, more files change nothing.
pub proof fn lemma_collected_stop(
    root: Seq<char>,
    strip: Option<Seq<char>>,
    files: Seq<(String, Result<JsonValue, ParameterHookError>)>,
    n: int,
)
    requires
        1 <= n <= files.len(),
        collected(root, strip, files, n) is Err,
    ensures
        collected(root, strip, files, files.len() as int) == collected(root, strip, files, n),
    decreases files.len() - n,
{
    if n < files.len() {
        lemma_collected_stop(root, strip, files, n + 1);
    }
}

impl ParameterHookError {
    /// The message this error displays.
    pub open spec fn message_spec(&self) -> Seq<char> {
        match self {
            ParameterHookError::JsonDeserializationFailed(e) => "Failed to deserialize json parameter: "@ + e@,
            ParameterHookError::TomlDeserializationFailed(e) => "Failed to deserialize toml parameter: "@ + e@,
            ParameterHookError::YamlDeserializationFailed(e) => "Failed to deserialize yaml parameter: "@ + e@,
            ParameterHookError::UnsupportedFileType(e) => "Unsupported file type for parameter capture: "@ + e@,
            ParameterHookError::ParameterConflict(p) => "Parameter conflict at key path '"@ + p@ + "'"@,
            ParameterHookError::StripPrefixMismatch { prefix, path } => "strip_prefix '"@ + prefix@ + "' is not a prefix of matched path '"@ + path@ + "'"@,
            ParameterHookError::FileCapture(e) => e.message_spec(),
        }
    }

    /// The message this error displays.
    pub fn message(&self) -> (m: String)
        ensures
            m@ == self.message_spec(),
    {
        let mut m = String::new();
        match self {
            ParameterHookError::JsonDeserializationFailed(e) => {
                push_str(&mut m, "Failed to deserialize json parameter: ");
                push_str(&mut m, e.as_str());
            },
            ParameterHookError::TomlDeserializationFailed(e) => {
                push_str(&mut m, "Failed to deserialize toml parameter: ");
                push_str(&mut m, e.as_str());
            },
            ParameterHookError::YamlDeserializationFailed(e) => {
                push_str(&mut m, "Failed to deserialize yaml parameter: ");
                push_str(&mut m, e.as_str());
            },
            ParameterHookError::UnsupportedFileType(e) => {
                push_str(&mut m, "Unsupported file type for parameter capture: ");
                push_str(&mut m, e.as_str());
            },
            ParameterHookError::ParameterConflict(p) => {
                push_str(&mut m, "Parameter conflict at key path '");
                push_str(&mut m, p.as_str());
                push_str(&mut m, "'");
            },
            ParameterHookError::StripPrefixMismatch { prefix, path } => {
                push_str(&mut m, "strip_prefix '");
                push_str(&mut m, prefix.as_str());
                push_str(&mut m, "' is not a prefix of matched path '");
                push_str(&mut m, path.as_str());
                push_str(&mut m, "'");
            },
            ParameterHookError::FileCapture(e) => {
                let t = e.message();
                push_str(&mut m, t.as_str());
            },
        }
        m
    }

    /// The error as the library-wide error: a failure of `capture-parameter`.
    pub fn into_capsula(self) -> (e: CapsulaError)
        ensures
            e matches CapsulaError::HookFailed { hook, message } && hook@ == "capture-parameter"@ && message@ == self.message_spec(),
    {
        let message = self.message();
        CapsulaError::HookFailed { hook: copy_string("capture-parameter"), message }
    }
}

} // verus!
