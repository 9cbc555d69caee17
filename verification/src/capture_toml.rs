//! The `capture-toml` hook: one TOML file, converted to JSON.

use vstd::prelude::*;
use crate::hook::CapsulaError;
use crate::text::{copy_string, push_str};
use crate::parse::{parse_toml_text, toml_text_parsed};
use crate::capture_parameter::{lemma_insert_value_wf, lemma_update_value_wf};
use crate::json::{
    has_key, keys_ascending, lemma_first_where_props, lemma_insert_entry_ascending, lemma_wf_items,
    wf, wf_values, entries_view, find_key, insert_entry, insert_position, jview, key_index,
    lemma_entries_view_insert, lemma_entries_view_update, lemma_object_view, JEntry, JView,
    JsonNumber, JsonValue,
};
use crate::path::{join, join_spec};

verus! {

/// A TOML value. A float is held as the bit pattern of its double; a
/// datetime as its RFC 3339 text.
#[derive(Debug)]
pub enum TomlValue {
    String(String),
    Integer(i64),
    Float(u64),
    Boolean(bool),
    Datetime(String),
    Array(Vec<TomlValue>),
    Table(Vec<(String, TomlValue)>),
}

/// The mathematical value of a TOML value.
pub enum TView {
    Str(Seq<char>),
    Integer(i64),
    Float(u64),
    Boolean(bool),
    Datetime(Seq<char>),
    Array(Seq<TView>),
    Table(Seq<(Seq<char>, TView)>),
}

pub open spec fn tview(t: TomlValue) -> TView
    decreases t,
{
    match t {
        TomlValue::String(s) => TView::Str(s@),
        TomlValue::Integer(i) => TView::Integer(i),
        TomlValue::Float(bits) => TView::Float(bits),
        TomlValue::Boolean(b) => TView::Boolean(b),
        TomlValue::Datetime(s) => TView::Datetime(s@),
        TomlValue::Array(xs) => TView::Array(
            Seq::new(
                xs@.len(),
                |i: int|
                    if 0 <= i < xs@.len() {
                        proof {
                            assert(decreases_to!(xs => xs@));
                            assert(decreases_to!(xs@ => xs@[i]));
                        }
                        tview(xs@[i])
                    } else {
                        TView::Boolean(false)
                    },
            ),
        ),
        TomlValue::Table(es) => TView::Table(
            Seq::new(
                es@.len(),
                |i: int|
                    if 0 <= i < es@.len() {
                        proof {
                            assert(decreases_to!(es => es@));
                            assert(decreases_to!(es@ => es@[i]));
                            assert(decreases_to!(es@[i] => es@[i].1));
                        }
                        (es@[i].0@, tview(es@[i].1))
                    } else {
                        (Seq::empty(), TView::Boolean(false))
                    },
            ),
        ),
    }
}

impl View for TomlValue {
    type V = TView;

    open spec fn view(&self) -> TView {
        tview(*self)
    }
}

/// The JSON number of a TOML integer.
pub open spec fn integer_number(i: i64) -> JsonNumber {
    if i < 0 {
        JsonNumber::NegInt(i)
    } else {
        JsonNumber::PosInt(i as u64)
    }
}

/// `es` with the entry for `k` set to `v`: replaced where the key is
/// present, put in its place otherwise.
pub open spec fn put_entry(es: Seq<JEntry>, k: Seq<char>, v: JView) -> Seq<JEntry> {
    match key_index(es, k) {
        Some(j) => es.update(j, (es[j].0, v)),
        None => insert_entry(es, k, v),
    }
}

/// The JSON value of a TOML value: strings, integers and booleans as they
/// are, datetimes as their text, floats that are NaN or infinite as `null`,
/// tables as objects in key order.
pub open spec fn toml_json(t: TomlValue) -> JView
    decreases t, 0int,
{
    match t {
        TomlValue::String(s) => JView::Str(s@),
        TomlValue::Integer(i) => JView::Number(integer_number(i)),
        TomlValue::Float(bits) => if crate::json::is_finite_bits(bits) {
            JView::Number(JsonNumber::Float(bits))
        } else {
            JView::Null
        },
        TomlValue::Boolean(b) => JView::Bool(b),
        TomlValue::Datetime(s) => JView::Str(s@),
        TomlValue::Array(xs) => JView::Array(
            Seq::new(
                xs@.len(),
                |i: int|
                    if 0 <= i < xs@.len() {
                        proof {
                            assert(decreases_to!(xs => xs@));
                            assert(decreases_to!(xs@ => xs@[i]));
                        }
                        toml_json(xs@[i])
                    } else {
                        JView::Null
                    },
            ),
        ),
        TomlValue::Table(es) => {
            proof {
                assert(decreases_to!(es => es@));
            }
            JView::Object(table_json(es@, es@.len() as int))
        },
    }
}

/// The object built from the first `n` entries of a TOML table, each put in
/// turn.
pub open spec fn table_json(es: Seq<(String, TomlValue)>, n: int) -> Seq<JEntry>
    decreases es, n,
{
    if n <= 0 || n > es.len() {
        Seq::empty()
    } else {
        proof {
            assert(decreases_to!(es => es[n - 1]));
            assert(decreases_to!(es[n - 1] => es[n - 1].1));
        }
        put_entry(table_json(es, n - 1), es[n - 1].0@, toml_json(es[n - 1].1))
    }
}

/// Converts a TOML value to JSON.
pub fn toml_value_to_json(value: TomlValue) -> (r: JsonValue)
    ensures
        r@ == toml_json(value),
    decreases value,
{
    match value {
        TomlValue::String(s) => JsonValue::String(s),
        TomlValue::Integer(i) => {
            if i < 0 {
                JsonValue::Number(JsonNumber::NegInt(i))
            } else {
                JsonValue::Number(JsonNumber::PosInt(i as u64))
            }
        },
        TomlValue::Float(bits) => {
            if bits & 0x7ff0_0000_0000_0000u64 != 0x7ff0_0000_0000_0000u64 {
                JsonValue::Number(JsonNumber::Float(bits))
            } else {
                JsonValue::Null
            }
        },
        TomlValue::Boolean(b) => JsonValue::Bool(b),
        TomlValue::Datetime(s) => JsonValue::String(s),
        TomlValue::Array(xs) => {
            let ghost xv = xs;
            let mut rest = xs;
            let mut out: Vec<JsonValue> = Vec::new();
            let total = rest.len();
            proof {
                assert(xv@.skip(0) =~= xv@);
            }
            while rest.len() > 0
                invariant
                    value == TomlValue::Array(xv),
                    total == xv@.len(),
                    out.len() + rest.len() == xv@.len(),
                    rest@ == xv@.skip(out.len() as int),
                    forall|k: int| 0 <= k < out.len() ==> #[trigger] jview(out@[k]) == toml_json(xv@[k]),
                decreases rest.len(),
            {
                let n = out.len();
                let x = rest.remove(0);
                proof {
                    assert(xv@.skip(n as int)[0] == xv@[n as int]);
                    assert(rest@ =~= xv@.skip(n + 1));
                    assert(value->Array_0 == xv);
                    assert(decreases_to!(value => value->Array_0));
                    assert(decreases_to!(xv => xv@));
                    assert(decreases_to!(xv@ => xv@[n as int]));
                }
                let y = toml_value_to_json(x);
                out.push(y);
            }
            let r = JsonValue::Array(out);
            proof {
                assert(out.len() == xv@.len());
                assert forall|k: int| 0 <= k < out.len() implies r@->Array_0[k] == toml_json(
                    value,
                )->Array_0[k] by {
                    assert(jview(out@[k]) == toml_json(xv@[k]));
                }
                assert(r@->Array_0 =~= toml_json(value)->Array_0);
            }
            r
        },
        TomlValue::Table(es) => {
            let ghost ev = es;
            let mut rest = es;
            let mut obj: Vec<(String, JsonValue)> = Vec::new();
            let total = rest.len();
            let mut n: usize = 0;
            proof {
                assert(ev@.skip(0) =~= ev@);
                assert(entries_view(obj@) =~= Seq::<JEntry>::empty());
            }
            while rest.len() > 0
                invariant
                    value == TomlValue::Table(ev),
                    total == ev@.len(),
                    n + rest.len() == ev@.len(),
                    rest@ == ev@.skip(n as int),
                    entries_view(obj@) == table_json(ev@, n as int),
                decreases rest.len(),
            {
                let (k, v) = rest.remove(0);
                proof {
                    assert(ev@.skip(n as int)[0] == ev@[n as int]);
                    assert(rest@ =~= ev@.skip(n + 1));
                    assert(value->Table_0 == ev);
                    assert(decreases_to!(value => value->Table_0));
                    assert(decreases_to!(ev => ev@));
                    assert(decreases_to!(ev@ => ev@[n as int]));
                    assert(decreases_to!(ev@[n as int] => ev@[n as int].1));
                }
                let y = toml_value_to_json(v);
                let ghost before = obj@;
                match find_key(&obj, k.as_str()) {
                    Some(j) => {
                        let (kk, _old) = obj.remove(j);
                        obj.insert(j, (kk, y));
                        proof {
                            assert(obj@ =~= before.update(j as int, obj@[j as int]));
                            lemma_entries_view_update(before, j as int, obj@[j as int]);
                        }
                    },
                    None => {
                        let pos = insert_position(&obj, k.as_str());
                        obj.insert(pos, (k, y));
                        proof {
                            lemma_entries_view_insert(before, pos as int, obj@[pos as int]);
                        }
                    },
                }
                n = n + 1;
            }
            proof {
                lemma_object_view(obj);
            }
            JsonValue::Object(obj)
        },
    }
}

/// Converting a TOML value to JSON keeps what a scalar says: a boolean
/// becomes the same boolean (`false` stays `false`), a string the same
/// string, a datetime its text, an integer a JSON number with the same
/// value, a finite float the same double (a NaN or infinite one `null`, as
/// JSON has no such number); an array keeps its length, each item converted
/// in place.
pub proof fn lemma_toml_scalars_keep_their_values(t: TomlValue)
    ensures
        t matches TomlValue::Boolean(b) ==> toml_json(t) == JView::Bool(b),
        t matches TomlValue::String(s) ==> toml_json(t) == JView::Str(s@),
        t matches TomlValue::Datetime(s) ==> toml_json(t) == JView::Str(s@),
        t matches TomlValue::Integer(i) ==> toml_json(t) matches JView::Number(n) && ((n matches JsonNumber::PosInt(
            u,
        ) && u == i) || (n matches JsonNumber::NegInt(j) && j == i && i < 0)),
        t matches TomlValue::Float(bits) ==> toml_json(t) == (if crate::json::is_finite_bits(bits) {
            JView::Number(JsonNumber::Float(bits))
        } else {
            JView::Null
        }),
        t matches TomlValue::Array(xs) ==> toml_json(t) matches JView::Array(ys) && ys.len() == xs@.len() && forall|
            k: int,
        | 0 <= k < xs@.len() ==> ys[k] == toml_json(#[trigger] xs@[k]),
{
}

/// What `toml_value_to_json` gives keeps what a scalar says: a TOML boolean
/// becomes the JSON boolean with the same value, a string the same string,
/// a datetime its text, an integer a number of the same value.
pub proof fn lemma_toml_value_to_json_keeps_scalars(t: TomlValue, r: JsonValue)
    requires
        call_ensures(toml_value_to_json, (t,), r),
    ensures
        t matches TomlValue::Boolean(b) ==> r == JsonValue::Bool(b),
        t matches TomlValue::String(s) ==> r matches JsonValue::String(x) && x@ == s@,
        t matches TomlValue::Datetime(s) ==> r matches JsonValue::String(x) && x@ == s@,
        t matches TomlValue::Integer(i) ==> r matches JsonValue::Number(n) && ((n matches JsonNumber::PosInt(u) && u
            == i) || (n matches JsonNumber::NegInt(j) && j == i && i < 0)),
{
    lemma_toml_scalars_keep_their_values(t);
    assert(jview(r) == toml_json(t));
    match r {
        JsonValue::Array(_) => {},
        JsonValue::Object(_) => {},
        _ => {},
    }
}

/// Every TOML value converts to a well-formed JSON value: integers keep
/// their sign in the right kind, no float is NaN or infinite, and object
/// keys ascend with none twice.
pub proof fn lemma_toml_json_wf(t: TomlValue)
    ensures
        wf(toml_json(t)),
    decreases t, 0int,
{
    match t {
        TomlValue::Array(xs) => {
            let a = toml_json(t)->Array_0;
            assert forall|i: int| 0 <= i < a.len() implies #[trigger] wf(a[i]) by {
                assert(decreases_to!(t => xs));
                assert(decreases_to!(xs => xs@));
                assert(decreases_to!(xs@ => xs@[i]));
                lemma_toml_json_wf(xs@[i]);
            }
            lemma_wf_items(a);
        },
        TomlValue::Table(es) => {
            assert(decreases_to!(t => es));
            assert(decreases_to!(es => es@));
            lemma_table_json_wf(es@, es@.len() as int);
        },
        _ => {},
    }
}

/// The object built from a TOML table is well-formed.
pub proof fn lemma_table_json_wf(es: Seq<(String, TomlValue)>, n: int)
    ensures
        keys_ascending(table_json(es, n)),
        wf_values(table_json(es, n)),
    decreases es, n,
{
    if n <= 0 || n > es.len() {
        assert(keys_ascending(Seq::<JEntry>::empty()));
        assert(wf_values(Seq::<JEntry>::empty()));
    } else {
        lemma_table_json_wf(es, n - 1);
        let prev = table_json(es, n - 1);
        let k = es[n - 1].0@;
        assert(decreases_to!(es => es[n - 1]));
        assert(decreases_to!(es[n - 1] => es[n - 1].1));
        lemma_toml_json_wf(es[n - 1].1);
        let v = toml_json(es[n - 1].1);
        match key_index(prev, k) {
            Some(j) => {
                lemma_first_where_props(prev, has_key(k));
                lemma_update_value_wf(prev, j, v);
            },
            None => {
                lemma_insert_entry_ascending(prev, k, v);
                lemma_insert_value_wf(prev, k, v);
            },
        }
    }
}

/// Configuration of the `capture-toml` hook.
#[derive(Debug)]
pub struct TomlHookConfig {
    /// The TOML file, relative to the project root unless absolute.
    pub path: String,
}

/// The `capture-toml` hook.
#[derive(Debug)]
pub struct TomlHook {
    pub config: TomlHookConfig,
}

/// What the `capture-toml` hook captures: the file's content as JSON.
#[derive(Debug)]
pub struct TomlCaptured {
    pub content: JsonValue,
}

/// Errors of the `capture-toml` hook.
#[derive(Debug)]
pub enum TomlHookError {
    /// The file could not be read; its path and why.
    Io { path: String, message: String },
    /// The file is not TOML; the parser's message.
    Toml(String),
    /// JSON (de)serialization failed; its message.
    Json(String),
}

impl TomlHook {
    /// The hook with the given configuration.
    pub fn from_config(config: TomlHookConfig) -> (h: Self)
        ensures
            h.config == config,
    {
        TomlHook { config }
    }

    /// The hook's configuration.
    pub fn config(&self) -> (c: &TomlHookConfig)
        ensures
            *c == self.config,
    {
        &self.config
    }

    /// Reads the configured file under `project_root` (the run's project
    /// root) through `read`, parses its text as TOML, and converts what it
    /// holds to JSON.
    pub fn run<Rd: Fn(&String) -> Result<String, String>>(
        &self,
        project_root: &str,
        read: &Rd,
    ) -> (r: Result<TomlCaptured, TomlHookError>)
        requires
            forall|p: &String| #[trigger] read.requires((p,)),
        ensures
            exists|full: String, out: Result<String, String>|
                {
                    &&& full@ == join_spec(project_root@, self.config.path@)
                    &&& read.ensures((&full,), out)
                    &&& match out {
                        Err(m) => r matches Err(TomlHookError::Io { path, message }) && path@ == full@ && message
                            == m,
                        Ok(text) => match toml_text_parsed(text@) {
                            Ok(tv) => exists|t: TomlValue| t@ == tv && (r matches Ok(c) && c.content@ == toml_json(t)),
                            Err(m) => r matches Err(TomlHookError::Toml(x)) && x@ == m,
                        },
                    }
                },
    {
        let full = join(project_root, self.config.path.as_str());
        let out = read(&full);
        let ghost out0 = out;
        let ghost full0 = full;
        match out {
            Ok(text) => match parse_toml_text(text.as_str()) {
                Ok(t) => {
                    let ghost t0 = t;
                    let content = toml_value_to_json(t);
                    assert(t0@ == toml_text_parsed(text@)->Ok_0 && content@ == toml_json(t0));
                    Ok(TomlCaptured { content })
                },
                Err(m) => Err(TomlHookError::Toml(m)),
            },
            Err(m) => Err(TomlHookError::Io { path: full, message: m }),
        }
    }
}

impl TomlHookError {
    /// The message this error displays.
    pub open spec fn message_spec(&self) -> Seq<char> {
        match self {
            TomlHookError::Io { path, message } => "Failed to read TOML file '"@ + path@ + "': "@ + message@,
            TomlHookError::Toml(e) => "Failed to parse TOML: "@ + e@,
            TomlHookError::Json(e) => "Failed to (de)serialize JSON: "@ + e@,
        }
    }

    /// The message this error displays.
    pub fn message(&self) -> (m: String)
        ensures
            m@ == self.message_spec(),
    {
        let mut m = String::new();
        match self {
            TomlHookError::Io { path, message } => {
                push_str(&mut m, "Failed to read TOML file '");
                push_str(&mut m, path.as_str());
                push_str(&mut m, "': ");
                push_str(&mut m, message.as_str());
            },
            TomlHookError::Toml(e) => {
                push_str(&mut m, "Failed to parse TOML: ");
                push_str(&mut m, e.as_str());
            },
            TomlHookError::Json(e) => {
                push_str(&mut m, "Failed to (de)serialize JSON: ");
                push_str(&mut m, e.as_str());
            },
        }
        m
    }

    /// The error as the library-wide error: a failure of `capture-toml`.
    pub fn into_capsula(self) -> (e: CapsulaError)
        ensures
            e matches CapsulaError::HookFailed { hook, message } && hook@ == "capture-toml"@ && message@ == self.message_spec(),
    {
        let message = self.message();
        CapsulaError::HookFailed { hook: copy_string("capture-toml"), message }
    }
}

} // verus!
