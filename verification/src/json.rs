//! JSON documents as parameter capture holds them.
//!
//! A JSON object is held as its entries in ascending key order, the way a
//! sorted map holds them, so that two objects are equal exactly when their
//! entries are equal position by position.

use vstd::prelude::*;
use crate::text::{chars_of, str_eq};

verus! {

/// A JSON number: a non-negative integer, a negative integer, or the IEEE-754
/// bit pattern of a finite double.
#[derive(Debug, Clone, Copy, PartialEq, Eq, Structural)]
pub enum JsonNumber {
    PosInt(u64),
    NegInt(i64),
    Float(u64),
}

/// A JSON value. The entries of an object are meant to be held in ascending
/// key order, each key once (see [`wf`]).
#[derive(Debug, PartialEq)]
pub enum JsonValue {
    Null,
    Bool(bool),
    Number(JsonNumber),
    String(String),
    Array(Vec<JsonValue>),
    Object(Vec<(String, JsonValue)>),
}

/// The mathematical value of a JSON value.
pub enum JView {
    Null,
    Bool(bool),
    Number(JsonNumber),
    Str(Seq<char>),
    Array(Seq<JView>),
    Object(Seq<(Seq<char>, JView)>),
}

/// One object entry with its key and value as mathematical values.
pub type JEntry = (Seq<char>, JView);

pub open spec fn jview(v: JsonValue) -> JView
    decreases v,
{
    match v {
        JsonValue::Null => JView::Null,
        JsonValue::Bool(b) => JView::Bool(b),
        JsonValue::Number(n) => JView::Number(n),
        JsonValue::String(s) => JView::Str(s@),
        JsonValue::Array(xs) => JView::Array(
            Seq::new(
                xs@.len(),
                |i: int|
                    if 0 <= i < xs@.len() {
                        proof {
                            assert(decreases_to!(xs => xs@));
                            assert(decreases_to!(xs@ => xs@[i]));
                        }
                        jview(xs@[i])
                    } else {
                        JView::Null
                    },
            ),
        ),
        JsonValue::Object(es) => JView::Object(
            Seq::new(
                es@.len(),
                |i: int|
                    if 0 <= i < es@.len() {
                        proof {
                            assert(decreases_to!(es => es@));
                            assert(decreases_to!(es@ => es@[i]));
                            assert(decreases_to!(es@[i] => es@[i].1));
                        }
                        (es@[i].0@, jview(es@[i].1))
                    } else {
                        (Seq::empty(), JView::Null)
                    },
            ),
        ),
    }
}

impl View for JsonValue {
    type V = JView;

    open spec fn view(&self) -> JView {
        jview(*self)
    }
}

/// The mathematical entries of an object held as a vector of entries.
pub open spec fn entries_view(es: Seq<(String, JsonValue)>) -> Seq<JEntry> {
    Seq::new(es.len(), |i: int| (es[i].0@, jview(es[i].1)))
}

/// The view of an object is the view of its entries.
pub proof fn lemma_object_view(es: Vec<(String, JsonValue)>)
    ensures
        jview(JsonValue::Object(es)) == JView::Object(entries_view(es@)),
{
    assert(entries_view(es@) =~= jview(JsonValue::Object(es))->Object_0);
}

/// The entries view after replacing one entry.
pub proof fn lemma_entries_view_update(v: Seq<(String, JsonValue)>, j: int, e: (String, JsonValue))
    requires
        0 <= j < v.len(),
    ensures
        entries_view(v.update(j, e)) == entries_view(v).update(j, (e.0@, jview(e.1))),
{
    assert(entries_view(v.update(j, e)) =~= entries_view(v).update(j, (e.0@, jview(e.1))));
}

/// The entries view after inserting one entry.
pub proof fn lemma_entries_view_insert(v: Seq<(String, JsonValue)>, j: int, e: (String, JsonValue))
    requires
        0 <= j <= v.len(),
    ensures
        entries_view(v.insert(j, e)) == entries_view(v).insert(j, (e.0@, jview(e.1))),
{
    assert(entries_view(v.insert(j, e)) =~= entries_view(v).insert(j, (e.0@, jview(e.1))));
}

/// Whether a bit pattern is that of `0.0` or `-0.0`.
pub open spec fn is_zero_bits(x: u64) -> bool {
    x == 0 || x == 0x8000_0000_0000_0000u64
}

/// Whether a bit pattern is that of a finite double.
pub open spec fn is_finite_bits(x: u64) -> bool {
    x & 0x7ff0_0000_0000_0000u64 != 0x7ff0_0000_0000_0000u64
}

/// Equality of JSON numbers: integers by value within their kind, doubles by
/// value (so `0.0` equals `-0.0`).
pub open spec fn num_eq(a: JsonNumber, b: JsonNumber) -> bool {
    match a {
        JsonNumber::PosInt(x) => b matches JsonNumber::PosInt(y) && x == y,
        JsonNumber::NegInt(x) => b matches JsonNumber::NegInt(y) && x == y,
        JsonNumber::Float(x) => b matches JsonNumber::Float(y) && (x == y || (is_zero_bits(x)
            && is_zero_bits(y))),
    }
}

/// Equality of JSON values: arrays element by element, objects entry by entry.
pub open spec fn jeq(a: JView, b: JView) -> bool
    decreases a,
{
    match a {
        JView::Null => b is Null,
        JView::Bool(x) => b matches JView::Bool(y) && x == y,
        JView::Number(x) => b matches JView::Number(y) && num_eq(x, y),
        JView::Str(x) => b matches JView::Str(y) && x == y,
        JView::Array(xs) => match b {
            JView::Array(ys) => jeq_items(xs, ys),
            _ => false,
        },
        JView::Object(xs) => match b {
            JView::Object(ys) => jeq_entries(xs, ys),
            _ => false,
        },
    }
}

/// Element-wise equality of two arrays.
pub open spec fn jeq_items(xs: Seq<JView>, ys: Seq<JView>) -> bool
    decreases xs,
{
    if xs.len() == 0 {
        ys.len() == 0
    } else {
        ys.len() > 0 && jeq_items(xs.drop_last(), ys.drop_last()) && jeq(xs.last(), ys.last())
    }
}

/// Entry-wise equality of two objects.
pub open spec fn jeq_entries(xs: Seq<JEntry>, ys: Seq<JEntry>) -> bool
    decreases xs,
{
    if xs.len() == 0 {
        ys.len() == 0
    } else {
        ys.len() > 0 && jeq_entries(xs.drop_last(), ys.drop_last()) && xs.last().0 == ys.last().0
            && jeq(xs.last().1, ys.last().1)
    }
}

/// Array equality, element by element.
pub proof fn lemma_jeq_items(xs: Seq<JView>, ys: Seq<JView>)
    ensures
        jeq_items(xs, ys) == (xs.len() == ys.len() && forall|i: int|
            0 <= i < xs.len() ==> #[trigger] jeq(xs[i], ys[i])),
    decreases xs.len(),
{
    if xs.len() > 0 && ys.len() > 0 {
        lemma_jeq_items(xs.drop_last(), ys.drop_last());
        if xs.len() == ys.len() && (forall|i: int| 0 <= i < xs.len() ==> #[trigger] jeq(xs[i], ys[i])) {
            assert forall|i: int| 0 <= i < xs.drop_last().len() implies #[trigger] jeq(
                xs.drop_last()[i],
                ys.drop_last()[i],
            ) by {
                assert(jeq(xs[i], ys[i]));
            }
            assert(jeq(xs[xs.len() - 1], ys[ys.len() - 1]));
        }
        if jeq_items(xs, ys) {
            assert forall|i: int| 0 <= i < xs.len() implies #[trigger] jeq(xs[i], ys[i]) by {
                if i < xs.len() - 1 {
                    assert(jeq(xs.drop_last()[i], ys.drop_last()[i]));
                }
            }
        }
    }
}

/// Whether the entries at position `i` of two objects are equal.
pub open spec fn entry_eq_at(xs: Seq<JEntry>, ys: Seq<JEntry>, i: int) -> bool {
    xs[i].0 == ys[i].0 && jeq(xs[i].1, ys[i].1)
}

/// Object equality, entry by entry.
pub proof fn lemma_jeq_entries(xs: Seq<JEntry>, ys: Seq<JEntry>)
    ensures
        jeq_entries(xs, ys) == (xs.len() == ys.len() && forall|i: int|
            0 <= i < xs.len() ==> #[trigger] entry_eq_at(xs, ys, i)),
    decreases xs.len(),
{
    if xs.len() > 0 && ys.len() > 0 {
        let xd = xs.drop_last();
        let yd = ys.drop_last();
        lemma_jeq_entries(xd, yd);
        if xs.len() == ys.len() && (forall|i: int| 0 <= i < xs.len() ==> #[trigger] entry_eq_at(xs, ys, i)) {
            assert forall|i: int| 0 <= i < xd.len() implies #[trigger] entry_eq_at(xd, yd, i) by {
                assert(entry_eq_at(xs, ys, i));
            }
            assert(entry_eq_at(xs, ys, xs.len() - 1));
        }
        if jeq_entries(xs, ys) {
            assert forall|i: int| 0 <= i < xs.len() implies #[trigger] entry_eq_at(xs, ys, i) by {
                if i < xs.len() - 1 {
                    assert(entry_eq_at(xd, yd, i));
                }
            }
        }
    }
}

/// Every JSON value equals itself.
pub proof fn lemma_jeq_refl(a: JView)
    ensures
        jeq(a, a),
    decreases a,
{
    match a {
        JView::Array(xs) => {
            assert forall|i: int| 0 <= i < xs.len() implies #[trigger] jeq(xs[i], xs[i]) by {
                assert(decreases_to!(a => xs));
                assert(decreases_to!(xs => xs[i]));
                lemma_jeq_refl(xs[i]);
            }
            lemma_jeq_items(xs, xs);
        },
        JView::Object(es) => {
            assert forall|i: int| 0 <= i < es.len() implies #[trigger] entry_eq_at(es, es, i) by {
                assert(decreases_to!(a => es));
                assert(decreases_to!(es => es[i]));
                assert(decreases_to!(es[i] => es[i].1));
                lemma_jeq_refl(es[i].1);
            }
            lemma_jeq_entries(es, es);
        },
        _ => {},
    }
}

/// Lexicographic order of keys by character code, which is the byte order of
/// their UTF-8 text.
pub open spec fn key_lt(a: Seq<char>, b: Seq<char>) -> bool
    decreases a.len(),
{
    if a.len() == 0 {
        b.len() > 0
    } else if b.len() == 0 {
        false
    } else if a[0] == b[0] {
        key_lt(a.drop_first(), b.drop_first())
    } else {
        a[0] < b[0]
    }
}

/// Whether a number is held in its canonical form.
pub open spec fn number_wf(n: JsonNumber) -> bool {
    match n {
        JsonNumber::PosInt(_) => true,
        JsonNumber::NegInt(x) => x < 0,
        JsonNumber::Float(x) => is_finite_bits(x),
    }
}

/// Whether object keys strictly ascend.
pub open spec fn keys_ascending(es: Seq<JEntry>) -> bool {
    forall|i: int, j: int| 0 <= i < j < es.len() ==> key_lt(#[trigger] es[i].0, #[trigger] es[j].0)
}

/// Well-formedness: numbers canonical, object keys strictly ascending, at
/// every depth.
pub open spec fn wf(v: JView) -> bool
    decreases v,
{
    match v {
        JView::Number(n) => number_wf(n),
        JView::Array(xs) => wf_items(xs),
        JView::Object(es) => keys_ascending(es) && wf_values(es),
        _ => true,
    }
}

/// Every element is well-formed.
pub open spec fn wf_items(xs: Seq<JView>) -> bool
    decreases xs,
{
    xs.len() == 0 || (wf_items(xs.drop_last()) && wf(xs.last()))
}

/// Every entry value is well-formed.
pub open spec fn wf_values(es: Seq<JEntry>) -> bool
    decreases es,
{
    es.len() == 0 || (wf_values(es.drop_last()) && wf(es.last().1))
}

/// Well-formed arrays, element by element.
pub proof fn lemma_wf_items(xs: Seq<JView>)
    ensures
        wf_items(xs) == forall|i: int| 0 <= i < xs.len() ==> #[trigger] wf(xs[i]),
    decreases xs.len(),
{
    if xs.len() > 0 {
        lemma_wf_items(xs.drop_last());
        if forall|i: int| 0 <= i < xs.len() ==> #[trigger] wf(xs[i]) {
            assert forall|i: int| 0 <= i < xs.drop_last().len() implies #[trigger] wf(
                xs.drop_last()[i],
            ) by {
                assert(wf(xs[i]));
            }
            assert(wf(xs[xs.len() - 1]));
        }
        if wf_items(xs) {
            assert forall|i: int| 0 <= i < xs.len() implies #[trigger] wf(xs[i]) by {
                if i < xs.len() - 1 {
                    assert(wf(xs.drop_last()[i]));
                }
            }
        }
    }
}

/// Well-formed entry values, entry by entry.
pub proof fn lemma_wf_values(es: Seq<JEntry>)
    ensures
        wf_values(es) == forall|i: int| 0 <= i < es.len() ==> #[trigger] wf(es[i].1),
    decreases es.len(),
{
    if es.len() > 0 {
        lemma_wf_values(es.drop_last());
        if forall|i: int| 0 <= i < es.len() ==> #[trigger] wf(es[i].1) {
            assert forall|i: int| 0 <= i < es.drop_last().len() implies #[trigger] wf(
                es.drop_last()[i].1,
            ) by {
                assert(wf(es[i].1));
            }
            assert(wf(es[es.len() - 1].1));
        }
        if wf_values(es) {
            assert forall|i: int| 0 <= i < es.len() implies #[trigger] wf(es[i].1) by {
                if i < es.len() - 1 {
                    assert(wf(es.drop_last()[i].1));
                }
            }
        }
    }
}

/// Index of the first element of `s` that satisfies `p`, or `s.len()`.
#[verifier::opaque]
pub open spec fn first_where<A>(s: Seq<A>, p: spec_fn(A) -> bool) -> int {
    if exists|j: int| 0 <= j < s.len() && p(s[j]) {
        choose|j: int| 0 <= j < s.len() && p(s[j]) && forall|i: int| 0 <= i < j ==> !p(s[i])
    } else {
        s.len() as int
    }
}

/// `first_where` is the position before which nothing satisfies `p` and at
/// which something does (or the end).
pub proof fn lemma_first_where<A>(s: Seq<A>, p: spec_fn(A) -> bool, j: int)
    requires
        0 <= j <= s.len(),
        forall|i: int| 0 <= i < j ==> !p(#[trigger] s[i]),
        j < s.len() ==> p(s[j]),
    ensures
        first_where(s, p) == j,
{
    reveal(first_where);
    if j < s.len() {
        let c = choose|c: int| 0 <= c < s.len() && p(s[c]) && forall|i: int| 0 <= i < c ==> !p(s[i]);
        assert(0 <= c < s.len() && p(s[c]) && forall|i: int| 0 <= i < c ==> !p(s[i]));
        if c < j {
            assert(!p(s[c]));
        } else if c > j {
            assert(!p(s[j]));
        }
    } else {
        assert(!exists|k: int| 0 <= k < s.len() && p(s[k])) by {
            assert forall|k: int| 0 <= k < s.len() implies !p(s[k]) by {
                assert(!p(s[k]));
            }
        }
    }
}

/// What `first_where` gives: nothing before it satisfies `p`, and what is at
/// it does, unless it is the end.
pub proof fn lemma_first_where_props<A>(s: Seq<A>, p: spec_fn(A) -> bool)
    ensures
        0 <= first_where(s, p) <= s.len(),
        forall|i: int| 0 <= i < first_where(s, p) ==> !p(#[trigger] s[i]),
        first_where(s, p) < s.len() ==> p(s[first_where(s, p)]),
{
    reveal(first_where);
    if exists|j: int| 0 <= j < s.len() && p(s[j]) {
        let w = choose|j: int| 0 <= j < s.len() && p(s[j]);
        lemma_first_satisfier(s, p, w);
    } else {
        assert forall|i: int| 0 <= i < s.len() implies !p(#[trigger] s[i]) by {
            if p(s[i]) {
                assert(0 <= i < s.len() && p(s[i]));
            }
        }
    }
}

/// If something satisfies `p`, a first such thing does.
proof fn lemma_first_satisfier<A>(s: Seq<A>, p: spec_fn(A) -> bool, w: int)
    requires
        0 <= w < s.len(),
        p(s[w]),
    ensures
        exists|j: int| 0 <= j < s.len() && p(s[j]) && forall|i: int| 0 <= i < j ==> !p(s[i]),
    decreases w,
{
    if exists|i: int| 0 <= i < w && p(s[i]) {
        let v = choose|i: int| 0 <= i < w && p(s[i]);
        lemma_first_satisfier(s, p, v);
    } else {
        assert(forall|i: int| 0 <= i < w ==> !p(s[i]));
    }
}

/// Whether an entry has key `k`.
pub open spec fn has_key(k: Seq<char>) -> spec_fn(JEntry) -> bool {
    |e: JEntry| e.0 == k
}

/// Whether an entry's key does not order before `k`.
pub open spec fn not_before(k: Seq<char>) -> spec_fn(JEntry) -> bool {
    |e: JEntry| !key_lt(e.0, k)
}

/// The position of the entry with key `k`, if there is one.
pub open spec fn key_index(es: Seq<JEntry>, k: Seq<char>) -> Option<int> {
    let j = first_where(es, has_key(k));
    if j < es.len() {
        Some(j)
    } else {
        None
    }
}

/// The position at which an entry with key `k` goes: after every leading
/// entry whose key is smaller.
pub open spec fn insert_pos(es: Seq<JEntry>, k: Seq<char>) -> int {
    first_where(es, not_before(k))
}

/// `es` with the entry `(k, v)` put in its place by key.
pub open spec fn insert_entry(es: Seq<JEntry>, k: Seq<char>, v: JView) -> Seq<JEntry> {
    es.insert(insert_pos(es, k), (k, v))
}

/// Which keys an ordered object holds before and after the position where
/// `k` goes, when `k` is not among them.
pub proof fn lemma_insert_pos_order(es: Seq<JEntry>, k: Seq<char>)
    requires
        keys_ascending(es),
        key_index(es, k) is None,
    ensures
        0 <= insert_pos(es, k) <= es.len(),
        forall|i: int| 0 <= i < insert_pos(es, k) ==> key_lt(#[trigger] es[i].0, k),
        forall|i: int| insert_pos(es, k) <= i < es.len() ==> key_lt(k, #[trigger] es[i].0),
{
    let pos = insert_pos(es, k);
    lemma_first_where_props(es, not_before(k));
    lemma_first_where_props(es, has_key(k));
    assert forall|i: int| pos <= i < es.len() implies key_lt(k, #[trigger] es[i].0) by {
        assert(not_before(k)(es[pos]));
        assert(!has_key(k)(es[pos]));
        lemma_key_lt_total(es[pos].0, k);
        if i > pos {
            assert(key_lt(es[pos].0, es[i].0));
            lemma_key_lt_transitive(k, es[pos].0, es[i].0);
        }
    }
}

/// Putting a new key in its place keeps an object's keys ascending.
pub proof fn lemma_insert_entry_ascending(es: Seq<JEntry>, k: Seq<char>, v: JView)
    requires
        keys_ascending(es),
        key_index(es, k) is None,
    ensures
        keys_ascending(insert_entry(es, k, v)),
{
    lemma_insert_pos_order(es, k);
    let pos = insert_pos(es, k);
    let r = insert_entry(es, k, v);
    assert forall|i: int, j: int| 0 <= i < j < r.len() implies key_lt(#[trigger] r[i].0, #[trigger] r[j].0) by {
        if i < pos && j < pos {
            assert(r[i] == es[i] && r[j] == es[j]);
        } else if i < pos && j == pos {
            assert(r[i] == es[i]);
        } else if i < pos {
            assert(r[i] == es[i] && r[j] == es[j - 1]);
            lemma_key_lt_transitive(es[i].0, k, es[j - 1].0);
        } else if i == pos {
            assert(r[j] == es[j - 1]);
        } else {
            assert(r[i] == es[i - 1] && r[j] == es[j - 1]);
        }
    }
}

/// No key orders before itself.
pub proof fn lemma_key_lt_irreflexive(a: Seq<char>)
    ensures
        !key_lt(a, a),
    decreases a.len(),
{
    if a.len() > 0 {
        lemma_key_lt_irreflexive(a.drop_first());
    }
}

/// Key order is transitive.
pub proof fn lemma_key_lt_transitive(a: Seq<char>, b: Seq<char>, c: Seq<char>)
    requires
        key_lt(a, b),
        key_lt(b, c),
    ensures
        key_lt(a, c),
    decreases a.len(),
{
    if a.len() > 0 && b.len() > 0 && c.len() > 0 && a[0] == b[0] && b[0] == c[0] {
        lemma_key_lt_transitive(a.drop_first(), b.drop_first(), c.drop_first());
    }
}

/// Of two different keys, one orders before the other.
pub proof fn lemma_key_lt_total(a: Seq<char>, b: Seq<char>)
    ensures
        key_lt(a, b) || a == b || key_lt(b, a),
    decreases a.len(),
{
    if a.len() > 0 && b.len() > 0 {
        if a[0] == b[0] {
            lemma_key_lt_total(a.drop_first(), b.drop_first());
            if a.drop_first() == b.drop_first() {
                assert(a =~= seq![a[0]] + a.drop_first());
                assert(b =~= seq![b[0]] + b.drop_first());
            }
        }
    } else if a.len() == 0 && b.len() == 0 {
        assert(a =~= b);
    }
}

/// `key_lt` over the suffixes after a common prefix.
proof fn lemma_key_lt_skip(a: Seq<char>, b: Seq<char>, i: int)
    requires
        0 <= i < a.len(),
        i < b.len(),
        a[i] == b[i],
    ensures
        key_lt(a.skip(i), b.skip(i)) == key_lt(a.skip(i + 1), b.skip(i + 1)),
{
    assert(a.skip(i).drop_first() =~= a.skip(i + 1));
    assert(b.skip(i).drop_first() =~= b.skip(i + 1));
}

/// Whether key `a` orders before key `b`.
pub fn key_less(a: &str, b: &str) -> (r: bool)
    ensures
        r == key_lt(a@, b@),
{
    let x = chars_of(a);
    let y = chars_of(b);
    let mut i: usize = 0;
    proof {
        assert(x@.skip(0) =~= x@);
        assert(y@.skip(0) =~= y@);
    }
    while i < x.len() && i < y.len()
        invariant
            x@ == a@,
            y@ == b@,
            i <= x.len(),
            i <= y.len(),
            key_lt(x@.skip(i as int), y@.skip(i as int)) == key_lt(a@, b@),
        decreases x.len() - i,
    {
        proof {
            assert(x@.skip(i as int)[0] == x@[i as int]);
            assert(y@.skip(i as int)[0] == y@[i as int]);
        }
        if x[i] != y[i] {
            let r = x[i] < y[i];
            return r;
        }
        proof {
            lemma_key_lt_skip(x@, y@, i as int);
        }
        i = i + 1;
    }
    i == x.len() && i < y.len()
}

/// Whether two numbers are equal as JSON numbers.
pub fn number_eq(a: JsonNumber, b: JsonNumber) -> (r: bool)
    ensures
        r == num_eq(a, b),
{
    match a {
        JsonNumber::PosInt(x) => match b {
            JsonNumber::PosInt(y) => x == y,
            _ => false,
        },
        JsonNumber::NegInt(x) => match b {
            JsonNumber::NegInt(y) => x == y,
            _ => false,
        },
        JsonNumber::Float(x) => match b {
            JsonNumber::Float(y) => x == y || ((x == 0 || x == 0x8000_0000_0000_0000u64) && (y == 0
                || y == 0x8000_0000_0000_0000u64)),
            _ => false,
        },
    }
}

/// Whether two values are equal as JSON values.
pub fn json_eq(a: &JsonValue, b: &JsonValue) -> (r: bool)
    ensures
        r == jeq(a@, b@),
    decreases a,
{
    match a {
        JsonValue::Null => match b {
            JsonValue::Null => true,
            _ => false,
        },
        JsonValue::Bool(x) => match b {
            JsonValue::Bool(y) => *x == *y,
            _ => false,
        },
        JsonValue::Number(x) => match b {
            JsonValue::Number(y) => number_eq(*x, *y),
            _ => false,
        },
        JsonValue::String(x) => match b {
            JsonValue::String(y) => str_eq(x.as_str(), y.as_str()),
            _ => false,
        },
        JsonValue::Array(xs) => match b {
            JsonValue::Array(ys) => {
                let ghost av = a@->Array_0;
                let ghost bv = b@->Array_0;
                if xs.len() != ys.len() {
                    proof { lemma_jeq_items(av, bv); }
                    return false;
                }
                let mut i: usize = 0;
                proof {
                    assert(av.take(0) =~= Seq::<JView>::empty());
                    assert(bv.take(0) =~= Seq::<JView>::empty());
                }
                while i < xs.len()
                    invariant
                        xs.len() == ys.len(),
                        i <= xs.len(),
                        *a == JsonValue::Array(*xs),
                        *b == JsonValue::Array(*ys),
                        av == a@->Array_0,
                        bv == b@->Array_0,
                        jeq_items(av.take(i as int), bv.take(i as int)),
                    decreases xs.len() - i,
                {
                    proof {
                        assert(decreases_to!(*a => *xs));
                        assert(decreases_to!(*xs => xs@));
                        assert(decreases_to!(xs@ => xs@[i as int]));
                    }
                    let same = json_eq(&xs[i], &ys[i]);
                    if !same {
                        assert(av[i as int] == jview(xs@[i as int]));
                        assert(bv[i as int] == jview(ys@[i as int]));
                        assert(!jeq(av[i as int], bv[i as int]));
                        proof { lemma_jeq_items(av, bv); }
                        return false;
                    }
                    proof {
                        assert(av.take(i + 1).drop_last() =~= av.take(i as int));
                        assert(bv.take(i + 1).drop_last() =~= bv.take(i as int));
                    }
                    i = i + 1;
                }
                proof {
                    assert(av.take(i as int) =~= av);
                    assert(bv.take(i as int) =~= bv);
                }
                true
            },
            _ => false,
        },
        JsonValue::Object(xs) => match b {
            JsonValue::Object(ys) => {
                let ghost av = a@->Object_0;
                let ghost bv = b@->Object_0;
                if xs.len() != ys.len() {
                    proof { lemma_jeq_entries(av, bv); }
                    return false;
                }
                let mut i: usize = 0;
                proof {
                    assert(av.take(0) =~= Seq::<JEntry>::empty());
                    assert(bv.take(0) =~= Seq::<JEntry>::empty());
                }
                while i < xs.len()
                    invariant
                        xs.len() == ys.len(),
                        i <= xs.len(),
                        *a == JsonValue::Object(*xs),
                        *b == JsonValue::Object(*ys),
                        av == a@->Object_0,
                        bv == b@->Object_0,
                        jeq_entries(av.take(i as int), bv.take(i as int)),
                    decreases xs.len() - i,
                {
                    proof {
                        assert(decreases_to!(*a => *xs));
                        assert(decreases_to!(*xs => xs@));
                        assert(decreases_to!(xs@ => xs@[i as int]));
                        assert(decreases_to!(xs@[i as int] => xs@[i as int].1));
                    }
                    if !str_eq(xs[i].0.as_str(), ys[i].0.as_str()) {
                        assert(av[i as int].0 == xs@[i as int].0@);
                        assert(bv[i as int].0 == ys@[i as int].0@);
                        assert(!entry_eq_at(av, bv, i as int));
                        proof { lemma_jeq_entries(av, bv); }
                        return false;
                    }
                    let same = json_eq(&xs[i].1, &ys[i].1);
                    if !same {
                        assert(av[i as int].1 == jview(xs@[i as int].1));
                        assert(bv[i as int].1 == jview(ys@[i as int].1));
                        assert(!entry_eq_at(av, bv, i as int));
                        proof { lemma_jeq_entries(av, bv); }
                        return false;
                    }
                    proof {
                        assert(av.take(i + 1).drop_last() =~= av.take(i as int));
                        assert(bv.take(i + 1).drop_last() =~= bv.take(i as int));
                    }
                    i = i + 1;
                }
                proof {
                    assert(av.take(i as int) =~= av);
                    assert(bv.take(i as int) =~= bv);
                }
                true
            },
            _ => false,
        },
    }
}

/// The position of the entry with key `k` in `es`, if there is one.
pub fn find_key(es: &Vec<(String, JsonValue)>, k: &str) -> (r: Option<usize>)
    ensures
        r matches Some(j) ==> key_index(entries_view(es@), k@) == Some(j as int),
        r is None ==> key_index(entries_view(es@), k@) is None,
{
    let ghost ev = entries_view(es@);
    let ghost p = has_key(k@);
    let mut i: usize = 0;
    while i < es.len()
        invariant
            i <= es.len(),
            ev == entries_view(es@),
            p == has_key(k@),
            forall|j: int| 0 <= j < i ==> !p(#[trigger] ev[j]),
        decreases es.len() - i,
    {
        if str_eq(es[i].0.as_str(), k) {
            proof {
                lemma_first_where(ev, p, i as int);
            }
            return Some(i);
        }
        i = i + 1;
    }
    proof {
        lemma_first_where(ev, p, i as int);
    }
    None
}

/// The position at which an entry with key `k` goes in `es`.
pub fn insert_position(es: &Vec<(String, JsonValue)>, k: &str) -> (r: usize)
    ensures
        r == insert_pos(entries_view(es@), k@),
        r <= es.len(),
{
    let ghost ev = entries_view(es@);
    let ghost p = not_before(k@);
    let mut i: usize = 0;
    while i < es.len()
        invariant
            i <= es.len(),
            ev == entries_view(es@),
            p == not_before(k@),
            forall|j: int| 0 <= j < i ==> !p(#[trigger] ev[j]),
        decreases es.len() - i,
    {
        if !key_less(es[i].0.as_str(), k) {
            proof {
                lemma_first_where(ev, p, i as int);
            }
            return i;
        }
        i = i + 1;
    }
    proof {
        lemma_first_where(ev, p, i as int);
    }
    i
}

} // verus!
