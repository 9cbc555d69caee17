//! Merging parameter values does not depend on the order of the two values:
//! a merge succeeds in one order exactly when it succeeds in the other, and
//! then gives equal values.

use vstd::prelude::*;
use crate::capture_parameter::{lemma_merge_wf_entries, merged, merged_entries};
use crate::json::{
    entry_eq_at, has_key, insert_entry, insert_pos, jeq, jeq_entries, key_index, key_lt,
    keys_ascending, lemma_first_where, lemma_first_where_props, lemma_insert_entry_ascending,
    lemma_insert_pos_order, lemma_jeq_entries, lemma_jeq_items, lemma_key_lt_irreflexive,
    lemma_key_lt_transitive, lemma_wf_values, wf, wf_values, JEntry, JView,
};

verus! {

/// The value under `k` in the entries, if the key is there.
pub open spec fn lookup(es: Seq<JEntry>, k: Seq<char>) -> Option<JView> {
    match key_index(es, k) {
        Some(j) => Some(es[j].1),
        None => None,
    }
}

/// Where `key_index` points: at an entry with the key, or nowhere when no
/// entry has it.
proof fn lemma_key_index(es: Seq<JEntry>, k: Seq<char>)
    ensures
        match key_index(es, k) {
            Some(j) => 0 <= j < es.len() && es[j].0 == k,
            None => forall|j: int| 0 <= j < es.len() ==> es[j].0 != k,
        },
{
    lemma_first_where_props(es, has_key(k));
    if key_index(es, k) is None {
        assert forall|j: int| 0 <= j < es.len() implies es[j].0 != k by {
            assert(!has_key(k)(es[j]));
        }
    }
}

/// In ordered entries, the value under the key of entry `j` is that entry's.
proof fn lemma_lookup_at(es: Seq<JEntry>, j: int)
    requires
        keys_ascending(es),
        0 <= j < es.len(),
    ensures
        lookup(es, es[j].0) == Some(es[j].1),
{
    let k = es[j].0;
    assert forall|i: int| 0 <= i < j implies !has_key(k)(#[trigger] es[i]) by {
        assert(key_lt(es[i].0, es[j].0));
        lemma_key_lt_irreflexive(k);
    }
    lemma_first_where(es, has_key(k), j);
}

/// A key that no entry has has no value.
proof fn lemma_lookup_absent(es: Seq<JEntry>, k: Seq<char>)
    requires
        forall|j: int| 0 <= j < es.len() ==> es[j].0 != k,
    ensures
        lookup(es, k) is None,
{
    lemma_key_index(es, k);
}

/// The value of a key in ordered entries: that of the entry with the key,
/// if some entry has it.
proof fn lemma_lookup(es: Seq<JEntry>, k: Seq<char>)
    requires
        keys_ascending(es),
    ensures
        lookup(es, k) is Some <==> exists|j: int| 0 <= j < es.len() && es[j].0 == k,
        forall|j: int| 0 <= j < es.len() && es[j].0 == k ==> lookup(es, k) == Some(es[j].1),
{
    lemma_key_index(es, k);
    assert forall|j: int| 0 <= j < es.len() && es[j].0 == k implies lookup(es, k) == Some(es[j].1) by {
        lemma_lookup_at(es, j);
    }
}

/// Replacing the value of entry `j` changes the value under its key only.
proof fn lemma_lookup_update(es: Seq<JEntry>, j: int, v: JView, k: Seq<char>)
    requires
        keys_ascending(es),
        0 <= j < es.len(),
    ensures
        keys_ascending(es.update(j, (es[j].0, v))),
        lookup(es.update(j, (es[j].0, v)), k) == if k == es[j].0 {
            Some(v)
        } else {
            lookup(es, k)
        },
{
    let r = es.update(j, (es[j].0, v));
    assert forall|a: int, b: int| 0 <= a < b < r.len() implies key_lt(#[trigger] r[a].0, #[trigger] r[b].0) by {
        assert(r[a].0 == es[a].0 && r[b].0 == es[b].0);
    }
    lemma_lookup(es, k);
    lemma_lookup(r, k);
    if k == es[j].0 {
        lemma_lookup_at(r, j);
    } else if lookup(es, k) is Some {
        let i = choose|i: int| 0 <= i < es.len() && es[i].0 == k;
        assert(r[i] == es[i]);
    } else {
        assert forall|i: int| 0 <= i < r.len() implies r[i].0 != k by {
            if r[i].0 == k {
                assert(es[i].0 == k);
            }
        }
    }
}

/// Putting a new key in its place adds its value and changes no other.
proof fn lemma_lookup_insert(es: Seq<JEntry>, kb: Seq<char>, v: JView, k: Seq<char>)
    requires
        keys_ascending(es),
        key_index(es, kb) is None,
    ensures
        keys_ascending(insert_entry(es, kb, v)),
        lookup(insert_entry(es, kb, v), k) == if k == kb {
            Some(v)
        } else {
            lookup(es, k)
        },
{
    lemma_insert_entry_ascending(es, kb, v);
    lemma_insert_pos_order(es, kb);
    let pos = insert_pos(es, kb);
    let r = insert_entry(es, kb, v);
    lemma_lookup(es, k);
    lemma_lookup(r, k);
    if k == kb {
        assert(r[pos] == (kb, v));
        lemma_lookup_at(r, pos);
    } else if lookup(es, k) is Some {
        let i = choose|i: int| 0 <= i < es.len() && es[i].0 == k;
        if i < pos {
            assert(r[i] == es[i]);
        } else {
            assert(r[i + 1] == es[i]);
        }
    } else {
        assert forall|i: int| 0 <= i < r.len() implies r[i].0 != k by {
            if i < pos {
                assert(r[i] == es[i]);
            } else if i > pos {
                assert(r[i] == es[i - 1]);
            }
        }
    }
}

/// The first `n + 1` entries of ordered entries hold what the first `n` do,
/// and entry `n` besides.
proof fn lemma_lookup_take(es: Seq<JEntry>, n: int, k: Seq<char>)
    requires
        keys_ascending(es),
        0 <= n < es.len(),
    ensures
        keys_ascending(es.take(n)),
        keys_ascending(es.take(n + 1)),
        lookup(es.take(n + 1), k) == if k == es[n].0 {
            Some(es[n].1)
        } else {
            lookup(es.take(n), k)
        },
        k == es[n].0 ==> lookup(es.take(n), k) is None,
{
    let a = es.take(n);
    let b = es.take(n + 1);
    assert forall|i: int, j: int| 0 <= i < j < a.len() implies key_lt(#[trigger] a[i].0, #[trigger] a[j].0) by {
        assert(a[i] == es[i] && a[j] == es[j]);
    }
    assert forall|i: int, j: int| 0 <= i < j < b.len() implies key_lt(#[trigger] b[i].0, #[trigger] b[j].0) by {
        assert(b[i] == es[i] && b[j] == es[j]);
    }
    lemma_lookup(a, k);
    lemma_lookup(b, k);
    if k == es[n].0 {
        assert(b[n] == es[n]);
        lemma_lookup_at(b, n);
        assert forall|i: int| 0 <= i < a.len() implies a[i].0 != k by {
            assert(a[i] == es[i]);
            assert(key_lt(es[i].0, es[n].0));
            lemma_key_lt_irreflexive(k);
        }
    } else if lookup(a, k) is Some {
        let i = choose|i: int| 0 <= i < a.len() && a[i].0 == k;
        assert(b[i] == a[i]);
    } else {
        assert forall|i: int| 0 <= i < b.len() implies b[i].0 != k by {
            if i < n {
                assert(b[i] == a[i]);
            }
        }
    }
}

/// What merging gives under a key, from the values the two sides hold there.
pub open spec fn combined(ea: Seq<JEntry>, eb: Seq<JEntry>, k: Seq<char>, path: Seq<Seq<char>>) -> Option<JView> {
    match (lookup(ea, k), lookup(eb, k)) {
        (Some(x), Some(y)) => Some(merged(x, y, path.push(k)).0),
        (Some(x), None) => Some(x),
        (None, y) => y,
    }
}

/// Whether both sides hold `k` and their values there conflict.
pub open spec fn clashes(ea: Seq<JEntry>, eb: Seq<JEntry>, k: Seq<char>, path: Seq<Seq<char>>) -> bool {
    &&& lookup(ea, k) is Some
    &&& lookup(eb, k) is Some
    &&& merged(lookup(ea, k)->Some_0, lookup(eb, k)->Some_0, path.push(k)).1 is Some
}

/// What merging the first `n` entries of `eb` into `ea` gives: without a
/// conflict, ordered entries holding under each key what `combined` says;
/// with one, a key under which the two sides clash.
pub open spec fn merge_inv(ea: Seq<JEntry>, eb: Seq<JEntry>, n: int, path: Seq<Seq<char>>) -> bool {
    let r = merged_entries(ea, eb, n, path);
    match r.1 {
        None => {
            &&& keys_ascending(r.0)
            &&& forall|k: Seq<char>| #[trigger] lookup(r.0, k) == combined(ea, eb.take(n), k, path)
            &&& forall|k: Seq<char>| !#[trigger] clashes(ea, eb.take(n), k, path)
        },
        Some(_) => exists|k: Seq<char>| #[trigger] clashes(ea, eb.take(n), k, path),
    }
}

/// Merging entries, one entry of `eb` at a time, keeps `merge_inv`.
#[verifier::rlimit(60)]
proof fn lemma_merge_inv(ea: Seq<JEntry>, eb: Seq<JEntry>, n: int, path: Seq<Seq<char>>)
    requires
        keys_ascending(ea),
        wf_values(ea),
        keys_ascending(eb),
        wf_values(eb),
        0 <= n <= eb.len(),
    ensures
        merge_inv(ea, eb, n, path),
    decreases n,
{
    if n == 0 {
        assert(eb.take(0) =~= Seq::<JEntry>::empty());
        assert forall|k: Seq<char>| #[trigger] lookup(ea, k) == combined(ea, eb.take(0), k, path) by {
            lemma_lookup_absent(eb.take(0), k);
        }
        assert forall|k: Seq<char>| !#[trigger] clashes(ea, eb.take(0), k, path) by {
            lemma_lookup_absent(eb.take(0), k);
        }
    } else {
        lemma_merge_inv(ea, eb, n - 1, path);
        lemma_merge_wf_entries(ea, eb, n, path);
        let prev = merged_entries(ea, eb, n - 1, path);
        let kb = eb[n - 1].0;
        let vb = eb[n - 1].1;
        let before = eb.take(n - 1);
        let now = eb.take(n);
        assert forall|k: Seq<char>| #[trigger] lookup(now, k) == (if k == kb {
            Some(vb)
        } else {
            lookup(before, k)
        }) by {
            lemma_lookup_take(eb, n - 1, k);
        }
        lemma_lookup_take(eb, n - 1, kb);
        if prev.1 is Some {
            let k = choose|k: Seq<char>| #[trigger] clashes(ea, before, k, path);
            assert(lookup(now, k) == lookup(before, k));
            assert(clashes(ea, now, k, path));
        } else {
            match key_index(prev.0, kb) {
                Some(j) => {
                    lemma_key_index(prev.0, kb);
                    lemma_lookup_at(prev.0, j);
                    assert(lookup(prev.0, kb) == combined(ea, before, kb, path));
                    let x = prev.0[j].1;
                    assert(lookup(ea, kb) == Some(x));
                    let m = merged(x, vb, path.push(kb));
                    assert(merged_entries(ea, eb, n, path) == (prev.0.update(j, (prev.0[j].0, m.0)), m.1));
                    if m.1 is Some {
                        assert(clashes(ea, now, kb, path));
                    } else {
                        let r = prev.0.update(j, (prev.0[j].0, m.0));
                        assert forall|k: Seq<char>| #[trigger] lookup(r, k) == combined(ea, now, k, path) by {
                            lemma_lookup_update(prev.0, j, m.0, k);
                            assert(lookup(prev.0, k) == combined(ea, before, k, path));
                        }
                        assert forall|k: Seq<char>| !#[trigger] clashes(ea, now, k, path) by {
                            if k != kb {
                                assert(!clashes(ea, before, k, path));
                            }
                        }
                    }
                },
                None => {
                    lemma_key_index(prev.0, kb);
                    lemma_lookup_absent(prev.0, kb);
                    assert(lookup(prev.0, kb) == combined(ea, before, kb, path));
                    assert(lookup(ea, kb) is None);
                    let r = insert_entry(prev.0, kb, vb);
                    assert(merged_entries(ea, eb, n, path) == (r, None::<Seq<Seq<char>>>));
                    assert forall|k: Seq<char>| #[trigger] lookup(r, k) == combined(ea, now, k, path) by {
                        lemma_lookup_insert(prev.0, kb, vb, k);
                        assert(lookup(prev.0, k) == combined(ea, before, k, path));
                    }
                    assert forall|k: Seq<char>| !#[trigger] clashes(ea, now, k, path) by {
                        if k != kb {
                            assert(!clashes(ea, before, k, path));
                        }
                    }
                },
            }
        }
    }
}

/// Dropping the last of ordered entries drops the value under its key only.
proof fn lemma_lookup_drop_last(es: Seq<JEntry>, k: Seq<char>)
    requires
        keys_ascending(es),
        es.len() > 0,
    ensures
        keys_ascending(es.drop_last()),
        lookup(es.drop_last(), k) == if k == es.last().0 {
            None
        } else {
            lookup(es, k)
        },
{
    let d = es.drop_last();
    assert forall|i: int, j: int| 0 <= i < j < d.len() implies key_lt(#[trigger] d[i].0, #[trigger] d[j].0) by {
        assert(d[i] == es[i] && d[j] == es[j]);
    }
    lemma_lookup(es, k);
    lemma_lookup(d, k);
    if k == es.last().0 {
        assert forall|i: int| 0 <= i < d.len() implies d[i].0 != k by {
            assert(key_lt(es[i].0, es[es.len() - 1].0));
            lemma_key_lt_irreflexive(k);
        }
    } else if lookup(es, k) is Some {
        let i = choose|i: int| 0 <= i < es.len() && es[i].0 == k;
        assert(i < d.len());
        assert(d[i] == es[i]);
    } else {
        assert forall|i: int| 0 <= i < d.len() implies d[i].0 != k by {
            assert(d[i] == es[i]);
        }
    }
}

/// Ordered entries that hold the same keys, with equal values under each,
/// are equal entry by entry.
proof fn lemma_same_lookups_jeq(r1: Seq<JEntry>, r2: Seq<JEntry>)
    requires
        keys_ascending(r1),
        keys_ascending(r2),
        forall|k: Seq<char>| (#[trigger] lookup(r1, k) is Some) <==> lookup(r2, k) is Some,
        forall|k: Seq<char>| #[trigger] lookup(r1, k) is Some ==> jeq(lookup(r1, k)->Some_0, lookup(r2, k)->Some_0),
    ensures
        jeq_entries(r1, r2),
    decreases r1.len(),
{
    if r1.len() == 0 {
        if r2.len() > 0 {
            lemma_lookup_at(r2, 0);
            lemma_lookup_absent(r1, r2[0].0);
            assert(lookup(r1, r2[0].0) is None);
        }
    } else {
        let k1 = r1.last().0;
        lemma_lookup_at(r1, r1.len() - 1);
        assert(lookup(r1, k1) is Some);
        assert(lookup(r2, k1) is Some);
        lemma_lookup(r2, k1);
        let j2 = choose|j: int| 0 <= j < r2.len() && r2[j].0 == k1;
        if j2 < r2.len() - 1 {
            let k2 = r2.last().0;
            assert(key_lt(r2[j2].0, r2[r2.len() - 1].0));
            lemma_lookup_at(r2, r2.len() - 1);
            assert(lookup(r2, k2) is Some);
            assert(lookup(r1, k2) is Some);
            lemma_lookup(r1, k2);
            let i = choose|i: int| 0 <= i < r1.len() && r1[i].0 == k2;
            if i < r1.len() - 1 {
                assert(key_lt(r1[i].0, r1[r1.len() - 1].0));
                lemma_key_lt_transitive(k1, k2, k1);
            }
            lemma_key_lt_irreflexive(k1);
        }
        assert(r2.len() > 0 && r2.last().0 == k1);
        lemma_lookup_at(r2, r2.len() - 1);
        let d1 = r1.drop_last();
        let d2 = r2.drop_last();
        assert forall|k: Seq<char>| (#[trigger] lookup(d1, k) is Some) <==> lookup(d2, k) is Some by {
            lemma_lookup_drop_last(r1, k);
            lemma_lookup_drop_last(r2, k);
            assert(lookup(r1, k) is Some <==> lookup(r2, k) is Some);
        }
        assert forall|k: Seq<char>| #[trigger] lookup(d1, k) is Some implies jeq(
            lookup(d1, k)->Some_0,
            lookup(d2, k)->Some_0,
        ) by {
            lemma_lookup_drop_last(r1, k);
            lemma_lookup_drop_last(r2, k);
            assert(lookup(r1, k) is Some);
        }
        lemma_lookup_drop_last(r1, k1);
        lemma_same_lookups_jeq(d1, d2);
        assert(lookup(r1, k1) is Some);
    }
}

/// JSON equality is symmetric.
pub proof fn lemma_jeq_symmetric(a: JView, b: JView)
    requires
        jeq(a, b),
    ensures
        jeq(b, a),
    decreases a,
{
    match a {
        JView::Array(xs) => {
            let ys = b->Array_0;
            lemma_jeq_items(xs, ys);
            assert forall|i: int| 0 <= i < ys.len() implies #[trigger] jeq(ys[i], xs[i]) by {
                assert(jeq(xs[i], ys[i]));
                assert(decreases_to!(a => xs));
                assert(decreases_to!(xs => xs[i]));
                lemma_jeq_symmetric(xs[i], ys[i]);
            }
            lemma_jeq_items(ys, xs);
        },
        JView::Object(xs) => {
            let ys = b->Object_0;
            lemma_jeq_entries(xs, ys);
            assert forall|i: int| 0 <= i < ys.len() implies #[trigger] entry_eq_at(ys, xs, i) by {
                assert(entry_eq_at(xs, ys, i));
                assert(decreases_to!(a => xs));
                assert(decreases_to!(xs => xs[i]));
                assert(decreases_to!(xs[i] => xs[i].1));
                lemma_jeq_symmetric(xs[i].1, ys[i].1);
            }
            lemma_jeq_entries(ys, xs);
        },
        _ => {},
    }
}

/// Merging does not depend on the order of two well-formed values: it
/// succeeds in one order exactly when it succeeds in the other, and then
/// both orders give equal values.
pub proof fn lemma_merge_commutes(a: JView, b: JView, path: Seq<Seq<char>>)
    requires
        wf(a),
        wf(b),
    ensures
        merged(a, b, path).1 is None <==> merged(b, a, path).1 is None,
        merged(a, b, path).1 is None ==> jeq(merged(a, b, path).0, merged(b, a, path).0),
    decreases a,
{
    match (a, b) {
        (JView::Object(ea), JView::Object(eb)) => {
            lemma_merge_inv(ea, eb, eb.len() as int, path);
            lemma_merge_inv(eb, ea, ea.len() as int, path);
            assert(eb.take(eb.len() as int) =~= eb);
            assert(ea.take(ea.len() as int) =~= ea);
            lemma_wf_values(ea);
            lemma_wf_values(eb);
            // Under a key both hold, the two values merge alike in both orders.
            assert forall|k: Seq<char>|
                #![trigger lookup(ea, k), lookup(eb, k)]
                lookup(ea, k) is Some && lookup(eb, k) is Some implies {
                    let x = lookup(ea, k)->Some_0;
                    let y = lookup(eb, k)->Some_0;
                    &&& (merged(x, y, path.push(k)).1 is None <==> merged(y, x, path.push(k)).1 is None)
                    &&& (merged(x, y, path.push(k)).1 is None ==> jeq(
                        merged(x, y, path.push(k)).0,
                        merged(y, x, path.push(k)).0,
                    ))
                } by {
                lemma_lookup(ea, k);
                lemma_lookup(eb, k);
                let i = choose|i: int| 0 <= i < ea.len() && ea[i].0 == k;
                let j = choose|j: int| 0 <= j < eb.len() && eb[j].0 == k;
                assert(wf(ea[i].1));
                assert(wf(eb[j].1));
                assert(decreases_to!(a => ea));
                assert(decreases_to!(ea => ea[i]));
                assert(decreases_to!(ea[i] => ea[i].1));
                lemma_merge_commutes(ea[i].1, eb[j].1, path.push(k));
            }
            assert forall|k: Seq<char>| #[trigger] clashes(ea, eb, k, path) <==> clashes(eb, ea, k, path) by {
                if lookup(ea, k) is Some && lookup(eb, k) is Some {
                }
            }
            let r1 = merged_entries(ea, eb, eb.len() as int, path);
            let r2 = merged_entries(eb, ea, ea.len() as int, path);
            if r1.1 is Some {
                let k = choose|k: Seq<char>| #[trigger] clashes(ea, eb, k, path);
                assert(clashes(eb, ea, k, path));
            }
            if r2.1 is Some {
                let k = choose|k: Seq<char>| #[trigger] clashes(eb, ea, k, path);
                assert(clashes(ea, eb, k, path));
            }
            if r1.1 is None {
                assert forall|k: Seq<char>| (#[trigger] lookup(r1.0, k) is Some) <==> lookup(r2.0, k) is Some by {
                    assert(lookup(r1.0, k) == combined(ea, eb, k, path));
                    assert(lookup(r2.0, k) == combined(eb, ea, k, path));
                }
                assert forall|k: Seq<char>| #[trigger] lookup(r1.0, k) is Some implies jeq(
                    lookup(r1.0, k)->Some_0,
                    lookup(r2.0, k)->Some_0,
                ) by {
                    assert(lookup(r1.0, k) == combined(ea, eb, k, path));
                    assert(lookup(r2.0, k) == combined(eb, ea, k, path));
                    assert(!clashes(ea, eb, k, path));
                    if lookup(ea, k) is Some && lookup(eb, k) is None {
                        lemma_jeq_refl_of(lookup(ea, k)->Some_0);
                    } else if lookup(ea, k) is None && lookup(eb, k) is Some {
                        lemma_jeq_refl_of(lookup(eb, k)->Some_0);
                    }
                }
                lemma_same_lookups_jeq(r1.0, r2.0);
            }
        },
        (_, JView::Object(eb)) => {},
        (JView::Object(ea), _) => {},
        _ => {
            if jeq(a, b) {
                lemma_jeq_symmetric(a, b);
            }
            if jeq(b, a) {
                lemma_jeq_symmetric(b, a);
            }
        },
    }
}

/// Every JSON value equals itself.
proof fn lemma_jeq_refl_of(a: JView)
    ensures
        jeq(a, a),
{
    crate::json::lemma_jeq_refl(a);
}

} // verus!
