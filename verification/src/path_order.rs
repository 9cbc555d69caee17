//! The order of paths: component by component, as `Path`'s `Ord` compares
//! them, and sorting by it.

use vstd::prelude::*;
use crate::json::{key_less, key_lt, lemma_key_lt_transitive};
use crate::path::{comp_eq, components, components_of, comps_view, Comp, PathComponent};

verus! {

/// The rank of a component's kind in the order: root, `.`, `..`, names.
pub open spec fn comp_rank(c: Comp) -> int {
    match c {
        Comp::Root => 0,
        Comp::Cur => 1,
        Comp::Parent => 2,
        Comp::Normal(_) => 3,
    }
}

/// Whether component `a` orders before `b`: by kind, then names by their
/// bytes.
pub open spec fn comp_lt(a: Comp, b: Comp) -> bool {
    comp_rank(a) < comp_rank(b) || (a is Normal && b is Normal && key_lt(a->Normal_0, b->Normal_0))
}

/// Lexicographic order of component sequences.
pub open spec fn comps_lt(a: Seq<Comp>, b: Seq<Comp>) -> bool
    decreases a.len(),
{
    if a.len() == 0 {
        b.len() > 0
    } else if b.len() == 0 {
        false
    } else if a[0] == b[0] {
        comps_lt(a.drop_first(), b.drop_first())
    } else {
        comp_lt(a[0], b[0])
    }
}

/// Whether path `a` orders before path `b`.
pub open spec fn path_lt(a: Seq<char>, b: Seq<char>) -> bool {
    comps_lt(components(a), components(b))
}

/// Component order is transitive.
pub proof fn lemma_comp_lt_transitive(a: Comp, b: Comp, c: Comp)
    requires
        comp_lt(a, b),
        comp_lt(b, c),
    ensures
        comp_lt(a, c),
{
    if a is Normal && b is Normal && c is Normal {
        lemma_key_lt_transitive(a->Normal_0, b->Normal_0, c->Normal_0);
    }
}

/// Path order is transitive.
pub proof fn lemma_comps_lt_transitive(a: Seq<Comp>, b: Seq<Comp>, c: Seq<Comp>)
    requires
        comps_lt(a, b),
        comps_lt(b, c),
    ensures
        comps_lt(a, c),
    decreases a.len(),
{
    if a.len() > 0 && b.len() > 0 && c.len() > 0 {
        if a[0] == b[0] && b[0] == c[0] {
            lemma_comps_lt_transitive(a.drop_first(), b.drop_first(), c.drop_first());
        } else if a[0] == b[0] {
        } else if b[0] == c[0] {
        } else {
            lemma_comp_lt_transitive(a[0], b[0], c[0]);
            if a[0] == c[0] {
                assert(comp_rank(a[0]) <= comp_rank(b[0]) <= comp_rank(c[0]));
                assert(a[0] is Normal && b[0] is Normal);
                crate::json::lemma_key_lt_irreflexive(a[0]->Normal_0);
            }
        }
    }
}

/// Path order is transitive.
pub proof fn lemma_path_lt_transitive(a: Seq<char>, b: Seq<char>, c: Seq<char>)
    requires
        path_lt(a, b),
        path_lt(b, c),
    ensures
        path_lt(a, c),
{
    lemma_comps_lt_transitive(components(a), components(b), components(c));
}

/// Whether component `a` orders before `b`.
fn comp_less(a: &PathComponent, b: &PathComponent) -> (r: bool)
    ensures
        r == comp_lt(a@, b@),
{
    let ra: u8 = match a {
        PathComponent::RootDir => 0,
        PathComponent::CurDir => 1,
        PathComponent::ParentDir => 2,
        PathComponent::Normal(_) => 3,
    };
    let rb: u8 = match b {
        PathComponent::RootDir => 0,
        PathComponent::CurDir => 1,
        PathComponent::ParentDir => 2,
        PathComponent::Normal(_) => 3,
    };
    if ra != rb {
        return ra < rb;
    }
    match (a, b) {
        (PathComponent::Normal(x), PathComponent::Normal(y)) => key_less(x.as_str(), y.as_str()),
        _ => false,
    }
}

/// `comps_lt` over the suffixes after a common prefix.
proof fn lemma_comps_lt_skip(a: Seq<Comp>, b: Seq<Comp>, i: int)
    requires
        0 <= i < a.len(),
        i < b.len(),
        a[i] == b[i],
    ensures
        comps_lt(a.skip(i), b.skip(i)) == comps_lt(a.skip(i + 1), b.skip(i + 1)),
{
    assert(a.skip(i).drop_first() =~= a.skip(i + 1));
    assert(b.skip(i).drop_first() =~= b.skip(i + 1));
}

/// Whether path `a` orders before path `b`, component by component.
pub fn path_less(a: &str, b: &str) -> (r: bool)
    ensures
        r == path_lt(a@, b@),
{
    let x = components_of(a);
    let y = components_of(b);
    let ghost xv = comps_view(x@);
    let ghost yv = comps_view(y@);
    let mut i: usize = 0;
    proof {
        assert(xv.skip(0) =~= xv);
        assert(yv.skip(0) =~= yv);
    }
    while i < x.len() && i < y.len()
        invariant
            xv == comps_view(x@),
            yv == comps_view(y@),
            xv == components(a@),
            yv == components(b@),
            i <= x.len(),
            i <= y.len(),
            comps_lt(xv.skip(i as int), yv.skip(i as int)) == path_lt(a@, b@),
        decreases x.len() - i,
    {
        proof {
            assert(xv.skip(i as int)[0] == xv[i as int]);
            assert(yv.skip(i as int)[0] == yv[i as int]);
        }
        if !comp_eq(&x[i], &y[i]) {
            return comp_less(&x[i], &y[i]);
        }
        proof {
            lemma_comps_lt_skip(xv, yv, i as int);
        }
        i = i + 1;
    }
    i == x.len() && i < y.len()
}

/// Whether `s` is in order: no element orders before one ahead of it.
pub open spec fn paths_sorted(s: Seq<Seq<char>>) -> bool {
    forall|i: int, j: int| 0 <= i < j < s.len() ==> !path_lt(#[trigger] s[j], #[trigger] s[i])
}

/// The texts of a sequence of strings.
pub open spec fn texts_of(v: Seq<String>) -> Seq<Seq<char>> {
    v.map_values(|s: String| s@)
}

/// `paths` sorted by path order (stably); the result holds the same paths.
pub fn sort_paths(paths: Vec<String>) -> (r: Vec<String>)
    ensures
        texts_of(r@).to_multiset() == texts_of(paths@).to_multiset(),
        paths_sorted(texts_of(r@)),
{
    let ghost input = texts_of(paths@);
    let mut out: Vec<String> = Vec::new();
    let mut rest = paths;
    let mut n: usize = 0;
    let total = rest.len();
    proof {
        assert(texts_of(rest@) =~= input.skip(0));
        assert(texts_of(out@) =~= input.take(0));
    }
    while rest.len() > 0
        invariant
            total == input.len(),
            n + rest.len() == input.len(),
            texts_of(rest@) == input.skip(n as int),
            texts_of(out@).to_multiset() == input.take(n as int).to_multiset(),
            paths_sorted(texts_of(out@)),
        decreases rest.len(),
    {
        let ghost rest_before = rest@;
        let x = rest.remove(0);
        proof {
            assert(texts_of(rest_before)[0] == x@);
            assert(input.skip(n as int)[0] == input[n as int]);
            assert(texts_of(rest@) =~= texts_of(rest_before).drop_first());
            assert(texts_of(rest@) =~= input.skip(n + 1));
            assert(input.take(n + 1) =~= input.take(n as int).push(x@));
        }
        let mut p: usize = 0;
        while p < out.len() && !path_less(x.as_str(), out[p].as_str())
            invariant
                p <= out.len(),
                forall|k: int| 0 <= k < p ==> !path_lt(x@, #[trigger] out@[k]@),
            decreases out.len() - p,
        {
            p = p + 1;
        }
        let ghost before = out@;
        let ghost xv = x@;
        out.insert(p, x);
        proof {
            let t = texts_of(out@);
            let tb = texts_of(before);
            assert(t =~= tb.insert(p as int, xv));
            vstd::seq_lib::to_multiset_insert(tb, p as int, xv);
            vstd::seq_lib::to_multiset_build(input.take(n as int), xv);
            assert forall|i: int, j: int| 0 <= i < j < t.len() implies !path_lt(#[trigger] t[j], #[trigger] t[i]) by {
                if j < p {
                    assert(t[i] == tb[i] && t[j] == tb[j]);
                } else if j == p {
                    assert(t[i] == tb[i] && t[j] == xv);
                } else if i < p {
                    assert(t[i] == tb[i] && t[j] == tb[j - 1]);
                    if path_lt(t[j], t[i]) {
                        if j - 1 > p {
                            assert(path_lt(xv, tb[p as int]));
                            lemma_path_lt_transitive(tb[j - 1], tb[i], xv);
                        }
                    }
                } else if i == p {
                    assert(t[i] == xv && t[j] == tb[j - 1]);
                    if path_lt(t[j], t[i]) {
                        assert(path_lt(xv, tb[p as int]));
                        if j - 1 > p {
                            lemma_path_lt_transitive(tb[j - 1], xv, tb[p as int]);
                        } else {
                            lemma_path_lt_transitive(tb[p as int], xv, tb[p as int]);
                            lemma_path_lt_irreflexive(tb[p as int]);
                        }
                    }
                } else {
                    assert(t[i] == tb[i - 1] && t[j] == tb[j - 1]);
                }
            }
        }
        n = n + 1;
    }
    proof {
        assert(input.take(n as int) =~= input);
    }
    out
}

/// Of two paths with different components, one orders before the other.
pub proof fn lemma_path_lt_total(a: Seq<char>, b: Seq<char>)
    ensures
        path_lt(a, b) || components(a) == components(b) || path_lt(b, a),
{
    lemma_comps_lt_total(components(a), components(b));
}

/// Of two different component sequences, one orders before the other.
proof fn lemma_comps_lt_total(a: Seq<Comp>, b: Seq<Comp>)
    ensures
        comps_lt(a, b) || a == b || comps_lt(b, a),
    decreases a.len(),
{
    if a.len() > 0 && b.len() > 0 {
        if a[0] == b[0] {
            lemma_comps_lt_total(a.drop_first(), b.drop_first());
            if a.drop_first() == b.drop_first() {
                assert(a =~= seq![a[0]] + a.drop_first());
                assert(b =~= seq![b[0]] + b.drop_first());
            }
        } else if a[0] is Normal && b[0] is Normal {
            crate::json::lemma_key_lt_total(a[0]->Normal_0, b[0]->Normal_0);
        }
    } else if a.len() == 0 && b.len() == 0 {
        assert(a =~= b);
    }
}

/// No path orders before itself.
pub proof fn lemma_path_lt_irreflexive(a: Seq<char>)
    ensures
        !path_lt(a, a),
{
    lemma_comps_lt_irreflexive(components(a));
}

/// No component sequence orders before itself.
proof fn lemma_comps_lt_irreflexive(a: Seq<Comp>)
    ensures
        !comps_lt(a, a),
    decreases a.len(),
{
    if a.len() > 0 {
        lemma_comps_lt_irreflexive(a.drop_first());
    }
}

} // verus!
