//! Unix path syntax: components, joining, prefixes and file names.
//!
//! Paths are held as `String`s. The component model follows the standard
//! library's `Path::components` on Unix: a leading `/` is the root, repeated
//! separators and `.` segments are dropped except for a leading `.`, and `..`
//! is a parent-directory component.

use vstd::prelude::*;
use crate::text::{chars_of, copy_string, push_char, push_str, str_eq, string_of};

verus! {

/// One component of a path, as a mathematical value.
pub enum Comp {
    Root,
    Cur,
    Parent,
    Normal(Seq<char>),
}

/// One component of a path.
#[derive(Debug, Clone, PartialEq, Eq)]
pub enum PathComponent {
    RootDir,
    CurDir,
    ParentDir,
    Normal(String),
}

impl View for PathComponent {
    type V = Comp;

    open spec fn view(&self) -> Comp {
        match self {
            PathComponent::RootDir => Comp::Root,
            PathComponent::CurDir => Comp::Cur,
            PathComponent::ParentDir => Comp::Parent,
            PathComponent::Normal(s) => Comp::Normal(s@),
        }
    }
}

/// The mathematical components of a vector of components.
pub open spec fn comps_view(v: Seq<PathComponent>) -> Seq<Comp> {
    v.map_values(|c: PathComponent| c@)
}

/// The component a finished segment contributes, if any.
pub open spec fn segment_comps(seg: Seq<char>) -> Seq<Comp> {
    if seg.len() == 0 || seg == seq!['.'] {
        seq![]
    } else if seg == seq!['.', '.'] {
        seq![Comp::Parent]
    } else {
        seq![Comp::Normal(seg)]
    }
}

/// Components of `s`, where `cur` is the segment read so far.
pub open spec fn comps_from(s: Seq<char>, cur: Seq<char>) -> Seq<Comp>
    decreases s.len(),
{
    if s.len() == 0 {
        segment_comps(cur)
    } else if s[0] == '/' {
        segment_comps(cur) + comps_from(s.drop_first(), seq![])
    } else {
        comps_from(s.drop_first(), cur.push(s[0]))
    }
}

/// Whether the path begins with a `.` segment.
pub open spec fn starts_with_cur_dir(s: Seq<char>) -> bool {
    s.len() > 0 && s[0] == '.' && (s.len() == 1 || s[1] == '/')
}

/// The components of the path `s`.
pub open spec fn components(s: Seq<char>) -> Seq<Comp> {
    if s.len() > 0 && s[0] == '/' {
        seq![Comp::Root] + comps_from(s.drop_first(), seq![])
    } else if starts_with_cur_dir(s) {
        seq![Comp::Cur] + comps_from(s, seq![])
    } else {
        comps_from(s, seq![])
    }
}

/// Whether `s` is an absolute path.
pub open spec fn is_absolute_spec(s: Seq<char>) -> bool {
    s.len() > 0 && s[0] == '/'
}

/// `base` joined with `p`, as `PathBuf::push` does on Unix.
pub open spec fn join_spec(base: Seq<char>, p: Seq<char>) -> Seq<char> {
    if is_absolute_spec(p) || base.len() == 0 {
        p
    } else if base.last() == '/' {
        base + p
    } else {
        base + seq!['/'] + p
    }
}

/// Whether `p` is a prefix of `s`.
pub open spec fn is_prefix_of<A>(p: Seq<A>, s: Seq<A>) -> bool {
    p.len() <= s.len() && s.take(p.len() as int) == p
}

/// Whether path `p` starts with path `base`, component-wise.
pub open spec fn path_starts_with(p: Seq<char>, base: Seq<char>) -> bool {
    is_prefix_of(components(base), components(p))
}

/// The text of one component.
pub open spec fn comp_text(c: Comp) -> Seq<char> {
    match c {
        Comp::Root => seq!['/'],
        Comp::Cur => seq!['.'],
        Comp::Parent => seq!['.', '.'],
        Comp::Normal(n) => n,
    }
}

/// Component texts joined with `/`.
pub open spec fn join_texts(cs: Seq<Comp>) -> Seq<char>
    decreases cs.len(),
{
    if cs.len() == 0 {
        seq![]
    } else if cs.len() == 1 {
        comp_text(cs[0])
    } else {
        join_texts(cs.drop_last()) + seq!['/'] + comp_text(cs.last())
    }
}

/// The path written by a sequence of components.
pub open spec fn render(cs: Seq<Comp>) -> Seq<char> {
    if cs.len() > 0 && cs[0] == Comp::Root {
        seq!['/'] + join_texts(cs.drop_first())
    } else {
        join_texts(cs)
    }
}

/// The final component's name, if it is a normal component.
pub open spec fn file_name_spec(s: Seq<char>) -> Option<Seq<char>> {
    let cs = components(s);
    if cs.len() > 0 && cs.last() is Normal {
        Some(cs.last()->Normal_0)
    } else {
        None
    }
}

/// Index of the last `.` in `name`, if any.
pub open spec fn last_dot(name: Seq<char>) -> Option<int>
    decreases name.len(),
{
    if name.len() == 0 {
        None
    } else if name.last() == '.' {
        Some(name.len() - 1)
    } else {
        last_dot(name.drop_last())
    }
}

/// Where the last `.` of a name stands.
pub proof fn lemma_last_dot(name: Seq<char>)
    ensures
        last_dot(name) matches Some(k) ==> 0 <= k < name.len() && name[k] == '.'
            && forall|j: int| k < j < name.len() ==> name[j] != '.',
        last_dot(name) is None ==> forall|j: int| 0 <= j < name.len() ==> name[j] != '.',
    decreases name.len(),
{
    if name.len() > 0 && name.last() != '.' {
        let d = name.drop_last();
        lemma_last_dot(d);
        assert forall|j: int| 0 <= j < d.len() implies name[j] == d[j] by {}
    }
}

/// The stem of a file name: the name before its last `.`, unless the only
/// `.` opens the name.
pub open spec fn stem_of(name: Seq<char>) -> Seq<char> {
    match last_dot(name) {
        Some(k) => if k == 0 { name } else { name.take(k) },
        None => name,
    }
}

/// The extension of a file name: the text after its last `.`, when that
/// `.` is not the first character.
pub open spec fn extension_of(name: Seq<char>) -> Option<Seq<char>> {
    match last_dot(name) {
        Some(k) => if k == 0 { None } else { Some(name.skip(k + 1)) },
        None => None,
    }
}

pub open spec fn file_stem_spec(s: Seq<char>) -> Option<Seq<char>> {
    match file_name_spec(s) {
        Some(n) => Some(stem_of(n)),
        None => None,
    }
}

pub open spec fn extension_spec(s: Seq<char>) -> Option<Seq<char>> {
    match file_name_spec(s) {
        Some(n) => extension_of(n),
        None => None,
    }
}

/// The remainder of `p` after the components of `base`, if `p` starts with `base`.
pub open spec fn strip_prefix_spec(p: Seq<char>, base: Seq<char>) -> Option<Seq<char>> {
    if path_starts_with(p, base) {
        Some(render(components(p).skip(components(base).len() as int)))
    } else {
        None
    }
}

/// Segments that become normal components are never empty.
pub proof fn lemma_comps_from_normals_nonempty(s: Seq<char>, cur: Seq<char>)
    ensures
        forall|k: int|
            0 <= k < comps_from(s, cur).len() && (#[trigger] comps_from(s, cur)[k]) is Normal
                ==> comps_from(s, cur)[k]->Normal_0.len() > 0,
    decreases s.len(),
{
    if s.len() > 0 {
        if s[0] == '/' {
            lemma_comps_from_normals_nonempty(s.drop_first(), seq![]);
            let a = segment_comps(cur);
            let b = comps_from(s.drop_first(), seq![]);
            assert forall|k: int|
                0 <= k < comps_from(s, cur).len() && (#[trigger] comps_from(s, cur)[k]) is Normal
                    implies comps_from(s, cur)[k]->Normal_0.len() > 0 by {
                if k >= a.len() {
                    assert(comps_from(s, cur)[k] == b[k - a.len()]);
                }
            }
        } else {
            lemma_comps_from_normals_nonempty(s.drop_first(), cur.push(s[0]));
        }
    }
}

/// Normal components are never empty.
pub proof fn lemma_components_normals_nonempty(s: Seq<char>)
    ensures
        forall|k: int|
            0 <= k < components(s).len() && (#[trigger] components(s)[k]) is Normal
                ==> components(s)[k]->Normal_0.len() > 0,
{
    if s.len() > 0 && s[0] == '/' {
        lemma_comps_from_normals_nonempty(s.drop_first(), seq![]);
        let b = comps_from(s.drop_first(), seq![]);
        assert forall|k: int|
            0 <= k < components(s).len() && (#[trigger] components(s)[k]) is Normal
                implies components(s)[k]->Normal_0.len() > 0 by {
            assert(components(s)[k] == b[k - 1]);
        }
    } else if starts_with_cur_dir(s) {
        lemma_comps_from_normals_nonempty(s, seq![]);
        let b = comps_from(s, seq![]);
        assert forall|k: int|
            0 <= k < components(s).len() && (#[trigger] components(s)[k]) is Normal
                implies components(s)[k]->Normal_0.len() > 0 by {
            assert(components(s)[k] == b[k - 1]);
        }
    } else {
        lemma_comps_from_normals_nonempty(s, seq![]);
    }
}

proof fn lemma_comps_from_step(s: Seq<char>, i: int, cur: Seq<char>)
    requires
        0 <= i < s.len(),
    ensures
        s[i] == '/' ==> comps_from(s.skip(i), cur) == segment_comps(cur) + comps_from(s.skip(i + 1), seq![]),
        s[i] != '/' ==> comps_from(s.skip(i), cur) == comps_from(s.skip(i + 1), cur.push(s[i])),
{
    assert(s.skip(i).drop_first() =~= s.skip(i + 1));
    assert(s.skip(i)[0] == s[i]);
}

fn push_segment(out: &mut Vec<PathComponent>, seg: &Vec<char>)
    ensures
        comps_view(final(out)@) == comps_view(old(out)@) + segment_comps(seg@),
{
    let n = seg.len();
    if n == 0 || (n == 1 && seg[0] == '.') {
        proof {
            if n == 1 {
                assert(seg@ =~= seq!['.']);
            }
            assert(comps_view(out@) =~= comps_view(out@) + seq![]);
        }
    } else if n == 2 && seg[0] == '.' && seg[1] == '.' {
        proof {
            assert(seg@ =~= seq!['.', '.']);
        }
        out.push(PathComponent::ParentDir);
        proof {
            assert(comps_view(out@) =~= comps_view(old(out)@) + seq![Comp::Parent]);
        }
    } else {
        proof {
            if n == 1 {
                assert(seg@ != seq!['.']) by {
                    assert(seg@[0] != '.');
                }
            }
            if n == 2 {
                assert(seg@ != seq!['.', '.']) by {
                    assert(seg@[0] != '.' || seg@[1] != '.');
                }
            }
            if n != 1 {
                assert(seg@.len() != seq!['.'].len());
            }
            if n != 2 {
                assert(seg@.len() != seq!['.', '.'].len());
            }
        }
        let name = string_of(seg, 0, n);
        proof {
            assert(seg@.subrange(0, n as int) =~= seg@);
        }
        out.push(PathComponent::Normal(name));
        proof {
            assert(comps_view(out@) =~= comps_view(old(out)@) + seq![Comp::Normal(seg@)]);
        }
    }
}

/// The components of `path`, as `Path::components` yields them on Unix.
pub fn components_of(path: &str) -> (r: Vec<PathComponent>)
    ensures
        comps_view(r@) == components(path@),
{
    let s = chars_of(path);
    let n = s.len();
    let mut out: Vec<PathComponent> = Vec::new();
    let mut i: usize = 0;
    let ghost start: int = 0;
    if n > 0 && s[0] == '/' {
        out.push(PathComponent::RootDir);
        i = 1;
        proof {
            start = 1;
            assert(s@.skip(1) =~= s@.drop_first());
            assert(comps_view(out@) =~= seq![Comp::Root]);
        }
    } else if n > 0 && s[0] == '.' && (n == 1 || s[1] == '/') {
        out.push(PathComponent::CurDir);
        proof {
            assert(s@.skip(0) =~= s@);
            assert(comps_view(out@) =~= seq![Comp::Cur]);
        }
    } else {
        proof {
            assert(s@.skip(0) =~= s@);
            assert(comps_view(out@) =~= seq![]);
        }
    }
    let mut seg: Vec<char> = Vec::new();
    proof {
        assert(comps_view(out@) + comps_from(s@.skip(i as int), seg@) =~= components(path@));
    }
    while i < n
        invariant
            s@ == path@,
            n == s.len(),
            i <= n,
            comps_view(out@) + comps_from(s@.skip(i as int), seg@) == components(path@),
        decreases n - i,
    {
        proof {
            lemma_comps_from_step(s@, i as int, seg@);
        }
        let c = s[i];
        if c == '/' {
            let ghost before = comps_view(out@);
            let ghost old_seg = seg@;
            push_segment(&mut out, &seg);
            seg = Vec::new();
            proof {
                assert(seg@ =~= Seq::<char>::empty());
                assert(comps_view(out@) + comps_from(s@.skip(i + 1), seg@) =~= before + (segment_comps(
                    old_seg,
                ) + comps_from(s@.skip(i + 1), seq![])));
            }
        } else {
            seg.push(c);
        }
        i = i + 1;
    }
    proof {
        assert(s@.skip(n as int).len() == 0);
    }
    push_segment(&mut out, &seg);
    out
}

/// Whether `path` is absolute.
pub fn is_absolute(path: &str) -> (r: bool)
    ensures
        r == is_absolute_spec(path@),
{
    let s = chars_of(path);
    s.len() > 0 && s[0] == '/'
}

/// `base` joined with `p` (`Path::join`).
pub fn join(base: &str, p: &str) -> (r: String)
    ensures
        r@ == join_spec(base@, p@),
{
    let b = chars_of(base);
    if is_absolute(p) || b.len() == 0 {
        copy_string(p)
    } else {
        let mut r = copy_string(base);
        if b[b.len() - 1] != '/' {
            push_char(&mut r, '/');
        }
        push_str(&mut r, p);
        r
    }
}

/// Whether two components are equal.
pub fn comp_eq(a: &PathComponent, b: &PathComponent) -> (r: bool)
    ensures
        r == (a@ == b@),
{
    match (a, b) {
        (PathComponent::RootDir, PathComponent::RootDir) => true,
        (PathComponent::CurDir, PathComponent::CurDir) => true,
        (PathComponent::ParentDir, PathComponent::ParentDir) => true,
        (PathComponent::Normal(x), PathComponent::Normal(y)) => str_eq(x.as_str(), y.as_str()),
        _ => false,
    }
}

/// Whether the component vector `p` is a prefix of `s`.
pub fn comps_prefix(p: &Vec<PathComponent>, s: &Vec<PathComponent>) -> (r: bool)
    ensures
        r == is_prefix_of(comps_view(p@), comps_view(s@)),
{
    if p.len() > s.len() {
        return false;
    }
    let mut i: usize = 0;
    while i < p.len()
        invariant
            p.len() <= s.len(),
            i <= p.len(),
            forall|j: int| 0 <= j < i ==> comps_view(p@)[j] == comps_view(s@)[j],
        decreases p.len() - i,
    {
        if !comp_eq(&p[i], &s[i]) {
            proof {
                assert(comps_view(s@).take(p.len() as int)[i as int] != comps_view(p@)[i as int]);
            }
            return false;
        }
        i = i + 1;
    }
    proof {
        assert(comps_view(s@).take(p.len() as int) =~= comps_view(p@));
    }
    true
}

/// Whether `path` starts with `base` (`Path::starts_with`).
pub fn starts_with(path: &str, base: &str) -> (r: bool)
    ensures
        r == path_starts_with(path@, base@),
{
    let pc = components_of(path);
    let bc = components_of(base);
    comps_prefix(&bc, &pc)
}

/// The text of one component.
pub fn component_text(c: &PathComponent) -> (r: String)
    ensures
        r@ == comp_text(c@),
{
    match c {
        PathComponent::RootDir => {
            let mut r = String::new();
            push_char(&mut r, '/');
            proof { assert(r@ =~= seq!['/']); }
            r
        },
        PathComponent::CurDir => {
            let mut r = String::new();
            push_char(&mut r, '.');
            proof { assert(r@ =~= seq!['.']); }
            r
        },
        PathComponent::ParentDir => {
            let mut r = String::new();
            push_char(&mut r, '.');
            push_char(&mut r, '.');
            proof { assert(r@ =~= seq!['.', '.']); }
            r
        },
        PathComponent::Normal(n) => copy_string(n.as_str()),
    }
}

/// The path written by the components `cs[from..]`.
pub fn render_from(cs: &Vec<PathComponent>, from: usize) -> (r: String)
    requires
        from <= cs.len(),
    ensures
        r@ == render(comps_view(cs@).skip(from as int)),
{
    let ghost v = comps_view(cs@).skip(from as int);
    let mut r = String::new();
    if from == cs.len() {
        return r;
    }
    let mut i = from;
    let mut skip_root = false;
    match &cs[from] {
        PathComponent::RootDir => {
            push_char(&mut r, '/');
            i = from + 1;
            skip_root = true;
        },
        _ => {},
    }
    let ghost body = if skip_root { v.drop_first() } else { v };
    let start = i;
    proof {
        assert(body =~= comps_view(cs@).skip(start as int));
        assert(body.take(0) =~= Seq::<Comp>::empty());
    }
    while i < cs.len()
        invariant
            start <= i <= cs.len(),
            body == comps_view(cs@).skip(start as int),
            r@ == (if skip_root { seq!['/'] } else { Seq::<char>::empty() }) + join_texts(body.take(i - start)),
        decreases cs.len() - i,
    {
        let t = component_text(&cs[i]);
        let ghost prev = body.take(i - start);
        if i > start {
            push_char(&mut r, '/');
        }
        push_str(&mut r, t.as_str());
        proof {
            let next = body.take(i + 1 - start);
            assert(next.drop_last() =~= prev);
            assert(next.last() == comps_view(cs@)[i as int]);
            if i == start {
                assert(prev =~= Seq::<Comp>::empty());
                assert(next.len() == 1);
            }
            assert(r@ =~= (if skip_root { seq!['/'] } else { Seq::<char>::empty() }) + join_texts(next));
        }
        i = i + 1;
    }
    proof {
        assert(body.take(i - start) =~= body);
        if skip_root {
            assert(v[0] == Comp::Root);
        } else {
            if v.len() > 0 {
                assert(v[0] == comps_view(cs@)[from as int]);
            }
        }
    }
    r
}

/// The remainder of `path` after `base` (`Path::strip_prefix`), written
/// from its components.
pub fn strip_prefix(path: &str, base: &str) -> (r: Option<String>)
    ensures
        r matches Some(x) ==> strip_prefix_spec(path@, base@) == Some(x@),
        r is None ==> strip_prefix_spec(path@, base@) is None,
{
    let pc = components_of(path);
    let bc = components_of(base);
    if comps_prefix(&bc, &pc) {
        let rest = render_from(&pc, bc.len());
        Some(rest)
    } else {
        None
    }
}

/// The final normal component of `path` (`Path::file_name`).
pub fn file_name(path: &str) -> (r: Option<String>)
    ensures
        r matches Some(x) ==> file_name_spec(path@) == Some(x@),
        r is None ==> file_name_spec(path@) is None,
{
    let cs = components_of(path);
    if cs.len() == 0 {
        return None;
    }
    match &cs[cs.len() - 1] {
        PathComponent::Normal(n) => Some(copy_string(n.as_str())),
        _ => None,
    }
}

/// Index of the last `.` in `v`.
fn last_dot_index(v: &Vec<char>) -> (r: Option<usize>)
    ensures
        r matches Some(k) ==> last_dot(v@) == Some(k as int) && k < v.len(),
        r is None ==> last_dot(v@) is None,
{
    proof { lemma_last_dot(v@); }
    let mut i = v.len();
    proof { assert(v@.take(i as int) =~= v@); }
    while i > 0
        invariant
            i <= v.len(),
            last_dot(v@) == last_dot(v@.take(i as int)),
        decreases i,
    {
        proof {
            assert(v@.take(i as int).drop_last() =~= v@.take(i - 1));
        }
        if v[i - 1] == '.' {
            return Some(i - 1);
        }
        i = i - 1;
    }
    proof {
        assert(v@.take(i as int).len() == 0);
    }
    None
}

/// The stem of a file name.
pub fn stem_of_name(name: &str) -> (r: String)
    ensures
        r@ == stem_of(name@),
{
    let v = chars_of(name);
    proof {
        assert(v@.take(v.len() as int) =~= v@);
    }
    match last_dot_index(&v) {
        Some(k) => {
            if k == 0 {
                copy_string(name)
            } else {
                let r = string_of(&v, 0, k);
                proof { assert(v@.subrange(0, k as int) =~= v@.take(k as int)); }
                r
            }
        },
        None => copy_string(name),
    }
}

/// The extension of a file name.
pub fn extension_of_name(name: &str) -> (r: Option<String>)
    ensures
        r matches Some(x) ==> extension_of(name@) == Some(x@),
        r is None ==> extension_of(name@) is None,
{
    let v = chars_of(name);
    proof {
        assert(v@.take(v.len() as int) =~= v@);
    }
    match last_dot_index(&v) {
        Some(k) => {
            if k == 0 {
                None
            } else {
                let r = string_of(&v, k + 1, v.len());
                proof { assert(v@.subrange(k + 1, v.len() as int) =~= v@.skip(k + 1)); }
                Some(r)
            }
        },
        None => None,
    }
}

/// The stem of the file name of `path` (`Path::file_stem`).
pub fn file_stem(path: &str) -> (r: Option<String>)
    ensures
        r matches Some(x) ==> file_stem_spec(path@) == Some(x@),
        r is None ==> file_stem_spec(path@) is None,
{
    match file_name(path) {
        Some(n) => Some(stem_of_name(n.as_str())),
        None => None,
    }
}

/// The extension of the file name of `path` (`Path::extension`).
pub fn extension(path: &str) -> (r: Option<String>)
    ensures
        r matches Some(x) ==> extension_spec(path@) == Some(x@),
        r is None ==> extension_spec(path@) is None,
{
    match file_name(path) {
        Some(n) => extension_of_name(n.as_str()),
        None => None,
    }
}

/// The parent directory of a path (`Path::parent`): the path without its
/// last component, unless it has none or that is the root.
pub open spec fn parent_spec(s: Seq<char>) -> Option<Seq<char>> {
    let cs = components(s);
    if cs.len() > 0 && !(cs.last() is Root) {
        Some(render(cs.drop_last()))
    } else {
        None
    }
}

/// The parent directory of `path`, written from its components.
pub fn parent(path: &str) -> (r: Option<String>)
    ensures
        r matches Some(x) ==> parent_spec(path@) == Some(x@),
        r is None ==> parent_spec(path@) is None,
{
    let cs = components_of(path);
    if cs.len() == 0 {
        return None;
    }
    match &cs[cs.len() - 1] {
        PathComponent::RootDir => None,
        _ => {
            let mut prefix: Vec<PathComponent> = Vec::new();
            let mut i: usize = 0;
            while i + 1 < cs.len()
                invariant
                    cs.len() > 0,
                    i + 1 <= cs.len(),
                    comps_view(prefix@) == comps_view(cs@).take(i as int),
                decreases cs.len() - i,
            {
                let c = match &cs[i] {
                    PathComponent::RootDir => PathComponent::RootDir,
                    PathComponent::CurDir => PathComponent::CurDir,
                    PathComponent::ParentDir => PathComponent::ParentDir,
                    PathComponent::Normal(n) => PathComponent::Normal(copy_string(n.as_str())),
                };
                let ghost before = prefix@;
                prefix.push(c);
                proof {
                    assert(comps_view(prefix@) =~= comps_view(before).push(c@));
                    assert(comps_view(cs@).take(i + 1) =~= comps_view(cs@).take(i as int).push(
                        comps_view(cs@)[i as int],
                    ));
                }
                i = i + 1;
            }
            let r = render_from(&prefix, 0);
            proof {
                assert(comps_view(prefix@).skip(0) =~= comps_view(prefix@));
                assert(comps_view(cs@).take(i as int) =~= comps_view(cs@).drop_last());
            }
            Some(r)
        },
    }
}

} // verus!
