//! Character-level helpers for building `String`s in verified code.

use vstd::prelude::*;

verus! {

/// `String::push`: the string afterwards is the old one with `c` appended.
#[verifier::external_body]
pub(crate) fn push_char(s: &mut String, c: char)
    ensures
        final(s)@ == old(s)@.push(c),
{
    s.push(c);
}

/// Appends `t` to `s`.
pub fn push_str(s: &mut String, t: &str)
    ensures
        final(s)@ == old(s)@ + t@,
{
    let ghost start = s@;
    for c in iter: t.chars()
        invariant
            s@ == start + iter.seq().take(iter.index() as int),
    {
        proof {
            assert(iter.seq().take(iter.index() + 1) == iter.seq().take(iter.index() as int).push(c));
        }
        push_char(s, c);
    }
}

/// The characters of `s`, in order.
pub fn chars_of(s: &str) -> (v: Vec<char>)
    ensures
        v@ == s@,
{
    let mut v: Vec<char> = Vec::new();
    for c in iter: s.chars()
        invariant
            v@ == iter.seq().take(iter.index() as int),
    {
        proof {
            assert(iter.seq().take(iter.index() + 1) == iter.seq().take(iter.index() as int).push(c));
        }
        v.push(c);
    }
    v
}

/// A `String` holding exactly the characters `v[from..to]`.
pub fn string_of(v: &Vec<char>, from: usize, to: usize) -> (s: String)
    requires
        from <= to <= v.len(),
    ensures
        s@ == v@.subrange(from as int, to as int),
{
    let mut s = String::new();
    let mut i = from;
    while i < to
        invariant
            from <= i <= to <= v.len(),
            s@ == v@.subrange(from as int, i as int),
        decreases to - i,
    {
        proof {
            assert(v@.subrange(from as int, i + 1) == v@.subrange(from as int, i as int).push(v@[i as int]));
        }
        push_char(&mut s, v[i]);
        i = i + 1;
    }
    s
}

/// A fresh copy of `s`.
pub fn copy_string(s: &str) -> (r: String)
    ensures
        r@ == s@,
{
    let mut r = String::new();
    push_str(&mut r, s);
    r
}

/// Whether the two strings hold the same characters.
pub fn str_eq(a: &str, b: &str) -> (r: bool)
    ensures
        r == (a@ == b@),
{
    let x = chars_of(a);
    let y = chars_of(b);
    if x.len() != y.len() {
        return false;
    }
    let mut i: usize = 0;
    while i < x.len()
        invariant
            x@ == a@,
            y@ == b@,
            x.len() == y.len(),
            i <= x.len(),
            forall|j: int| 0 <= j < i ==> x@[j] == y@[j],
        decreases x.len() - i,
    {
        if x[i] != y[i] {
            return false;
        }
        i = i + 1;
    }
    proof {
        assert(x@ =~= y@);
    }
    true
}

/// Whether `p` is a prefix of `s` (as character sequences).
pub open spec fn is_prefix_chars(p: Seq<char>, s: Seq<char>) -> bool {
    p.len() <= s.len() && s.take(p.len() as int) == p
}

/// Whether `s` starts with `p`.
pub fn str_starts_with(s: &str, p: &str) -> (r: bool)
    ensures
        r == is_prefix_chars(p@, s@),
{
    let x = chars_of(s);
    let y = chars_of(p);
    if y.len() > x.len() {
        return false;
    }
    let mut i: usize = 0;
    while i < y.len()
        invariant
            x@ == s@,
            y@ == p@,
            y.len() <= x.len(),
            i <= y.len(),
            forall|j: int| 0 <= j < i ==> x@[j] == y@[j],
        decreases y.len() - i,
    {
        if x[i] != y[i] {
            proof {
                assert(s@.take(p@.len() as int)[i as int] != p@[i as int]);
            }
            return false;
        }
        i = i + 1;
    }
    proof {
        assert(s@.take(p@.len() as int) =~= p@);
    }
    true
}

/// Decimal digits of a natural number, most significant first.
pub open spec fn nat_decimal(n: nat) -> Seq<char>
    decreases n,
{
    if n < 10 {
        seq![digit_char((n % 10) as nat)]
    } else {
        nat_decimal(n / 10).push(digit_char((n % 10) as nat))
    }
}

/// The decimal digit character for `d < 10`.
pub open spec fn digit_char(d: nat) -> char {
    ((48 + d) as u8) as char
}

/// Decimal representation of an integer, with a leading `-` when negative.
pub open spec fn int_decimal(i: int) -> Seq<char> {
    if i < 0 {
        seq!['-'] + nat_decimal((-i) as nat)
    } else {
        nat_decimal(i as nat)
    }
}

/// Formats `n` in decimal.
pub fn u64_to_decimal(n: u64) -> (s: String)
    ensures
        s@ == nat_decimal(n as nat),
{
    // Collect digits least-significant first, then emit them in reverse.
    let mut digits: Vec<char> = Vec::new();
    let mut m = n;
    let ghost mut parts: Seq<nat> = seq![];
    digits.push(((48u8 + (m % 10) as u8) as char));
    m = m / 10;
    proof {
        parts = seq![n as nat];
    }
    while m > 0
        invariant
            parts.len() == digits.len(),
            parts.len() >= 1,
            parts[0] == n as nat,
            forall|k: int| 0 <= k < parts.len() - 1 ==> #[trigger] parts[k + 1] == parts[k] / 10 && parts[k] >= 10,
            forall|k: int| 0 <= k < parts.len() ==> #[trigger] digits@[k] == digit_char((parts[k] % 10) as nat),
            m as nat == parts.last() / 10,
        decreases m,
    {
        proof {
            parts = parts.push(m as nat);
        }
        digits.push(((48u8 + (m % 10) as u8) as char));
        m = m / 10;
    }
    // parts.last() < 10 here.
    let mut s = String::new();
    let mut j = digits.len();
    while j > 0
        invariant
            j <= digits.len(),
            parts.len() == digits.len(),
            parts.len() >= 1,
            forall|k: int| 0 <= k < parts.len() - 1 ==> #[trigger] parts[k + 1] == parts[k] / 10 && parts[k] >= 10,
            forall|k: int| 0 <= k < parts.len() ==> #[trigger] digits@[k] == digit_char((parts[k] % 10) as nat),
            parts.last() < 10,
            j < digits.len() ==> s@ == nat_decimal(parts[j as int]),
            j == digits.len() ==> s@.len() == 0,
        decreases j,
    {
        j = j - 1;
        proof {
            if j + 1 < digits.len() {
                assert(parts[j + 1] == parts[j as int] / 10);
                assert(parts[j as int] >= 10);
            }
        }
        push_char(&mut s, digits[j]);
        proof {
            if j + 1 == digits.len() {
                assert(s@ =~= seq![digit_char((parts[j as int] % 10) as nat)]);
            }
        }
    }
    s
}

/// Formats `i` in decimal.
pub fn i64_to_decimal(i: i64) -> (s: String)
    ensures
        s@ == int_decimal(i as int),
{
    if i < 0 {
        let m: u64 = if i == i64::MIN { 9223372036854775808u64 } else { (-i) as u64 };
        let digits = u64_to_decimal(m);
        let mut s = String::new();
        push_char(&mut s, '-');
        push_str(&mut s, digits.as_str());
        s
    } else {
        u64_to_decimal(i as u64)
    }
}

/// An optional string slice as a text.
pub open spec fn opt_str(o: Option<&str>) -> Option<Seq<char>> {
    match o {
        Some(s) => Some(s@),
        None => None,
    }
}

/// An optional string as a text.
pub open spec fn opt_text(o: Option<String>) -> Option<Seq<char>> {
    match o {
        Some(s) => Some(s@),
        None => None,
    }
}

} // verus!
