//! Small pure helpers shared across hooks.

use vstd::prelude::*;
use crate::project_path::{ProjectPathError, ResolvedProjectPath};
use crate::text::push_char;

verus! {

/// The lower-case hexadecimal digit for `n < 16`.
pub open spec fn hex_digit(n: nat) -> char {
    if n < 10 {
        ((48 + n) as u8) as char
    } else {
        ((87 + n) as u8) as char
    }
}

/// Lower-case hexadecimal text of `bytes`, two digits per byte.
pub open spec fn hex_text(bytes: Seq<u8>) -> Seq<char>
    decreases bytes.len(),
{
    if bytes.len() == 0 {
        seq![]
    } else {
        hex_text(bytes.drop_last()) + seq![
            hex_digit((bytes.last() / 16) as nat),
            hex_digit((bytes.last() % 16) as nat),
        ]
    }
}

/// Whether `c` is a lower-case hexadecimal digit.
pub open spec fn is_hex_digit(c: char) -> bool {
    ('0' <= c && c <= '9') || ('a' <= c && c <= 'f')
}

/// The value of a lower-case hexadecimal digit.
pub open spec fn hex_value(c: char) -> int {
    if c <= '9' {
        (c as int) - 48
    } else {
        (c as int) - 87
    }
}

/// A digit reads back as the value it was written for.
pub proof fn lemma_hex_digit(n: nat)
    requires
        n < 16,
    ensures
        is_hex_digit(hex_digit(n)),
        hex_value(hex_digit(n)) == n,
{
}

/// The hexadecimal text of bytes put together is the texts put together.
pub proof fn lemma_hex_text_concat(a: Seq<u8>, b: Seq<u8>)
    ensures
        hex_text(a + b) == hex_text(a) + hex_text(b),
    decreases b.len(),
{
    if b.len() == 0 {
        assert(a + b =~= a);
        assert(hex_text(a) + hex_text(b) =~= hex_text(a));
    } else {
        lemma_hex_text_concat(a, b.drop_last());
        assert((a + b).drop_last() =~= a + b.drop_last());
        assert((a + b).last() == b.last());
        let d = seq![hex_digit((b.last() / 16) as nat), hex_digit((b.last() % 16) as nat)];
        assert(hex_text(a) + hex_text(b.drop_last()) + d =~= hex_text(a) + (hex_text(b.drop_last()) + d));
    }
}

/// The hexadecimal text of `bytes` has two lower-case digits per byte, and
/// the two digits at `2 i` and `2 i + 1` read back as byte `i`.
pub proof fn lemma_hex_text_decodes(bytes: Seq<u8>)
    ensures
        hex_text(bytes).len() == 2 * bytes.len(),
        forall|k: int| 0 <= k < hex_text(bytes).len() ==> is_hex_digit(#[trigger] hex_text(bytes)[k]),
        forall|i: int|
            0 <= i < bytes.len() ==> hex_value(#[trigger] hex_text(bytes)[2 * i]) * 16 + hex_value(
                hex_text(bytes)[2 * i + 1],
            ) == bytes[i],
    decreases bytes.len(),
{
    if bytes.len() > 0 {
        let p = bytes.drop_last();
        let b = bytes.last();
        lemma_hex_text_decodes(p);
        lemma_hex_digit((b / 16) as nat);
        lemma_hex_digit((b % 16) as nat);
        let t = hex_text(bytes);
        assert(t == hex_text(p) + seq![hex_digit((b / 16) as nat), hex_digit((b % 16) as nat)]);
        assert forall|k: int| 0 <= k < t.len() implies is_hex_digit(#[trigger] t[k]) by {
            if k < hex_text(p).len() {
                assert(t[k] == hex_text(p)[k]);
            }
        }
        assert forall|i: int| 0 <= i < bytes.len() implies hex_value(#[trigger] t[2 * i]) * 16 + hex_value(
            t[2 * i + 1],
        ) == bytes[i] by {
            if i < p.len() {
                assert(t[2 * i] == hex_text(p)[2 * i]);
                assert(t[2 * i + 1] == hex_text(p)[2 * i + 1]);
                assert(bytes[i] == p[i]);
            } else {
                assert(b == (b / 16) * 16 + b % 16);
            }
        }
    }
}

fn nibble(n: u8) -> (c: char)
    requires
        n < 16,
    ensures
        c == hex_digit(n as nat),
{
    if n < 10 {
        (48u8 + n) as char
    } else {
        (87u8 + n) as char
    }
}

/// Encode bytes as a lowercase hexadecimal string.
pub fn hex_encode(bytes: &[u8]) -> (s: String)
    ensures
        s@ == hex_text(bytes@),
{
    let mut s = String::new();
    let mut i: usize = 0;
    proof {
        assert(bytes@.take(0) =~= Seq::<u8>::empty());
    }
    while i < bytes.len()
        invariant
            i <= bytes.len(),
            s@ == hex_text(bytes@.take(i as int)),
        decreases bytes.len() - i,
    {
        let b = bytes[i];
        push_char(&mut s, nibble(b / 16));
        push_char(&mut s, nibble(b % 16));
        proof {
            let t = bytes@.take(i + 1);
            assert(t.drop_last() =~= bytes@.take(i as int));
            assert(t.last() == b);
            assert(s@ =~= hex_text(t));
        }
        i = i + 1;
    }
    proof {
        assert(bytes@.take(bytes.len() as int) =~= bytes@);
    }
    s
}

/// Resolve a path that may be absolute or relative to `project_root`,
/// canonicalized and required to stay within the canonical project root.
/// On failure the error's message is returned.
pub fn resolve_relative<F: Fn(&str) -> Result<String, String>>(
    path: &str,
    project_root: &str,
    canonicalize: &F,
) -> (res: Result<String, String>)
    requires
        forall|s: &str| #[trigger] canonicalize.requires((s,)),
    ensures
        exists|r: Result<ResolvedProjectPath, ProjectPathError>|
            {
                &&& ResolvedProjectPath::resolve_spec(path@, project_root@, *canonicalize, r)
                &&& match (r, res) {
                    (Ok(rp), Ok(p)) => p@ == rp@.path,
                    (Err(e), Err(m)) => m@ == e.message_spec(),
                    _ => false,
                }
            },
{
    let r = ResolvedProjectPath::resolve_existing(path, project_root, canonicalize);
    match r {
        Ok(rp) => Ok(rp.into_path_buf()),
        Err(e) => Err(e.message()),
    }
}

} // verus!
