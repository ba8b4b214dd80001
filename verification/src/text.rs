//! String comparison, prefix tests, and the object-name normalization that
//! undoes the `+`-for-space encoding of uploaded object keys.

use vstd::prelude::*;
use vstd::string::StrSliceExecFns;
use vstd::string::StringExecFns;

verus! {

pub open spec fn spec_starts_with(s: Seq<char>, p: Seq<char>) -> bool {
    p.len() <= s.len() && s.subrange(0, p.len() as int) == p
}

/// Character-wise string equality.
pub fn str_eq(a: &str, b: &str) -> (r: bool)
    ensures
        r == (a@ == b@),
{
    let n = a.unicode_len();
    if n != b.unicode_len() {
        return false;
    }
    let mut i: usize = 0;
    while i < n
        invariant
            i <= n,
            n == a@.len(),
            n == b@.len(),
            forall|j: int| 0 <= j < i ==> a@[j] == b@[j],
        decreases n - i,
    {
        if a.get_char(i) != b.get_char(i) {
            return false;
        }
        i = i + 1;
    }
    proof {
        assert(a@ =~= b@);
    }
    true
}

/// Whether `s` begins with the prefix `p`.
pub fn str_starts_with(s: &str, p: &str) -> (r: bool)
    ensures
        r == spec_starts_with(s@, p@),
{
    let np = p.unicode_len();
    if np > s.unicode_len() {
        return false;
    }
    let mut i: usize = 0;
    while i < np
        invariant
            i <= np,
            np == p@.len(),
            np <= s@.len(),
            forall|j: int| 0 <= j < i ==> s@[j] == p@[j],
        decreases np - i,
    {
        if s.get_char(i) != p.get_char(i) {
            proof {
                assert(s@.subrange(0, p@.len() as int)[i as int] != p@[i as int]);
            }
            return false;
        }
        i = i + 1;
    }
    proof {
        assert(s@.subrange(0, p@.len() as int) =~= p@);
    }
    true
}

/// Replaces every `+` with a space; uploaded object keys arrive with spaces
/// encoded as `+`.
pub open spec fn spec_normalize(s: Seq<char>) -> Seq<char> {
    s.map_values(
        |c: char|
            if c == '+' {
                ' '
            } else {
                c
            },
    )
}

/// The canonical, space-decoded form of an uploaded object key.
#[verifier::loop_isolation(false)]
pub fn normalize_object_name(key: &str) -> (r: String)
    ensures
        r@ == spec_normalize(key@),
{
    let n = key.unicode_len();
    let mut out = String::new();
    let mut i: usize = 0;
    while i < n
        invariant
            i <= n,
            out@ == spec_normalize(key@.subrange(0, i as int)),
        decreases n - i,
    {
        let c = key.get_char(i);
        if c == '+' {
            out.append(" ");
            proof {
                reveal_strlit(" ");
            }
        } else {
            let piece = key.substring_char(i, i + 1);
            out.append(piece);
        }
        proof {
            let pre = key@.subrange(0, i as int);
            let ext = key@.subrange(0, i as int + 1);
            assert(ext.drop_last() =~= pre);
            assert(out@ =~= spec_normalize(ext));
        }
        i = i + 1;
    }
    proof {
        assert(key@.subrange(0, n as int) =~= key@);
    }
    out
}

/// Normalization is idempotent: decoding a key a second time changes
/// nothing, because no space ever becomes a `+` again.
pub proof fn lemma_normalize_idempotent(s: Seq<char>)
    ensures
        spec_normalize(spec_normalize(s)) == spec_normalize(s),
{
    assert(spec_normalize(spec_normalize(s)) =~= spec_normalize(s));
}

} // verus!
