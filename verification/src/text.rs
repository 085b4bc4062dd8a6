//! Verified comparisons over strings, used by the path helpers and by the
//! schema projection.

use vstd::prelude::*;
use vstd::string::StrSliceExecFns;

verus! {

/// `suf` is the final segment of `s`.
pub open spec fn spec_ends_with(s: Seq<char>, suf: Seq<char>) -> bool {
    suf.len() <= s.len() && s.subrange(s.len() - suf.len(), s.len() as int) == suf
}

pub fn str_eq(a: &str, b: &str) -> (r: bool)
    ensures
        r == (a@ == b@),
{
    let a_len = a.unicode_len();
    let b_len = b.unicode_len();
    if a_len != b_len {
        return false;
    }
    let mut i: usize = 0;
    while i < a_len
        invariant
            a_len == a@.len(),
            b_len == b@.len(),
            a_len == b_len,
            i <= a_len,
            forall|k: int| 0 <= k < i as int ==> a@[k] == b@[k],
        decreases a_len - i,
    {
        if a.get_char(i) != b.get_char(i) {
            return false;
        }
        i += 1;
    }
    proof {
        assert(a@ =~= b@);
    }
    true
}

pub fn str_ends_with(s: &str, suf: &str) -> (r: bool)
    ensures
        r == spec_ends_with(s@, suf@),
{
    let s_len = s.unicode_len();
    let suf_len = suf.unicode_len();
    if suf_len > s_len {
        return false;
    }
    let off = s_len - suf_len;
    let mut i: usize = 0;
    while i < suf_len
        invariant
            s_len == s@.len(),
            suf_len == suf@.len(),
            suf_len <= s_len,
            off == s_len - suf_len,
            i <= suf_len,
            forall|k: int| 0 <= k < i as int ==> s@[off + k] == suf@[k],
        decreases suf_len - i,
    {
        if s.get_char(off + i) != suf.get_char(i) {
            proof {
                assert(s@.subrange(off as int, s@.len() as int)[i as int] == s@[off + i]);
            }
            return false;
        }
        i += 1;
    }
    proof {
        assert(s@.subrange(off as int, s@.len() as int) =~= suf@);
    }
    true
}

/// The views of a sequence of strings.
pub open spec fn str_views(s: Seq<String>) -> Seq<Seq<char>> {
    s.map_values(|x: String| x@)
}

/// A name is reserved when it opens with the structural-field marker `$`.
pub open spec fn spec_is_reserved_name(s: Seq<char>) -> bool {
    s.len() > 0 && s[0] == '$'
}

pub fn is_reserved_name(s: &str) -> (r: bool)
    ensures
        r == spec_is_reserved_name(s@),
{
    if s.unicode_len() == 0 {
        return false;
    }
    s.get_char(0) == '$'
}

} // verus!
