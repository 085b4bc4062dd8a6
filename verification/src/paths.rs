//! A plain-text model of filesystem paths.
//!
//! This crate treats a path as a string whose segments are separated by
//! `/`. The file name is the last segment, trailing separators ignored,
//! as the platform path type reads it; the parent directory is the text
//! before the final separator, a lone leading separator kept.

use vstd::prelude::*;
use vstd::string::StrSliceExecFns;
use vstd::string::StringExecFns;
use crate::text::spec_ends_with;

verus! {

/// The text after the final `/`, or the whole text when it has none;
/// empty when the text ends with a separator.
pub open spec fn last_segment(p: Seq<char>) -> Seq<char>
    decreases p.len(),
{
    if p.len() == 0 {
        p
    } else if p.last() == '/' {
        Seq::empty()
    } else {
        last_segment(p.drop_last()).push(p.last())
    }
}

/// The path with its final separators removed.
pub open spec fn strip_trailing_separators(p: Seq<char>) -> Seq<char>
    decreases p.len(),
{
    if p.len() > 0 && p.last() == '/' {
        strip_trailing_separators(p.drop_last())
    } else {
        p
    }
}

/// The file name of a path: its last segment, trailing separators
/// ignored.
pub open spec fn file_name_of(p: Seq<char>) -> Seq<char> {
    last_segment(strip_trailing_separators(p))
}

/// The text before the final `/`: empty when the path has no separator,
/// `/` alone when the final separator opens the path.
pub open spec fn dir_of(p: Seq<char>) -> Seq<char>
    decreases p.len(),
{
    if p.len() == 0 {
        p
    } else if p.last() == '/' {
        if p.len() == 1 {
            p
        } else {
            p.drop_last()
        }
    } else {
        dir_of(p.drop_last())
    }
}

/// The last segment is a suffix of the text, holds no separator, and is
/// preceded by a separator unless it is the whole text.
pub proof fn lemma_last_segment_suffix(p: Seq<char>)
    ensures
        last_segment(p).len() <= p.len(),
        last_segment(p) == p.subrange(p.len() - last_segment(p).len(), p.len() as int),
        forall|j: int| 0 <= j < last_segment(p).len() ==> last_segment(p)[j] != '/',
        last_segment(p).len() < p.len() ==> p[p.len() - last_segment(p).len() - 1] == '/',
    decreases p.len(),
{
    if p.len() == 0 {
        assert(last_segment(p) =~= p.subrange(0, 0));
    } else if p.last() == '/' {
        assert(last_segment(p) =~= p.subrange(p.len() as int, p.len() as int));
    } else {
        let q = p.drop_last();
        lemma_last_segment_suffix(q);
        let n = last_segment(q).len() as int;
        assert(last_segment(p) =~= p.subrange(p.len() - (n + 1), p.len() as int));
    }
}

/// `dir_of` read off the position of the final separator.
proof fn lemma_dir_of_at(p: Seq<char>, k: int)
    requires
        0 <= k < p.len(),
        p[k] == '/',
        forall|j: int| k < j < p.len() ==> p[j] != '/',
    ensures
        dir_of(p) == if k == 0 {
            p.subrange(0, 1)
        } else {
            p.subrange(0, k)
        },
    decreases p.len(),
{
    if p.last() == '/' {
        if p.len() == 1 {
            assert(dir_of(p) =~= p.subrange(0, 1));
        } else {
            assert(dir_of(p) =~= p.subrange(0, k));
        }
    } else {
        let q = p.drop_last();
        lemma_dir_of_at(q, k);
        if k == 0 {
            assert(q.subrange(0, 1) =~= p.subrange(0, 1));
        } else {
            assert(q.subrange(0, k) =~= p.subrange(0, k));
        }
    }
}

/// A path without a separator has no parent directory text.
proof fn lemma_dir_of_no_slash(p: Seq<char>)
    requires
        forall|j: int| 0 <= j < p.len() ==> p[j] != '/',
    ensures
        dir_of(p) == Seq::<char>::empty(),
    decreases p.len(),
{
    if p.len() == 0 {
        assert(dir_of(p) =~= Seq::<char>::empty());
    } else {
        lemma_dir_of_no_slash(p.drop_last());
    }
}

/// The text before the final separator of `p`, as `dir_of` gives it.
pub fn parent_dir(p: &str) -> (r: String)
    ensures
        r@ == dir_of(p@),
{
    let len = p.unicode_len();
    let mut i: usize = len;
    while i > 0
        invariant
            i <= len,
            len == p@.len(),
            forall|j: int| i as int <= j < len as int ==> p@[j] != '/',
        decreases i,
    {
        if p.get_char(i - 1) == '/' {
            let k = i - 1;
            proof {
                lemma_dir_of_at(p@, k as int);
            }
            if k == 0 {
                let r = p.substring_char(0, 1);
                return r.to_owned();
            } else {
                let r = p.substring_char(0, k);
                return r.to_owned();
            }
        }
        i -= 1;
    }
    proof {
        lemma_dir_of_no_slash(p@);
    }
    String::new()
}

/// `name` placed directly inside the directory `dir`: a separator is put
/// between them unless `dir` already ends with one.
pub open spec fn spec_join(dir: Seq<char>, name: Seq<char>) -> Seq<char> {
    if dir.len() > 0 && dir.last() == '/' {
        dir + name
    } else {
        dir + "/"@ + name
    }
}

pub fn join_path(dir: &str, name: &str) -> (r: String)
    ensures
        r@ == spec_join(dir@, name@),
{
    let mut r = dir.to_owned();
    let dlen = dir.unicode_len();
    if dlen == 0 || dir.get_char(dlen - 1) != '/' {
        r.append("/");
    }
    r.append(name);
    r
}

/// Checking a separator-free suffix against the file name and against
/// the path with its trailing separators removed is the same check.
pub proof fn lemma_ends_with_file_name(p: Seq<char>, suf: Seq<char>)
    requires
        suf.len() > 0,
        forall|j: int| 0 <= j < suf.len() ==> suf[j] != '/',
    ensures
        spec_ends_with(file_name_of(p), suf) == spec_ends_with(
            strip_trailing_separators(p),
            suf,
        ),
{
    let q = strip_trailing_separators(p);
    lemma_last_segment_suffix(q);
    let name = last_segment(q);
    let n = name.len() as int;
    if spec_ends_with(name, suf) {
        assert(q.subrange(q.len() - suf.len(), q.len() as int) =~= suf);
    }
    if spec_ends_with(q, suf) {
        if suf.len() > n {
            // The character just before the last segment lies inside the
            // matched suffix, yet it is a separator and the suffix has
            // none.
            let k = q.len() - n - 1;
            assert(suf[k - (q.len() - suf.len())] == q[k]);
            assert(false);
        } else {
            assert(name.subrange(n - suf.len(), n) =~= suf);
        }
    }
}

} // verus!
