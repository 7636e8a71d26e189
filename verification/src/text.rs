//! Character-level helpers shared by the denylist filter and the
//! remote-list parser: equality, substring search, and trimming.

use vstd::prelude::*;
use vstd::string::*;

verus! {

/// The needle occurs in the haystack beginning at position `i`.
pub open spec fn occurs_at(hay: Seq<char>, needle: Seq<char>, i: int) -> bool {
    &&& 0 <= i
    &&& i + needle.len() <= hay.len()
    &&& hay.subrange(i, i + needle.len() as int) == needle
}

/// The needle occurs somewhere in the haystack.
pub open spec fn contains_seq(hay: Seq<char>, needle: Seq<char>) -> bool {
    exists|i: int| occurs_at(hay, needle, i)
}

/// Character-for-character equality of two string slices.
pub fn str_eq(a: &str, b: &str) -> (r: bool)
    ensures
        r == (a@ == b@),
{
    let alen = a.unicode_len();
    let blen = b.unicode_len();
    if alen != blen {
        return false;
    }
    let mut i: usize = 0;
    while i < alen
        invariant
            i <= alen,
            alen == a@.len(),
            blen == b@.len(),
            alen == blen,
            forall|k: int| 0 <= k < i ==> a@[k] == b@[k],
        decreases alen - i,
    {
        if a.get_char(i) != b.get_char(i) {
            return false;
        }
        i += 1;
    }
    proof {
        assert(a@ =~= b@);
    }
    true
}

/// The needle matches the haystack at position `i`.
fn matches_at(hay: &str, needle: &str, i: usize) -> (r: bool)
    requires
        i + needle@.len() <= hay@.len(),
    ensures
        r == occurs_at(hay@, needle@, i as int),
{
    let hlen = hay.unicode_len();
    let nlen = needle.unicode_len();
    let mut j: usize = 0;
    while j < nlen
        invariant
            j <= nlen,
            hlen == hay@.len(),
            nlen == needle@.len(),
            i + nlen <= hlen,
            forall|k: int| 0 <= k < j ==> hay@[i + k] == needle@[k],
        decreases nlen - j,
    {
        if hay.get_char(i + j) != needle.get_char(j) {
            proof {
                assert(hay@.subrange(i as int, i + nlen as int)[j as int] == hay@[i + j]);
            }
            return false;
        }
        j += 1;
    }
    proof {
        assert(hay@.subrange(i as int, i + nlen as int) =~= needle@);
    }
    true
}

/// Substring search: does the needle occur anywhere in the haystack?
pub fn contains_substr(hay: &str, needle: &str) -> (r: bool)
    ensures
        r == contains_seq(hay@, needle@),
{
    let hlen = hay.unicode_len();
    let nlen = needle.unicode_len();
    if nlen == 0 {
        proof {
            assert(hay@.subrange(0, 0) =~= needle@);
            assert(occurs_at(hay@, needle@, 0));
        }
        return true;
    }
    if nlen > hlen {
        proof {
            assert(forall|k: int| !occurs_at(hay@, needle@, k));
        }
        return false;
    }
    let mut i: usize = 0;
    while i <= hlen - nlen
        invariant
            hlen == hay@.len(),
            nlen == needle@.len(),
            1 <= nlen <= hlen,
            i <= hlen - nlen + 1,
            forall|k: int| 0 <= k < i ==> !occurs_at(hay@, needle@, k),
        decreases hlen - nlen + 1 - i,
    {
        if matches_at(hay, needle, i) {
            return true;
        }
        i += 1;
    }
    proof {
        assert(forall|k: int| !occurs_at(hay@, needle@, k));
    }
    false
}

/// ASCII whitespace, as stripped from the ends of a remote-listing line.
pub open spec fn is_line_ws(c: char) -> bool {
    c == ' ' || c == '\t' || c == '\r' || c == '\n' || c == '\u{b}' || c == '\u{c}'
}

/// Executable test for [`is_line_ws`].
pub fn is_ws_char(c: char) -> (r: bool)
    ensures
        r == is_line_ws(c),
{
    c == ' ' || c == '\t' || c == '\r' || c == '\n' || c == '\u{b}' || c == '\u{c}'
}

/// The sequence with trailing whitespace removed.
pub open spec fn trim_end_spec(s: Seq<char>) -> Seq<char>
    decreases s.len(),
{
    if s.len() > 0 && is_line_ws(s[s.len() - 1]) {
        trim_end_spec(s.drop_last())
    } else {
        s
    }
}

/// The sequence with leading whitespace removed.
pub open spec fn trim_start_spec(s: Seq<char>) -> Seq<char>
    decreases s.len(),
{
    if s.len() > 0 && is_line_ws(s[0]) {
        trim_start_spec(s.subrange(1, s.len() as int))
    } else {
        s
    }
}

/// The sequence with whitespace removed from both ends.
pub open spec fn trim_spec(s: Seq<char>) -> Seq<char> {
    trim_start_spec(trim_end_spec(s))
}

proof fn lemma_trim_end_idx(s: Seq<char>, hi: int)
    requires
        0 <= hi <= s.len(),
        forall|k: int| hi <= k < s.len() ==> is_line_ws(s[k]),
        hi == 0 || !is_line_ws(s[hi - 1]),
    ensures
        trim_end_spec(s) == s.subrange(0, hi),
    decreases s.len(),
{
    if hi == s.len() {
        assert(s.subrange(0, hi) =~= s);
    } else {
        lemma_trim_end_idx(s.drop_last(), hi);
        assert(s.drop_last().subrange(0, hi) =~= s.subrange(0, hi));
    }
}

proof fn lemma_trim_start_idx(s: Seq<char>, lo: int)
    requires
        0 <= lo <= s.len(),
        forall|k: int| 0 <= k < lo ==> is_line_ws(s[k]),
        lo == s.len() || !is_line_ws(s[lo]),
    ensures
        trim_start_spec(s) == s.subrange(lo, s.len() as int),
    decreases s.len(),
{
    if lo == 0 {
        assert(s.subrange(0, s.len() as int) =~= s);
    } else {
        let t = s.subrange(1, s.len() as int);
        lemma_trim_start_idx(t, lo - 1);
        assert(t.subrange(lo - 1, t.len() as int) =~= s.subrange(lo, s.len() as int));
    }
}

/// The slice with ASCII whitespace stripped from both ends.
pub fn trim_str(s: &str) -> (r: &str)
    ensures
        r@ == trim_spec(s@),
{
    let len = s.unicode_len();
    let mut hi: usize = len;
    loop
        invariant
            hi <= len,
            len == s@.len(),
            forall|k: int| hi <= k < len ==> is_line_ws(s@[k]),
        ensures
            hi <= len,
            hi == 0 || !is_line_ws(s@[hi - 1]),
            forall|k: int| hi <= k < len ==> is_line_ws(s@[k]),
        decreases hi,
    {
        if hi == 0 {
            break;
        }
        if !is_ws_char(s.get_char(hi - 1)) {
            break;
        }
        hi -= 1;
    }
    proof {
        lemma_trim_end_idx(s@, hi as int);
    }
    let t = s.substring_char(0, hi);
    let mut lo: usize = 0;
    loop
        invariant
            lo <= hi,
            t@ == s@.subrange(0, hi as int),
            t@.len() == hi,
            forall|k: int| 0 <= k < lo ==> is_line_ws(t@[k]),
        ensures
            lo <= hi,
            lo == hi || !is_line_ws(t@[lo as int]),
            forall|k: int| 0 <= k < lo ==> is_line_ws(t@[k]),
        decreases hi - lo,
    {
        if lo == hi {
            break;
        }
        if !is_ws_char(t.get_char(lo)) {
            break;
        }
        lo += 1;
    }
    proof {
        lemma_trim_start_idx(t@, lo as int);
    }
    t.substring_char(lo, hi)
}

} // verus!
