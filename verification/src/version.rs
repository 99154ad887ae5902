use vstd::prelude::*;

use crate::classify::opt_chars;

verus! {

/// The whitespace characters that surrounding-whitespace trimming removes:
/// the ASCII blank characters.
pub open spec fn is_ws(c: char) -> bool {
    c == ' ' || c == '\t' || c == '\n' || c == '\r' || c == '\u{000b}' || c == '\u{000c}'
}

fn is_ws_exec(c: char) -> (r: bool)
    ensures
        r == is_ws(c),
{
    c == ' ' || c == '\t' || c == '\n' || c == '\r' || c == '\u{000b}' || c == '\u{000c}'
}

/// A character sequence without its leading whitespace.
pub open spec fn trim_start(s: Seq<char>) -> Seq<char>
    decreases s.len(),
{
    if s.len() > 0 && is_ws(s[0]) {
        trim_start(s.drop_first())
    } else {
        s
    }
}

/// A character sequence without its trailing whitespace.
pub open spec fn trim_end(s: Seq<char>) -> Seq<char>
    decreases s.len(),
{
    if s.len() > 0 && is_ws(s.last()) {
        trim_end(s.drop_last())
    } else {
        s
    }
}

/// A character sequence without its surrounding whitespace.
pub open spec fn spec_trim(s: Seq<char>) -> Seq<char> {
    trim_end(trim_start(s))
}

proof fn lemma_trim_start_is_subrange(s: Seq<char>, k: int)
    requires
        0 <= k <= s.len(),
        forall|j: int| 0 <= j < k ==> is_ws(s[j]),
        k < s.len() ==> !is_ws(s[k]),
    ensures
        trim_start(s) == s.subrange(k, s.len() as int),
    decreases k,
{
    if k == 0 {
        assert(s.subrange(0, s.len() as int) =~= s);
    } else {
        let t = s.drop_first();
        assert(forall|j: int| 0 <= j < k - 1 ==> is_ws(t[j]));
        lemma_trim_start_is_subrange(t, k - 1);
        assert(t.subrange(k - 1, t.len() as int) =~= s.subrange(k, s.len() as int));
    }
}

proof fn lemma_trim_end_is_subrange(s: Seq<char>, k: int)
    requires
        0 <= k <= s.len(),
        forall|j: int| k <= j < s.len() ==> is_ws(s[j]),
        k > 0 ==> !is_ws(s[k - 1]),
    ensures
        trim_end(s) == s.subrange(0, k),
    decreases s.len(),
{
    if k == s.len() {
        assert(s.subrange(0, k) =~= s);
    } else {
        let t = s.drop_last();
        assert(forall|j: int| k <= j < t.len() ==> is_ws(t[j]));
        lemma_trim_end_is_subrange(t, k);
        assert(t.subrange(0, k) =~= s.subrange(0, k));
    }
}

/// Remove the surrounding whitespace of a string.
pub fn trim_ws(s: &str) -> (r: &str)
    ensures
        r@ == spec_trim(s@),
{
    let len = s.unicode_len();
    let mut lo: usize = 0;
    while lo < len && is_ws_exec(s.get_char(lo))
        invariant
            len == s@.len(),
            lo <= len,
            forall|j: int| 0 <= j < lo ==> is_ws(s@[j]),
        decreases len - lo,
    {
        lo += 1;
    }
    if lo == len {
        let r = s.substring_char(len, len);
        proof {
            lemma_trim_start_is_subrange(s@, len as int);
            assert(s@.subrange(len as int, len as int) =~= Seq::<char>::empty());
            assert(r@ =~= Seq::<char>::empty());
        }
        return r;
    }
    let mut hi: usize = len;
    while hi > lo && is_ws_exec(s.get_char(hi - 1))
        invariant
            len == s@.len(),
            lo < hi <= len,
            lo < len,
            !is_ws(s@[lo as int]),
            forall|j: int| hi <= j < len ==> is_ws(s@[j]),
        decreases hi,
    {
        hi -= 1;
    }
    let r = s.substring_char(lo, hi);
    proof {
        lemma_trim_start_is_subrange(s@, lo as int);
        let t = s@.subrange(lo as int, len as int);
        assert(forall|j: int| (hi - lo) <= j < t.len() ==> is_ws(t[j]));
        assert(!is_ws(t[hi - lo - 1]));
        lemma_trim_end_is_subrange(t, hi - lo);
        assert(t.subrange(0, hi - lo) =~= s@.subrange(lo as int, hi as int));
    }
    r
}

/// The normalized display version carried by the rendered segment: the raw
/// toolchain output with surrounding whitespace removed and the literal
/// prefix `v`; output that is empty after trimming yields nothing.
pub open spec fn spec_version(raw: Seq<char>) -> Option<Seq<char>> {
    if spec_trim(raw).len() == 0 {
        None
    } else {
        Some("v"@ + spec_trim(raw))
    }
}

/// Normalize the captured output of the toolchain's version query.
pub fn format_dotnet_version(raw: &str) -> (r: Option<String>)
    ensures
        opt_chars(r) == spec_version(raw@),
{
    let trimmed = trim_ws(raw);
    if trimmed.unicode_len() == 0 {
        return None;
    }
    let buffer = String::from_str("v").concat(trimmed);
    Some(buffer)
}

} // verus!
