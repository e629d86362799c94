//! Turning the output of the hostname lookup into the recorded hostname.
//!
//! The supervisor learns its machine name by running an external lookup at
//! startup; the raw output arrives here as plain text. When the lookup
//! succeeded its output is kept with the surrounding whitespace (the
//! trailing newline of command output) stripped; when it failed a fixed
//! fallback name is recorded instead.

use vstd::prelude::*;
use vstd::string::StrSliceExecFns;
use vstd::string::StringExecFns;

verus! {

/// The whitespace stripped from the ends of the lookup output.
pub open spec fn is_space(c: char) -> bool {
    c == ' ' || c == '\n' || c == '\t' || c == '\r'
}

/// Index of the first non-space character at or after `i`.
pub open spec fn trim_from(s: Seq<char>, i: int) -> int
    recommends
        0 <= i <= s.len(),
    decreases s.len() - i,
{
    if i < s.len() && is_space(s[i]) {
        trim_from(s, i + 1)
    } else {
        i
    }
}

/// Index just past the last non-space character at or before `i - 1`.
pub open spec fn trim_back(s: Seq<char>, i: int) -> int
    recommends
        0 <= i <= s.len(),
    decreases i,
{
    if i > 0 && is_space(s[i - 1]) {
        trim_back(s, i - 1)
    } else {
        i
    }
}

/// The text with the whitespace stripped from both ends; empty when it was
/// nothing but whitespace.
pub open spec fn trimmed(s: Seq<char>) -> Seq<char> {
    if trim_from(s, 0) == s.len() {
        Seq::empty()
    } else {
        s.subrange(trim_from(s, 0), trim_back(s, s.len() as int))
    }
}

/// Whether the character is whitespace to be stripped.
pub fn is_space_char(c: char) -> (r: bool)
    ensures
        r == is_space(c),
{
    c == ' ' || c == '\n' || c == '\t' || c == '\r'
}

/// Once a non-space stands at `lo`, stripping from the back never reaches
/// down to `lo`.
proof fn lemma_trim_back_above(s: Seq<char>, lo: int, i: int)
    requires
        0 <= lo < i <= s.len(),
        !is_space(s[lo]),
    ensures
        lo + 1 <= trim_back(s, i) <= i,
    decreases i,
{
    if i > 0 && is_space(s[i - 1]) {
        lemma_trim_back_above(s, lo, i - 1);
    }
}

/// Strip whitespace from both ends of the lookup output.
pub fn trim_spaces(s: &str) -> (r: String)
    ensures
        r@ == trimmed(s@),
{
    let n = s.unicode_len();
    let mut lo: usize = 0;
    while lo < n && is_space_char(s.get_char(lo))
        invariant
            0 <= lo <= n,
            n == s@.len(),
            trim_from(s@, 0) == trim_from(s@, lo as int),
        decreases n - lo,
    {
        lo = lo + 1;
    }
    assert(trim_from(s@, 0) == lo as int);
    if lo == n {
        assert(trimmed(s@) =~= Seq::<char>::empty());
        return String::new();
    }
    let mut hi: usize = n;
    while hi > lo && is_space_char(s.get_char(hi - 1))
        invariant
            lo < hi <= n,
            n == s@.len(),
            lo < n,
            !is_space(s@[lo as int]),
            trim_back(s@, n as int) == trim_back(s@, hi as int),
        decreases hi,
    {
        hi = hi - 1;
    }
    assert(trim_back(s@, n as int) == hi as int);
    let piece = s.substring_char(lo, hi);
    piece.to_owned()
}

/// The hostname to record: the lookup output trimmed when the lookup
/// succeeded, a fixed fallback name when it failed.
pub fn hostname_from_output(ok: bool, raw: &str) -> (r: String)
    ensures
        ok ==> r@ == trimmed(raw@),
        !ok ==> r@ == "unknown"@,
{
    if ok {
        trim_spaces(raw)
    } else {
        String::from_str("unknown")
    }
}

} // verus!
