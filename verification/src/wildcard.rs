use vstd::prelude::*;
use vstd::string::*;

verus! {

/// Whether `c` is one of the glob metacharacters `*`, `?`, `[`.
pub open spec fn is_wildcard_char(c: char) -> bool {
    c == '*' || c == '?' || c == '['
}

/// Whether a pattern asks for matching, or names one file directly. A
/// metacharacter counts wherever it stands, also behind a backslash.
pub fn _is_wildcard_pattern(pattern: &str) -> (res: bool)
    ensures
        res == (pattern@.contains('*') || pattern@.contains('?') || pattern@.contains('[')),
        res == exists|i: int| 0 <= i < pattern@.len() && is_wildcard_char(#[trigger] pattern@[i]),
{
    let n: usize = pattern.unicode_len();
    let mut i: usize = 0;
    while i < n
        invariant
            n == pattern@.len(),
            i <= n,
            forall|k: int| 0 <= k < i ==> !is_wildcard_char(#[trigger] pattern@[k]),
        decreases n - i,
    {
        let c = pattern.get_char(i);
        if c == '*' || c == '?' || c == '[' {
            return true;
        }
        i += 1;
    }
    false
}

} // verus!
