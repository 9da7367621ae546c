//! Validation of user-supplied identifiers against the safe pattern:
//! one or more ASCII letters, digits, underscores or hyphens. Session
//! identifiers and session file name stems must match it exactly.

use vstd::prelude::*;
use vstd::string::StrSliceExecFns;

verus! {

/// A character the safe-name pattern accepts: an ASCII letter, a digit,
/// an underscore or a hyphen.
pub open spec fn is_safe_char(c: char) -> bool {
    ('a' <= c && c <= 'z') || ('A' <= c && c <= 'Z') || ('0' <= c && c <= '9') || c == '_' || c
        == '-'
}

/// A safe name: non-empty, made of safe characters only.
pub open spec fn is_safe_name_spec(s: Seq<char>) -> bool {
    s.len() > 0 && forall|i: int| 0 <= i < s.len() ==> is_safe_char(#[trigger] s[i])
}

/// Whether `s` matches the safe-name pattern exactly.
pub fn is_safe_name(s: &str) -> (r: bool)
    ensures
        r == is_safe_name_spec(s@),
{
    let n = s.unicode_len();
    if n == 0 {
        return false;
    }
    let mut i: usize = 0;
    while i < n
        invariant
            0 <= i <= n,
            n == s@.len(),
            forall|j: int| 0 <= j < i ==> is_safe_char(#[trigger] s@[j]),
        decreases n - i,
    {
        let c = s.get_char(i);
        let ok = ('a' <= c && c <= 'z') || ('A' <= c && c <= 'Z') || ('0' <= c && c <= '9') || c
            == '_' || c == '-';
        if !ok {
            return false;
        }
        i = i + 1;
    }
    true
}

/// Whether `session_id` is acceptable for resuming a session: it must
/// match the safe pattern (which also rules out the empty string).
pub fn is_valid_session_id(session_id: &str) -> (r: bool)
    ensures
        r == is_safe_name_spec(session_id@),
{
    is_safe_name(session_id)
}

} // verus!
