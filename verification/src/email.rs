//! Case-insensitive email identity: emails are unique up to ASCII case, so
//! every lookup folds case before comparing.

use vstd::prelude::*;

verus! {

/// The code point of `c` with an ASCII upper-case letter folded to lower case.
pub open spec fn lower_code(c: char) -> int {
    if 65 <= c as int && c as int <= 90 {
        c as int + 32
    } else {
        c as int
    }
}

/// Two character sequences name the same email: equal up to ASCII case.
pub open spec fn same_email(a: Seq<char>, b: Seq<char>) -> bool {
    a.len() == b.len() && (forall|i: int| 0 <= i < a.len() ==> lower_code(a[i]) == lower_code(b[i]))
}

/// Relies on str::eq_ignore_ascii_case: byte-wise comparison that folds the
/// ASCII letters A-Z to lower case, which on valid UTF-8 coincides with the
/// character-wise fold in `same_email`.
pub assume_specification[ str::eq_ignore_ascii_case ](s: &str, other: &str) -> (r: bool)
    ensures
        r == same_email(s@, other@),
;

/// Whether two emails name the same identity (ASCII-case-insensitively).
pub fn emails_match(a: &String, b: &String) -> (r: bool)
    ensures
        r == same_email(a@, b@),
{
    a.as_str().eq_ignore_ascii_case(b.as_str())
}

} // verus!
