//! Syntactic validity of account identifiers.  A token identifier other than
//! the native currency marker must be a valid external account; the rule is
//! stated here and the check itself is delegated to the host SDK.

use vstd::prelude::*;

verus! {

/// A lowercase letter or a digit.
pub open spec fn is_account_alnum(c: char) -> bool {
    ('a' <= c && c <= 'z') || ('0' <= c && c <= '9')
}

/// One of the three separators an account identifier may contain.
pub open spec fn is_account_separator(c: char) -> bool {
    c == '-' || c == '_' || c == '.'
}

/// A valid account identifier: 2 to 64 characters, each a lowercase letter,
/// a digit or a separator (`-`, `_`, `.`), where no separator stands first,
/// stands last, or follows another separator.
pub open spec fn valid_account_id(s: Seq<char>) -> bool {
    &&& 2 <= s.len() <= 64
    &&& forall|i: int|
        0 <= i < s.len() ==> is_account_alnum(#[trigger] s[i]) || is_account_separator(s[i])
    &&& !is_account_separator(s[0])
    &&& !is_account_separator(s[s.len() - 1])
    &&& forall|i: int|
        0 < i < s.len() ==> !(is_account_separator(#[trigger] s[i]) && is_account_separator(
            s[i - 1],
        ))
}

/// Relies on `near_sdk::AccountId`'s `FromStr`, which accepts a string
/// exactly when it is 2 to 64 bytes of lowercase alphanumerics and the
/// separators `-`, `_`, `.`, with no separator first, last, or doubled.
#[verifier::external_body]
pub fn is_valid_account_id(s: &str) -> (r: bool)
    ensures
        r == valid_account_id(s@),
{
    s.parse::<near_sdk::AccountId>().is_ok()
}

} // verus!
