//! Prefix and suffix tests on strings.

use vstd::prelude::*;

verus! {

/// Relies on `str::starts_with` with a `&str` pattern: true exactly when
/// `prefix` is a prefix of `s`.
#[verifier::external_body]
pub(crate) fn has_prefix(s: &str, prefix: &str) -> (r: bool)
    ensures
        r == prefix@.is_prefix_of(s@),
{
    s.starts_with(prefix)
}

/// Relies on `str::ends_with` with a `&str` pattern: true exactly when
/// `suffix` is a suffix of `s`.
#[verifier::external_body]
pub(crate) fn has_suffix(s: &str, suffix: &str) -> (r: bool)
    ensures
        r == suffix@.is_suffix_of(s@),
{
    s.ends_with(suffix)
}

} // verus!
