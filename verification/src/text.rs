//! Case mapping of symbols, as the exchanges spell their markets.
use vstd::prelude::*;

verus! {

/// What `str::to_uppercase` makes of a string (the Unicode uppercase mapping).
pub uninterp spec fn str_upper(s: Seq<char>) -> Seq<char>;

/// What `str::to_lowercase` makes of a string (the Unicode lowercase mapping).
pub uninterp spec fn str_lower(s: Seq<char>) -> Seq<char>;

/// Calls `str::to_uppercase`. Trusted: the result is the uppercase mapping of
/// the argument, a function of its characters alone (`str_upper`); what that
/// mapping is on given characters is left unsaid.
#[verifier::external_body]
pub(crate) fn to_upper(s: &str) -> (r: String)
    ensures
        r@ == str_upper(s@),
{
    s.to_uppercase()
}

/// Calls `str::to_lowercase`. Trusted: the result is the lowercase mapping of
/// the argument, a function of its characters alone (`str_lower`); what that
/// mapping is on given characters is left unsaid.
#[verifier::external_body]
pub(crate) fn to_lower(s: &str) -> (r: String)
    ensures
        r@ == str_lower(s@),
{
    s.to_lowercase()
}

/// `a`, then `sep`, then `b`.
pub open spec fn joined(a: Seq<char>, sep: Seq<char>, b: Seq<char>) -> Seq<char> {
    a + sep + b
}

/// Concatenates `a`, `sep` and `b` into a new string.
pub fn join_with(a: &str, sep: &str, b: &str) -> (r: String)
    ensures
        r@ == joined(a@, sep@, b@),
{
    let mut r = String::from_str(a);
    r.append(sep);
    r.append(b);
    r
}

/// `a` followed by `b` in a new string.
pub fn concatenated(a: &str, b: &str) -> (r: String)
    ensures
        r@ == a@ + b@,
{
    let mut r = String::from_str(a);
    r.append(b);
    r
}

} // verus!
