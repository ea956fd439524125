//! Session secret manager: one unpredictable printable token per process
//! start, compared by exact match when a client calls back with it.

use vstd::prelude::*;
use rand::distr::SampleString;
use crate::SECRET_LENGTH;
use crate::text::str_eq;

verus! {

/// An ASCII letter or digit, the alphabet the session secret is drawn from.
pub open spec fn is_alnum(c: char) -> bool {
    ||| '0' <= c && c <= '9'
    ||| 'a' <= c && c <= 'z'
    ||| 'A' <= c && c <= 'Z'
}

/// Every character of the sequence is an ASCII letter or digit.
pub open spec fn all_alnum(s: Seq<char>) -> bool {
    forall|i: int| 0 <= i < s.len() ==> is_alnum(#[trigger] s[i])
}

/// Relies on rand's `Alphanumeric::sample_string`: the result holds exactly
/// `len` characters, each drawn from the ASCII letters and digits. The value
/// itself is random, so nothing more is promised of it.
#[verifier::external_body]
fn random_alnum_string(len: usize) -> (r: String)
    ensures
        r@.len() == len,
        all_alnum(r@),
{
    rand::distr::Alphanumeric.sample_string(&mut rand::rng(), len)
}

/// Generates the process-wide session secret: a fresh random token of
/// `SECRET_LENGTH` printable characters.
pub fn create_secret() -> (r: String)
    ensures
        r@.len() == SECRET_LENGTH,
        all_alnum(r@),
{
    random_alnum_string(SECRET_LENGTH)
}

/// Exact-match comparison of a supplied secret against the live one.
pub fn secret_matches(supplied: &str, live: &str) -> (r: bool)
    ensures
        r == (supplied@ == live@),
{
    str_eq(supplied, live)
}

} // verus!
