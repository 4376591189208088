//! The sources of randomness the search draws from, all through one explicit generator.

use rand::distributions::{Alphanumeric, DistString};
use rand::rngs::StdRng;
use rand::Rng;
use vstd::prelude::*;

verus! {

/// A character of the alphabet candidates are written in: `A`-`Z`, `a`-`z` and `0`-`9`.
pub open spec fn is_alphanumeric(c: char) -> bool {
    ('A' <= c && c <= 'Z') || ('a' <= c && c <= 'z') || ('0' <= c && c <= '9')
}

/// Every character of `s` is alphanumeric.
pub open spec fn all_alphanumeric(s: Seq<char>) -> bool {
    forall|i: int| 0 <= i < s.len() ==> is_alphanumeric(#[trigger] s[i])
}

#[verifier::external_type_specification]
#[verifier::external_body]
pub struct ExStdRng(StdRng);

/// Relies on rand's `Alphanumeric` sampled through `DistString::sample_string`: a string
/// of `len` characters, each drawn from `A`-`Z`, `a`-`z`, `0`-`9`.
#[verifier::external_body]
pub(crate) fn sample_alphanumeric(rng: &mut StdRng, len: usize) -> (r: Vec<char>)
    ensures
        r@.len() == len,
        all_alphanumeric(r@),
{
    Alphanumeric.sample_string(rng, len).chars().collect()
}

/// Relies on `Rng::gen_range` over `0..bound`: a value below `bound` (the range is never
/// empty, so the call does not panic).
#[verifier::external_body]
pub(crate) fn sample_below(rng: &mut StdRng, bound: u32) -> (r: u32)
    requires
        bound > 0,
    ensures
        r < bound,
{
    rng.gen_range(0..bound)
}

/// Relies on `Rng::gen::<bool>`: a fair coin flip; nothing is known of its outcome.
#[verifier::external_body]
pub(crate) fn sample_bool(rng: &mut StdRng) -> (r: bool) {
    rng.gen::<bool>()
}

} // verus!
