use rand::seq::IteratorRandom;
use vstd::prelude::*;

verus! {

/// Relies on `rand::random_range`: a value drawn from the range `0..n`; the call panics
/// on an empty range.
#[verifier::external_body]
pub(crate) fn random_below(n: usize) -> (r: usize)
    requires
        n > 0,
    ensures
        r < n,
{
    rand::random_range(0..n)
}

/// Relies on `rand::random_ratio`: `true` with probability `numerator / denominator`,
/// always `false` when `numerator == 0`, always `true` when it equals `denominator`; the
/// call panics when `denominator == 0` or `numerator > denominator`.
#[verifier::external_body]
pub(crate) fn random_ratio(numerator: u32, denominator: u32) -> (r: bool)
    requires
        denominator > 0,
        numerator <= denominator,
    ensures
        numerator == 0 ==> !r,
        numerator == denominator ==> r,
{
    rand::random_ratio(numerator, denominator)
}

/// Relies on `rand::seq::IteratorRandom::choose_multiple` over `0..n`: distinct values
/// below `n`, `amount` of them, or all `n` when `amount` exceeds `n`.
#[verifier::external_body]
pub(crate) fn choose_distinct(n: usize, amount: usize) -> (r: Vec<usize>)
    ensures
        r@.len() == if amount <= n { amount } else { n },
        forall|i: int| 0 <= i < r@.len() ==> r@[i] < n,
        r@.no_duplicates(),
{
    (0..n).choose_multiple(&mut rand::rng(), amount)
}

} // verus!
