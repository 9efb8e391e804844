//! The injected random-number capability behind the stochastic crossover
//! operations, as thin wrappers over the `rand` crate.

use vstd::prelude::*;

verus! {

/// Relies on rand::Rng::gen_range over `0..n`: a uniformly random index
/// strictly below `n`. It panics only on an empty range, which `n > 0`
/// rules out.
#[verifier::external_body]
pub(crate) fn rand_below(n: usize) -> (r: usize)
    requires
        n > 0,
    ensures
        r < n,
{
    rand::Rng::gen_range(&mut rand::thread_rng(), 0..n)
}

/// Relies on rand::seq::SliceRandom::choose: `Some` of a uniformly chosen
/// element of the slice whenever the slice is non-empty.
#[verifier::external_body]
pub(crate) fn rand_choice(values: &Vec<i64>) -> (r: i64)
    requires
        values@.len() > 0,
    ensures
        values@.contains(r),
{
    *rand::seq::SliceRandom::choose(values.as_slice(), &mut rand::thread_rng()).unwrap()
}

} // verus!
