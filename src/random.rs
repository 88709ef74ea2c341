use vstd::prelude::*;
use rand::distributions::IndependentSample;

verus! {

/// Relies on `rand::distributions::Range::new(0, n).ind_sample` over the
/// thread-local generator: a value in `[0, n)`. `Range::new` panics unless
/// `0 < n`.
#[verifier::external_body]
pub(crate) fn draw_below(n: usize) -> (r: usize)
    requires
        0 < n,
    ensures
        r < n,
{
    rand::distributions::Range::new(0, n).ind_sample(&mut rand::thread_rng())
}

/// Relies on `rand::sample` over `0..n` with the thread-local generator
/// (reservoir sampling): it keeps `min(n, amount)` items of the range, each
/// item at most once.
#[verifier::external_body]
#[allow(deprecated)]
pub(crate) fn sample_below(n: usize, amount: usize) -> (r: Vec<usize>)
    ensures
        r@.len() == if n < amount { n } else { amount },
        r@.no_duplicates(),
        forall|i: int| 0 <= i < r@.len() ==> r@[i] < n,
{
    rand::sample(&mut rand::thread_rng(), 0..n, amount)
}

} // verus!
