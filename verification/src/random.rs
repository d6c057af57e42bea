//! The simulation's source of chance: the thread-local generator of `rand`.
//!
//! Nothing here is proved. Each function states only what holds of every
//! outcome; what the simulation does with an outcome is decided by verified
//! functions that take the outcome as an argument.

use rand::Rng;
use vstd::prelude::*;

verus! {

/// `rand::Rng::shuffle` on `rand::thread_rng()`: reorders `values` in place
/// by swapping elements, so the outcome holds the same values, each as often
/// as before.
#[verifier::external_body]
pub(crate) fn shuffle(values: &mut Vec<usize>)
    ensures
        final(values)@.to_multiset() == old(values)@.to_multiset(),
        final(values)@.len() == old(values)@.len(),
{
    rand::thread_rng().shuffle(values);
}

/// `rand::Rng::gen_range(0, high)` on `rand::thread_rng()`: some value of
/// `0 .. high`. The outside function panics unless `0 < high`.
#[verifier::external_body]
pub(crate) fn random_below(high: usize) -> (r: usize)
    requires
        high > 0,
    ensures
        r < high,
{
    rand::thread_rng().gen_range(0, high)
}

/// `rand::Rng::choose` on `rand::thread_rng()`: nothing of an empty list,
/// else one of its elements.
#[verifier::external_body]
pub(crate) fn pick<T>(values: &Vec<T>) -> (r: Option<&T>)
    ensures
        r is None <==> values@.len() == 0,
        r matches Some(v) ==> values@.contains(*v),
{
    rand::thread_rng().choose(values)
}

} // verus!
