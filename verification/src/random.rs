//! The library's only source of randomness: thin wrappers around the
//! process-wide thread-local generator of the `rand` crate.
//!
//! Every draw is uniform over a finite range, so nothing more can be said of
//! a single outcome than the bounds stated here; the deciders take the drawn
//! value and do the rest in verified code.
use vstd::prelude::*;

use rand::seq::SliceRandom;
use rand::Rng;

verus! {

/// Relies on `rand::Rng::gen_range` over `0..n`: returns a uniformly drawn
/// index strictly below `n`; panics only on an empty range, which the
/// precondition rules out.
#[verifier::external_body]
pub(crate) fn rand_below(n: usize) -> (r: usize)
    requires
        n > 0,
    ensures
        r < n,
{
    rand::thread_rng().gen_range(0..n)
}

/// Relies on `rand::Rng::gen_range` over `lo..=hi`: returns a uniformly
/// drawn value inside the inclusive range; panics only on an empty range,
/// which the precondition rules out.
#[verifier::external_body]
pub(crate) fn rand_i32_between(lo: i32, hi: i32) -> (r: i32)
    requires
        lo <= hi,
    ensures
        lo <= r <= hi,
{
    rand::thread_rng().gen_range(lo..=hi)
}

/// Relies on `rand::seq::SliceRandom::shuffle`: a Fisher-Yates shuffle that
/// permutes the slice in place, so the result holds exactly the elements it
/// was given.
#[verifier::external_body]
pub(crate) fn shuffle_vec<T>(v: Vec<T>) -> (r: Vec<T>)
    ensures
        r@.to_multiset() == v@.to_multiset(),
{
    let mut v = v;
    v.as_mut_slice().shuffle(&mut rand::thread_rng());
    v
}

} // verus!
