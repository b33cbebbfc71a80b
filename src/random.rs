//! Random draws, from the thread-local generator of `rand`.
use vstd::prelude::*;
use rand::seq::SliceRandom;
use rand::Rng;

verus! {

/// Relies on `rand::Rng::gen_range` over `0..n` on `rand::thread_rng()`: a value
/// below `n` (it panics on an empty range, which `requires` leaves out).
#[verifier::external_body]
pub fn random_below(n: u32) -> (r: u32)
    requires
        n > 0,
    ensures
        r < n,
{
    rand::thread_rng().gen_range(0..n)
}

/// Relies on `rand::seq::SliceRandom::choose` on `rand::thread_rng()`: `None`
/// for an empty slice, else one of its elements.
#[verifier::external_body]
pub fn choose_one(v: &Vec<usize>) -> (r: Option<usize>)
    ensures
        v@.len() == 0 ==> r.is_none(),
        v@.len() > 0 ==> (r.is_some() && v@.contains(r.unwrap())),
{
    v.choose(&mut rand::thread_rng()).copied()
}

} // verus!
