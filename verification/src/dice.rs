//! The dice. Every draw of chance that the engine makes goes through the two
//! functions of this module, which hand the call to the `rand` crate. Nothing
//! is proved of them: their contracts are taken on trust, and say only what
//! holds of every outcome.

use rand::seq::SliceRandom;
use rand::Rng;
use vstd::prelude::*;

verus! {

/// Draws a number from zero up to, not including, `bound`.
///
/// Trusted: calls `rand::Rng::gen_range` with the range `0..bound` on the
/// generator that `rand::thread_rng` keeps for the calling thread. The crate
/// documents that the value lies in the range and that an empty range
/// panics, which `bound > 0` rules out. Which value comes is left open.
#[verifier::external_body]
pub(crate) fn draw_below(bound: u8) -> (r: u8)
    requires
        bound > 0,
    ensures
        r < bound,
{
    rand::thread_rng().gen_range(0..bound)
}

/// Picks one of `items`, or nothing where there is none.
///
/// Trusted: calls `rand::seq::SliceRandom::choose` on the slice of `items`,
/// with the generator that `rand::thread_rng` keeps for the calling thread.
/// The crate documents that it returns a reference to one element of the
/// slice, and `None` if the slice is empty. Which element comes is left open.
#[verifier::external_body]
pub(crate) fn pick<'a, T>(items: &'a Vec<T>) -> (r: Option<&'a T>)
    ensures
        r is Some <==> items@.len() > 0,
        r matches Some(item) ==> items@.contains(*item),
{
    items.choose(&mut rand::thread_rng())
}

} // verus!
