//! The random source: the only place where the crate calls into `rand`.
//!
//! Nothing here is proved. Each contract states what the documentation and the
//! source of `rand` show of the call, and no more: in particular nothing is
//! said about which value is drawn.

use rand::rngs::ThreadRng;
use rand::seq::SliceRandom;
use rand::Rng;
use vstd::prelude::*;

verus! {

/// `rand::rngs::ThreadRng`, a handle to the generator of the current thread.
/// Its state is not modelled.
#[verifier::external_type_specification]
#[verifier::external_body]
pub struct ExThreadRng(ThreadRng);

/// `rand::thread_rng`: hands out the generator of the current thread.
/// Nothing is claimed of the handle.
#[verifier::external_body]
pub(crate) fn thread_rng() -> ThreadRng {
    rand::thread_rng()
}

/// `Rng::gen_range` on the half-open range `0..bound`: the value drawn lies
/// in the range. The call panics on an empty range, so `bound` is positive.
#[verifier::external_body]
pub(crate) fn pick_below(rng: &mut ThreadRng, bound: usize) -> (index: usize)
    requires
        bound > 0,
    ensures
        index < bound,
{
    rng.gen_range(0..bound)
}

/// `SliceRandom::shuffle`: reorders the cells in place by swapping pairs, so
/// the cells afterwards are the cells before, each as often as before.
#[verifier::external_body]
pub(crate) fn shuffle(rng: &mut ThreadRng, cells: &mut Vec<(u16, u16)>)
    ensures
        final(cells)@.to_multiset() == old(cells)@.to_multiset(),
{
    cells.shuffle(rng)
}

} // verus!
