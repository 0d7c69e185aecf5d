//! Random draws, all taken from a seeded ChaCha stream that the caller owns.

use rand::seq::IteratorRandom;
use rand::seq::SliceRandom;
use rand::Rng;
use rand::RngCore;
use rand_chacha::ChaCha8Rng;
use vstd::prelude::*;

verus! {

#[verifier::external_type_specification]
#[verifier::external_body]
pub struct ExChaCha8Rng(ChaCha8Rng);

/// Relies on `IteratorRandom::choose` over `lo..=hi`: one value of the range,
/// or `None` when the range is empty. The range of all `usize` values has no
/// exact size, and there the count of its elements overflows, which
/// `requires` leaves out.
#[verifier::external_body]
pub(crate) fn choose_between(lo: usize, hi: usize, rng: &mut ChaCha8Rng) -> (r: Option<usize>)
    requires
        lo > 0 || hi < usize::MAX,
    ensures
        r is Some <==> lo <= hi,
        r matches Some(v) ==> lo <= v <= hi,
{
    (lo..=hi).choose(rng)
}

/// Relies on `Rng::gen_range` over `0..n`: a value below `n` (it panics on an
/// empty range, which `requires` leaves out).
#[verifier::external_body]
pub(crate) fn below(n: usize, rng: &mut ChaCha8Rng) -> (r: usize)
    requires
        n > 0,
    ensures
        r < n,
{
    rng.gen_range(0..n)
}

/// Relies on `RngCore::next_u32`: any `u32`.
#[verifier::external_body]
pub(crate) fn next_u32(rng: &mut ChaCha8Rng) -> (r: u32) {
    rng.next_u32()
}

/// Relies on `SliceRandom::choose`: one element of the slice, or `None` when it
/// is empty.
#[verifier::external_body]
pub(crate) fn choose_from<'a, T>(items: &'a Vec<T>, rng: &mut ChaCha8Rng) -> (r: Option<&'a T>)
    ensures
        r is Some <==> items@.len() > 0,
        r matches Some(v) ==> items@.contains(*v),
{
    items.as_slice().choose(rng)
}

} // verus!
