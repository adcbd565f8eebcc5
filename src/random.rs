use vstd::prelude::*;
use rand::Rng;
use rand::seq::SliceRandom;

verus! {

/// Relies on rand's `thread_rng` and `Rng::gen_range`: a draw from `0..n`,
/// which panics only on an empty range.
#[verifier::external_body]
pub(crate) fn random_below(n: usize) -> (r: usize)
    requires
        n > 0,
    ensures
        r < n,
{
    rand::thread_rng().gen_range(0..n)
}

/// Relies on rand's `thread_rng` and `Rng::gen` for `u8`: any byte may come back.
#[verifier::external_body]
pub(crate) fn random_byte() -> (r: u8) {
    rand::thread_rng().gen::<u8>()
}

/// Relies on rand's `SliceRandom::choose`: one element of the slice, or None
/// exactly when the slice is empty.
#[verifier::external_body]
pub(crate) fn choose_position(items: &Vec<(usize, usize)>) -> (r: Option<(usize, usize)>)
    ensures
        r is None <==> items@.len() == 0,
        r is Some ==> items@.contains(r.unwrap()),
{
    items.choose(&mut rand::thread_rng()).copied()
}

/// Relies on rand's `SliceRandom::shuffle`: the same ids in some order.
#[verifier::external_body]
pub(crate) fn shuffle_ids(ids: &mut Vec<u64>)
    ensures
        final(ids)@.to_multiset() == old(ids)@.to_multiset(),
{
    ids.shuffle(&mut rand::thread_rng());
}

} // verus!
