//! The random numbers the game draws, from the `rand` crate's thread-local
//! generator.
use vstd::prelude::*;
use crate::item::Item;

verus! {

/// Calls `rand::rng().random_range(0..bound)`. The crate's documentation
/// promises a value of the half-open range and panics on an empty one; which
/// value comes back rests on chance, so only the range is stated.
#[verifier::external_body]
pub(crate) fn random_below(bound: usize) -> (r: usize)
    requires
        bound > 0,
    ensures
        r < bound,
{
    rand::Rng::random_range(&mut rand::rng(), 0..bound)
}

/// Calls `rand::seq::IndexedRandom::choose` on the items with the thread-local
/// generator. Its source returns `None` for an empty slice and otherwise a
/// reference to the element at an index drawn from `..len`; which element
/// rests on chance, so only that it is one of the items is stated.
#[verifier::external_body]
pub(crate) fn choose_item(items: &Vec<Item>) -> (r: Option<&Item>)
    ensures
        r is None <==> items@.len() == 0,
        r matches Some(it) ==> items@.contains(*it),
{
    rand::seq::IndexedRandom::choose(items.as_slice(), &mut rand::rng())
}

} // verus!
