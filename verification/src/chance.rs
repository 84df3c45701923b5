//! What is left to chance: the order in which the places are tried, the
//! time until the next customer, a customer's name and order.
//!
//! The functions of this file call the random number generator. Verus does
//! not look into them: it takes their contracts on trust. None of them
//! promises which outcome comes, only what holds of every outcome.

use vstd::prelude::*;
use rand::rngs::ThreadRng;
use rand::seq::{IteratorRandom, SliceRandom};
use rand::Rng;
use crate::bar::CustomerSlotMarker;
use crate::drink::Drink;
use crate::geometry::Point3;

verus! {

/// The generator that `rand::thread_rng` hands out. Nothing is known of its
/// state.
#[verifier::external_type_specification]
#[verifier::external_body]
pub struct ExThreadRng(rand::rngs::ThreadRng);

/// `rand::thread_rng`: the generator of the calling thread. Nothing is
/// claimed of it. It fails only where the system cannot seed it.
pub assume_specification[ rand::thread_rng ]() -> (rng: rand::rngs::ThreadRng);

/// `SliceRandom::shuffle` on the list's elements: they are put in some
/// order. The list holds the same places afterwards, each as often as
/// before. Like every draw, it fails only where the system cannot seed the
/// generator anew.
#[verifier::external_body]
pub(crate) fn shuffle_slots(slots: &mut Vec<CustomerSlotMarker>, rng: &mut ThreadRng)
    ensures
        final(slots)@.to_multiset() == old(slots)@.to_multiset(),
{
    slots.shuffle(rng);
}

/// `Rng::gen_range` on the half-open range from `low` to `high`, which
/// must hold a value: the number drawn lies in the range. Like every draw,
/// it fails only where the system cannot seed the generator anew.
#[verifier::external_body]
pub(crate) fn gen_range(rng: &mut ThreadRng, low: u64, high: u64) -> (drawn: u64)
    requires
        low < high,
    ensures
        low <= drawn < high,
{
    rng.gen_range(low..high)
}

/// `SliceRandom::choose` on a list of names: one of the names, and none
/// only where the list is empty. Like every draw, it fails only where the
/// system cannot seed the generator anew.
#[verifier::external_body]
pub(crate) fn choose_name(names: &Vec<&'static str>, rng: &mut ThreadRng) -> (picked: Option<
    &'static str,
>)
    ensures
        picked is None <==> names@.len() == 0,
        picked is Some ==> names@.contains(picked->0),
{
    names.choose(rng).copied()
}

/// `IteratorRandom::choose` on the barrels in the order of the list: one
/// of them, and none only where the list is empty. Like every draw, it
/// fails only where the system cannot seed the generator anew.
#[verifier::external_body]
pub(crate) fn choose_barrel(barrels: Vec<(Drink, Point3)>, rng: &mut ThreadRng) -> (picked:
    Option<(Drink, Point3)>)
    ensures
        picked is None <==> barrels@.len() == 0,
        picked is Some ==> barrels@.contains(picked->0),
{
    barrels.into_iter().choose(rng)
}

} // verus!
