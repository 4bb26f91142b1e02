//! The random choices of the agent, drawn from a generator the caller owns.

use crate::cards::Card;
use rand::rngs::StdRng;
use rand::seq::SliceRandom;
use vstd::prelude::*;

verus! {

/// `rand::rngs::StdRng`, the generator the caller seeds and owns. Nothing is known
/// of what is inside it.
#[verifier::external_type_specification]
#[verifier::external_body]
pub struct ExStdRng(rand::rngs::StdRng);

/// Calls `rand::seq::SliceRandom::choose` on the cards. Trusted: the call gives
/// nothing exactly when there is no card, and otherwise one of the cards. Which
/// one depends on the generator, so nothing more is said of it.
#[verifier::external_body]
pub(crate) fn choose_card(cards: &Vec<Card>, rng: &mut StdRng) -> (chosen: Option<Card>)
    ensures
        chosen is Some <==> cards@.len() > 0,
        chosen matches Some(card) ==> cards@.contains(card),
{
    cards.choose(rng).copied()
}

/// Calls `rand::seq::SliceRandom::shuffle` on the cards. Trusted: the call only
/// swaps cards within the vector, so the same cards are there afterwards, each as
/// often as before. Their order depends on the generator.
#[verifier::external_body]
pub(crate) fn shuffle_cards(cards: &mut Vec<Card>, rng: &mut StdRng)
    ensures
        final(cards)@.to_multiset() == old(cards)@.to_multiset(),
{
    cards.shuffle(rng);
}

} // verus!
