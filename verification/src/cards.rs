//! Cards, the stacks a player holds of them, and the hand as a sequence of cards.

use vstd::prelude::*;
use vstd::seq_lib::lemma_multiset_commutative;

verus! {

/// A card, named by the code the server gives its face. The agent never looks
/// inside the code: two cards are the same card when their codes are equal.
#[derive(Clone, Copy, Debug, PartialEq, Eq, Hash, Structural)]
pub struct Card {
    pub code: u32,
}

/// The suit a card counts for once trump is known.
#[derive(Clone, Copy, Debug, PartialEq, Eq, Hash, Structural)]
pub enum Suit {
    Clubs,
    Diamonds,
    Spades,
    Hearts,
    Trump,
    Unknown,
}

/// Some number of copies of one card.
#[derive(Clone, Copy, Debug, PartialEq, Eq, Structural)]
pub struct Stack {
    pub card: Card,
    pub count: usize,
}

/// A stack in a player's hand, with the suit its card counts for.
#[derive(Clone, Copy, Debug, PartialEq, Eq, Structural)]
pub struct Holding {
    pub stack: Stack,
    pub suit: Suit,
}

/// Which holdings of a hand are asked for.
#[derive(Clone, Copy, Debug, PartialEq, Eq, Structural)]
pub enum Pick {
    All,
    InSuit(Suit),
    OffSuit(Suit),
}

/// The cards a player holds, stack by stack.
#[derive(Clone, Debug, PartialEq, Eq)]
pub struct Hand {
    pub holdings: Vec<Holding>,
}

/// `n` copies of `card`.
pub open spec fn copies(card: Card, n: nat) -> Seq<Card> {
    Seq::new(n, |i: int| card)
}

/// The cards of `stacks`, stack after stack, each card as often as its stack counts it.
pub open spec fn spread(stacks: Seq<Stack>) -> Seq<Card>
    decreases stacks.len(),
{
    if stacks.len() == 0 {
        Seq::empty()
    } else {
        spread(stacks.drop_last()) + copies(stacks.last().card, stacks.last().count as nat)
    }
}

/// The cards of those holdings whose suit `pick` admits, in the order of the holdings.
pub open spec fn picked(holdings: Seq<Holding>, pick: Pick) -> Seq<Card>
    decreases holdings.len(),
{
    if holdings.len() == 0 {
        Seq::empty()
    } else {
        let rest = picked(holdings.drop_last(), pick);
        let h = holdings.last();
        if pick.admits(h.suit) {
            rest + copies(h.stack.card, h.stack.count as nat)
        } else {
            rest
        }
    }
}

impl Pick {
    /// Whether a holding of suit `suit` is asked for.
    pub open spec fn admits(self, suit: Suit) -> bool {
        match self {
            Pick::All => true,
            Pick::InSuit(s) => suit == s,
            Pick::OffSuit(s) => suit != s,
        }
    }

    pub fn takes(&self, suit: Suit) -> (b: bool)
        ensures
            b == self.admits(suit),
    {
        match self {
            Pick::All => true,
            Pick::InSuit(s) => suit == *s,
            Pick::OffSuit(s) => suit != *s,
        }
    }
}

/// Appends `count` copies of `card` to `out`.
pub fn push_copies(out: &mut Vec<Card>, card: Card, count: usize)
    ensures
        final(out)@ == old(out)@ + copies(card, count as nat),
{
    let mut done: usize = 0;
    while done < count
        invariant
            done <= count,
            out@ == old(out)@ + copies(card, done as nat),
        decreases count - done,
    {
        out.push(card);
        done = done + 1;
        assert(out@ =~= old(out)@ + copies(card, done as nat));
    }
}

/// Lays the stacks out as single cards.
pub fn spread_stacks(stacks: &Vec<Stack>) -> (cards: Vec<Card>)
    ensures
        cards@ == spread(stacks@),
{
    let mut cards: Vec<Card> = Vec::new();
    let mut i: usize = 0;
    while i < stacks.len()
        invariant
            i <= stacks.len(),
            cards@ == spread(stacks@.take(i as int)),
        decreases stacks.len() - i,
    {
        let stack = stacks[i];
        push_copies(&mut cards, stack.card, stack.count);
        assert(stacks@.take(i + 1).drop_last() =~= stacks@.take(i as int));
        i = i + 1;
    }
    assert(stacks@.take(i as int) =~= stacks@);
    cards
}

impl Hand {
    /// The hand as the sequence of its cards.
    pub open spec fn cards(&self) -> Seq<Card> {
        picked(self.holdings@, Pick::All)
    }

    /// The cards of the holdings that `pick` asks for, in the order of the hand.
    pub fn pick(&self, pick: Pick) -> (cards: Vec<Card>)
        ensures
            cards@ == picked(self.holdings@, pick),
    {
        let mut cards: Vec<Card> = Vec::new();
        let mut i: usize = 0;
        while i < self.holdings.len()
            invariant
                i <= self.holdings.len(),
                cards@ == picked(self.holdings@.take(i as int), pick),
            decreases self.holdings.len() - i,
        {
            let holding = self.holdings[i];
            assert(self.holdings@.take(i + 1).drop_last() =~= self.holdings@.take(i as int));
            if pick.takes(holding.suit) {
                push_copies(&mut cards, holding.stack.card, holding.stack.count);
            }
            i = i + 1;
        }
        assert(self.holdings@.take(i as int) =~= self.holdings@);
        cards
    }
}

/// A hand is its cards of one suit together with its cards of the other suits:
/// every card is counted in exactly one of the two parts.
pub proof fn lemma_suit_splits_hand(holdings: Seq<Holding>, suit: Suit)
    ensures
        picked(holdings, Pick::All).to_multiset() =~= picked(
            holdings,
            Pick::InSuit(suit),
        ).to_multiset().add(picked(holdings, Pick::OffSuit(suit)).to_multiset()),
        picked(holdings, Pick::All).len() == picked(holdings, Pick::InSuit(suit)).len() + picked(
            holdings,
            Pick::OffSuit(suit),
        ).len(),
    decreases holdings.len(),
{
    broadcast use vstd::multiset::group_multiset_axioms;
    broadcast use vstd::seq_lib::group_to_multiset_ensures;

    if holdings.len() > 0 {
        let rest = holdings.drop_last();
        let h = holdings.last();
        let c = copies(h.stack.card, h.stack.count as nat);
        lemma_suit_splits_hand(rest, suit);
        lemma_multiset_commutative(picked(rest, Pick::All), c);
        if h.suit == suit {
            lemma_multiset_commutative(picked(rest, Pick::InSuit(suit)), c);
        } else {
            lemma_multiset_commutative(picked(rest, Pick::OffSuit(suit)), c);
        }
    }
}

} // verus!
