//! Which cards to play: any single card when leading a trick, and when following
//! one, the cards that match its format as far as the hand allows.

use crate::cards::{picked, spread, spread_stacks, Card, Hand, Pick, Stack, Suit};
use crate::play_lemmas::{
    lemma_drawn_absent, lemma_drawn_one_more, lemma_follow_play_exhausts_short_suit,
    lemma_follow_play_keeps_match, lemma_follow_play_total, lemma_nothing_drawn,
};
use crate::random::{choose_card, shuffle_cards};
use rand::rngs::StdRng;
use vstd::prelude::*;

verus! {

/// Cards of the hand that satisfy one decomposition of a trick's format, unit by
/// unit as the rule engine found them.
#[derive(Clone, Debug, PartialEq, Eq)]
pub struct Assignment {
    pub units: Vec<Vec<Stack>>,
}

/// What the leading play asks of those who follow: the suit, the number of cards,
/// and what the rule engine found among the follower's cards of that suit.
/// `matches` has one entry for each decomposition of the format that the draw
/// policy allows, in the rule engine's order: the first assignment of cards of
/// the trick's suit that satisfies the decomposition, or nothing where none does.
/// A match that holds a card the hand does not have in the trick's suit, or more
/// cards than the trick requires, does not fit, and counts as no match.
#[derive(Clone, Debug, PartialEq, Eq)]
pub struct TrickFormat {
    pub suit: Suit,
    pub size: usize,
    pub matches: Vec<Option<Assignment>>,
}

/// The cards of an assignment, unit after unit.
pub open spec fn assignment_cards(units: Seq<Vec<Stack>>) -> Seq<Card>
    decreases units.len(),
{
    if units.len() == 0 {
        Seq::empty()
    } else {
        assignment_cards(units.drop_last()) + spread(units.last()@)
    }
}

/// The cards of the first decomposition that has an assignment.
pub open spec fn first_match(matches: Seq<Option<Assignment>>) -> Option<Seq<Card>>
    decreases matches.len(),
{
    if matches.len() == 0 {
        None
    } else {
        match matches.first() {
            Some(assignment) => Some(assignment_cards(assignment.units@)),
            None => first_match(matches.drop_first()),
        }
    }
}

/// `cards` after each card of `taken`, in turn, has been removed where it first
/// occurs. A card of `taken` that is no longer there removes nothing.
pub open spec fn without_all(cards: Seq<Card>, taken: Seq<Card>) -> Seq<Card>
    decreases taken.len(),
{
    if taken.len() == 0 {
        cards
    } else {
        without_all(cards.remove_value(taken.first()), taken.drop_first())
    }
}

impl Assignment {
    /// The cards of the assignment, unit after unit.
    pub fn cards(&self) -> (cards: Vec<Card>)
        ensures
            cards@ == assignment_cards(self.units@),
    {
        let mut cards: Vec<Card> = Vec::new();
        let mut i: usize = 0;
        while i < self.units.len()
            invariant
                i <= self.units.len(),
                cards@ == assignment_cards(self.units@.take(i as int)),
            decreases self.units.len() - i,
        {
            let mut unit = spread_stacks(&self.units[i]);
            assert(self.units@.take(i + 1).drop_last() =~= self.units@.take(i as int));
            cards.append(&mut unit);
            i = i + 1;
        }
        assert(self.units@.take(i as int) =~= self.units@);
        cards
    }
}

/// The cards of the first decomposition for which the rule engine found an
/// assignment, or nothing if it found none for any.
pub fn first_matching(matches: &Vec<Option<Assignment>>) -> (found: Option<Vec<Card>>)
    ensures
        found is Some <==> first_match(matches@) is Some,
        found matches Some(cards) ==> first_match(matches@) == Some(cards@),
{
    let mut i: usize = 0;
    assert(matches@.skip(0) =~= matches@);
    while i < matches.len()
        invariant
            i <= matches.len(),
            first_match(matches@) == first_match(matches@.skip(i as int)),
        decreases matches.len() - i,
    {
        assert(matches@.skip(i as int).first() == matches@[i as int]);
        assert(matches@.skip(i as int).drop_first() =~= matches@.skip(i + 1));
        match &matches[i] {
            Some(assignment) => {
                return Some(assignment.cards());
            },
            None => {},
        }
        i = i + 1;
    }
    assert(matches@.skip(i as int).len() == 0);
    None
}

/// Where `card` first occurs in `cards`, if it occurs.
pub fn position(cards: &Vec<Card>, card: Card) -> (place: Option<usize>)
    ensures
        match place {
            Some(k) => k < cards.len() && cards@[k as int] == card && forall|j: int|
                0 <= j < k ==> cards@[j] != card,
            None => !cards@.contains(card),
        },
{
    let mut i: usize = 0;
    while i < cards.len()
        invariant
            i <= cards.len(),
            forall|j: int| 0 <= j < i ==> cards@[j] != card,
        decreases cards.len() - i,
    {
        if cards[i] == card {
            return Some(i);
        }
        i = i + 1;
    }
    None
}

/// Removes `card` from `cards` where it first occurs, if it occurs.
pub fn remove_first(cards: &mut Vec<Card>, card: Card)
    ensures
        final(cards)@ == old(cards)@.remove_value(card),
{
    proof {
        cards@.index_of_first_ensures(card);
    }
    match position(cards, card) {
        Some(k) => {
            cards.remove(k);
        },
        None => {},
    }
}

/// Removes each card of `taken`, in turn, from `cards` where it first occurs.
pub fn remove_all(cards: &mut Vec<Card>, taken: &Vec<Card>)
    ensures
        final(cards)@ == without_all(old(cards)@, taken@),
{
    let mut i: usize = 0;
    assert(taken@.skip(0) =~= taken@);
    while i < taken.len()
        invariant
            i <= taken.len(),
            without_all(old(cards)@, taken@) == without_all(cards@, taken@.skip(i as int)),
        decreases taken.len() - i,
    {
        assert(taken@.skip(i as int).first() == taken@[i as int]);
        assert(taken@.skip(i as int).drop_first() =~= taken@.skip(i + 1));
        remove_first(cards, taken[i]);
        i = i + 1;
    }
    assert(taken@.skip(i as int).len() == 0);
}

/// How the cards of the trick's suit enter a following play.
#[derive(Clone, Copy, Debug, PartialEq, Eq, Structural)]
pub enum Ruling {
    /// Every card of the suit is played.
    Exhaust,
    /// The matching cards are the whole play.
    Matched,
    /// The matching cards are played, and more cards of the suit with them.
    Extend,
}

/// The ruling for a hand with `suited` cards of the trick's suit, given the matching
/// cards the rule engine found and the number of cards the trick requires. A hand
/// with no more cards of the suit than the trick requires plays them all, whatever
/// was matched. A hand with more plays them all only where there is no match: a
/// match of the required size is the play, and a shorter one is extended. A match
/// of more cards than required is no match.
pub open spec fn ruling(suited: nat, matching: Option<Seq<Card>>, required: nat) -> Ruling {
    if required >= suited {
        Ruling::Exhaust
    } else {
        match matching {
            None => Ruling::Exhaust,
            Some(cards) => if cards.len() == required {
                Ruling::Matched
            } else if cards.len() < required {
                Ruling::Extend
            } else {
                Ruling::Exhaust
            },
        }
    }
}

/// Whether the matching cards, if there are any, are taken from the cards of the
/// trick's suit, none more often than it is there.
pub open spec fn from_suit(suited: Seq<Card>, matching: Option<Seq<Card>>) -> bool {
    matching matches Some(cards) ==> cards.to_multiset().subset_of(suited.to_multiset())
}

/// Whether the matching cards, if there are any, fit: they are taken from the
/// cards of the trick's suit and are no more than the trick requires.
pub open spec fn match_fits(suited: Seq<Card>, matching: Option<Seq<Card>>, required: nat) -> bool {
    from_suit(suited, matching) && (matching matches Some(cards) ==> cards.len() <= required)
}

/// The matching cards that count: those found, if they fit, and none otherwise.
pub open spec fn usable(suited: Seq<Card>, matching: Option<Seq<Card>>, required: nat) -> Option<
    Seq<Card>,
> {
    if match_fits(suited, matching, required) {
        matching
    } else {
        None
    }
}

/// The cards of the trick's suit that are played whatever the shuffles give.
pub open spec fn kept(suited: Seq<Card>, matching: Option<Seq<Card>>, required: nat) -> Seq<Card> {
    match ruling(suited.len(), matching, required) {
        Ruling::Exhaust => suited,
        _ => matching.unwrap(),
    }
}

/// The cards of the trick's suit among which the play is extended: under
/// `Ruling::Extend` those that the matching cards leave, and none otherwise.
pub open spec fn spare(suited: Seq<Card>, matching: Option<Seq<Card>>, required: nat) -> Seq<
    Card,
> {
    match ruling(suited.len(), matching, required) {
        Ruling::Extend => without_all(suited, matching.unwrap()),
        _ => Seq::empty(),
    }
}

/// How many of the spare cards are played: under `Ruling::Extend` as many as the
/// matching cards fall short of `required`, and none otherwise.
pub open spec fn spare_draw(suited: nat, matching: Option<Seq<Card>>, required: nat) -> nat {
    match ruling(suited, matching, required) {
        Ruling::Extend => (required - matching.unwrap().len()) as nat,
        _ => 0,
    }
}

/// The first `n` cards of `cards`, or all of them if there are fewer.
pub open spec fn first_cards(cards: Seq<Card>, n: nat) -> Seq<Card> {
    if n <= cards.len() {
        cards.take(n as int)
    } else {
        cards
    }
}

/// The cards of the trick's suit in a following play whose spare cards come in
/// the order `spare_order`, for matching cards that count.
pub open spec fn suited_part(
    suited: Seq<Card>,
    matching: Option<Seq<Card>>,
    required: nat,
    spare_order: Seq<Card>,
) -> Seq<Card> {
    kept(suited, matching, required) + first_cards(
        spare_order,
        spare_draw(suited.len(), matching, required),
    )
}

/// How many cards a play of `played` cards still lacks of `required`.
pub open spec fn lacking(played: nat, required: nat) -> nat {
    if played < required {
        (required - played) as nat
    } else {
        0
    }
}

/// The following play for a hand whose cards of the trick's suit are `suited`, when
/// the spare cards come in the order `spare_order` and the cards of the other suits
/// in the order `other_order`: the suited part for the matching cards that count,
/// filled up to `required` cards from the other suits as far as they reach.
pub open spec fn follow_with(
    suited: Seq<Card>,
    matching: Option<Seq<Card>>,
    required: nat,
    spare_order: Seq<Card>,
    other_order: Seq<Card>,
) -> Seq<Card> {
    let own = suited_part(suited, usable(suited, matching, required), required, spare_order);
    own + first_cards(other_order, lacking(own.len(), required))
}

/// Whether `play` is a following play for the hand: `follow_with` for some order of
/// the spare cards and some order of the cards of the other suits.
pub open spec fn is_follow_play(
    suited: Seq<Card>,
    others: Seq<Card>,
    matching: Option<Seq<Card>>,
    required: nat,
    play: Seq<Card>,
) -> bool {
    exists|spare_order: Seq<Card>, other_order: Seq<Card>|
        spare_order.to_multiset() == spare(
            suited,
            usable(suited, matching, required),
            required,
        ).to_multiset() && other_order.to_multiset() == others.to_multiset() && play
            == #[trigger] follow_with(suited, matching, required, spare_order, other_order)
}

impl TrickFormat {
    /// The hand's cards of the trick's suit, in the order of the hand.
    pub open spec fn suited(&self, hand: Hand) -> Seq<Card> {
        picked(hand.holdings@, Pick::InSuit(self.suit))
    }

    /// The hand's cards of the other suits, in the order of the hand.
    pub open spec fn others(&self, hand: Hand) -> Seq<Card> {
        picked(hand.holdings@, Pick::OffSuit(self.suit))
    }

    /// The cards the rule engine found to match the format, if it found any.
    pub open spec fn matching(&self) -> Option<Seq<Card>> {
        first_match(self.matches@)
    }

    /// The matching cards that count for the hand: those found, if they fit.
    pub open spec fn usable(&self, hand: Hand) -> Option<Seq<Card>> {
        usable(self.suited(hand), self.matching(), self.size as nat)
    }

    /// Whether `play` is a following play of the hand for this format.
    pub open spec fn admits(&self, hand: Hand, play: Seq<Card>) -> bool {
        is_follow_play(
            self.suited(hand),
            self.others(hand),
            self.matching(),
            self.size as nat,
            play,
        )
    }

    /// What a following play owes the rules. It is made of cards of the hand,
    /// none more often than the hand holds it. A hand with no more cards of the
    /// trick's suit than the trick requires plays every one of them. Matching
    /// cards that count are all played. And the play has exactly the required
    /// number of cards wherever the hand has that many, except that a hand with
    /// more cards of the suit than required and no match plays them all.
    pub open spec fn keeps_rules(&self, hand: Hand, play: Seq<Card>) -> bool {
        &&& play.to_multiset().subset_of(hand.cards().to_multiset())
        &&& self.suited(hand).len() <= self.size ==> self.suited(hand).to_multiset().subset_of(
            play.to_multiset(),
        )
        &&& self.usable(hand) matches Some(cards) ==> cards.to_multiset().subset_of(
            play.to_multiset(),
        )
        &&& self.size <= hand.cards().len() && (self.usable(hand) is Some || self.suited(
            hand,
        ).len() <= self.size) ==> play.len() == self.size
    }
}

/// Whether the rule engine's matching cards for the format fit the hand: they are
/// cards of the hand that follow suit, and no more than the trick requires.
pub open spec fn fits_hand(hand: Hand, format: TrickFormat) -> bool {
    match_fits(format.suited(hand), format.matching(), format.size as nat)
}

/// The view of the matching cards.
pub open spec fn matching_view(matching: Option<Vec<Card>>) -> Option<Seq<Card>> {
    match matching {
        Some(cards) => Some(cards@),
        None => None,
    }
}

/// Decides how the cards of the trick's suit enter the play.
pub fn rule(suited: usize, matching: &Option<Vec<Card>>, required: usize) -> (r: Ruling)
    ensures
        r == ruling(suited as nat, matching_view(*matching), required as nat),
{
    if required >= suited {
        return Ruling::Exhaust;
    }
    match matching {
        None => Ruling::Exhaust,
        Some(cards) => {
            if cards.len() == required {
                Ruling::Matched
            } else if cards.len() < required {
                Ruling::Extend
            } else {
                Ruling::Exhaust
            }
        },
    }
}

/// Appends to `play` the first `n` cards of `cards`, or all of them if there are fewer.
pub fn push_first(play: &mut Vec<Card>, cards: &Vec<Card>, n: usize)
    ensures
        final(play)@ == old(play)@ + first_cards(cards@, n as nat),
{
    let stop: usize = if n <= cards.len() {
        n
    } else {
        cards.len()
    };
    let mut i: usize = 0;
    while i < stop
        invariant
            i <= stop <= cards.len(),
            play@ == old(play)@ + cards@.take(i as int),
        decreases stop - i,
    {
        play.push(cards[i]);
        i = i + 1;
        assert(play@ =~= old(play)@ + cards@.take(i as int));
    }
    assert(cards@.take(cards.len() as int) =~= cards@);
}

/// A copy of the cards.
pub fn copy_cards(cards: &Vec<Card>) -> (copy: Vec<Card>)
    ensures
        copy@ == cards@,
{
    let mut copy: Vec<Card> = Vec::new();
    push_first(&mut copy, cards, cards.len());
    assert(copy@ =~= cards@);
    copy
}

/// Whether every card of `cards` can be drawn from `pool`, each as often as it
/// occurs in `cards`.
pub fn drawn_from(cards: &Vec<Card>, pool: &Vec<Card>) -> (ok: bool)
    ensures
        ok == cards@.to_multiset().subset_of(pool@.to_multiset()),
{
    let mut left = copy_cards(pool);
    let mut i: usize = 0;
    proof {
        lemma_nothing_drawn(pool@, cards@);
    }
    while i < cards.len()
        invariant
            i <= cards.len(),
            cards@.take(i as int).to_multiset().subset_of(pool@.to_multiset()),
            left@.to_multiset() == pool@.to_multiset().sub(cards@.take(i as int).to_multiset()),
        decreases cards.len() - i,
    {
        match position(&left, cards[i]) {
            Some(k) => {
                proof {
                    lemma_drawn_one_more(pool@, cards@, i as int, left@, k as int);
                }
                left.remove(k);
            },
            None => {
                proof {
                    lemma_drawn_absent(pool@, cards@, i as int, left@);
                }
                return false;
            },
        }
        i = i + 1;
    }
    assert(cards@.take(i as int) =~= cards@);
    true
}

/// Whether the matching cards, if there are any, fit the cards of the trick's suit.
pub fn fits_suit(suited: &Vec<Card>, matching: &Option<Vec<Card>>, required: usize) -> (ok: bool)
    ensures
        ok == match_fits(suited@, matching_view(*matching), required as nat),
{
    match matching {
        None => true,
        Some(cards) => cards.len() <= required && drawn_from(cards, suited),
    }
}

/// Whether the rule engine's matching cards for the format fit the hand.
pub fn fits(hand: &Hand, format: &TrickFormat) -> (ok: bool)
    ensures
        ok == fits_hand(*hand, *format),
{
    let suited = hand.pick(Pick::InSuit(format.suit));
    let matching = first_matching(&format.matches);
    assert(matching_view(matching) == first_match(format.matches@));
    fits_suit(&suited, &matching, format.size)
}

/// The matching cards that count: those found, if they fit, and none otherwise.
pub fn usable_match(suited: &Vec<Card>, matching: &Option<Vec<Card>>, required: usize) -> (found:
    Option<Vec<Card>>)
    ensures
        matching_view(found) == usable(suited@, matching_view(*matching), required as nat),
{
    match matching {
        None => None,
        Some(cards) => {
            if fits_suit(suited, matching, required) {
                Some(copy_cards(cards))
            } else {
                None
            }
        },
    }
}

/// The cards of the trick's suit that are played whatever the shuffles give.
pub fn kept_cards(suited: &Vec<Card>, matching: &Option<Vec<Card>>, required: usize) -> (cards:
    Vec<Card>)
    ensures
        cards@ == kept(suited@, matching_view(*matching), required as nat),
{
    match rule(suited.len(), matching, required) {
        Ruling::Exhaust => copy_cards(suited),
        _ => {
            match matching {
                Some(found) => copy_cards(found),
                None => Vec::new(),
            }
        },
    }
}

/// The cards of the trick's suit among which the play is extended.
pub fn spare_cards(suited: &Vec<Card>, matching: &Option<Vec<Card>>, required: usize) -> (cards:
    Vec<Card>)
    ensures
        cards@ == spare(suited@, matching_view(*matching), required as nat),
{
    let mut cards: Vec<Card> = Vec::new();
    match rule(suited.len(), matching, required) {
        Ruling::Extend => {
            match matching {
                Some(found) => {
                    cards = copy_cards(suited);
                    remove_all(&mut cards, found);
                },
                None => {},
            }
        },
        _ => {},
    }
    cards
}

/// How many of the spare cards are played.
pub fn spare_count(suited: usize, matching: &Option<Vec<Card>>, required: usize) -> (n: usize)
    ensures
        n == spare_draw(suited as nat, matching_view(*matching), required as nat),
{
    match rule(suited, matching, required) {
        Ruling::Extend => {
            match matching {
                Some(found) => required - found.len(),
                None => 0,
            }
        },
        _ => 0,
    }
}

/// The following play when the spare cards and the cards of the other suits come
/// in the given orders. Matching cards that do not fit count as no match.
pub fn follow_in_order(
    suited: &Vec<Card>,
    matching: &Option<Vec<Card>>,
    required: usize,
    spare_order: &Vec<Card>,
    other_order: &Vec<Card>,
) -> (play: Vec<Card>)
    ensures
        play@ == follow_with(
            suited@,
            matching_view(*matching),
            required as nat,
            spare_order@,
            other_order@,
        ),
{
    let found = usable_match(suited, matching, required);
    let mut play = kept_cards(suited, &found, required);
    push_first(&mut play, spare_order, spare_count(suited.len(), &found, required));
    let lacking: usize = if play.len() < required {
        required - play.len()
    } else {
        0
    };
    push_first(&mut play, other_order, lacking);
    play
}

/// The cards to play when following a trick of the given format. A hand with no
/// more cards of the trick's suit than the trick requires plays every one of
/// them. A hand with more plays the cards that the rule engine found to match the
/// format, kept whole, or all its cards of the suit where there is no match that
/// fits. The play is filled up to the required number, first from the rest of
/// the suit and then from the other suits, by cards drawn at random.
pub fn follow_trick(hand: &Hand, format: &TrickFormat, rng: &mut StdRng) -> (play: Vec<Card>)
    ensures
        format.admits(*hand, play@),
        play@.to_multiset().subset_of(hand.cards().to_multiset()),
        format.suited(*hand).len() <= format.size ==> format.suited(
            *hand,
        ).to_multiset().subset_of(play@.to_multiset()),
        format.usable(*hand) matches Some(cards) ==> cards.to_multiset().subset_of(
            play@.to_multiset(),
        ),
        format.size <= hand.cards().len() && (format.usable(*hand) is Some || format.suited(
            *hand,
        ).len() <= format.size) ==> play@.len() == format.size,
{
    let suited = hand.pick(Pick::InSuit(format.suit));
    let mut others = hand.pick(Pick::OffSuit(format.suit));
    let matching = first_matching(&format.matches);
    assert(matching_view(matching) == first_match(format.matches@));
    let found = usable_match(&suited, &matching, format.size);
    let mut spares = spare_cards(&suited, &found, format.size);
    let draw = spare_count(suited.len(), &found, format.size);
    if draw > 0 {
        shuffle_cards(&mut spares, rng);
    }
    let kept = kept_cards(&suited, &found, format.size);
    if kept.len() < format.size && draw < format.size - kept.len() {
        shuffle_cards(&mut others, rng);
    }
    let play = follow_in_order(&suited, &matching, format.size, &spares, &others);
    proof {
        assert(play@ == follow_with(
            suited@,
            first_match(format.matches@),
            format.size as nat,
            spares@,
            others@,
        ));
        assert(format.admits(*hand, play@));
        lemma_follow_play_total(*hand, *format, play@);
        lemma_follow_play_keeps_match(*hand, *format, play@);
        lemma_follow_play_exhausts_short_suit(*hand, *format, play@);
    }
    play
}

/// The card to play when leading a trick: any one card of the hand, drawn at
/// random. An empty hand has nothing to lead.
pub fn lead_trick(hand: &Hand, rng: &mut StdRng) -> (lead: Option<Card>)
    ensures
        lead is Some <==> hand.cards().len() > 0,
        lead matches Some(card) ==> hand.cards().contains(card),
{
    let cards = hand.pick(Pick::All);
    choose_card(&cards, rng)
}

} // verus!
