//! What holds of every following play, whatever the shuffles gave.

use crate::cards::{Card, Hand};
use crate::play::{
    first_cards, follow_with, is_follow_play, kept, lacking, match_fits, ruling, spare,
    spare_draw, suited_part, usable, without_all, Ruling, TrickFormat,
};
use vstd::prelude::*;
use vstd::seq_lib::{
    lemma_multiset_commutative, to_multiset_build, to_multiset_contains, to_multiset_len,
    to_multiset_remove,
};

verus! {

/// How many cards of a following play are of the trick's suit: those kept, and
/// the spare cards drawn.
pub open spec fn suited_count(suited: Seq<Card>, matching: Option<Seq<Card>>, required: nat) -> nat {
    let found = usable(suited, matching, required);
    kept(suited, found, required).len() + first_cards(
        spare(suited, found, required),
        spare_draw(suited.len(), found, required),
    ).len()
}

/// The first cards of a sequence are cards of the sequence.
pub proof fn lemma_first_cards(cards: Seq<Card>, n: nat)
    ensures
        first_cards(cards, n).to_multiset().subset_of(cards.to_multiset()),
        first_cards(cards, n).len() == if n <= cards.len() {
            n
        } else {
            cards.len()
        },
{
    broadcast use vstd::multiset::group_multiset_axioms;

    if n <= cards.len() {
        assert(cards =~= cards.take(n as int) + cards.skip(n as int));
        lemma_multiset_commutative(cards.take(n as int), cards.skip(n as int));
    }
}

/// No cards hold no card.
proof fn lemma_no_cards()
    ensures
        Seq::<Card>::empty().to_multiset() =~= vstd::multiset::Multiset::<Card>::empty(),
{
    to_multiset_len(Seq::<Card>::empty());
    vstd::multiset::lemma_multiset_empty_len(Seq::<Card>::empty().to_multiset());
}

/// A sequence's cards are its first card and the cards of the rest.
proof fn lemma_first_and_rest(cards: Seq<Card>)
    requires
        cards.len() > 0,
    ensures
        cards.to_multiset() =~= cards.drop_first().to_multiset().insert(cards.first()),
{
    broadcast use vstd::multiset::group_multiset_axioms;

    let head = Seq::<Card>::empty().push(cards.first());
    assert(cards =~= head + cards.drop_first());
    lemma_multiset_commutative(head, cards.drop_first());
    to_multiset_build(Seq::<Card>::empty(), cards.first());
    lemma_no_cards();
}

/// Removing cards that are all there leaves exactly the others.
pub proof fn lemma_without_all(cards: Seq<Card>, taken: Seq<Card>)
    requires
        taken.to_multiset().subset_of(cards.to_multiset()),
    ensures
        without_all(cards, taken).to_multiset() =~= cards.to_multiset().sub(taken.to_multiset()),
        without_all(cards, taken).len() == cards.len() - taken.len(),
    decreases taken.len(),
{
    broadcast use vstd::multiset::group_multiset_axioms;

    to_multiset_len(cards);
    to_multiset_len(taken);
    to_multiset_len(without_all(cards, taken));
    if taken.len() > 0 {
        let t = taken.first();
        let rest = taken.drop_first();
        lemma_first_and_rest(taken);
        assert(taken.to_multiset().count(t) > 0);
        assert(cards.to_multiset().count(t) > 0);
        to_multiset_contains(cards, t);
        cards.index_of_first_ensures(t);
        let i = cards.index_of_first(t).unwrap();
        to_multiset_remove(cards, i);
        let fewer = cards.remove_value(t);
        assert(fewer == cards.remove(i));
        assert(fewer.to_multiset() =~= cards.to_multiset().remove(t));
        assert(rest.to_multiset().subset_of(fewer.to_multiset())) by {
            assert forall|c: Card| rest.to_multiset().count(c) <= fewer.to_multiset().count(c) by {
                assert(taken.to_multiset().count(c) <= cards.to_multiset().count(c));
            }
        }
        lemma_without_all(fewer, rest);
        to_multiset_len(fewer);
        to_multiset_len(rest);
        assert(without_all(cards, taken) == without_all(fewer, rest));
        assert(without_all(cards, taken).to_multiset() =~= cards.to_multiset().sub(
            taken.to_multiset(),
        ));
    }
}

/// Before any card is drawn, the whole pool is left.
pub proof fn lemma_nothing_drawn(pool: Seq<Card>, cards: Seq<Card>)
    ensures
        cards.take(0).to_multiset().subset_of(pool.to_multiset()),
        pool.to_multiset() =~= pool.to_multiset().sub(cards.take(0).to_multiset()),
{
    broadcast use vstd::multiset::group_multiset_axioms;

    assert(cards.take(0) =~= Seq::<Card>::empty());
    lemma_no_cards();
}

/// Drawing one more card that is still left: the cards drawn so far can all be
/// drawn from the pool, and what is left is the pool without them.
pub proof fn lemma_drawn_one_more(
    pool: Seq<Card>,
    cards: Seq<Card>,
    i: int,
    left: Seq<Card>,
    k: int,
)
    requires
        0 <= i < cards.len(),
        cards.take(i).to_multiset().subset_of(pool.to_multiset()),
        left.to_multiset() == pool.to_multiset().sub(cards.take(i).to_multiset()),
        0 <= k < left.len(),
        left[k] == cards[i],
    ensures
        cards.take(i + 1).to_multiset().subset_of(pool.to_multiset()),
        left.remove(k).to_multiset() =~= pool.to_multiset().sub(cards.take(i + 1).to_multiset()),
{
    broadcast use vstd::multiset::group_multiset_axioms;

    let card = cards[i];
    assert(cards.take(i + 1) =~= cards.take(i).push(card));
    to_multiset_build(cards.take(i), card);
    to_multiset_remove(left, k);
    to_multiset_contains(left, card);
    assert(left.contains(card));
    assert(left.to_multiset().count(card) > 0);
}

/// A card that is not left cannot be drawn: the cards are not all in the pool.
pub proof fn lemma_drawn_absent(pool: Seq<Card>, cards: Seq<Card>, i: int, left: Seq<Card>)
    requires
        0 <= i < cards.len(),
        cards.take(i).to_multiset().subset_of(pool.to_multiset()),
        left.to_multiset() == pool.to_multiset().sub(cards.take(i).to_multiset()),
        !left.contains(cards[i]),
    ensures
        !cards.to_multiset().subset_of(pool.to_multiset()),
{
    broadcast use vstd::multiset::group_multiset_axioms;

    let card = cards[i];
    assert(cards.take(i + 1) =~= cards.take(i).push(card));
    to_multiset_build(cards.take(i), card);
    to_multiset_contains(left, card);
    lemma_first_cards(cards, (i + 1) as nat);
    assert(cards.take(i + 1).to_multiset().count(card) > pool.to_multiset().count(card));
    assert(cards.to_multiset().count(card) > pool.to_multiset().count(card));
}

/// A play has as many cards of the trick's suit as `suited_count` says, whatever
/// the order of the spare cards.
pub proof fn lemma_suited_count(
    suited: Seq<Card>,
    matching: Option<Seq<Card>>,
    required: nat,
    spare_order: Seq<Card>,
)
    requires
        spare_order.to_multiset() == spare(
            suited,
            usable(suited, matching, required),
            required,
        ).to_multiset(),
    ensures
        suited_part(suited, usable(suited, matching, required), required, spare_order).len()
            == suited_count(suited, matching, required),
{
    let found = usable(suited, matching, required);
    let draw = spare_draw(suited.len(), found, required);
    to_multiset_len(spare_order);
    to_multiset_len(spare(suited, found, required));
    lemma_first_cards(spare_order, draw);
    lemma_first_cards(spare(suited, found, required), draw);
}

/// The cards of the trick's suit in a play come from the hand's cards of that
/// suit, and hold the matching cards that count.
pub proof fn lemma_suited_part(
    suited: Seq<Card>,
    matching: Option<Seq<Card>>,
    required: nat,
    spare_order: Seq<Card>,
)
    requires
        spare_order.to_multiset() == spare(
            suited,
            usable(suited, matching, required),
            required,
        ).to_multiset(),
    ensures
        suited_part(
            suited,
            usable(suited, matching, required),
            required,
            spare_order,
        ).to_multiset().subset_of(suited.to_multiset()),
        usable(suited, matching, required) matches Some(cards) ==> cards.to_multiset().subset_of(
            suited_part(
                suited,
                usable(suited, matching, required),
                required,
                spare_order,
            ).to_multiset(),
        ),
{
    broadcast use vstd::multiset::group_multiset_axioms;

    let found = usable(suited, matching, required);
    let draw = spare_draw(suited.len(), found, required);
    let base = kept(suited, found, required);
    lemma_first_cards(spare_order, draw);
    lemma_multiset_commutative(base, first_cards(spare_order, draw));
    match ruling(suited.len(), found, required) {
        Ruling::Extend => {
            lemma_without_all(suited, found.unwrap());
        },
        _ => {
            to_multiset_len(spare_order);
            to_multiset_len(spare(suited, found, required));
            to_multiset_len(first_cards(spare_order, draw));
            vstd::multiset::lemma_multiset_empty_len(first_cards(spare_order, draw).to_multiset());
        },
    }
}

/// A play has no more cards of the trick's suit than the trick requires, unless
/// the hand has more of them than required and no match that counts; and where it
/// has fewer than required, it has all the hand's.
pub proof fn lemma_suited_count_bounds(
    suited: Seq<Card>,
    matching: Option<Seq<Card>>,
    required: nat,
)
    ensures
        suited_count(suited, matching, required) <= required || (usable(
            suited,
            matching,
            required,
        ) is None && suited.len() > required),
        usable(suited, matching, required) is Some || suited.len() <= required ==> suited_count(
            suited,
            matching,
            required,
        ) <= required,
        suited_count(suited, matching, required) < required ==> suited_count(
            suited,
            matching,
            required,
        ) == suited.len(),
        suited.len() <= required ==> suited_count(suited, matching, required) == suited.len(),
{
    let found = usable(suited, matching, required);
    let pool = spare(suited, found, required);
    let draw = spare_draw(suited.len(), found, required);
    lemma_first_cards(pool, draw);
    if ruling(suited.len(), found, required) == Ruling::Extend {
        lemma_without_all(suited, found.unwrap());
    }
}

/// A following play has exactly the number of cards the trick requires wherever
/// the hand has that many; the one exception is a hand with more cards of the
/// suit than required and no match that counts, which plays them all.
pub proof fn lemma_play_has_required_size(
    suited: Seq<Card>,
    others: Seq<Card>,
    matching: Option<Seq<Card>>,
    required: nat,
    play: Seq<Card>,
)
    requires
        is_follow_play(suited, others, matching, required, play),
        required <= suited.len() + others.len(),
        usable(suited, matching, required) is Some || suited.len() <= required,
    ensures
        play.len() == required,
{
    let (spare_order, other_order) = choose|spare_order: Seq<Card>, other_order: Seq<Card>|
        spare_order.to_multiset() == spare(
            suited,
            usable(suited, matching, required),
            required,
        ).to_multiset() && other_order.to_multiset() == others.to_multiset() && play
            == #[trigger] follow_with(suited, matching, required, spare_order, other_order);
    lemma_suited_count(suited, matching, required, spare_order);
    lemma_suited_count_bounds(suited, matching, required);
    let own = suited_part(suited, usable(suited, matching, required), required, spare_order);
    to_multiset_len(other_order);
    to_multiset_len(others);
    lemma_first_cards(other_order, lacking(own.len(), required));
}

/// A following play is made of cards of the hand, each no more often than the
/// hand holds it: its first `suited_count` cards come from the hand's cards of the
/// trick's suit, and the cards after them from the other suits.
pub proof fn lemma_play_comes_from_hand(
    suited: Seq<Card>,
    others: Seq<Card>,
    matching: Option<Seq<Card>>,
    required: nat,
    play: Seq<Card>,
)
    requires
        is_follow_play(suited, others, matching, required, play),
    ensures
        suited_count(suited, matching, required) <= play.len(),
        play.take(suited_count(suited, matching, required) as int).to_multiset().subset_of(
            suited.to_multiset(),
        ),
        play.skip(suited_count(suited, matching, required) as int).to_multiset().subset_of(
            others.to_multiset(),
        ),
        play.to_multiset().subset_of(suited.to_multiset().add(others.to_multiset())),
{
    broadcast use vstd::multiset::group_multiset_axioms;

    let (spare_order, other_order) = choose|spare_order: Seq<Card>, other_order: Seq<Card>|
        spare_order.to_multiset() == spare(
            suited,
            usable(suited, matching, required),
            required,
        ).to_multiset() && other_order.to_multiset() == others.to_multiset() && play
            == #[trigger] follow_with(suited, matching, required, spare_order, other_order);
    lemma_suited_count(suited, matching, required, spare_order);
    lemma_suited_part(suited, matching, required, spare_order);
    let own = suited_part(suited, usable(suited, matching, required), required, spare_order);
    let fill = first_cards(other_order, lacking(own.len(), required));
    lemma_first_cards(other_order, lacking(own.len(), required));
    lemma_multiset_commutative(own, fill);
    assert(play.take(own.len() as int) =~= own);
    assert(play.skip(own.len() as int) =~= fill);
}

/// Matching cards that count are all played: the play's cards of the trick's
/// suit hold every one of them as often as the match does.
pub proof fn lemma_match_is_played(
    suited: Seq<Card>,
    others: Seq<Card>,
    matching: Option<Seq<Card>>,
    required: nat,
    play: Seq<Card>,
)
    requires
        is_follow_play(suited, others, matching, required, play),
        usable(suited, matching, required) is Some,
    ensures
        suited_count(suited, matching, required) <= play.len(),
        usable(suited, matching, required).unwrap().to_multiset().subset_of(
            play.take(suited_count(suited, matching, required) as int).to_multiset(),
        ),
        usable(suited, matching, required).unwrap().to_multiset().subset_of(play.to_multiset()),
        usable(suited, matching, required).unwrap().len() == required && suited.len() > required
            ==> play.take(required as int) == usable(suited, matching, required).unwrap(),
{
    broadcast use vstd::multiset::group_multiset_axioms;

    let (spare_order, other_order) = choose|spare_order: Seq<Card>, other_order: Seq<Card>|
        spare_order.to_multiset() == spare(
            suited,
            usable(suited, matching, required),
            required,
        ).to_multiset() && other_order.to_multiset() == others.to_multiset() && play
            == #[trigger] follow_with(suited, matching, required, spare_order, other_order);
    lemma_suited_count(suited, matching, required, spare_order);
    lemma_suited_part(suited, matching, required, spare_order);
    let found = usable(suited, matching, required);
    let own = suited_part(suited, found, required, spare_order);
    let fill = first_cards(other_order, lacking(own.len(), required));
    lemma_multiset_commutative(own, fill);
    assert(play.take(own.len() as int) =~= own);
    if found.unwrap().len() == required && suited.len() > required {
        assert(first_cards(spare_order, 0) =~= Seq::<Card>::empty());
        assert(own =~= found.unwrap());
    }
}

/// A hand with no more cards of the trick's suit than the trick requires plays
/// every one of them, whatever was matched: they are the play's first cards, in
/// the order of the hand.
pub proof fn lemma_short_suit_is_exhausted(
    suited: Seq<Card>,
    others: Seq<Card>,
    matching: Option<Seq<Card>>,
    required: nat,
    play: Seq<Card>,
)
    requires
        is_follow_play(suited, others, matching, required, play),
        suited.len() <= required,
    ensures
        suited.len() <= play.len(),
        play.take(suited.len() as int) == suited,
        suited.to_multiset().subset_of(play.to_multiset()),
{
    broadcast use vstd::multiset::group_multiset_axioms;

    let (spare_order, other_order) = choose|spare_order: Seq<Card>, other_order: Seq<Card>|
        spare_order.to_multiset() == spare(
            suited,
            usable(suited, matching, required),
            required,
        ).to_multiset() && other_order.to_multiset() == others.to_multiset() && play
            == #[trigger] follow_with(suited, matching, required, spare_order, other_order);
    let own = suited_part(suited, usable(suited, matching, required), required, spare_order);
    let fill = first_cards(other_order, lacking(own.len(), required));
    assert(first_cards(spare_order, 0) =~= Seq::<Card>::empty());
    assert(own =~= suited);
    lemma_multiset_commutative(own, fill);
    assert(play.take(own.len() as int) =~= own);
}

/// Following a trick with a hand of at least as many cards as the trick requires
/// gives exactly that many cards; the one exception is a hand that has more cards
/// of the trick's suit than required and no match that counts, which plays all
/// its cards of the suit. Every play is made of cards of the hand, none more
/// often than the hand holds it.
pub proof fn lemma_follow_play_total(hand: Hand, format: TrickFormat, play: Seq<Card>)
    requires
        format.admits(hand, play),
    ensures
        play.to_multiset().subset_of(hand.cards().to_multiset()),
        format.size <= hand.cards().len() && (format.usable(hand) is Some || format.suited(
            hand,
        ).len() <= format.size) ==> play.len() == format.size,
{
    crate::cards::lemma_suit_splits_hand(hand.holdings@, format.suit);
    lemma_play_comes_from_hand(
        format.suited(hand),
        format.others(hand),
        format.matching(),
        format.size as nat,
        play,
    );
    if format.size <= hand.cards().len() && (format.usable(hand) is Some || format.suited(
        hand,
    ).len() <= format.size) {
        lemma_play_has_required_size(
            format.suited(hand),
            format.others(hand),
            format.matching(),
            format.size as nat,
            play,
        );
    }
}

/// Where the rule engine found a match that counts, the play never leaves a card
/// of it out: the play begins with its cards of the trick's suit, which come from
/// the hand's and hold every matching card as often as the match does.
pub proof fn lemma_follow_play_keeps_match(hand: Hand, format: TrickFormat, play: Seq<Card>)
    requires
        format.admits(hand, play),
    ensures
        suited_count(format.suited(hand), format.matching(), format.size as nat) <= play.len(),
        play.take(
            suited_count(format.suited(hand), format.matching(), format.size as nat) as int,
        ).to_multiset().subset_of(format.suited(hand).to_multiset()),
        format.usable(hand) matches Some(cards) ==> cards.to_multiset().subset_of(
            play.take(
                suited_count(format.suited(hand), format.matching(), format.size as nat) as int,
            ).to_multiset(),
        ) && cards.to_multiset().subset_of(play.to_multiset()),
{
    lemma_play_comes_from_hand(
        format.suited(hand),
        format.others(hand),
        format.matching(),
        format.size as nat,
        play,
    );
    if format.usable(hand) is Some {
        lemma_match_is_played(
            format.suited(hand),
            format.others(hand),
            format.matching(),
            format.size as nat,
            play,
        );
    }
}

/// A hand that has no more cards of the trick's suit than the trick requires
/// plays every one of them, as often as it holds it, whatever was matched.
pub proof fn lemma_follow_play_exhausts_short_suit(
    hand: Hand,
    format: TrickFormat,
    play: Seq<Card>,
)
    requires
        format.admits(hand, play),
    ensures
        format.suited(hand).len() <= format.size ==> format.suited(hand).to_multiset().subset_of(
            play.to_multiset(),
        ) && format.suited(hand).len() <= play.len() && play.take(
            format.suited(hand).len() as int,
        ) == format.suited(hand),
{
    if format.suited(hand).len() <= format.size {
        lemma_short_suit_is_exhausted(
            format.suited(hand),
            format.others(hand),
            format.matching(),
            format.size as nat,
            play,
        );
    }
}

} // verus!
