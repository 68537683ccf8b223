//! Playing cards: the deck of fifty-two and the dealing of a round.

use vstd::prelude::*;
use rand::seq::SliceRandom;

verus! {

#[derive(Clone, Copy, PartialEq, Eq, Structural, Debug)]
pub enum CardSuit {
    Clubs,
    Diamonds,
    Hearts,
    Spades,
}

#[derive(Clone, Copy, PartialEq, Eq, Structural, Debug)]
pub enum CardValue {
    Ace,
    Two,
    Three,
    Four,
    Five,
    Six,
    Seven,
    Eight,
    Nine,
    Ten,
    Jack,
    Queen,
    King,
}

#[derive(Clone, Copy, PartialEq, Eq, Structural, Debug)]
pub struct Card {
    pub suit: CardSuit,
    pub value: CardValue,
}

/// The number of cards in a deck.
pub const DECK_SIZE: usize = 52;

/// The suits in their order in a new pack.
pub open spec fn suit_at(i: int) -> CardSuit {
    if i == 0 {
        CardSuit::Clubs
    } else if i == 1 {
        CardSuit::Diamonds
    } else if i == 2 {
        CardSuit::Hearts
    } else {
        CardSuit::Spades
    }
}

/// The values in their order within a suit, ace low.
pub open spec fn value_at(i: int) -> CardValue {
    if i == 0 {
        CardValue::Ace
    } else if i == 1 {
        CardValue::Two
    } else if i == 2 {
        CardValue::Three
    } else if i == 3 {
        CardValue::Four
    } else if i == 4 {
        CardValue::Five
    } else if i == 5 {
        CardValue::Six
    } else if i == 6 {
        CardValue::Seven
    } else if i == 7 {
        CardValue::Eight
    } else if i == 8 {
        CardValue::Nine
    } else if i == 9 {
        CardValue::Ten
    } else if i == 10 {
        CardValue::Jack
    } else if i == 11 {
        CardValue::Queen
    } else {
        CardValue::King
    }
}

/// The deck in pack order: suit by suit, each from ace to king.
pub open spec fn ordered_deck() -> Seq<Card> {
    Seq::new(52, |i: int| Card { suit: suit_at(i / 13), value: value_at(i % 13) })
}

/// `deck` holds the fifty-two cards, each once, in some order.
pub open spec fn is_full_deck(deck: Seq<Card>) -> bool {
    deck.to_multiset() == ordered_deck().to_multiset()
}

/// A full deck has fifty-two cards.
pub proof fn lemma_full_deck_len(deck: Seq<Card>)
    requires
        is_full_deck(deck),
    ensures
        deck.len() == 52,
{
    vstd::seq_lib::to_multiset_len(deck);
    vstd::seq_lib::to_multiset_len(ordered_deck());
}

/// The deck in pack order.
pub fn pack_deck() -> (deck: Vec<Card>)
    ensures
        deck@ == ordered_deck(),
{
    let suits: Vec<CardSuit> = vec![
        CardSuit::Clubs,
        CardSuit::Diamonds,
        CardSuit::Hearts,
        CardSuit::Spades,
    ];
    let values: Vec<CardValue> = vec![
        CardValue::Ace,
        CardValue::Two,
        CardValue::Three,
        CardValue::Four,
        CardValue::Five,
        CardValue::Six,
        CardValue::Seven,
        CardValue::Eight,
        CardValue::Nine,
        CardValue::Ten,
        CardValue::Jack,
        CardValue::Queen,
        CardValue::King,
    ];
    let mut deck: Vec<Card> = Vec::new();
    let mut s: usize = 0;
    while s < 4
        invariant
            s <= 4,
            suits@.len() == 4,
            values@.len() == 13,
            forall|i: int| 0 <= i < 4 ==> suits@[i] == suit_at(i),
            forall|i: int| 0 <= i < 13 ==> values@[i] == value_at(i),
            deck@ =~= ordered_deck().take(13 * s),
        decreases 4 - s,
    {
        let mut v: usize = 0;
        while v < 13
            invariant
                s < 4,
                v <= 13,
                suits@.len() == 4,
                values@.len() == 13,
                forall|i: int| 0 <= i < 4 ==> suits@[i] == suit_at(i),
                forall|i: int| 0 <= i < 13 ==> values@[i] == value_at(i),
                deck@ =~= ordered_deck().take(13 * s + v),
            decreases 13 - v,
        {
            deck.push(Card { suit: suits[s], value: values[v] });
            v = v + 1;
        }
        s = s + 1;
    }
    deck
}

/// Shuffles the deck with `rand::seq::SliceRandom::shuffle`, drawing from
/// the generator that `rand::thread_rng` gives. The shuffle does nothing
/// but swap cards, so the deck holds afterwards what it held before, each
/// card as often; of the order nothing is known. The generator is seeded
/// from the operating system and panics if the system has no entropy to
/// give.
#[verifier::external_body]
fn shuffle_deck(deck: &mut Vec<Card>)
    ensures
        final(deck)@.to_multiset() == old(deck)@.to_multiset(),
{
    let mut rng = rand::thread_rng();
    deck.shuffle(&mut rng);
}

/// A full deck, shuffled.
pub fn new_deck() -> (deck: Vec<Card>)
    ensures
        is_full_deck(deck@),
        deck@.len() == 52,
{
    let mut deck = pack_deck();
    shuffle_deck(&mut deck);
    proof {
        lemma_full_deck_len(deck@);
    }
    deck
}

} // verus!
