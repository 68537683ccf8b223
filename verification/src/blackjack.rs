//! A table of blackjack: the players, the house and the deck between them.

use vstd::prelude::*;
use crate::cards::{Card, is_full_deck, new_deck};

verus! {

/// What every player starts with, in whole units.
pub const STARTING_MONEY: u64 = 100;

pub struct Player {
    pub id: usize,
    /// The player's money in whole units.
    pub money: u64,
    pub cards: Vec<Card>,
}

impl Player {
    /// A player with the next id that `counter` gives. Ids start above the
    /// counter's value and are never given twice by the same counter.
    pub fn new(counter: &mut usize) -> (player: Player)
        requires
            *old(counter) < usize::MAX,
        ensures
            *final(counter) == *old(counter) + 1,
            player.id == *old(counter) + 1,
            player.money == STARTING_MONEY,
            player.cards@ == Seq::<Card>::empty(),
    {
        *counter = *counter + 1;
        Player { id: *counter, money: STARTING_MONEY, cards: Vec::new() }
    }
}

pub struct Blackjack {
    pub deck: Vec<Card>,
    pub house: Vec<Card>,
    pub players: Vec<Player>,
}

impl Blackjack {
    /// `after` is `before` with one round dealt from `deck`. Cards leave
    /// the deck from its end: one to each player in turn, one to the house,
    /// then a second to each player and a second to the house. What is
    /// left of `deck` becomes the table's deck.
    pub open spec fn dealt(before: Blackjack, deck: Seq<Card>, after: Blackjack) -> bool {
        let n = before.players@.len() as int;
        let top = deck.len() as int - 1;
        &&& after.players@.len() == n
        &&& forall|i: int|
            0 <= i < n ==> {
                &&& (#[trigger] after.players@[i]).id == before.players@[i].id
                &&& after.players@[i].money == before.players@[i].money
                &&& after.players@[i].cards@ == before.players@[i].cards@.push(deck[top - i]).push(
                    deck[top - (n + 1) - i],
                )
            }
        &&& after.house@ == before.house@.push(deck[top - n]).push(deck[top - (n + 1) - n])
        &&& after.deck@ == deck.take(deck.len() - 2 * (n + 1))
    }

    /// A table of `num_players` new players, with no card on it yet.
    pub fn new(num_players: usize, counter: &mut usize) -> (game: Blackjack)
        requires
            *old(counter) + num_players <= usize::MAX,
        ensures
            *final(counter) == *old(counter) + num_players,
            game.deck@ == Seq::<Card>::empty(),
            game.house@ == Seq::<Card>::empty(),
            game.players@.len() == num_players,
            forall|i: int|
                0 <= i < num_players ==> {
                    &&& (#[trigger] game.players@[i]).id == *old(counter) + i + 1
                    &&& game.players@[i].money == STARTING_MONEY
                    &&& game.players@[i].cards@ == Seq::<Card>::empty()
                },
    {
        let mut players: Vec<Player> = Vec::new();
        let mut seated: usize = 0;
        while seated < num_players
            invariant
                seated <= num_players,
                *old(counter) + num_players <= usize::MAX,
                *counter == *old(counter) + seated,
                players@.len() == seated,
                forall|i: int|
                    0 <= i < seated ==> {
                        &&& (#[trigger] players@[i]).id == *old(counter) + i + 1
                        &&& players@[i].money == STARTING_MONEY
                        &&& players@[i].cards@ == Seq::<Card>::empty()
                    },
            decreases num_players - seated,
        {
            players.push(Player::new(counter));
            seated = seated + 1;
        }
        Blackjack { deck: Vec::new(), house: Vec::new(), players }
    }

    /// Gives every player one card from the end of the deck, first player
    /// first.
    fn deal_one_each(&mut self)
        requires
            old(self).players@.len() <= old(self).deck@.len(),
        ensures
            final(self).house == old(self).house,
            final(self).deck@ == old(self).deck@.take(
                old(self).deck@.len() - old(self).players@.len(),
            ),
            final(self).players@.len() == old(self).players@.len(),
            forall|i: int|
                0 <= i < old(self).players@.len() ==> {
                    &&& (#[trigger] final(self).players@[i]).id == old(self).players@[i].id
                    &&& final(self).players@[i].money == old(self).players@[i].money
                    &&& final(self).players@[i].cards@ == old(self).players@[i].cards@.push(
                        old(self).deck@[old(self).deck@.len() - 1 - i],
                    )
                },
    {
        let n = self.players.len();
        let mut i: usize = 0;
        while i < n
            invariant
                i <= n,
                n == old(self).players@.len(),
                n <= old(self).deck@.len(),
                self.house == old(self).house,
                self.deck@ == old(self).deck@.take(old(self).deck@.len() - i),
                self.players@.len() == n,
                forall|j: int|
                    0 <= j < i ==> {
                        &&& (#[trigger] self.players@[j]).id == old(self).players@[j].id
                        &&& self.players@[j].money == old(self).players@[j].money
                        &&& self.players@[j].cards@ == old(self).players@[j].cards@.push(
                            old(self).deck@[old(self).deck@.len() - 1 - j],
                        )
                    },
                forall|j: int| i <= j < n ==> self.players@[j] == old(self).players@[j],
            decreases n - i,
        {
            let card = self.deck.pop().unwrap();
            self.players[i].cards.push(card);
            i = i + 1;
        }
    }

    /// Deals one round from `deck`, which then becomes the table's deck.
    pub fn deal_from(&mut self, deck: Vec<Card>)
        requires
            2 * (old(self).players@.len() + 1) <= deck@.len(),
        ensures
            Self::dealt(*old(self), deck@, *final(self)),
    {
        let ghost full = deck@;
        self.deck = deck;
        self.deal_one_each();
        let first = self.deck.pop().unwrap();
        self.house.push(first);
        self.deal_one_each();
        let second = self.deck.pop().unwrap();
        self.house.push(second);
        assert(self.deck@ =~= full.take(full.len() - 2 * (old(self).players@.len() + 1)));
    }

    /// Deals one round from a new shuffled deck.
    pub fn deal(&mut self)
        requires
            2 * (old(self).players@.len() + 1) <= 52,
        ensures
            exists|deck: Seq<Card>| is_full_deck(deck) && Self::dealt(*old(self), deck, *final(self)),
    {
        let deck = new_deck();
        let ghost shuffled = deck@;
        self.deal_from(deck);
        assert(is_full_deck(shuffled) && Self::dealt(*old(self), shuffled, *self));
    }
}

} // verus!
