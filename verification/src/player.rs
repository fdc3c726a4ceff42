//! A player at the table: an identifier and the cards held.

use vstd::prelude::*;
use crate::card::Card;

verus! {

/// A player and the hand they hold, in the order the cards were taken up.
pub struct Player {
    pub id: u128,
    hand: Vec<Card>,
}

/// What a player is to the rules: who they are and what they hold.
pub struct PlayerView {
    pub id: u128,
    pub hand: Seq<Card>,
}

impl View for Player {
    type V = PlayerView;

    closed spec fn view(&self) -> PlayerView {
        PlayerView { id: self.id, hand: self.hand@ }
    }
}

impl Player {
    /// A player who holds no cards yet.
    pub fn empty(id: u128) -> (player: Self)
        ensures
            player@ == (PlayerView { id, hand: Seq::empty() }),
    {
        Self { id, hand: Vec::new() }
    }

    /// Who the player is.
    pub fn id(&self) -> (id: u128)
        ensures
            id == self@.id,
    {
        self.id
    }

    /// Puts `card` at the end of the hand and tells the index it got.
    pub fn add_card(&mut self, card: Card) -> (index: usize)
        ensures
            final(self)@ == (PlayerView { id: old(self)@.id, hand: old(self)@.hand.push(card) }),
            index == old(self)@.hand.len(),
    {
        self.hand.push(card);
        self.hand.len() - 1
    }

    /// Takes the card at `index` out of the hand, closing the gap. An index
    /// beyond the hand takes nothing.
    pub fn remove_card(&mut self, index: usize) -> (card: Option<Card>)
        ensures
            index < old(self)@.hand.len() ==> card == Some(old(self)@.hand[index as int])
                && final(self)@ == (PlayerView {
                id: old(self)@.id,
                hand: old(self)@.hand.remove(index as int),
            }),
            index >= old(self)@.hand.len() ==> card is None && final(self)@ == old(self)@,
    {
        if index >= self.hand.len() {
            return None;
        }
        Some(self.hand.remove(index))
    }

    /// The card at `index`, if the hand reaches that far.
    pub fn card_at(&self, index: usize) -> (card: Option<Card>)
        ensures
            card == if index < self@.hand.len() {
                Some(self@.hand[index as int])
            } else {
                None
            },
    {
        if index < self.hand.len() {
            Some(self.hand[index])
        } else {
            None
        }
    }

    /// Number of cards held.
    pub fn hand_len(&self) -> (len: usize)
        ensures
            len == self@.hand.len(),
    {
        self.hand.len()
    }

    /// The cards held, first taken up first.
    pub fn hand(&self) -> (cards: &Vec<Card>)
        ensures
            cards@ == self@.hand,
    {
        &self.hand
    }
}

} // verus!
