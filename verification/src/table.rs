//! The table as one player sees it: the piles and the cards held.

use vstd::prelude::*;
use crate::card::Card;

verus! {

/// What the player did at the table.
#[derive(Debug, Clone, Copy, PartialEq, Eq, Structural)]
pub enum GameMsg {
    /// The card at this index of the hand was picked.
    HandCardClicked(usize),
    /// The draw pile was picked.
    DrawPileClicked,
}

/// The piles on the table and the cards the player holds.
pub struct Table {
    pub draw_pile: Vec<Card>,
    pub play_pile: Vec<Card>,
    pub holding: Vec<Card>,
}

/// A table as the moves see it.
pub struct TableView {
    pub draw_pile: Seq<Card>,
    pub play_pile: Seq<Card>,
    pub holding: Seq<Card>,
}

impl View for Table {
    type V = TableView;

    open spec fn view(&self) -> TableView {
        TableView {
            draw_pile: self.draw_pile@,
            play_pile: self.play_pile@,
            holding: self.holding@,
        }
    }
}

impl TableView {
    /// Whether `msg` moves a card.
    pub open spec fn moves(self, msg: GameMsg) -> bool {
        match msg {
            GameMsg::HandCardClicked(i) => i < self.holding.len(),
            GameMsg::DrawPileClicked => self.draw_pile.len() > 0,
        }
    }

    /// The table after `msg`: a card picked from the hand goes on the play
    /// pile, a pick of the draw pile brings its top card to the hand. A pick
    /// of what is not there leaves the table as it is.
    pub open spec fn after(self, msg: GameMsg) -> TableView {
        if !self.moves(msg) {
            self
        } else {
            match msg {
                GameMsg::HandCardClicked(i) => TableView {
                    holding: self.holding.remove(i as int),
                    play_pile: self.play_pile.push(self.holding[i as int]),
                    ..self
                },
                GameMsg::DrawPileClicked => TableView {
                    draw_pile: self.draw_pile.drop_last(),
                    holding: self.holding.push(self.draw_pile.last()),
                    ..self
                },
            }
        }
    }
}

impl Table {
    /// Carries out `msg` and tells whether the table has changed.
    pub fn update(&mut self, msg: GameMsg) -> (changed: bool)
        ensures
            changed == old(self)@.moves(msg),
            final(self)@ == old(self)@.after(msg),
    {
        match msg {
            GameMsg::HandCardClicked(i) => {
                if i < self.holding.len() {
                    let card = self.holding.remove(i);
                    self.play_pile.push(card);
                    true
                } else {
                    false
                }
            },
            GameMsg::DrawPileClicked => {
                match self.draw_pile.pop() {
                    Some(card) => {
                        self.holding.push(card);
                        true
                    },
                    None => false,
                }
            },
        }
    }
}

} // verus!
