//! Cards, their colours, and the rule that decides which card may follow which.

use vstd::prelude::*;

verus! {

/// The four suits of the game.
#[derive(Debug, Clone, Copy, PartialEq, Eq, Structural)]
pub enum Color {
    Blue,
    Green,
    Red,
    Yellow,
}

/// A single card. Wild cards carry a colour only once one has been chosen for them.
#[derive(Debug, Clone, Copy, PartialEq, Eq, Structural)]
pub enum Card {
    Numeric(Color, u8),
    Skip(Color),
    Reverse(Color),
    DrawTwo(Color),
    Wild(Option<Color>),
    WildDrawFour(Option<Color>),
}

/// The colour a card shows, if it has one.
pub open spec fn color_of(card: Card) -> Option<Color> {
    match card {
        Card::Numeric(c, _) => Some(c),
        Card::Skip(c) => Some(c),
        Card::Reverse(c) => Some(c),
        Card::DrawTwo(c) => Some(c),
        Card::Wild(c) => c,
        Card::WildDrawFour(c) => c,
    }
}

/// The kind of a card with its colour forgotten: a category and, for numeric
/// cards, the number (zero otherwise).
pub open spec fn kind_of(card: Card) -> (nat, nat) {
    match card {
        Card::Numeric(_, n) => (0, n as nat),
        Card::Skip(_) => (1, 0),
        Card::Reverse(_) => (2, 0),
        Card::DrawTwo(_) => (3, 0),
        Card::Wild(_) => (4, 0),
        Card::WildDrawFour(_) => (5, 0),
    }
}

/// Whether `card` may be laid on `top`: it is colourless, or shares the colour
/// of `top`, or is of the same kind as `top`.
pub open spec fn can_follow(card: Card, top: Card) -> bool {
    color_of(card) is None || color_of(card) == color_of(top) || kind_of(card) == kind_of(top)
}

impl Card {
    pub fn get_color(&self) -> (color: Option<Color>)
        ensures
            color == color_of(*self),
    {
        match self {
            Card::Numeric(c, _) | Card::Skip(c) | Card::Reverse(c) | Card::DrawTwo(c) => Some(*c),
            Card::Wild(c) | Card::WildDrawFour(c) => *c,
        }
    }

    /// The card's kind as a pair of small numbers.
    pub fn kind_discriminant(&self) -> (kind: (u8, u8))
        ensures
            kind.0 as nat == kind_of(*self).0,
            kind.1 as nat == kind_of(*self).1,
    {
        match self {
            Card::Numeric(_, n) => (0, *n),
            Card::Skip(_) => (1, 0),
            Card::Reverse(_) => (2, 0),
            Card::DrawTwo(_) => (3, 0),
            Card::Wild(_) => (4, 0),
            Card::WildDrawFour(_) => (5, 0),
        }
    }

    pub fn playable_on(&self, other: &Self) -> (playable: bool)
        ensures
            playable == can_follow(*self, *other),
    {
        match self.get_color() {
            None => true,
            Some(c) => {
                let same_color = match other.get_color() {
                    Some(d) => c == d,
                    None => false,
                };
                if same_color {
                    true
                } else {
                    let mine = self.kind_discriminant();
                    let theirs = other.kind_discriminant();
                    mine.0 == theirs.0 && mine.1 == theirs.1
                }
            }
        }
    }
}


/// A card without a colour may follow any card. A card with a colour may
/// follow exactly the cards that show its colour and the cards of its kind;
/// so on a wild card that has no colour yet, only its like may follow.
pub proof fn lemma_can_follow(card: Card, top: Card)
    ensures
        color_of(card) is None ==> can_follow(card, top),
        color_of(card) is Some ==> (can_follow(card, top) <==> color_of(card) == color_of(top)
            || kind_of(card) == kind_of(top)),
        color_of(card) is Some && color_of(top) is None ==> (can_follow(card, top) <==> kind_of(
            card,
        ) == kind_of(top)),
{
}

} // verus!
