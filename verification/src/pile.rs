//! How piles of cards are laid out for the eye.

use vstd::prelude::*;
use crate::card::Card;

verus! {

/// Up to this many face-down cards are shown one for one.
pub const MAX_BEFORE_CUT: usize = 10;

/// Beyond that, one card is shown for every so many.
pub const AFTER_CUT_SCALE: usize = 3;

/// Never are more cards shown than this.
pub const MAX_TOTAL: usize = 30;

/// How many of the face-up cards on top of a pile are shown.
pub const VISIBLE_CARDS: usize = 3;

/// How many card backs stand for a face-down pile of `cards` cards.
pub open spec fn shown_count(cards: nat) -> nat {
    if cards <= 10 {
        cards
    } else if 10 + (cards - 10) / 3 <= 30 {
        (10 + (cards - 10) / 3) as nat
    } else {
        30
    }
}

/// The cards of a face-up pile that are shown: the top three, or all of a
/// smaller pile, in the order in which they lie.
pub open spec fn shown_top(cards: Seq<Card>) -> Seq<Card> {
    if cards.len() <= 3 {
        cards
    } else {
        cards.skip(cards.len() - 3)
    }
}

/// The number of card backs to draw for a face-down pile of `cards` cards.
pub fn hidden_pile_count(cards: usize) -> (shown: usize)
    ensures
        shown == shown_count(cards as nat),
        shown <= 30,
        shown <= cards,
{
    let mut show_count = cards;
    if show_count > MAX_BEFORE_CUT {
        show_count = MAX_BEFORE_CUT + (show_count - MAX_BEFORE_CUT) / AFTER_CUT_SCALE;
    }
    if show_count > MAX_TOTAL {
        MAX_TOTAL
    } else {
        show_count
    }
}

/// The cards to draw for a face-up pile, the top card last.
pub fn visible_pile_cards(cards: &Vec<Card>) -> (shown: Vec<Card>)
    ensures
        shown@ == shown_top(cards@),
{
    let len = cards.len();
    let start = if len <= VISIBLE_CARDS {
        0
    } else {
        len - VISIBLE_CARDS
    };
    let mut shown: Vec<Card> = Vec::new();
    let mut i = start;
    while i < len
        invariant
            start <= i <= len,
            len == cards@.len(),
            shown@ == cards@.subrange(start as int, i as int),
        decreases len - i,
    {
        shown.push(cards[i]);
        proof {
            assert(shown@ =~= cards@.subrange(start as int, i + 1));
        }
        i += 1;
    }
    proof {
        assert(shown@ =~= shown_top(cards@));
    }
    shown
}

} // verus!
