//! The rules of a turn, stated over mathematical game states.

use vstd::prelude::*;
use vstd::multiset::*;
use vstd::seq_lib::*;
use crate::card::{can_follow, Card};
use crate::player::PlayerView;

verus! {

/// What the player whose turn it is may do next.
#[derive(Debug, Clone, Copy, PartialEq, Eq, Structural)]
pub enum TurnState {
    /// Play a card from the hand or draw one.
    PlayOrDraw,
    /// Decide whether to play the card just drawn, which sits at this index of the hand.
    PlayDrawn(usize),
}

/// A turn state with an unbounded index.
pub enum Turn {
    PlayOrDraw,
    PlayDrawn(nat),
}

impl View for TurnState {
    type V = Turn;

    open spec fn view(&self) -> Turn {
        match self {
            TurnState::PlayOrDraw => Turn::PlayOrDraw,
            TurnState::PlayDrawn(i) => Turn::PlayDrawn(*i as nat),
        }
    }
}

/// One request of a player.
#[derive(Debug, Clone, Copy, PartialEq, Eq, Structural)]
pub enum ClientAction {
    PlayCard(usize),
    DrawCard,
    ResolveDrawnCard(bool),
}

/// Why a request was refused.
#[derive(Debug, Clone, Copy, PartialEq, Eq, Structural)]
pub enum Refusal {
    /// The request is not what the state of the turn asks for.
    WrongTurnState,
    /// Nobody sits at the table, so it is nobody's turn.
    NobodySeated,
    /// The hand has no card at that index.
    NoSuchCard,
    /// The card may not follow the one that lies face up.
    NotPlayable,
    /// The draw pile has run out.
    Exhausted,
}

/// A game as the rules see it. Piles are stacks whose top is the last element.
pub struct GameView {
    pub draw_pile: Seq<Card>,
    pub discard_pile: Seq<Card>,
    pub players: Seq<PlayerView>,
    pub current: int,
    pub forward: bool,
    pub turn: Turn,
}

/// All cards held in the hands of `players`, as a multiset.
pub open spec fn hands_cards(players: Seq<PlayerView>) -> Multiset<Card>
    decreases players.len(),
{
    if players.len() == 0 {
        Multiset::empty()
    } else {
        hands_cards(players.drop_last()).add(players.last().hand.to_multiset())
    }
}

/// Number of cards held in the hands of `players`.
pub open spec fn hands_len(players: Seq<PlayerView>) -> int
    decreases players.len(),
{
    if players.len() == 0 {
        0
    } else {
        hands_len(players.drop_last()) + players.last().hand.len()
    }
}

impl GameView {
    /// The state is one that play can be in: a card lies face up, the turn is
    /// with one of the players (if there are any), and a drawn card awaiting a
    /// decision is in the hand of the player whose turn it is.
    pub open spec fn wf(self) -> bool {
        &&& self.discard_pile.len() > 0
        &&& if self.players.len() == 0 {
            self.current == 0
        } else {
            0 <= self.current < self.players.len()
        }
        &&& match self.turn {
            Turn::PlayOrDraw => true,
            Turn::PlayDrawn(i) => self.players.len() > 0 && i < self.hand().len(),
        }
    }

    /// The card that lies face up.
    pub open spec fn top(self) -> Card {
        self.discard_pile.last()
    }

    /// The hand of the player whose turn it is.
    pub open spec fn hand(self) -> Seq<Card> {
        self.players[self.current].hand
    }

    /// The same game, the player whose turn it is holding `hand`.
    pub open spec fn with_hand(self, hand: Seq<Card>) -> GameView {
        GameView {
            players: self.players.update(
                self.current,
                PlayerView { id: self.players[self.current].id, hand },
            ),
            ..self
        }
    }

    /// The same game with `card` laid face up on the discard pile.
    pub open spec fn with_discarded(self, card: Card) -> GameView {
        GameView { discard_pile: self.discard_pile.push(card), ..self }
    }

    /// The seat that follows the current one in the direction of play.
    pub open spec fn next_index(self) -> int {
        if self.players.len() == 0 {
            0
        } else {
            (self.current + if self.forward {
                1int
            } else {
                -1int
            }) % (self.players.len() as int)
        }
    }

    /// The turn passes on: the next seat is up and may play or draw.
    pub open spec fn advance(self) -> GameView {
        GameView { current: self.next_index(), turn: Turn::PlayOrDraw, ..self }
    }

    /// Whether the player whose turn it is may play the card at index `i` of their hand.
    pub open spec fn can_play(self, i: int) -> bool {
        &&& self.turn is PlayOrDraw
        &&& self.players.len() > 0
        &&& 0 <= i < self.hand().len()
        &&& can_follow(self.hand()[i], self.top())
    }

    /// The card at index `i` of the hand goes face up and the turn passes on.
    pub open spec fn play(self, i: int) -> GameView {
        self.with_hand(self.hand().remove(i)).with_discarded(self.hand()[i]).advance()
    }

    /// Whether the player whose turn it is may draw.
    pub open spec fn can_draw(self) -> bool {
        &&& self.turn is PlayOrDraw
        &&& self.players.len() > 0
        &&& self.draw_pile.len() > 0
    }

    /// The top of the draw pile goes to the end of the hand. If it may follow
    /// the face-up card the player gets to decide on it, else the turn passes on.
    pub open spec fn draw(self) -> GameView {
        let card = self.draw_pile.last();
        let taken = GameView {
            draw_pile: self.draw_pile.drop_last(),
            ..self.with_hand(self.hand().push(card))
        };
        if can_follow(card, self.top()) {
            GameView { turn: Turn::PlayDrawn(self.hand().len()), ..taken }
        } else {
            taken.advance()
        }
    }

    /// Whether a drawn card awaits a decision.
    pub open spec fn can_resolve(self) -> bool {
        self.turn is PlayDrawn
    }

    /// The drawn card goes face up if `play` says so; either way the turn passes on.
    pub open spec fn resolve(self, play: bool) -> GameView {
        let i = self.turn->PlayDrawn_0 as int;
        if play {
            self.with_hand(self.hand().remove(i)).with_discarded(self.hand()[i]).advance()
        } else {
            self.advance()
        }
    }

    /// Why `action` is refused in this state, if it is. The state of the
    /// turn is looked at first, then the table, then what the action asks for.
    pub open spec fn refusal(self, action: ClientAction) -> Option<Refusal> {
        match action {
            ClientAction::PlayCard(i) => if self.turn is PlayDrawn {
                Some(Refusal::WrongTurnState)
            } else if self.players.len() == 0 {
                Some(Refusal::NobodySeated)
            } else if i >= self.hand().len() {
                Some(Refusal::NoSuchCard)
            } else if !can_follow(self.hand()[i as int], self.top()) {
                Some(Refusal::NotPlayable)
            } else {
                None
            },
            ClientAction::DrawCard => if self.turn is PlayDrawn {
                Some(Refusal::WrongTurnState)
            } else if self.players.len() == 0 {
                Some(Refusal::NobodySeated)
            } else if self.draw_pile.len() == 0 {
                Some(Refusal::Exhausted)
            } else {
                None
            },
            ClientAction::ResolveDrawnCard(_) => if self.turn is PlayOrDraw {
                Some(Refusal::WrongTurnState)
            } else {
                None
            },
        }
    }

    /// Whether `action` is legal in this state.
    pub open spec fn allows(self, action: ClientAction) -> bool {
        match action {
            ClientAction::PlayCard(i) => self.can_play(i as int),
            ClientAction::DrawCard => self.can_draw(),
            ClientAction::ResolveDrawnCard(_) => self.can_resolve(),
        }
    }

    /// The state after `action`: an illegal action changes nothing.
    pub open spec fn step(self, action: ClientAction) -> GameView {
        if !self.allows(action) {
            self
        } else {
            match action {
                ClientAction::PlayCard(i) => self.play(i as int),
                ClientAction::DrawCard => self.draw(),
                ClientAction::ResolveDrawnCard(play) => self.resolve(play),
            }
        }
    }

    /// The state after the actions of `actions`, taken in order.
    pub open spec fn run(self, actions: Seq<ClientAction>) -> GameView
        decreases actions.len(),
    {
        if actions.len() == 0 {
            self
        } else {
            self.run(actions.drop_last()).step(actions.last())
        }
    }

    /// Every card of the game, wherever it is, as a multiset.
    pub open spec fn all_cards(self) -> Multiset<Card> {
        self.draw_pile.to_multiset().add(self.discard_pile.to_multiset()).add(
            hands_cards(self.players),
        )
    }

    /// Number of cards in the game: both piles and all hands.
    pub open spec fn card_count(self) -> int {
        self.draw_pile.len() + self.discard_pile.len() + hands_len(self.players)
    }
}

} // verus!
