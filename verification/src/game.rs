//! The game itself: two piles, the players round the table, and whose turn it is.

use vstd::prelude::*;
use vstd::seq_lib::*;
use crate::card::Card;
use crate::conservation::{lemma_deal_conserves_cards, lemma_step_conserves_cards};
use crate::deck::{
    build_dynamic_deck, copies_in_canonical_deck, dynamic_deck, lemma_rounds_for, rounds_for,
    shuffle_cards,
};
use crate::player::{Player, PlayerView};
use crate::rules::{ClientAction, GameView, Refusal, Turn, TurnState};

verus! {

/// A game in progress.
pub struct Game {
    draw_pile: Vec<Card>,
    discard_pile: Vec<Card>,
    players: Vec<Player>,
    current_player_index: usize,
    dir_forward: bool,
    turn_state: TurnState,
}

/// Number of cards each player is dealt.
pub const HAND_SIZE: usize = 8;

/// Number of cards the deck holds for each player of a large lobby.
pub const CARDS_PER_PLAYER: usize = 20;

/// The hand dealt to the player at `seat`: eight cards off the top of
/// `pile`, after those of the seats before.
pub open spec fn dealt_hand(pile: Seq<Card>, seat: int) -> Seq<Card> {
    Seq::new(8, |j: int| pile[pile.len() - 1 - 8 * seat - j])
}

/// Whether `cards` cards give every one of `players` players a hand and
/// leave one to lie face up.
pub open spec fn enough_to_deal(cards: nat, players: nat) -> bool {
    cards >= 8 * players + 1
}

/// The game at its start: every player of `ids`, in order, has been dealt
/// eight cards off the top of `pile`, one at a time, and the next card lies
/// face up. The first player is up and play goes forward.
pub open spec fn dealt(pile: Seq<Card>, ids: Seq<u128>) -> GameView {
    GameView {
        draw_pile: pile.take(pile.len() - 8 * ids.len() - 1),
        discard_pile: seq![pile[pile.len() - 8 * ids.len() - 1]],
        players: Seq::new(
            ids.len(),
            |seat: int| PlayerView { id: ids[seat], hand: dealt_hand(pile, seat) },
        ),
        current: 0,
        forward: true,
        turn: Turn::PlayOrDraw,
    }
}

/// Whether `game` is a game at its start for the players `ids`: dealt from
/// some shuffling of the deck that is built for that many players.
pub open spec fn is_new_game(game: GameView, ids: Seq<u128>) -> bool {
    exists|pile: Seq<Card>|
        pile.to_multiset() == dynamic_deck((ids.len() * 20) as nat).to_multiset() && game
            == #[trigger] dealt(pile, ids)
}

/// The players as the rules see them.
pub open spec fn player_views(players: Seq<Player>) -> Seq<PlayerView> {
    players.map_values(|p: Player| p@)
}

impl View for Game {
    type V = GameView;

    closed spec fn view(&self) -> GameView {
        GameView {
            draw_pile: self.draw_pile@,
            discard_pile: self.discard_pile@,
            players: player_views(self.players@),
            current: self.current_player_index as int,
            forward: self.dir_forward,
            turn: self.turn_state@,
        }
    }
}

impl Game {
    /// The seat whose turn it is.
    pub fn current_player_index(&self) -> (index: usize)
        ensures
            index == self@.current,
    {
        self.current_player_index
    }

    /// What the player whose turn it is may do next.
    pub fn turn_state(&self) -> (state: TurnState)
        ensures
            state@ == self@.turn,
    {
        self.turn_state
    }

    /// Whether play goes round in seating order.
    pub fn is_forward(&self) -> (forward: bool)
        ensures
            forward == self@.forward,
    {
        self.dir_forward
    }

    /// Number of players at the table.
    pub fn player_count(&self) -> (count: usize)
        ensures
            count == self@.players.len(),
    {
        self.players.len()
    }

    /// The player at `seat`, if the table has that many seats.
    pub fn player(&self, seat: usize) -> (player: Option<&Player>)
        ensures
            match player {
                Some(p) => seat < self@.players.len() && p@ == self@.players[seat as int],
                None => seat >= self@.players.len(),
            },
    {
        if seat < self.players.len() {
            Some(&self.players[seat])
        } else {
            None
        }
    }

    /// Number of cards left to draw.
    pub fn draw_pile_len(&self) -> (len: usize)
        ensures
            len == self@.draw_pile.len(),
    {
        self.draw_pile.len()
    }

    /// The cards played so far, the one that lies face up last.
    pub fn discard_pile(&self) -> (cards: &Vec<Card>)
        ensures
            cards@ == self@.discard_pile,
    {
        &self.discard_pile
    }

    /// Puts a game together from its parts, if they make up a state that
    /// play can be in.
    pub fn from_parts(
        draw_pile: Vec<Card>,
        discard_pile: Vec<Card>,
        players: Vec<Player>,
        current_player_index: usize,
        dir_forward: bool,
        turn_state: TurnState,
    ) -> (game: Option<Game>)
        ensures
            game is Some <==> (GameView {
                draw_pile: draw_pile@,
                discard_pile: discard_pile@,
                players: player_views(players@),
                current: current_player_index as int,
                forward: dir_forward,
                turn: turn_state@,
            }).wf(),
            game is Some ==> game->Some_0@ == (GameView {
                draw_pile: draw_pile@,
                discard_pile: discard_pile@,
                players: player_views(players@),
                current: current_player_index as int,
                forward: dir_forward,
                turn: turn_state@,
            }),
    {
        if discard_pile.len() == 0 {
            return None;
        }
        if players.len() == 0 {
            if current_player_index != 0 {
                return None;
            }
        } else if current_player_index >= players.len() {
            return None;
        }
        match turn_state {
            TurnState::PlayOrDraw => {},
            TurnState::PlayDrawn(index) => {
                if players.len() == 0 || index >= players[current_player_index].hand_len() {
                    return None;
                }
            },
        }
        Some(
            Game {
                draw_pile,
                discard_pile,
                players,
                current_player_index,
                dir_forward,
                turn_state,
            },
        )
    }

    /// Starts a game for the players `player_ids` from the shuffled pile
    /// `pile`, whose top is its last card. Without enough cards to deal
    /// there is no game.
    pub fn deal(pile: Vec<Card>, player_ids: &Vec<u128>) -> (game: Option<Game>)
        ensures
            game is Some <==> enough_to_deal(pile@.len(), player_ids@.len()),
            game is Some ==> game->Some_0@ == dealt(pile@, player_ids@) && game->Some_0@.wf(),
    {
        let total = pile.len();
        let count = player_ids.len();
        if total == 0 || count > (total - 1) / HAND_SIZE {
            return None;
        }
        let ghost start = pile@;
        let mut draw_pile = pile;
        let mut players: Vec<Player> = Vec::new();
        let mut seat: usize = 0;
        while seat < count
            invariant
                seat <= count,
                count == player_ids@.len(),
                total == start.len(),
                8 * count + 1 <= total,
                draw_pile@ == start.take(total - 8 * seat),
                players@.len() == seat,
                player_views(players@) == dealt(start, player_ids@).players.take(seat as int),
            decreases count - seat,
        {
            let mut player = Player::empty(player_ids[seat]);
            let mut taken: usize = 0;
            proof {
                assert(player@.hand =~= dealt_hand(start, seat as int).take(0));
            }
            while taken < HAND_SIZE
                invariant
                    taken <= 8,
                    seat < count,
                    count == player_ids@.len(),
                    total == start.len(),
                    8 * count + 1 <= total,
                    draw_pile@ == start.take(total - 8 * seat - taken),
                    player@ == (PlayerView {
                        id: player_ids@[seat as int],
                        hand: dealt_hand(start, seat as int).take(taken as int),
                    }),
                decreases 8 - taken,
            {
                let card = draw_pile.pop().unwrap();
                player.add_card(card);
                proof {
                    assert(player@.hand =~= dealt_hand(start, seat as int).take(taken + 1));
                    assert(draw_pile@ =~= start.take(total - 8 * seat - (taken + 1)));
                }
                taken += 1;
            }
            proof {
                assert(player@.hand =~= dealt_hand(start, seat as int));
            }
            let ghost seated = players@;
            players.push(player);
            proof {
                let want = dealt(start, player_ids@).players.take(seat + 1);
                assert forall|i: int| 0 <= i < seat + 1 implies player_views(players@)[i]
                    == want[i] by {
                    if i < seat {
                        assert(player_views(players@)[i] == player_views(seated)[i]);
                        assert(dealt(start, player_ids@).players.take(seat as int)[i] == want[i]);
                    }
                }
                assert(player_views(players@) =~= want);
                assert(draw_pile@ =~= start.take(total - 8 * (seat + 1)));
            }
            seat += 1;
        }
        let mut discard_pile: Vec<Card> = Vec::new();
        discard_pile.push(draw_pile.pop().unwrap());
        proof {
            assert(discard_pile@ =~= dealt(start, player_ids@).discard_pile);
            assert(draw_pile@ =~= dealt(start, player_ids@).draw_pile);
            assert(player_views(players@) =~= dealt(start, player_ids@).players);
        }
        Some(
            Game {
                draw_pile,
                discard_pile,
                players,
                current_player_index: 0,
                dir_forward: true,
                turn_state: TurnState::PlayOrDraw,
            },
        )
    }

    /// Starts a game for the players `player_ids`: a deck of whole rounds of
    /// the canonical deck, enough for twenty cards for each of them, is
    /// shuffled and dealt. With no players this is a game waiting for them, the deck
    /// shuffled and one card face up. Whatever the shuffle, the game holds
    /// the cards of that deck and no others.
    pub fn create(player_ids: &Vec<u128>) -> (game: Game)
        requires
            player_ids@.len() * 20 + 107 <= usize::MAX,
        ensures
            is_new_game(game@, player_ids@),
            game@.all_cards() == dynamic_deck((player_ids@.len() * 20) as nat).to_multiset(),
            forall|card: Card|
                #[trigger] game@.all_cards().count(card) == rounds_for(
                    (player_ids@.len() * 20) as nat,
                ) * copies_in_canonical_deck(card),
            game@.wf(),
    {
        let mut pile = build_dynamic_deck(player_ids.len() * CARDS_PER_PLAYER);
        shuffle_cards(&mut pile);
        proof {
            to_multiset_len(pile@);
            to_multiset_len(dynamic_deck((player_ids@.len() * 20) as nat));
            lemma_rounds_for((player_ids@.len() * 20) as nat);
            lemma_deal_conserves_cards(pile@, player_ids@);
        }
        Game::deal(pile, player_ids).unwrap()
    }

    /// The card that lies face up.
    pub fn current_card(&self) -> (card: Card)
        requires
            self@.wf(),
        ensures
            card == self@.top(),
    {
        self.discard_pile[self.discard_pile.len() - 1]
    }

    /// The player whose turn it is plays the card at `index` of their hand.
    /// This is refused, and nothing changes, while a drawn card awaits a
    /// decision, when nobody sits at the table, when the hand has no such
    /// index, and when the card may not follow the one that lies face up;
    /// the first of these that holds is the reason given.
    pub fn try_play_card(&mut self, index: usize) -> (played: Result<(), Refusal>)
        requires
            old(self)@.wf(),
        ensures
            played == match old(self)@.refusal(ClientAction::PlayCard(index)) {
                Some(reason) => Err::<(), Refusal>(reason),
                None => Ok::<(), Refusal>(()),
            },
            played is Ok <==> old(self)@.can_play(index as int),
            final(self)@ == if played is Ok {
                old(self)@.play(index as int)
            } else {
                old(self)@
            },
            final(self)@.wf(),
            final(self)@.all_cards() == old(self)@.all_cards(),
            final(self)@.card_count() == old(self)@.card_count(),
    {
        proof {
            lemma_step_conserves_cards(old(self)@, ClientAction::PlayCard(index));
        }
        match self.turn_state {
            TurnState::PlayDrawn(_) => {
                return Err(Refusal::WrongTurnState);
            },
            TurnState::PlayOrDraw => {},
        }
        let seat = self.current_player_index;
        if seat >= self.players.len() {
            return Err(Refusal::NobodySeated);
        }
        let top = self.current_card();
        let card = match self.players[seat].card_at(index) {
            Some(card) => card,
            None => {
                return Err(Refusal::NoSuchCard);
            },
        };
        if !card.playable_on(&top) {
            return Err(Refusal::NotPlayable);
        }
        self.players[seat].remove_card(index);
        self.discard_pile.push(card);
        self.advance();
        proof {
            assert(self@.players =~= old(self)@.play(index as int).players);
        }
        Ok(())
    }

    /// Like [`Game::try_play_card`], telling only whether the card was played.
    pub fn play_card(&mut self, index: usize) -> (played: bool)
        requires
            old(self)@.wf(),
        ensures
            played == old(self)@.can_play(index as int),
            final(self)@ == if played {
                old(self)@.play(index as int)
            } else {
                old(self)@
            },
            final(self)@.wf(),
            final(self)@.all_cards() == old(self)@.all_cards(),
            final(self)@.card_count() == old(self)@.card_count(),
    {
        self.try_play_card(index).is_ok()
    }

    /// The player whose turn it is takes the top card of the draw pile and is
    /// handed a copy of it to look at. If the card may follow the one that
    /// lies face up, the player gets to decide on it; else the turn passes on.
    /// This is refused, and nothing changes, while a drawn card awaits a
    /// decision, when nobody sits at the table, and when the draw pile is
    /// exhausted, which is told apart from the other two.
    pub fn try_draw_card(&mut self) -> (drawn: Result<Card, Refusal>)
        requires
            old(self)@.wf(),
        ensures
            drawn == match old(self)@.refusal(ClientAction::DrawCard) {
                Some(reason) => Err::<Card, Refusal>(reason),
                None => Ok::<Card, Refusal>(old(self)@.draw_pile.last()),
            },
            drawn is Ok <==> old(self)@.can_draw(),
            drawn == Err::<Card, Refusal>(Refusal::Exhausted) <==> old(self)@.turn is PlayOrDraw
                && old(self)@.players.len() > 0 && old(self)@.draw_pile.len() == 0,
            final(self)@ == if drawn is Ok {
                old(self)@.draw()
            } else {
                old(self)@
            },
            final(self)@.wf(),
            final(self)@.all_cards() == old(self)@.all_cards(),
            final(self)@.card_count() == old(self)@.card_count(),
    {
        proof {
            lemma_step_conserves_cards(old(self)@, ClientAction::DrawCard);
        }
        match self.turn_state {
            TurnState::PlayDrawn(_) => {
                return Err(Refusal::WrongTurnState);
            },
            TurnState::PlayOrDraw => {},
        }
        let seat = self.current_player_index;
        if seat >= self.players.len() {
            return Err(Refusal::NobodySeated);
        }
        let top = self.current_card();
        let card = match self.draw_pile.pop() {
            Some(card) => card,
            None => {
                return Err(Refusal::Exhausted);
            },
        };
        let can_play = card.playable_on(&top);
        let card_index = self.players[seat].add_card(card);
        if can_play {
            self.turn_state = TurnState::PlayDrawn(card_index);
        } else {
            self.advance();
        }
        proof {
            assert(self@.players =~= old(self)@.draw().players);
        }
        Ok(card)
    }

    /// Like [`Game::try_draw_card`], telling only whether a card was drawn.
    pub fn draw_card(&mut self) -> (drew: bool)
        requires
            old(self)@.wf(),
        ensures
            drew == old(self)@.can_draw(),
            final(self)@ == if drew {
                old(self)@.draw()
            } else {
                old(self)@
            },
            final(self)@.wf(),
            final(self)@.all_cards() == old(self)@.all_cards(),
            final(self)@.card_count() == old(self)@.card_count(),
    {
        match self.try_draw_card() {
            Ok(_) => true,
            Err(_) => false,
        }
    }

    /// The player decides on the card just drawn: with `play` it goes face
    /// up, else it stays in the hand; either way the turn passes on. This is
    /// refused, and nothing changes, when no drawn card awaits a decision.
    pub fn try_play_drawn_card(&mut self, play: bool) -> (resolved: Result<(), Refusal>)
        requires
            old(self)@.wf(),
        ensures
            resolved == match old(self)@.refusal(ClientAction::ResolveDrawnCard(play)) {
                Some(reason) => Err::<(), Refusal>(reason),
                None => Ok::<(), Refusal>(()),
            },
            resolved is Ok <==> old(self)@.can_resolve(),
            final(self)@ == if resolved is Ok {
                old(self)@.resolve(play)
            } else {
                old(self)@
            },
            final(self)@.wf(),
            final(self)@.all_cards() == old(self)@.all_cards(),
            final(self)@.card_count() == old(self)@.card_count(),
    {
        proof {
            lemma_step_conserves_cards(old(self)@, ClientAction::ResolveDrawnCard(play));
        }
        let card_index = match self.turn_state {
            TurnState::PlayDrawn(index) => index,
            TurnState::PlayOrDraw => {
                return Err(Refusal::WrongTurnState);
            },
        };
        if play {
            let seat = self.current_player_index;
            self.turn_state = TurnState::PlayOrDraw;
            let card = self.players[seat].remove_card(card_index).unwrap();
            self.discard_pile.push(card);
        }
        self.advance();
        proof {
            assert(self@.players =~= old(self)@.resolve(play).players);
        }
        Ok(())
    }

    /// Like [`Game::try_play_drawn_card`], telling only whether the decision
    /// was taken.
    pub fn play_drawn_card(&mut self, play: bool) -> (resolved: bool)
        requires
            old(self)@.wf(),
        ensures
            resolved == old(self)@.can_resolve(),
            final(self)@ == if resolved {
                old(self)@.resolve(play)
            } else {
                old(self)@
            },
            final(self)@.wf(),
            final(self)@.all_cards() == old(self)@.all_cards(),
            final(self)@.card_count() == old(self)@.card_count(),
    {
        self.try_play_drawn_card(play).is_ok()
    }

    /// Carries out one request of the player whose turn it is. An illegal
    /// request is refused, with the reason, and changes nothing.
    pub fn try_apply(&mut self, action: ClientAction) -> (accepted: Result<(), Refusal>)
        requires
            old(self)@.wf(),
        ensures
            accepted == match old(self)@.refusal(action) {
                Some(reason) => Err::<(), Refusal>(reason),
                None => Ok::<(), Refusal>(()),
            },
            accepted is Ok <==> old(self)@.allows(action),
            final(self)@ == old(self)@.step(action),
            final(self)@.wf(),
            final(self)@.all_cards() == old(self)@.all_cards(),
            final(self)@.card_count() == old(self)@.card_count(),
    {
        match action {
            ClientAction::PlayCard(index) => self.try_play_card(index),
            ClientAction::DrawCard => match self.try_draw_card() {
                Ok(_) => Ok(()),
                Err(reason) => Err(reason),
            },
            ClientAction::ResolveDrawnCard(play) => self.try_play_drawn_card(play),
        }
    }

    /// Like [`Game::try_apply`], telling only whether the request was accepted.
    pub fn apply(&mut self, action: ClientAction) -> (accepted: bool)
        requires
            old(self)@.wf(),
        ensures
            accepted == old(self)@.allows(action),
            final(self)@ == old(self)@.step(action),
            final(self)@.wf(),
            final(self)@.all_cards() == old(self)@.all_cards(),
            final(self)@.card_count() == old(self)@.card_count(),
    {
        self.try_apply(action).is_ok()
    }

    /// Seats a new player, who holds no cards, after those already at the table.
    pub fn add_player(&mut self, id: u128)
        requires
            old(self)@.wf(),
        ensures
            final(self)@ == (GameView {
                players: old(self)@.players.push(PlayerView { id, hand: Seq::empty() }),
                ..old(self)@
            }),
            final(self)@.wf(),
    {
        self.players.push(Player::empty(id));
        proof {
            assert(self@.players =~= old(self)@.players.push(
                PlayerView { id, hand: Seq::empty() },
            ));
        }
    }

    /// Passes the turn to the next seat in the direction of play.
    fn advance(&mut self)
        requires
            old(self)@.wf(),
        ensures
            final(self)@ == old(self)@.advance(),
    {
        let n = self.players.len();
        let index = self.current_player_index;
        let next: usize = if n == 0 {
            0
        } else if self.dir_forward {
            if index + 1 == n {
                0
            } else {
                index + 1
            }
        } else {
            if index == 0 {
                n - 1
            } else {
                index - 1
            }
        };
        proof {
            if n > 0 {
                lemma_next_index(index as int, n as int, self.dir_forward);
            }
        }
        self.turn_state = TurnState::PlayOrDraw;
        self.current_player_index = next;
    }
}

/// The seat after `index` at a table of `n`, going round in either direction.
pub proof fn lemma_next_index(index: int, n: int, forward: bool)
    requires
        0 <= index < n,
    ensures
        forward ==> (index + 1) % n == if index + 1 == n {
            0
        } else {
            index + 1
        },
        !forward ==> (index - 1) % n == if index == 0 {
            n - 1
        } else {
            index - 1
        },
        0 <= (index + 1) % n < n,
        0 <= (index - 1) % n < n,
{
    if index + 1 == n {
        vstd::arithmetic::div_mod::lemma_mod_self_0(n);
    } else {
        vstd::arithmetic::div_mod::lemma_small_mod((index + 1) as nat, n as nat);
    }
    if index == 0 {
        vstd::arithmetic::div_mod::lemma_small_mod((n - 1) as nat, n as nat);
        vstd::arithmetic::div_mod::lemma_mod_add_multiples_vanish(-1, n);
    } else {
        vstd::arithmetic::div_mod::lemma_small_mod((index - 1) as nat, n as nat);
    }
}

} // verus!
