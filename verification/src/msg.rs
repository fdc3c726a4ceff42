//! What is told about a game: to everybody, and to each player alone.

use vstd::prelude::*;
use vstd::std_specs::hash::*;
use std::collections::HashMap;
use crate::card::Card;
use crate::game::Game;
use crate::player::PlayerView;
use crate::rules::GameView;

verus! {

/// What every player may know of a game.
#[derive(Debug, Clone, PartialEq, Eq)]
pub struct GameState {
    /// The cards played so far, the one that lies face up last.
    pub discard_pile: Vec<Card>,
    /// Number of cards left to draw.
    pub draw_pile: usize,
    /// For every player the number of cards they hold.
    pub player_hands: HashMap<u128, usize>,
    /// The player whose turn it is, if anybody sits at the table.
    pub current_player: Option<u128>,
    pub dir_forward: bool,
}

/// What a player alone may know: the cards they hold.
#[derive(Debug, Clone, PartialEq, Eq)]
pub struct PlayerState {
    pub hand: Vec<Card>,
}

/// The number of cards in the hand of each of `players`, by who they are.
/// Of seats that share an identifier the last one counts.
pub open spec fn hand_sizes(players: Seq<PlayerView>) -> Map<u128, usize>
    decreases players.len(),
{
    if players.len() == 0 {
        Map::empty()
    } else {
        hand_sizes(players.drop_last()).insert(
            players.last().id,
            players.last().hand.len() as usize,
        )
    }
}

/// Whether `state` tells of `game` what everybody may know, and tells it right.
pub open spec fn tells_of(state: GameState, game: GameView) -> bool {
    &&& state.discard_pile@ == game.discard_pile
    &&& state.draw_pile == game.draw_pile.len()
    &&& state.player_hands@ == hand_sizes(game.players)
    &&& state.current_player == if game.players.len() > 0 {
        Some(game.players[game.current].id)
    } else {
        None
    }
    &&& state.dir_forward == game.forward
}

fn copy_of(cards: &Vec<Card>) -> (copy: Vec<Card>)
    ensures
        copy@ == cards@,
{
    let mut copy: Vec<Card> = Vec::new();
    let mut i: usize = 0;
    while i < cards.len()
        invariant
            i <= cards@.len(),
            copy@ == cards@.take(i as int),
        decreases cards@.len() - i,
    {
        copy.push(cards[i]);
        proof {
            assert(copy@ =~= cards@.take(i + 1));
        }
        i += 1;
    }
    proof {
        assert(cards@.take(i as int) =~= cards@);
    }
    copy
}

impl Game {
    /// What every player may know of the game as it stands.
    pub fn public_state(&self) -> (state: GameState)
        requires
            self@.wf(),
        ensures
            tells_of(state, self@),
    {
        broadcast use group_hash_axioms;

        let mut player_hands: HashMap<u128, usize> = HashMap::new();
        let count = self.player_count();
        let mut seat: usize = 0;
        proof {
            assert(self@.players.take(0) =~= Seq::<PlayerView>::empty());
        }
        while seat < count
            invariant
                seat <= count == self@.players.len(),
                player_hands@ == hand_sizes(self@.players.take(seat as int)),
            decreases count - seat,
        {
            proof {
                assert(self@.players.take(seat + 1).drop_last() =~= self@.players.take(
                    seat as int,
                ));
                assert(self@.players.take(seat + 1).last() == self@.players[seat as int]);
            }
            match self.player(seat) {
                Some(player) => {
                    player_hands.insert(player.id(), player.hand_len());
                },
                None => {},
            }
            seat += 1;
        }
        proof {
            assert(self@.players.take(seat as int) =~= self@.players);
        }
        let current_player = match self.player(self.current_player_index()) {
            Some(player) => Some(player.id()),
            None => None,
        };
        GameState {
            discard_pile: copy_of(self.discard_pile()),
            draw_pile: self.draw_pile_len(),
            player_hands,
            current_player,
            dir_forward: self.is_forward(),
        }
    }

    /// What the player at `seat` alone may know, if the table has that
    /// many seats.
    pub fn player_state(&self, seat: usize) -> (state: Option<PlayerState>)
        ensures
            match state {
                Some(state) => seat < self@.players.len() && state.hand@
                    == self@.players[seat as int].hand,
                None => seat >= self@.players.len(),
            },
    {
        match self.player(seat) {
            Some(player) => Some(PlayerState { hand: copy_of(player.hand()) }),
            None => None,
        }
    }
}

} // verus!
