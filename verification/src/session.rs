//! Sessions and the registry that owns them.

use vstd::prelude::*;
use crate::game::Game;
use crate::player::PlayerView;
use crate::rules::{ClientAction, GameView, Refusal};

verus! {

/// How a session wants to be found and how many players it takes.
#[derive(Clone, Copy, Debug, PartialEq, Eq, Structural)]
pub struct SessionSettings {
    pub public: bool,
    pub max_players: usize,
}

/// One game that players can join.
pub struct Session {
    pub id: u128,
    pub game_id: String,
    pub settings: SessionSettings,
    roster: Vec<u128>,
    game: Game,
}

/// Why a player could not join a session.
#[derive(Clone, Copy, Debug, PartialEq, Eq, Structural)]
pub enum JoinError {
    /// No session goes by that identifier.
    NotFound,
    /// The session has as many players as its settings allow.
    Full,
}

/// `roster` without the first entry that equals `player`, if there is one.
pub open spec fn without_first(roster: Seq<u128>, player: u128) -> Seq<u128>
    decreases roster.len(),
{
    if roster.len() == 0 {
        roster
    } else if roster.first() == player {
        roster.drop_first()
    } else {
        seq![roster.first()] + without_first(roster.drop_first(), player)
    }
}

/// Taking out the entry at the first index that holds `player` is taking
/// out the first entry that equals `player`.
proof fn lemma_without_first(roster: Seq<u128>, player: u128, i: int)
    requires
        0 <= i < roster.len(),
        roster[i] == player,
        forall|k: int| 0 <= k < i ==> roster[k] != player,
    ensures
        without_first(roster, player) == roster.remove(i),
    decreases roster.len(),
{
    if i == 0 {
        assert(roster.remove(0) =~= roster.drop_first());
    } else {
        let rest = roster.drop_first();
        assert forall|k: int| 0 <= k < i - 1 implies rest[k] != player by {
            assert(rest[k] == roster[k + 1]);
        }
        lemma_without_first(rest, player, i - 1);
        assert(roster.remove(i) =~= seq![roster.first()] + rest.remove(i - 1));
    }
}

/// A roster that does not hold `player` is left as it is.
proof fn lemma_without_absent(roster: Seq<u128>, player: u128)
    requires
        forall|k: int| 0 <= k < roster.len() ==> roster[k] != player,
    ensures
        without_first(roster, player) == roster,
    decreases roster.len(),
{
    if roster.len() > 0 {
        let rest = roster.drop_first();
        assert forall|k: int| 0 <= k < rest.len() implies rest[k] != player by {
            assert(rest[k] == roster[k + 1]);
        }
        lemma_without_absent(rest, player);
        assert(roster =~= seq![roster.first()] + rest);
    }
}

/// A session as the registry's rules see it.
pub struct SessionView {
    pub id: u128,
    pub game_id: Seq<char>,
    pub settings: SessionSettings,
    pub roster: Seq<u128>,
    pub game: GameView,
}

impl View for Session {
    type V = SessionView;

    closed spec fn view(&self) -> SessionView {
        SessionView {
            id: self.id,
            game_id: self.game_id@,
            settings: self.settings,
            roster: self.roster@,
            game: self.game@,
        }
    }
}

impl SessionView {
    /// The session's game is in order and the roster within its limit.
    pub open spec fn wf(self) -> bool {
        self.game.wf() && self.roster.len() <= self.settings.max_players
    }

    /// Whether the roster has reached the limit of the settings.
    pub open spec fn is_full(self) -> bool {
        self.roster.len() >= self.settings.max_players
    }

    /// The session after `player` has joined: last on the roster, and
    /// seated at the table with no cards.
    pub open spec fn joined(self, player: u128) -> SessionView {
        SessionView {
            roster: self.roster.push(player),
            game: GameView {
                players: self.game.players.push(PlayerView { id: player, hand: Seq::empty() }),
                ..self.game
            },
            ..self
        }
    }

    /// The session after `player` has left: their first entry on the
    /// roster is gone. The game keeps their seat.
    pub open spec fn left(self, player: u128) -> SessionView {
        SessionView { roster: without_first(self.roster, player), ..self }
    }
}

impl Session {
    /// A session with nobody on the roster yet.
    pub fn new(id: u128, game_id: String, settings: SessionSettings, game: Game) -> (session: Self)
        requires
            game@.wf(),
        ensures
            session@ == (SessionView {
                id,
                game_id: game_id@,
                settings,
                roster: Seq::empty(),
                game: game@,
            }),
            session@.wf(),
    {
        Session { id, game_id, settings, roster: Vec::new(), game }
    }

    /// The identifier the session goes by.
    pub fn id(&self) -> (id: u128)
        ensures
            id == self@.id,
    {
        self.id
    }

    /// The game that is played in the session.
    pub fn game_id(&self) -> (game_id: &String)
        ensures
            game_id@ == self@.game_id,
    {
        &self.game_id
    }

    /// The session's settings.
    pub fn settings(&self) -> (settings: SessionSettings)
        ensures
            settings == self@.settings,
    {
        self.settings
    }

    /// The players on the roster, in the order they joined.
    pub fn roster(&self) -> (roster: &Vec<u128>)
        ensures
            roster@ == self@.roster,
    {
        &self.roster
    }

    /// The session's game.
    pub fn game(&self) -> (game: &Game)
        ensures
            game@ == self@.game,
    {
        &self.game
    }

    /// Carries out one request on the session's game. An illegal request
    /// is refused, with the reason, and changes nothing.
    pub fn try_apply(&mut self, action: ClientAction) -> (accepted: Result<(), Refusal>)
        requires
            old(self)@.wf(),
        ensures
            accepted == match old(self)@.game.refusal(action) {
                Some(reason) => Err::<(), Refusal>(reason),
                None => Ok::<(), Refusal>(()),
            },
            accepted is Ok <==> old(self)@.game.allows(action),
            final(self)@ == (SessionView { game: old(self)@.game.step(action), ..old(self)@ }),
            final(self)@.wf(),
    {
        self.game.try_apply(action)
    }

    /// Like [`Session::try_apply`], telling only whether the request was accepted.
    pub fn apply(&mut self, action: ClientAction) -> (accepted: bool)
        requires
            old(self)@.wf(),
        ensures
            accepted == old(self)@.game.allows(action),
            final(self)@ == (SessionView { game: old(self)@.game.step(action), ..old(self)@ }),
            final(self)@.wf(),
    {
        self.try_apply(action).is_ok()
    }

    /// Binds `player` to the session: last on the roster and seated at the
    /// table, where the seat they got is handed back. A session whose
    /// roster has reached the limit of its settings takes nobody.
    pub fn join(&mut self, player: u128) -> (seat: Result<usize, JoinError>)
        requires
            old(self)@.wf(),
        ensures
            seat == if old(self)@.is_full() {
                Err::<usize, JoinError>(JoinError::Full)
            } else {
                Ok::<usize, JoinError>(old(self)@.game.players.len() as usize)
            },
            final(self)@ == if old(self)@.is_full() {
                old(self)@
            } else {
                old(self)@.joined(player)
            },
            final(self)@.wf(),
    {
        if self.roster.len() >= self.settings.max_players {
            return Err(JoinError::Full);
        }
        let seat = self.game.player_count();
        self.roster.push(player);
        self.game.add_player(player);
        Ok(seat)
    }

    /// Takes `player` off the roster and tells whether they were on it.
    /// The game goes on with the seats it has.
    pub fn leave(&mut self, player: u128) -> (was_there: bool)
        requires
            old(self)@.wf(),
        ensures
            was_there == old(self)@.roster.contains(player),
            final(self)@ == old(self)@.left(player),
            final(self)@.wf(),
    {
        let mut i: usize = 0;
        while i < self.roster.len()
            invariant
                i <= self.roster@.len(),
                *self == *old(self),
                self@.wf(),
                forall|k: int| 0 <= k < i ==> self.roster@[k] != player,
            decreases self.roster@.len() - i,
        {
            if self.roster[i] == player {
                proof {
                    lemma_without_first(self.roster@, player, i as int);
                }
                self.roster.remove(i);
                return true;
            }
            i += 1;
        }
        proof {
            lemma_without_absent(self.roster@, player);
        }
        false
    }
}

} // verus!
