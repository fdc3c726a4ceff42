//! The registry of all sessions.

use vstd::prelude::*;
use vstd::set_lib::*;
use vstd::std_specs::hash::*;
use vstd::std_specs::iter::IteratorSpec;
use std::collections::HashMap;
use crate::conservation::lemma_refused_means_illegal;
use crate::game::{is_new_game, Game};
use crate::ids::random_id;
use crate::rules::{ClientAction, Refusal};
use crate::session::{JoinError, Session, SessionSettings, SessionView};

verus! {

/// How many random identifiers are drawn for a new session.
pub const RANDOM_ID_DRAWS: usize = 16;

/// Owns every session, each under an identifier of its own.
pub struct SessionManager {
    sessions: HashMap<u128, Session>,
}

/// The registry under the name that the acceptor knows it by.
pub type SessionServer = SessionManager;

/// Where a handshake leads: which player joins which session.
#[derive(Clone, Copy, Debug, PartialEq, Eq, Structural)]
pub struct Route {
    pub player: u128,
    pub session: u128,
}

/// Why a handshake is turned down.
#[derive(Clone, Copy, Debug, PartialEq, Eq, Structural)]
pub enum Rejection {
    /// The request names no session that could be read.
    InvalidSessionId,
    /// No session goes by the identifier that the request names.
    UnknownSession,
}

impl View for SessionManager {
    type V = Map<u128, SessionView>;

    closed spec fn view(&self) -> Map<u128, SessionView> {
        self.sessions@.map_values(|s: Session| s@)
    }
}

/// Whether the registry is in order: every session is stored under the
/// identifier it goes by, and is in order itself.
pub open spec fn registry_wf(sessions: Map<u128, SessionView>) -> bool {
    &&& sessions.dom().finite()
    &&& forall|id: u128|
        sessions.contains_key(id) ==> (#[trigger] sessions[id]).id == id && sessions[id].wf()
}

/// The first of `candidates` that none of `sessions` goes by, if there is one.
pub open spec fn first_free_among(
    sessions: Map<u128, SessionView>,
    candidates: Seq<u128>,
) -> Option<u128>
    decreases candidates.len(),
{
    if candidates.len() == 0 {
        None
    } else if !sessions.contains_key(candidates.first()) {
        Some(candidates.first())
    } else {
        first_free_among(sessions, candidates.drop_first())
    }
}

/// The identifiers below `n`.
pub open spec fn ids_below(n: nat) -> Set<u128> {
    Set::new(|id: u128| id < n)
}

/// There are `n` identifiers below `n`.
proof fn lemma_ids_below(n: nat)
    requires
        n <= u128::MAX,
    ensures
        ids_below(n).finite(),
        ids_below(n).len() == n,
    decreases n,
{
    if n == 0 {
        assert(ids_below(0) =~= Set::<u128>::empty());
    } else {
        lemma_ids_below((n - 1) as nat);
        assert(ids_below(n) =~= ids_below((n - 1) as nat).insert((n - 1) as u128));
    }
}

/// Among the numbers below `n` there is one that no session goes by,
/// unless there are at least `n` sessions.
proof fn lemma_some_id_is_free(sessions: Map<u128, SessionView>, n: nat)
    requires
        sessions.dom().finite(),
        n <= u128::MAX,
        forall|id: u128| id < n ==> sessions.contains_key(id),
    ensures
        n <= sessions.dom().len(),
{
    lemma_ids_below(n);
    lemma_len_subset(ids_below(n), sessions.dom());
}

impl SessionManager {
    /// A registry without sessions.
    pub fn new() -> (registry: Self)
        ensures
            registry@ == Map::<u128, SessionView>::empty(),
            registry_wf(registry@),
    {
        let registry = SessionManager { sessions: HashMap::new() };
        proof {
            assert(registry@ =~= Map::<u128, SessionView>::empty());
        }
        registry
    }

    /// Number of sessions.
    pub fn len(&self) -> (len: usize)
        ensures
            len == self@.dom().len(),
            self@.dom().finite(),
    {
        broadcast use group_hash_axioms;

        proof {
            assert(self@.dom() =~= self.sessions@.dom());
        }
        self.sessions.len()
    }

    /// Whether a session goes by `id`.
    pub fn contains(&self, id: u128) -> (found: bool)
        ensures
            found == self@.contains_key(id),
    {
        broadcast use group_hash_axioms;

        self.sessions.contains_key(&id)
    }

    /// The session that goes by `id`.
    pub fn get(&self, id: u128) -> (found: Option<&Session>)
        ensures
            match found {
                Some(session) => self@.contains_key(id) && session@ == self@[id],
                None => !self@.contains_key(id),
            },
    {
        broadcast use group_hash_axioms;

        self.sessions.get(&id)
    }

    /// Stores `session` unless a session goes by its identifier already;
    /// tells whether it was stored.
    pub fn insert(&mut self, session: Session) -> (stored: bool)
        requires
            registry_wf(old(self)@),
            session@.wf(),
        ensures
            stored == !old(self)@.contains_key(session@.id),
            final(self)@ == if stored {
                old(self)@.insert(session@.id, session@)
            } else {
                old(self)@
            },
            registry_wf(final(self)@),
    {
        broadcast use group_hash_axioms;

        let id = session.id();
        if self.contains(id) {
            return false;
        }
        self.sessions.insert(id, session);
        proof {
            assert(self@ =~= old(self)@.insert(id, session@));
        }
        true
    }

    /// The least number that no session goes by.
    pub fn first_free_id(&self) -> (id: u128)
        ensures
            !self@.contains_key(id),
            forall|j: u128| j < id ==> self@.contains_key(j),
    {
        let mut candidate: u128 = 0;
        let count = self.len();
        loop
            invariant
                candidate <= self@.dom().len() == count,
                self@.dom().finite(),
                forall|j: u128| j < candidate ==> self@.contains_key(j),
            decreases self@.dom().len() - candidate,
        {
            if !self.contains(candidate) {
                return candidate;
            }
            proof {
                lemma_some_id_is_free(self@, (candidate + 1) as nat);
            }
            candidate += 1;
        }
    }

    /// The first of `candidates` that no session goes by; nothing exactly
    /// when every one of them is taken.
    pub fn first_not_taken(&self, candidates: &Vec<u128>) -> (id: Option<u128>)
        ensures
            id == first_free_among(self@, candidates@),
            id is None <==> forall|i: int|
                0 <= i < candidates@.len() ==> self@.contains_key(#[trigger] candidates@[i]),
            id is Some ==> !self@.contains_key(id->Some_0) && candidates@.contains(id->Some_0),
    {
        let mut i: usize = 0;
        proof {
            assert(candidates@.skip(0) =~= candidates@);
        }
        while i < candidates.len()
            invariant
                i <= candidates@.len(),
                first_free_among(self@, candidates@) == first_free_among(
                    self@,
                    candidates@.skip(i as int),
                ),
                forall|k: int| 0 <= k < i ==> self@.contains_key(#[trigger] candidates@[k]),
            decreases candidates@.len() - i,
        {
            let candidate = candidates[i];
            proof {
                assert(candidates@.skip(i as int).first() == candidate);
                assert(candidates@.skip(i as int).drop_first() =~= candidates@.skip(i + 1));
            }
            if !self.contains(candidate) {
                return Some(candidate);
            }
            i += 1;
        }
        proof {
            assert(candidates@.skip(i as int).len() == 0);
        }
        None
    }

    /// The identifier that a new session gets when the random source has
    /// given `candidates`: the first of them that no session goes by.
    /// Should every one be taken, it is the least number that is free, so
    /// that there always is an identifier.
    pub fn session_id_from(&self, candidates: &Vec<u128>) -> (id: u128)
        ensures
            !self@.contains_key(id),
            match first_free_among(self@, candidates@) {
                Some(first) => id == first,
                None => forall|j: u128| j < id ==> self@.contains_key(j),
            },
    {
        match self.first_not_taken(candidates) {
            Some(id) => id,
            None => self.first_free_id(),
        }
    }

    /// An identifier for a new session, one that no session goes by:
    /// sixteen random identifiers are drawn, and [`Self::session_id_from`]
    /// picks among them.
    pub fn new_session_id(&self) -> (id: u128)
        ensures
            !self@.contains_key(id),
    {
        let mut drawn: Vec<u128> = Vec::new();
        let mut draws: usize = 0;
        while draws < RANDOM_ID_DRAWS
            invariant
                draws <= RANDOM_ID_DRAWS,
            decreases RANDOM_ID_DRAWS - draws,
        {
            drawn.push(random_id());
            draws += 1;
        }
        self.session_id_from(&drawn)
    }

    /// Decides on a handshake before the socket is upgraded: `session` is
    /// the identifier that the request names, if one could be read, and
    /// `player` the identity of the peer. The handshake is approved exactly
    /// when a session goes by that identifier.
    pub fn resolve_handshake(&self, session: Option<u128>, player: u128) -> (decision: Result<
        Route,
        Rejection,
    >)
        ensures
            decision == match session {
                None => Err::<Route, Rejection>(Rejection::InvalidSessionId),
                Some(id) => if self@.contains_key(id) {
                    Ok::<Route, Rejection>(Route { player, session: id })
                } else {
                    Err::<Route, Rejection>(Rejection::UnknownSession)
                },
            },
    {
        match session {
            None => Err(Rejection::InvalidSessionId),
            Some(id) => if self.contains(id) {
                Ok(Route { player, session: id })
            } else {
                Err(Rejection::UnknownSession)
            },
        }
    }

    /// Opens a session for the game `game_id` under a new identifier,
    /// which is handed back. The session starts with nobody on its roster
    /// and with a game that waits for players: the canonical deck shuffled,
    /// one card face up.
    pub fn create_session(&mut self, game_id: String, settings: SessionSettings) -> (id: u128)
        requires
            registry_wf(old(self)@),
        ensures
            !old(self)@.contains_key(id),
            final(self)@ == old(self)@.insert(
                id,
                (SessionView {
                    id,
                    game_id: game_id@,
                    settings,
                    roster: Seq::empty(),
                    game: final(self)@[id].game,
                }),
            ),
            is_new_game(final(self)@[id].game, Seq::empty()),
            registry_wf(final(self)@),
    {
        let id = self.new_session_id();
        let nobody: Vec<u128> = Vec::new();
        let game = Game::create(&nobody);
        let session = Session::new(id, game_id, settings, game);
        self.insert(session);
        id
    }

    /// Closes the session that goes by `id` and tells whether there was one.
    pub fn close_session(&mut self, id: u128) -> (closed: bool)
        requires
            registry_wf(old(self)@),
        ensures
            closed == old(self)@.contains_key(id),
            final(self)@ == old(self)@.remove(id),
            registry_wf(final(self)@),
    {
        broadcast use group_hash_axioms;

        let removed = self.sessions.remove(&id);
        proof {
            assert(self@ =~= old(self)@.remove(id));
        }
        removed.is_some()
    }

    /// Binds the player `player` to the session that goes by `session` and
    /// hands back the seat they got at its table. Where there is no such
    /// session, or its roster is full, nothing changes.
    pub fn join(&mut self, session: u128, player: u128) -> (seat: Result<usize, JoinError>)
        requires
            registry_wf(old(self)@),
        ensures
            seat == if !old(self)@.contains_key(session) {
                Err::<usize, JoinError>(JoinError::NotFound)
            } else if old(self)@[session].is_full() {
                Err::<usize, JoinError>(JoinError::Full)
            } else {
                Ok::<usize, JoinError>(old(self)@[session].game.players.len() as usize)
            },
            final(self)@ == if seat is Ok {
                old(self)@.insert(session, old(self)@[session].joined(player))
            } else {
                old(self)@
            },
            registry_wf(final(self)@),
    {
        broadcast use group_hash_axioms;

        match self.sessions.remove(&session) {
            Some(mut found) => {
                let seat = found.join(player);
                self.sessions.insert(session, found);
                proof {
                    if seat is Ok {
                        assert(self@ =~= old(self)@.insert(
                            session,
                            old(self)@[session].joined(player),
                        ));
                    } else {
                        assert(self@ =~= old(self)@);
                    }
                }
                seat
            },
            None => {
                proof {
                    assert(self@ =~= old(self)@);
                }
                Err(JoinError::NotFound)
            },
        }
    }

    /// Takes the player `player` off the roster of the session that goes
    /// by `session`; tells whether there is such a session with that player
    /// on its roster. The session and its game stay for the others.
    pub fn leave(&mut self, session: u128, player: u128) -> (was_there: bool)
        requires
            registry_wf(old(self)@),
        ensures
            was_there == (old(self)@.contains_key(session) && old(self)@[session].roster.contains(
                player,
            )),
            final(self)@ == if old(self)@.contains_key(session) {
                old(self)@.insert(session, old(self)@[session].left(player))
            } else {
                old(self)@
            },
            registry_wf(final(self)@),
    {
        broadcast use group_hash_axioms;

        match self.sessions.remove(&session) {
            Some(mut found) => {
                let was_there = found.leave(player);
                self.sessions.insert(session, found);
                proof {
                    assert(self@ =~= old(self)@.insert(session, old(self)@[session].left(player)));
                }
                was_there
            },
            None => {
                proof {
                    assert(self@ =~= old(self)@);
                }
                false
            },
        }
    }

    /// Carries out one request on the game of the session that goes by
    /// `session`; tells whether the game accepted it, and why not if it
    /// did not, or nothing where there is no such session.
    pub fn try_apply(&mut self, session: u128, action: ClientAction) -> (accepted: Option<
        Result<(), Refusal>,
    >)
        requires
            registry_wf(old(self)@),
        ensures
            accepted == if old(self)@.contains_key(session) {
                Some(
                    match old(self)@[session].game.refusal(action) {
                        Some(reason) => Err::<(), Refusal>(reason),
                        None => Ok::<(), Refusal>(()),
                    },
                )
            } else {
                None
            },
            final(self)@ == if old(self)@.contains_key(session) {
                old(self)@.insert(
                    session,
                    (SessionView {
                        game: old(self)@[session].game.step(action),
                        ..old(self)@[session]
                    }),
                )
            } else {
                old(self)@
            },
            registry_wf(final(self)@),
    {
        broadcast use group_hash_axioms;

        match self.sessions.remove(&session) {
            Some(mut found) => {
                let accepted = found.try_apply(action);
                self.sessions.insert(session, found);
                proof {
                    assert(self@ =~= old(self)@.insert(
                        session,
                        (SessionView {
                            game: old(self)@[session].game.step(action),
                            ..old(self)@[session]
                        }),
                    ));
                }
                Some(accepted)
            },
            None => {
                proof {
                    assert(self@ =~= old(self)@);
                }
                None
            },
        }
    }

    /// Like [`Self::try_apply`], telling only whether the game accepted
    /// the request.
    pub fn apply(&mut self, session: u128, action: ClientAction) -> (accepted: Option<bool>)
        requires
            registry_wf(old(self)@),
        ensures
            accepted == if old(self)@.contains_key(session) {
                Some(old(self)@[session].game.allows(action))
            } else {
                None
            },
            final(self)@ == if old(self)@.contains_key(session) {
                old(self)@.insert(
                    session,
                    (SessionView {
                        game: old(self)@[session].game.step(action),
                        ..old(self)@[session]
                    }),
                )
            } else {
                old(self)@
            },
            registry_wf(final(self)@),
    {
        proof {
            if old(self)@.contains_key(session) {
                lemma_refused_means_illegal(old(self)@[session].game, action);
            }
        }
        match self.try_apply(session, action) {
            Some(accepted) => Some(accepted.is_ok()),
            None => None,
        }
    }

    /// The public sessions, each once, in no particular order.
    pub fn iter_public_sessions(&self) -> (listed: Vec<&Session>)
        requires
            registry_wf(self@),
        ensures
            forall|i: int|
                0 <= i < listed@.len() ==> {
                    &&& self@.contains_key((#[trigger] listed@[i])@.id)
                    &&& self@[listed@[i]@.id] == listed@[i]@
                    &&& listed@[i]@.settings.public
                },
            forall|id: u128|
                self@.contains_key(id) && (#[trigger] self@[id]).settings.public ==> exists|i: int|
                    0 <= i < listed@.len() && (#[trigger] listed@[i])@.id == id,
            forall|i: int, j: int|
                0 <= i < j < listed@.len() ==> (#[trigger] listed@[i])@.id != (
                #[trigger] listed@[j])@.id,
    {
        broadcast use group_hash_axioms;

        let mut listed: Vec<&Session> = Vec::new();
        let ghost mut places: Seq<int> = Seq::empty();
        for id in keys: self.sessions.keys()
            invariant
                registry_wf(self@),
                keys.seq() == spec_keys_iter(&self.sessions).remaining(),
                places.len() == listed@.len(),
                forall|i: int|
                    0 <= i < listed@.len() ==> {
                        &&& 0 <= #[trigger] places[i] < keys.index()
                        &&& listed@[i]@.id == *keys.seq()[places[i]]
                        &&& self@.contains_key(listed@[i]@.id)
                        &&& self@[listed@[i]@.id] == listed@[i]@
                        &&& listed@[i]@.settings.public
                    },
                forall|i: int, j: int|
                    0 <= i < j < listed@.len() ==> #[trigger] places[i] < #[trigger] places[j],
                forall|k: int|
                    0 <= k < keys.index() && self@.contains_key(*(#[trigger] keys.seq()[k]))
                        && self@[*keys.seq()[k]].settings.public ==> exists|i: int|
                        0 <= i < listed@.len() && #[trigger] places[i] == k,
        {
            proof {
                assert(self@.dom() =~= self.sessions@.dom());
                assert(keys.seq().unref().to_set().contains(keys.seq().unref()[keys.index()]));
            }
            match self.sessions.get(id) {
                Some(session) => {
                    if session.settings().public {
                        let ghost before = places;
                        listed.push(session);
                        proof {
                            places = places.push(keys.index());
                            assert forall|k: int|
                                0 <= k < keys.index() + 1 && self@.contains_key(
                                    *(#[trigger] keys.seq()[k]),
                                ) && self@[*keys.seq()[k]].settings.public implies exists|i: int|
                                0 <= i < listed@.len() && #[trigger] places[i] == k by {
                                if k < keys.index() {
                                    let i = choose|i: int|
                                        0 <= i < before.len() && #[trigger] before[i] == k;
                                    assert(places[i] == k);
                                } else {
                                    assert(places[before.len() as int] == k);
                                }
                            }
                        }
                    }
                },
                None => {},
            }
        }
        proof {
            let all = spec_keys_iter(&self.sessions).remaining();
            assert(self@.dom() =~= self.sessions@.dom());
            assert forall|i: int| 0 <= i < listed@.len() implies {
                &&& self@.contains_key((#[trigger] listed@[i])@.id)
                &&& self@[listed@[i]@.id] == listed@[i]@
                &&& listed@[i]@.settings.public
            } by {
                assert(0 <= places[i]);
            }
            assert forall|i: int, j: int| 0 <= i < j < listed@.len() implies (
            #[trigger] listed@[i])@.id != (#[trigger] listed@[j])@.id by {
                assert(places[i] < places[j]);
                assert(all[places[i]] != all[places[j]]);
            }
            assert forall|id: u128|
                self@.contains_key(id) && (#[trigger] self@[id]).settings.public implies exists|
                i: int,
            |
                0 <= i < listed@.len() && (#[trigger] listed@[i])@.id == id by {
                assert(all.unref().to_set().contains(id));
                let k = choose|k: int| 0 <= k < all.unref().len() && all.unref()[k] == id;
                assert(*all[k] == id);
                let i = choose|i: int| 0 <= i < listed@.len() && #[trigger] places[i] == k;
                assert(listed@[i]@.id == id);
            }
        }
        listed
    }
}

} // verus!
