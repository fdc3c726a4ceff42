use hyo::game::Game;
use hyo::ids::is_random;
use hyo::registry::{Rejection, Route, SessionManager};
use hyo::rules::{ClientAction, Refusal, TurnState};
use hyo::session::{JoinError, Session, SessionSettings};

fn settings(public: bool, max_players: usize) -> SessionSettings {
    SessionSettings { public, max_players }
}

#[test]
fn new_registry_is_empty() {
    let registry = SessionManager::new();
    assert_eq!(registry.len(), 0);
    assert!(!registry.contains(0));
    assert!(registry.get(0).is_none());
    assert!(registry.iter_public_sessions().is_empty());
}

#[test]
fn created_session_is_stored_under_a_new_id() {
    let mut registry = SessionManager::new();
    let first = registry.create_session(String::from("uno"), settings(true, 4));
    let second = registry.create_session(String::from("uno"), settings(false, 2));

    assert_ne!(first, second);
    assert_eq!(registry.len(), 2);
    assert!(registry.contains(first));
    assert!(registry.contains(second));

    let session = registry.get(first).unwrap();
    assert_eq!(session.id, first);
    assert_eq!(session.game_id, "uno");
    assert_eq!(session.settings, settings(true, 4));
    assert!(session.roster().is_empty());
    assert_eq!(session.game().player_count(), 0);
    assert_eq!(session.game().draw_pile_len(), 107);
    assert_eq!(session.game().discard_pile().len(), 1);
}

#[test]
fn session_ids_are_random_identifiers() {
    let mut registry = SessionManager::new();
    for _ in 0..20 {
        let id = registry.create_session(String::from("uno"), settings(true, 4));
        assert!(is_random(id));
        // version four, standard variant
        assert_eq!((id >> 76) & 0xf, 4);
        assert_eq!((id >> 62) & 0x3, 2);
    }
    assert_eq!(registry.len(), 20);
}

#[test]
fn first_free_id_is_the_least_unused_number() {
    let mut registry = SessionManager::new();
    assert_eq!(registry.first_free_id(), 0);
    for id in [0u128, 1, 2, 4] {
        let game = Game::create(&Vec::new());
        assert!(registry.insert(Session::new(id, String::from("uno"), settings(true, 2), game)));
    }
    assert_eq!(registry.first_free_id(), 3);
    assert!(!registry.contains(registry.new_session_id()));
}

#[test]
fn insert_refuses_an_id_that_is_taken() {
    let mut registry = SessionManager::new();
    let first = Session::new(7, String::from("uno"), settings(true, 2), Game::create(&Vec::new()));
    let again = Session::new(7, String::from("other"), settings(false, 9), Game::create(&Vec::new()));
    assert!(registry.insert(first));
    assert!(!registry.insert(again));
    assert_eq!(registry.len(), 1);
    assert_eq!(registry.get(7).unwrap().game_id, "uno");
}

#[test]
fn join_binds_player_to_roster_and_game() {
    let mut registry = SessionManager::new();
    let id = registry.create_session(String::from("uno"), settings(true, 2));

    assert_eq!(registry.join(id, 100), Ok(0));
    assert_eq!(registry.join(id, 200), Ok(1));

    let session = registry.get(id).unwrap();
    assert_eq!(session.roster(), &vec![100, 200]);
    assert_eq!(session.game().player_count(), 2);
    assert_eq!(session.game().player(0).unwrap().id, 100);
    assert_eq!(session.game().player(1).unwrap().id, 200);
    assert_eq!(session.game().player(1).unwrap().hand_len(), 0);
}

#[test]
fn join_fails_when_session_is_missing_or_full() {
    let mut registry = SessionManager::new();
    let id = registry.create_session(String::from("uno"), settings(true, 1));
    let missing = if id == 5 { 6 } else { 5 };

    assert_eq!(registry.join(missing, 100), Err(JoinError::NotFound));
    assert_eq!(registry.join(id, 100), Ok(0));
    assert_eq!(registry.join(id, 200), Err(JoinError::Full));

    let session = registry.get(id).unwrap();
    assert_eq!(session.roster(), &vec![100]);
    assert_eq!(session.game().player_count(), 1);
    assert_eq!(registry.len(), 1);
}

#[test]
fn session_that_takes_nobody_is_always_full() {
    let mut registry = SessionManager::new();
    let id = registry.create_session(String::from("uno"), settings(true, 0));
    assert_eq!(registry.join(id, 1), Err(JoinError::Full));
}

#[test]
fn leave_removes_player_from_roster_only() {
    let mut registry = SessionManager::new();
    let id = registry.create_session(String::from("uno"), settings(true, 3));
    registry.join(id, 100).unwrap();
    registry.join(id, 200).unwrap();
    registry.join(id, 300).unwrap();

    assert!(registry.leave(id, 200));
    assert!(!registry.leave(id, 200));
    assert!(!registry.leave(id, 999));
    assert!(!registry.leave(if id == 1 { 2 } else { 1 }, 100));

    let session = registry.get(id).unwrap();
    assert_eq!(session.roster(), &vec![100, 300]);
    // the game keeps the seat
    assert_eq!(session.game().player_count(), 3);
    assert_eq!(registry.len(), 1);

    // the place is free again
    assert_eq!(registry.join(id, 400), Ok(3));
}

#[test]
fn only_public_sessions_are_listed() {
    let mut registry = SessionManager::new();
    let a = registry.create_session(String::from("uno"), settings(true, 4));
    let _b = registry.create_session(String::from("hidden"), settings(false, 4));
    let c = registry.create_session(String::from("skat"), settings(true, 3));

    let mut listed: Vec<(u128, String)> = registry
        .iter_public_sessions()
        .iter()
        .map(|session| (session.id, session.game_id.clone()))
        .collect();
    listed.sort();
    let mut expected = vec![(a, String::from("uno")), (c, String::from("skat"))];
    expected.sort();
    assert_eq!(listed, expected);
    assert!(registry
        .iter_public_sessions()
        .iter()
        .all(|session| session.settings.public));
}

#[test]
fn closing_a_session_removes_it() {
    let mut registry = SessionManager::new();
    let a = registry.create_session(String::from("uno"), settings(true, 4));
    let b = registry.create_session(String::from("uno"), settings(true, 4));

    assert!(registry.close_session(a));
    assert!(!registry.close_session(a));
    assert!(!registry.contains(a));
    assert!(registry.contains(b));
    assert_eq!(registry.len(), 1);
    assert_eq!(registry.join(a, 1), Err(JoinError::NotFound));
}

#[test]
fn actions_reach_the_game_of_the_session() {
    let mut registry = SessionManager::new();
    let id = registry.create_session(String::from("uno"), settings(true, 2));
    let other = registry.create_session(String::from("uno"), settings(true, 2));
    registry.join(id, 100).unwrap();
    registry.join(id, 200).unwrap();

    assert_eq!(registry.apply(id, ClientAction::PlayCard(0)), Some(false));
    assert_eq!(registry.apply(id, ClientAction::ResolveDrawnCard(true)), Some(false));
    assert_eq!(registry.apply(id, ClientAction::DrawCard), Some(true));

    let game = registry.get(id).unwrap().game();
    assert_eq!(game.draw_pile_len(), 106);
    assert_eq!(game.player(0).unwrap().hand_len(), 1);
    match game.turn_state() {
        TurnState::PlayDrawn(index) => {
            assert_eq!(index, 0);
            assert_eq!(game.current_player_index(), 0);
        }
        TurnState::PlayOrDraw => assert_eq!(game.current_player_index(), 1),
    }

    // the other session is not touched
    assert_eq!(registry.get(other).unwrap().game().draw_pile_len(), 107);

    let mut missing = 0;
    while registry.contains(missing) {
        missing += 1;
    }
    assert_eq!(registry.apply(missing, ClientAction::DrawCard), None);
}

fn registry_with(ids: &[u128]) -> SessionManager {
    let mut registry = SessionManager::new();
    for id in ids {
        let game = Game::create(&Vec::new());
        assert!(registry.insert(Session::new(*id, String::from("uno"), settings(true, 2), game)));
    }
    registry
}

#[test]
fn first_drawn_id_that_is_free_is_taken() {
    let registry = registry_with(&[0, 1, 7, 9]);

    assert_eq!(registry.first_not_taken(&vec![7, 9, 5, 3]), Some(5));
    assert_eq!(registry.first_not_taken(&vec![4, 5]), Some(4));
    assert_eq!(registry.first_not_taken(&vec![7, 9, 1]), None);
    assert_eq!(registry.first_not_taken(&Vec::new()), None);

    assert_eq!(registry.session_id_from(&vec![7, 9, 5, 3]), 5);
    assert_eq!(registry.session_id_from(&vec![4, 5]), 4);
    // every draw collides: the least free number
    assert_eq!(registry.session_id_from(&vec![7, 9, 1]), 2);
    assert_eq!(registry.session_id_from(&Vec::new()), 2);
    assert_eq!(registry.len(), 4);
}

#[test]
fn handshake_is_approved_for_a_known_session_only() {
    let registry = registry_with(&[3]);

    assert_eq!(
        registry.resolve_handshake(Some(3), 42),
        Ok(Route { player: 42, session: 3 })
    );
    assert_eq!(registry.resolve_handshake(Some(4), 42), Err(Rejection::UnknownSession));
    assert_eq!(registry.resolve_handshake(None, 42), Err(Rejection::InvalidSessionId));
    assert_eq!(
        SessionManager::new().resolve_handshake(Some(3), 42),
        Err(Rejection::UnknownSession)
    );
}

#[test]
fn refused_actions_come_with_their_reason() {
    let mut registry = registry_with(&[3]);
    assert_eq!(
        registry.try_apply(3, ClientAction::DrawCard),
        Some(Err(Refusal::NobodySeated))
    );
    registry.join(3, 100).unwrap();
    assert_eq!(
        registry.try_apply(3, ClientAction::PlayCard(0)),
        Some(Err(Refusal::NoSuchCard))
    );
    assert_eq!(
        registry.try_apply(3, ClientAction::ResolveDrawnCard(true)),
        Some(Err(Refusal::WrongTurnState))
    );
    assert_eq!(registry.try_apply(3, ClientAction::DrawCard), Some(Ok(())));
    assert_eq!(registry.try_apply(4, ClientAction::DrawCard), None);
    assert_eq!(registry.get(3).unwrap().game().draw_pile_len(), 106);
}
