use hyo::card::{Card, Color};
use hyo::game::Game;
use hyo::player::Player;
use hyo::rules::{ClientAction, Refusal, TurnState};
use std::collections::HashMap;

fn player_with(id: u128, cards: &[Card]) -> Player {
    let mut player = Player::empty(id);
    for card in cards {
        player.add_card(*card);
    }
    player
}

fn two_player_game(draw_pile: Vec<Card>, first: &[Card], second: &[Card]) -> Game {
    Game::from_parts(
        draw_pile,
        vec![Card::Numeric(Color::Red, 5)],
        vec![player_with(1, first), player_with(2, second)],
        0,
        true,
        TurnState::PlayOrDraw,
    )
    .unwrap()
}

#[test]
fn playing_a_matching_card_passes_the_turn() {
    let mut game = two_player_game(
        vec![Card::Numeric(Color::Blue, 3)],
        &[
            Card::Numeric(Color::Green, 1),
            Card::Skip(Color::Yellow),
            Card::Numeric(Color::Red, 7),
        ],
        &[Card::Numeric(Color::Green, 9)],
    );

    assert!(game.play_card(2));
    assert_eq!(game.current_card(), Card::Numeric(Color::Red, 7));
    assert_eq!(game.current_player_index(), 1);
    assert_eq!(game.turn_state(), TurnState::PlayOrDraw);
    assert_eq!(game.discard_pile().len(), 2);
    assert_eq!(game.player(0).unwrap().hand_len(), 2);

    // the second player draws a card that cannot be played
    assert!(game.draw_card());
    assert_eq!(game.current_player_index(), 0);
    assert_eq!(game.turn_state(), TurnState::PlayOrDraw);
    assert_eq!(game.draw_pile_len(), 0);
    assert_eq!(
        game.player(1).unwrap().hand(),
        &vec![Card::Numeric(Color::Green, 9), Card::Numeric(Color::Blue, 3)]
    );
}

#[test]
fn drawn_card_of_matching_color_may_be_kept() {
    let mut game = two_player_game(
        vec![Card::Numeric(Color::Red, 1)],
        &[Card::Numeric(Color::Green, 1)],
        &[Card::Numeric(Color::Green, 9)],
    );

    assert_eq!(game.try_draw_card(), Ok(Card::Numeric(Color::Red, 1)));
    assert_eq!(game.turn_state(), TurnState::PlayDrawn(1));
    assert_eq!(game.current_player_index(), 0);

    assert!(game.play_drawn_card(false));
    assert_eq!(game.current_player_index(), 1);
    assert_eq!(game.turn_state(), TurnState::PlayOrDraw);
    assert_eq!(game.discard_pile(), &vec![Card::Numeric(Color::Red, 5)]);
    assert_eq!(
        game.player(0).unwrap().hand(),
        &vec![Card::Numeric(Color::Green, 1), Card::Numeric(Color::Red, 1)]
    );
}

#[test]
fn drawn_card_may_be_played_at_once() {
    let mut game = two_player_game(
        vec![Card::Wild(None)],
        &[Card::Numeric(Color::Green, 1)],
        &[],
    );

    assert!(game.apply(ClientAction::DrawCard));
    assert_eq!(game.turn_state(), TurnState::PlayDrawn(1));
    assert!(game.apply(ClientAction::ResolveDrawnCard(true)));
    assert_eq!(game.current_card(), Card::Wild(None));
    assert_eq!(game.discard_pile().len(), 2);
    assert_eq!(game.player(0).unwrap().hand(), &vec![Card::Numeric(Color::Green, 1)]);
    assert_eq!(game.current_player_index(), 1);
}

#[test]
fn pending_draw_blocks_play_and_draw() {
    let mut game = two_player_game(
        vec![Card::Numeric(Color::Red, 2), Card::Numeric(Color::Red, 1)],
        &[Card::Numeric(Color::Red, 9)],
        &[],
    );
    assert!(game.draw_card());
    assert_eq!(game.turn_state(), TurnState::PlayDrawn(1));

    assert!(!game.play_card(0));
    assert!(!game.draw_card());
    assert_eq!(game.try_draw_card(), Err(Refusal::WrongTurnState));
    assert_eq!(game.turn_state(), TurnState::PlayDrawn(1));
    assert_eq!(game.current_player_index(), 0);
    assert_eq!(game.draw_pile_len(), 1);
    assert_eq!(game.player(0).unwrap().hand_len(), 2);
    assert_eq!(game.discard_pile().len(), 1);
}

#[test]
fn illegal_plays_change_nothing() {
    let mut game = two_player_game(
        vec![],
        &[Card::Numeric(Color::Green, 1), Card::Skip(Color::Yellow)],
        &[],
    );

    // no such index
    assert!(!game.play_card(2));
    // neither colour nor kind of the red five
    assert!(!game.play_card(0));
    assert!(!game.play_card(1));
    // no drawn card awaits a decision
    assert!(!game.play_drawn_card(true));
    assert!(!game.play_drawn_card(false));

    assert_eq!(
        game.player(0).unwrap().hand(),
        &vec![Card::Numeric(Color::Green, 1), Card::Skip(Color::Yellow)]
    );
    assert_eq!(game.current_player_index(), 0);
    assert_eq!(game.discard_pile().len(), 1);
}

#[test]
fn empty_draw_pile_is_reported_as_exhausted() {
    let mut game = two_player_game(vec![], &[Card::Numeric(Color::Green, 1)], &[]);

    assert_eq!(game.try_draw_card(), Err(Refusal::Exhausted));
    assert!(!game.draw_card());
    assert_eq!(game.current_player_index(), 0);
    assert_eq!(game.player(0).unwrap().hand_len(), 1);
}

#[test]
fn turn_goes_round_backwards() {
    let players = vec![
        player_with(1, &[Card::Numeric(Color::Red, 1)]),
        player_with(2, &[Card::Numeric(Color::Red, 2)]),
        player_with(3, &[Card::Numeric(Color::Red, 3)]),
    ];
    let mut game = Game::from_parts(
        vec![],
        vec![Card::Numeric(Color::Red, 5)],
        players,
        0,
        false,
        TurnState::PlayOrDraw,
    )
    .unwrap();

    assert!(!game.is_forward());
    assert!(game.play_card(0));
    assert_eq!(game.current_player_index(), 2);
    assert!(game.play_card(0));
    assert_eq!(game.current_player_index(), 1);
    assert!(game.play_card(0));
    assert_eq!(game.current_player_index(), 0);
}

fn card_count(game: &Game) -> usize {
    let mut held = 0;
    for seat in 0..game.player_count() {
        held += game.player(seat).unwrap().hand_len();
    }
    game.draw_pile_len() + game.discard_pile().len() + held
}

#[test]
fn cards_are_conserved_and_the_turn_stays_at_the_table() {
    let mut game = Game::create(&vec![1, 2, 3]);
    assert_eq!(card_count(&game), 108);

    let mut step = 0;
    while game.draw_pile_len() > 0 && step < 2000 {
        let seat = game.current_player_index();
        let before = (
            game.draw_pile_len(),
            game.discard_pile().len(),
            game.player(seat).unwrap().hand_len(),
        );
        // try, in turn: a legal play, an illegal index, a decision, a draw
        let action = match step % 4 {
            0 => ClientAction::PlayCard(step % 9),
            1 => ClientAction::PlayCard(1000),
            2 => ClientAction::ResolveDrawnCard(step % 8 == 2),
            _ => ClientAction::DrawCard,
        };
        let accepted = game.apply(action);
        let after = (
            game.draw_pile_len(),
            game.discard_pile().len(),
            game.player(seat).unwrap().hand_len(),
        );

        assert_eq!(card_count(&game), 108);
        assert!(game.current_player_index() < 3);
        if !accepted {
            assert_eq!(after, before);
            assert_eq!(game.current_player_index(), seat);
        } else {
            match action {
                ClientAction::PlayCard(_) | ClientAction::ResolveDrawnCard(true) => {
                    assert_eq!(after, (before.0, before.1 + 1, before.2 - 1));
                }
                ClientAction::ResolveDrawnCard(false) => assert_eq!(after, before),
                ClientAction::DrawCard => {
                    assert_eq!(after, (before.0 - 1, before.1, before.2 + 1));
                }
            }
            if game.turn_state() == TurnState::PlayOrDraw {
                assert_eq!(game.current_player_index(), (seat + 1) % 3);
            } else {
                assert_eq!(game.current_player_index(), seat);
            }
        }
        step += 1;
    }
    assert_eq!(game.draw_pile_len(), 0);
}

#[test]
fn public_state_hides_the_hands() {
    let mut game = two_player_game(
        vec![Card::Numeric(Color::Blue, 3), Card::Numeric(Color::Blue, 4)],
        &[Card::Numeric(Color::Green, 1), Card::Numeric(Color::Red, 7)],
        &[Card::Numeric(Color::Green, 9)],
    );
    let state = game.public_state();
    assert_eq!(state.discard_pile, vec![Card::Numeric(Color::Red, 5)]);
    assert_eq!(state.draw_pile, 2);
    assert_eq!(state.player_hands, HashMap::from([(1, 2), (2, 1)]));
    assert_eq!(state.current_player, Some(1));
    assert!(state.dir_forward);

    assert!(game.play_card(1));
    let state = game.public_state();
    assert_eq!(
        state.discard_pile,
        vec![Card::Numeric(Color::Red, 5), Card::Numeric(Color::Red, 7)]
    );
    assert_eq!(state.player_hands, HashMap::from([(1, 1), (2, 1)]));
    assert_eq!(state.current_player, Some(2));
}

#[test]
fn player_state_shows_the_own_hand() {
    let game = two_player_game(
        vec![],
        &[Card::Numeric(Color::Green, 1), Card::Numeric(Color::Red, 7)],
        &[],
    );
    assert_eq!(
        game.player_state(0).unwrap().hand,
        vec![Card::Numeric(Color::Green, 1), Card::Numeric(Color::Red, 7)]
    );
    assert_eq!(game.player_state(1).unwrap().hand, Vec::new());
    assert!(game.player_state(2).is_none());
}

#[test]
fn public_state_of_a_game_without_players() {
    let game = Game::create(&Vec::new());
    let state = game.public_state();
    assert_eq!(state.discard_pile.len(), 1);
    assert_eq!(state.draw_pile, 107);
    assert!(state.player_hands.is_empty());
    assert_eq!(state.current_player, None);
}

#[test]
fn every_refusal_has_its_reason() {
    let mut game = two_player_game(
        vec![Card::Numeric(Color::Red, 1)],
        &[Card::Numeric(Color::Green, 1), Card::Skip(Color::Yellow)],
        &[],
    );
    assert_eq!(game.try_play_card(2), Err(Refusal::NoSuchCard));
    assert_eq!(game.try_play_card(0), Err(Refusal::NotPlayable));
    assert_eq!(game.try_play_drawn_card(true), Err(Refusal::WrongTurnState));
    assert_eq!(
        game.try_apply(ClientAction::ResolveDrawnCard(false)),
        Err(Refusal::WrongTurnState)
    );
    assert_eq!(game.try_apply(ClientAction::PlayCard(7)), Err(Refusal::NoSuchCard));
    assert_eq!(game.player(0).unwrap().hand_len(), 2);
    assert_eq!(game.current_player_index(), 0);

    // the drawn red one may follow the red five
    assert_eq!(game.try_apply(ClientAction::DrawCard), Ok(()));
    assert_eq!(game.try_apply(ClientAction::DrawCard), Err(Refusal::WrongTurnState));
    assert_eq!(game.try_apply(ClientAction::PlayCard(0)), Err(Refusal::WrongTurnState));
    assert_eq!(game.try_apply(ClientAction::ResolveDrawnCard(false)), Ok(()));

    // the second player finds the pile exhausted
    assert_eq!(game.current_player_index(), 1);
    assert_eq!(game.try_apply(ClientAction::DrawCard), Err(Refusal::Exhausted));
    assert_eq!(game.try_draw_card(), Err(Refusal::Exhausted));
    assert_eq!(game.current_player_index(), 1);
    assert_eq!(game.turn_state(), TurnState::PlayOrDraw);
    assert_eq!(game.discard_pile().len(), 1);
    assert_eq!(game.player(1).unwrap().hand_len(), 0);
}

#[test]
fn nobody_seated_is_its_own_refusal() {
    let mut game = Game::create(&Vec::new());
    assert_eq!(game.try_apply(ClientAction::DrawCard), Err(Refusal::NobodySeated));
    assert_eq!(game.try_apply(ClientAction::PlayCard(0)), Err(Refusal::NobodySeated));
    assert_eq!(
        game.try_apply(ClientAction::ResolveDrawnCard(true)),
        Err(Refusal::WrongTurnState)
    );
    assert_eq!(game.draw_pile_len(), 107);
}
