use hyo::card::{Card, Color};
use hyo::deck::{build_default_deck, build_dynamic_deck};
use hyo::game::Game;
use hyo::rules::TurnState;

const COLORS: [Color; 4] = [Color::Blue, Color::Green, Color::Red, Color::Yellow];

fn count(deck: &[Card], card: Card) -> usize {
    deck.iter().filter(|c| **c == card).count()
}

fn sorted_key(card: &Card) -> (u8, u8, u8) {
    let color = match card.get_color() {
        None => 0,
        Some(Color::Blue) => 1,
        Some(Color::Green) => 2,
        Some(Color::Red) => 3,
        Some(Color::Yellow) => 4,
    };
    let kind = card.kind_discriminant();
    (color, kind.0, kind.1)
}

fn sorted(mut cards: Vec<Card>) -> Vec<Card> {
    cards.sort_by_key(sorted_key);
    cards
}

#[test]
fn canonical_deck_has_the_usual_cards() {
    let deck = build_default_deck();
    assert_eq!(deck.len(), 108);
    assert_eq!(count(&deck, Card::Wild(None)), 4);
    assert_eq!(count(&deck, Card::WildDrawFour(None)), 4);
    for color in COLORS {
        assert_eq!(count(&deck, Card::Numeric(color, 0)), 1);
        for n in 1..=9 {
            assert_eq!(count(&deck, Card::Numeric(color, n)), 2);
        }
        assert_eq!(count(&deck, Card::Numeric(color, 10)), 0);
        assert_eq!(count(&deck, Card::Skip(color)), 2);
        assert_eq!(count(&deck, Card::Reverse(color)), 2);
        assert_eq!(count(&deck, Card::DrawTwo(color)), 2);
        assert_eq!(count(&deck, Card::Wild(Some(color))), 0);
        assert_eq!(count(&deck, Card::WildDrawFour(Some(color))), 0);
    }
}

#[test]
fn canonical_deck_starts_with_the_wild_cards() {
    let deck = build_default_deck();
    assert_eq!(deck[0], Card::Wild(None));
    assert_eq!(deck[1], Card::WildDrawFour(None));
    assert_eq!(deck[7], Card::WildDrawFour(None));
    assert_eq!(deck[8], Card::Numeric(Color::Blue, 0));
    assert_eq!(deck[9], Card::Numeric(Color::Blue, 1));
    assert_eq!(deck[18], Card::Skip(Color::Blue));
    assert_eq!(deck[19], Card::DrawTwo(Color::Blue));
    assert_eq!(deck[20], Card::Reverse(Color::Blue));
    assert_eq!(deck[21], Card::Numeric(Color::Blue, 1));
    assert_eq!(deck[33], Card::Numeric(Color::Green, 0));
    assert_eq!(deck[107], Card::Reverse(Color::Yellow));
}

#[test]
fn dynamic_deck_is_never_smaller_than_the_canonical_one() {
    assert_eq!(build_dynamic_deck(0), build_default_deck());
    assert_eq!(build_dynamic_deck(40), build_default_deck());
    assert_eq!(build_dynamic_deck(108), build_default_deck());
}

#[test]
fn dynamic_deck_is_made_of_whole_rounds() {
    let base = build_default_deck();
    for (asked, rounds) in [(109, 2), (120, 2), (216, 2), (217, 3), (240, 3), (324, 3), (325, 4)] {
        let deck = build_dynamic_deck(asked);
        assert_eq!(deck.len(), 108 * rounds);
        assert!(deck.len() >= asked);
        assert!(deck.len() - asked < 108);
        for (i, card) in deck.iter().enumerate() {
            assert_eq!(*card, base[i % 108]);
        }
    }
}

#[test]
fn dynamic_deck_keeps_the_share_of_every_card() {
    let base = build_default_deck();
    // a lobby of six players asks for 120 cards
    let deck = build_dynamic_deck(120);
    assert_eq!(deck.len(), 216);
    assert_eq!(count(&deck, Card::Wild(None)), 8);
    assert_eq!(count(&deck, Card::Numeric(Color::Blue, 0)), 2);
    assert_eq!(count(&deck, Card::Numeric(Color::Green, 0)), 2);
    assert_eq!(count(&deck, Card::Skip(Color::Yellow)), 4);
    for card in base.iter() {
        assert_eq!(count(&deck, *card) * 108, count(&base, *card) * deck.len());
    }

    let deck = build_dynamic_deck(240);
    assert_eq!(count(&deck, Card::Wild(None)), 12);
    assert_eq!(count(&deck, Card::Numeric(Color::Blue, 0)), 3);
    assert_eq!(count(&deck, Card::Numeric(Color::Green, 0)), 3);
    for card in base.iter() {
        assert_eq!(count(&deck, *card) * 108, count(&base, *card) * deck.len());
    }
}

#[test]
fn deal_takes_cards_off_the_top_one_at_a_time() {
    let pile = build_default_deck();
    let game = Game::deal(pile.clone(), &vec![10, 20]).unwrap();

    let first = game.player(0).unwrap();
    let second = game.player(1).unwrap();
    assert_eq!(first.id, 10);
    assert_eq!(second.id, 20);
    let want_first: Vec<Card> = (0..8).map(|j| pile[107 - j]).collect();
    let want_second: Vec<Card> = (0..8).map(|j| pile[99 - j]).collect();
    assert_eq!(first.hand(), &want_first);
    assert_eq!(second.hand(), &want_second);
    assert_eq!(game.discard_pile(), &vec![pile[91]]);
    assert_eq!(game.draw_pile_len(), 91);
    assert_eq!(game.current_player_index(), 0);
    assert!(game.is_forward());
    assert_eq!(game.turn_state(), TurnState::PlayOrDraw);
}

#[test]
fn deal_needs_a_card_for_every_hand_and_one_to_turn_up() {
    let seventeen: Vec<Card> = build_default_deck().into_iter().take(17).collect();
    let sixteen: Vec<Card> = build_default_deck().into_iter().take(16).collect();
    assert!(Game::deal(seventeen, &vec![1, 2]).is_some());
    assert!(Game::deal(sixteen, &vec![1, 2]).is_none());
    assert!(Game::deal(Vec::new(), &Vec::new()).is_none());
    assert!(Game::deal(vec![Card::Wild(None)], &Vec::new()).is_some());
}

fn all_cards(game: &Game) -> Vec<Card> {
    let mut cards = Vec::new();
    for seat in 0..game.player_count() {
        cards.extend(game.player(seat).unwrap().hand().iter().copied());
    }
    cards.extend(game.discard_pile().iter().copied());
    cards
}

#[test]
fn created_game_deals_eight_cards_to_each_player() {
    let game = Game::create(&vec![1, 2, 3]);
    assert_eq!(game.player_count(), 3);
    for seat in 0..3 {
        assert_eq!(game.player(seat).unwrap().hand_len(), 8);
        assert_eq!(game.player(seat).unwrap().id, seat as u128 + 1);
    }
    assert_eq!(game.discard_pile().len(), 1);
    assert_eq!(game.draw_pile_len(), 108 - 25);
    assert_eq!(game.current_player_index(), 0);
    assert_eq!(game.turn_state(), TurnState::PlayOrDraw);
}

#[test]
fn created_game_holds_the_cards_of_the_deck() {
    let mut game = Game::create(&vec![1, 2]);
    // draw the pile empty: every card ends up in a hand or on the discard pile
    let mut guard = 0;
    while game.draw_pile_len() > 0 && guard < 1000 {
        if !game.draw_card() {
            assert!(game.play_drawn_card(false));
        }
        guard += 1;
    }
    assert_eq!(game.draw_pile_len(), 0);
    assert_eq!(sorted(all_cards(&game)), sorted(build_default_deck()));
}

#[test]
fn created_game_is_shuffled() {
    // a pile left in order would deal the same hands every time
    let hands: Vec<Vec<Card>> = (0..8)
        .map(|_| Game::create(&vec![1]).player(0).unwrap().hand().clone())
        .collect();
    assert!(hands.iter().any(|hand| *hand != hands[0]));
}

#[test]
fn large_lobby_gets_whole_rounds_of_the_deck() {
    // five players are served by one round, six need a second
    let ids: Vec<u128> = (0..5).collect();
    assert_eq!(Game::create(&ids).draw_pile_len(), 108 - 5 * 8 - 1);
    let ids: Vec<u128> = (0..6).collect();
    assert_eq!(Game::create(&ids).draw_pile_len(), 216 - 6 * 8 - 1);
    let ids: Vec<u128> = (0..7).collect();
    let mut game = Game::create(&ids);
    assert_eq!(game.draw_pile_len(), 216 - 7 * 8 - 1);

    let mut guard = 0;
    while game.draw_pile_len() > 0 && guard < 2000 {
        if !game.draw_card() {
            assert!(game.play_drawn_card(false));
        }
        guard += 1;
    }
    assert_eq!(sorted(all_cards(&game)), sorted(build_dynamic_deck(140)));
}

#[test]
fn game_without_players_waits_for_them() {
    let mut game = Game::create(&Vec::new());
    assert_eq!(game.player_count(), 0);
    assert_eq!(game.draw_pile_len(), 107);
    assert_eq!(game.discard_pile().len(), 1);
    assert!(!game.draw_card());
    assert!(!game.play_card(0));
    assert_eq!(game.draw_pile_len(), 107);

    game.add_player(9);
    assert_eq!(game.player_count(), 1);
    assert_eq!(game.player(0).unwrap().hand_len(), 0);
    assert!(game.draw_card());
    assert_eq!(game.draw_pile_len(), 106);
    assert_eq!(game.player(0).unwrap().hand_len(), 1);
}
