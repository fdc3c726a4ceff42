//! What every turn leaves as it was: the cards of the game and the order of
//! the table.

use vstd::prelude::*;
use vstd::multiset::*;
use vstd::seq_lib::*;
use crate::card::Card;
use crate::game::{dealt, dealt_hand, enough_to_deal};
use crate::player::PlayerView;
use crate::rules::{hands_cards, hands_len, ClientAction, GameView, Refusal, Turn};

verus! {

/// Giving the player at `seat` another hand changes the cards in hands by
/// that hand alone.
pub proof fn lemma_hands_update(players: Seq<PlayerView>, seat: int, hand: Seq<Card>)
    requires
        0 <= seat < players.len(),
    ensures
        hands_len(players.update(seat, PlayerView { id: players[seat].id, hand })) == hands_len(
            players,
        ) - players[seat].hand.len() + hand.len(),
        hands_cards(players.update(seat, PlayerView { id: players[seat].id, hand })).add(
            players[seat].hand.to_multiset(),
        ) == hands_cards(players).add(hand.to_multiset()),
    decreases players.len(),
{
    broadcast use group_multiset_axioms;

    let changed = players.update(seat, PlayerView { id: players[seat].id, hand });
    let before = players[seat].hand.to_multiset();
    let after = hand.to_multiset();
    assert(hands_cards(changed) == hands_cards(changed.drop_last()).add(
        changed.last().hand.to_multiset(),
    ));
    assert(hands_cards(players) == hands_cards(players.drop_last()).add(
        players.last().hand.to_multiset(),
    ));
    if seat == players.len() - 1 {
        assert(changed.drop_last() =~= players.drop_last());
        assert(changed.last().hand == hand);
        assert(hands_cards(changed).add(before) =~= hands_cards(players).add(after));
    } else {
        let rest = players.drop_last();
        assert(rest[seat] == players[seat]);
        lemma_hands_update(rest, seat, hand);
        assert(changed.drop_last() =~= rest.update(seat, PlayerView { id: rest[seat].id, hand }));
        assert(changed.last() == players.last());
        let tail = players.last().hand.to_multiset();
        assert(hands_cards(changed.drop_last()).add(before) == hands_cards(rest).add(after));
        assert(hands_cards(changed).add(before) =~= hands_cards(changed.drop_last()).add(
            before,
        ).add(tail));
        assert(hands_cards(players).add(after) =~= hands_cards(rest).add(after).add(tail));
    }
}

/// A card that goes from the hand of the player whose turn it is to the
/// discard pile stays in the game, and no card joins it.
proof fn lemma_discard_from_hand(g: GameView, i: int)
    requires
        g.wf(),
        g.players.len() > 0,
        0 <= i < g.hand().len(),
    ensures
        g.with_hand(g.hand().remove(i)).with_discarded(g.hand()[i]).all_cards() == g.all_cards(),
        g.with_hand(g.hand().remove(i)).with_discarded(g.hand()[i]).card_count() == g.card_count(),
{
    broadcast use group_multiset_axioms;

    let hand = g.hand();
    let after = g.with_hand(hand.remove(i)).with_discarded(hand[i]);
    lemma_hands_update(g.players, g.current, hand.remove(i));
    to_multiset_remove(hand, i);
    to_multiset_build(g.discard_pile, hand[i]);
    to_multiset_contains(hand, hand[i]);
    assert(hand.contains(hand[i]));
    assert(after.all_cards() =~= g.all_cards()) by {
        assert forall|c: Card| after.all_cards().count(c) == g.all_cards().count(c) by {
            assert(hands_cards(after.players).add(hand.to_multiset()).count(c) == hands_cards(
                g.players,
            ).add(hand.remove(i).to_multiset()).count(c));
        }
    }
}

/// A card that goes from the draw pile to the hand of the player whose turn
/// it is stays in the game, and no card joins it.
proof fn lemma_take_from_draw_pile(g: GameView)
    requires
        g.wf(),
        g.players.len() > 0,
        g.draw_pile.len() > 0,
    ensures
        (GameView {
            draw_pile: g.draw_pile.drop_last(),
            ..g.with_hand(g.hand().push(g.draw_pile.last()))
        }).all_cards() == g.all_cards(),
        (GameView {
            draw_pile: g.draw_pile.drop_last(),
            ..g.with_hand(g.hand().push(g.draw_pile.last()))
        }).card_count() == g.card_count(),
{
    broadcast use group_multiset_axioms;

    let hand = g.hand();
    let card = g.draw_pile.last();
    let after = GameView { draw_pile: g.draw_pile.drop_last(), ..g.with_hand(hand.push(card)) };
    lemma_hands_update(g.players, g.current, hand.push(card));
    to_multiset_build(hand, card);
    to_multiset_build(g.draw_pile.drop_last(), card);
    assert(g.draw_pile.drop_last().push(card) =~= g.draw_pile);
    assert(after.all_cards() =~= g.all_cards()) by {
        assert forall|c: Card| after.all_cards().count(c) == g.all_cards().count(c) by {
            assert(hands_cards(after.players).add(hand.to_multiset()).count(c) == hands_cards(
                g.players,
            ).add(hand.push(card).to_multiset()).count(c));
        }
    }
}

/// The hands dealt to the first `seats` players are the top eight times
/// `seats` cards of the pile.
proof fn lemma_dealt_hands(pile: Seq<Card>, ids: Seq<u128>, seats: int)
    requires
        enough_to_deal(pile.len(), ids.len()),
        0 <= seats <= ids.len(),
    ensures
        hands_cards(dealt(pile, ids).players.take(seats)) == pile.subrange(
            pile.len() - 8 * seats,
            pile.len() as int,
        ).to_multiset(),
        hands_len(dealt(pile, ids).players.take(seats)) == 8 * seats,
    decreases seats,
{
    broadcast use group_multiset_axioms;

    let len = pile.len() as int;
    let players = dealt(pile, ids).players;
    if seats == 0 {
        assert(pile.subrange(len, len) =~= Seq::<Card>::empty());
        crate::deck::lemma_empty_to_multiset::<Card>();
    } else {
        lemma_dealt_hands(pile, ids, seats - 1);
        let taken = players.take(seats);
        assert(taken.drop_last() =~= players.take(seats - 1));
        assert(taken.last() == players[seats - 1]);
        let dealt_now = pile.subrange(len - 8 * seats, len - 8 * (seats - 1));
        let dealt_before = pile.subrange(len - 8 * (seats - 1), len);
        assert(dealt_hand(pile, seats - 1) =~= dealt_now.reverse());
        dealt_now.lemma_reverse_to_multiset();
        assert(pile.subrange(len - 8 * seats, len) =~= dealt_now + dealt_before);
        lemma_multiset_commutative(dealt_now, dealt_before);
        assert(hands_cards(taken) =~= pile.subrange(len - 8 * seats, len).to_multiset());
    }
}

/// Dealing neither makes nor loses a card: the game at its start holds the
/// very cards of the pile it was dealt from, and is a state that play can
/// be in.
pub proof fn lemma_deal_conserves_cards(pile: Seq<Card>, ids: Seq<u128>)
    requires
        enough_to_deal(pile.len(), ids.len()),
    ensures
        dealt(pile, ids).wf(),
        dealt(pile, ids).all_cards() == pile.to_multiset(),
        dealt(pile, ids).card_count() == pile.len(),
{
    broadcast use group_multiset_axioms;

    let len = pile.len() as int;
    let game = dealt(pile, ids);
    let held = pile.subrange(len - 8 * ids.len(), len);
    lemma_dealt_hands(pile, ids, ids.len() as int);
    assert(game.players.take(ids.len() as int) =~= game.players);
    assert(pile =~= game.draw_pile + game.discard_pile + held);
    lemma_multiset_commutative(game.draw_pile, game.discard_pile);
    lemma_multiset_commutative(game.draw_pile + game.discard_pile, held);
}

/// Whatever a player asks for, the game stays a state that play can be in,
/// and it holds the very cards it held before, as many as before.
pub proof fn lemma_step_conserves_cards(g: GameView, action: ClientAction)
    requires
        g.wf(),
    ensures
        g.step(action).wf(),
        g.step(action).all_cards() == g.all_cards(),
        g.step(action).card_count() == g.card_count(),
{
    if g.allows(action) {
        crate::game::lemma_next_index(g.current, g.players.len() as int, g.forward);
        match action {
            ClientAction::PlayCard(i) => {
                lemma_discard_from_hand(g, i as int);
            },
            ClientAction::DrawCard => {
                lemma_take_from_draw_pile(g);
            },
            ClientAction::ResolveDrawnCard(play) => {
                if play {
                    lemma_discard_from_hand(g, g.turn->PlayDrawn_0 as int);
                }
            },
        }
    }
}

/// Over any sequence of requests, legal or not, the number of cards in the
/// two piles and all hands together stays what it was, and so do the cards
/// themselves.
pub proof fn lemma_run_conserves_cards(g: GameView, actions: Seq<ClientAction>)
    requires
        g.wf(),
    ensures
        g.run(actions).wf(),
        g.run(actions).all_cards() == g.all_cards(),
        g.run(actions).card_count() == g.card_count(),
    decreases actions.len(),
{
    if actions.len() > 0 {
        lemma_run_conserves_cards(g, actions.drop_last());
        lemma_step_conserves_cards(g.run(actions.drop_last()), actions.last());
    }
}

/// A card played from the hand, or a drawn card played after all, makes the
/// discard pile one card higher and the hand of the player who played it
/// one card smaller. The draw pile is not touched.
pub proof fn lemma_play_moves_one_card(g: GameView, action: ClientAction)
    requires
        g.wf(),
        g.allows(action),
        action is PlayCard || action == ClientAction::ResolveDrawnCard(true),
    ensures
        g.step(action).discard_pile.len() == g.discard_pile.len() + 1,
        g.step(action).players[g.current].hand.len() == g.hand().len() - 1,
        g.step(action).draw_pile == g.draw_pile,
        g.step(action).players.len() == g.players.len(),
{
}

/// A card drawn makes the draw pile one card lower and the hand of the
/// player who drew it one card larger. The discard pile is not touched.
pub proof fn lemma_draw_moves_one_card(g: GameView)
    requires
        g.wf(),
        g.can_draw(),
    ensures
        g.step(ClientAction::DrawCard).draw_pile.len() == g.draw_pile.len() - 1,
        g.step(ClientAction::DrawCard).players[g.current].hand.len() == g.hand().len() + 1,
        g.step(ClientAction::DrawCard).players[g.current].hand.last() == g.draw_pile.last(),
        g.step(ClientAction::DrawCard).discard_pile == g.discard_pile,
        g.step(ClientAction::DrawCard).players.len() == g.players.len(),
{
}

/// With somebody at the table, a draw at the start of a turn from a pile
/// that is not empty is never refused.
pub proof fn lemma_draw_is_owed(g: GameView)
    requires
        g.wf(),
        g.turn is PlayOrDraw,
        g.players.len() > 0,
        g.draw_pile.len() >= 1,
    ensures
        g.allows(ClientAction::DrawCard),
        g.refusal(ClientAction::DrawCard) is None,
        g.step(ClientAction::DrawCard).draw_pile.len() == g.draw_pile.len() - 1,
{
}

/// At a table with players the turn is always with one of them, and a
/// request moves it, if at all, to the next seat in the direction of play.
/// The direction itself never changes.
pub proof fn lemma_turn_stays_at_table(g: GameView, action: ClientAction)
    requires
        g.wf(),
        g.players.len() > 0,
    ensures
        0 <= g.step(action).current < g.step(action).players.len(),
        g.step(action).current == g.current || (g.step(action).current == g.next_index()
            && g.step(action).turn is PlayOrDraw),
        g.step(action).forward == g.forward,
{
    crate::game::lemma_next_index(g.current, g.players.len() as int, g.forward);
}

/// While a drawn card awaits a decision, playing from the hand and drawing
/// are refused and change nothing; the decision is the one request taken.
pub proof fn lemma_pending_draw_blocks(g: GameView, action: ClientAction)
    requires
        g.wf(),
        g.turn is PlayDrawn,
    ensures
        g.allows(action) <==> action is ResolveDrawnCard,
        !(action is ResolveDrawnCard) ==> g.step(action) == g,
{
}

/// A request is given a reason for refusal exactly when it is not legal;
/// an exhausted draw pile is the reason only for a draw that the state of
/// the turn and the table would allow.
pub proof fn lemma_refused_means_illegal(g: GameView, action: ClientAction)
    requires
        g.wf(),
    ensures
        g.refusal(action) is None <==> g.allows(action),
        g.refusal(action) is Some ==> g.step(action) == g,
        g.refusal(action) == Some(Refusal::Exhausted) <==> action is DrawCard && g.turn
            is PlayOrDraw && g.players.len() > 0 && g.draw_pile.len() == 0,
{
}

/// Every turn starts with the choice to play or to draw: whenever the turn
/// passes on, no drawn card awaits a decision.
pub proof fn lemma_turn_starts_open(g: GameView, action: ClientAction)
    requires
        g.wf(),
        g.allows(action),
        g.step(action).turn is PlayDrawn,
    ensures
        action is DrawCard,
        g.step(action).current == g.current,
        g.step(action).turn == Turn::PlayDrawn(g.hand().len()),
        crate::card::can_follow(g.draw_pile.last(), g.top()),
{
}

} // verus!
