//! The canonical deck and decks sized for larger lobbies.

use vstd::prelude::*;
use vstd::multiset::*;
use vstd::seq_lib::*;
use rand::seq::SliceRandom;
use rand::thread_rng;
use crate::card::{Card, Color};

verus! {

/// Number of cards in the canonical deck.
pub const CANONICAL_DECK_LEN: usize = 108;

/// The eight colourless cards that open the deck, the two wild kinds alternating.
pub open spec fn wild_block() -> Seq<Card> {
    seq![
        Card::Wild(None),
        Card::WildDrawFour(None),
        Card::Wild(None),
        Card::WildDrawFour(None),
        Card::Wild(None),
        Card::WildDrawFour(None),
        Card::Wild(None),
        Card::WildDrawFour(None),
    ]
}

/// One run of a colour: the numbers one to nine, then the three action cards.
pub open spec fn color_run(color: Color) -> Seq<Card> {
    seq![
        Card::Numeric(color, 1),
        Card::Numeric(color, 2),
        Card::Numeric(color, 3),
        Card::Numeric(color, 4),
        Card::Numeric(color, 5),
        Card::Numeric(color, 6),
        Card::Numeric(color, 7),
        Card::Numeric(color, 8),
        Card::Numeric(color, 9),
        Card::Skip(color),
        Card::DrawTwo(color),
        Card::Reverse(color),
    ]
}

/// All cards of one colour: a single zero followed by two runs.
pub open spec fn color_block(color: Color) -> Seq<Card> {
    seq![Card::Numeric(color, 0)] + color_run(color) + color_run(color)
}

/// The canonical deck, in the order in which it is built.
pub open spec fn canonical_deck() -> Seq<Card> {
    wild_block() + color_block(Color::Blue) + color_block(Color::Green) + color_block(Color::Red)
        + color_block(Color::Yellow)
}

/// How many copies of `card` the canonical deck holds.
pub open spec fn copies_in_canonical_deck(card: Card) -> nat {
    match card {
        Card::Numeric(_, n) => if n == 0 {
            1
        } else if n <= 9 {
            2
        } else {
            0
        },
        Card::Skip(_) => 2,
        Card::Reverse(_) => 2,
        Card::DrawTwo(_) => 2,
        Card::Wild(c) => if c is None {
            4
        } else {
            0
        },
        Card::WildDrawFour(c) => if c is None {
            4
        } else {
            0
        },
    }
}

/// How many rounds of the canonical deck it takes to have at least `len`
/// cards: the least number that does, and never less than one.
pub open spec fn rounds_for(len: nat) -> nat {
    if len <= 108 {
        1
    } else {
        ((len + 107) / 108) as nat
    }
}

/// `rounds` rounds of the canonical deck, one after the other.
pub open spec fn cycled_deck(rounds: nat) -> Seq<Card> {
    Seq::new(108 * rounds, |i: int| canonical_deck()[i % 108])
}

/// The deck for a game that asks for at least `len` cards: whole rounds of
/// the canonical deck, as few as reach `len`.
pub open spec fn dynamic_deck(len: nat) -> Seq<Card> {
    cycled_deck(rounds_for(len))
}

/// The empty sequence holds no element.
pub proof fn lemma_empty_to_multiset<A>()
    ensures
        Seq::<A>::empty().to_multiset() == Multiset::<A>::empty(),
{
    to_multiset_len(Seq::<A>::empty());
    lemma_multiset_empty_len(Seq::<A>::empty().to_multiset());
    assert(Seq::<A>::empty().to_multiset() =~= Multiset::<A>::empty());
}

/// Pushing `a` raises the count of `a` by one and leaves every other count.
pub proof fn lemma_push_count<A>(s: Seq<A>, a: A, x: A)
    ensures
        s.push(a).to_multiset().count(x) == s.to_multiset().count(x) + if a == x {
            1nat
        } else {
            0nat
        },
{
    broadcast use group_multiset_axioms;

    to_multiset_build(s, a);
}

proof fn lemma_wild_block_count(card: Card)
    ensures
        wild_block().len() == 8,
        wild_block().to_multiset().count(card) == match card {
            Card::Wild(None) => 4nat,
            Card::WildDrawFour(None) => 4nat,
            _ => 0nat,
        },
{
    let w = Card::Wild(None);
    let f = Card::WildDrawFour(None);
    let s0 = Seq::<Card>::empty();
    let s1 = s0.push(w);
    let s2 = s1.push(f);
    let s3 = s2.push(w);
    let s4 = s3.push(f);
    let s5 = s4.push(w);
    let s6 = s5.push(f);
    let s7 = s6.push(w);
    let s8 = s7.push(f);
    lemma_empty_to_multiset::<Card>();
    lemma_push_count(s0, w, card);
    lemma_push_count(s1, f, card);
    lemma_push_count(s2, w, card);
    lemma_push_count(s3, f, card);
    lemma_push_count(s4, w, card);
    lemma_push_count(s5, f, card);
    lemma_push_count(s6, w, card);
    lemma_push_count(s7, f, card);
    assert(wild_block() =~= s8);
}

proof fn lemma_color_run_count(color: Color, card: Card)
    ensures
        color_run(color).len() == 12,
        color_run(color).to_multiset().count(card) == match card {
            Card::Numeric(c, n) => if c == color && 1 <= n <= 9 {
                1nat
            } else {
                0nat
            },
            Card::Skip(c) => if c == color {
                1nat
            } else {
                0nat
            },
            Card::Reverse(c) => if c == color {
                1nat
            } else {
                0nat
            },
            Card::DrawTwo(c) => if c == color {
                1nat
            } else {
                0nat
            },
            _ => 0nat,
        },
{
    let s0 = Seq::<Card>::empty();
    let s1 = s0.push(Card::Numeric(color, 1));
    let s2 = s1.push(Card::Numeric(color, 2));
    let s3 = s2.push(Card::Numeric(color, 3));
    let s4 = s3.push(Card::Numeric(color, 4));
    let s5 = s4.push(Card::Numeric(color, 5));
    let s6 = s5.push(Card::Numeric(color, 6));
    let s7 = s6.push(Card::Numeric(color, 7));
    let s8 = s7.push(Card::Numeric(color, 8));
    let s9 = s8.push(Card::Numeric(color, 9));
    let s10 = s9.push(Card::Skip(color));
    let s11 = s10.push(Card::DrawTwo(color));
    let s12 = s11.push(Card::Reverse(color));
    lemma_empty_to_multiset::<Card>();
    lemma_push_count(s0, Card::Numeric(color, 1), card);
    lemma_push_count(s1, Card::Numeric(color, 2), card);
    lemma_push_count(s2, Card::Numeric(color, 3), card);
    lemma_push_count(s3, Card::Numeric(color, 4), card);
    lemma_push_count(s4, Card::Numeric(color, 5), card);
    lemma_push_count(s5, Card::Numeric(color, 6), card);
    lemma_push_count(s6, Card::Numeric(color, 7), card);
    lemma_push_count(s7, Card::Numeric(color, 8), card);
    lemma_push_count(s8, Card::Numeric(color, 9), card);
    lemma_push_count(s9, Card::Skip(color), card);
    lemma_push_count(s10, Card::DrawTwo(color), card);
    lemma_push_count(s11, Card::Reverse(color), card);
    assert(color_run(color) =~= s12);
}

proof fn lemma_color_block_count(color: Color, card: Card)
    ensures
        color_block(color).len() == 25,
        color_block(color).to_multiset().count(card) == if color_of_fixed(card) == Some(color) {
            copies_in_canonical_deck(card)
        } else {
            0nat
        },
{
    broadcast use group_multiset_axioms;

    let zero = seq![Card::Numeric(color, 0)];
    lemma_empty_to_multiset::<Card>();
    lemma_push_count(Seq::<Card>::empty(), Card::Numeric(color, 0), card);
    assert(zero =~= Seq::<Card>::empty().push(Card::Numeric(color, 0)));
    lemma_color_run_count(color, card);
    lemma_multiset_commutative(zero, color_run(color));
    lemma_multiset_commutative(zero + color_run(color), color_run(color));
}

/// The colour printed on a card; wild cards have none printed.
pub open spec fn color_of_fixed(card: Card) -> Option<Color> {
    match card {
        Card::Numeric(c, _) => Some(c),
        Card::Skip(c) => Some(c),
        Card::Reverse(c) => Some(c),
        Card::DrawTwo(c) => Some(c),
        Card::Wild(_) => None,
        Card::WildDrawFour(_) => None,
    }
}

/// The canonical deck has 108 cards: four of each colourless wild kind, and
/// per colour one zero and two each of the numbers one to nine and of the
/// three action cards. No other card occurs in it.
pub proof fn lemma_canonical_deck_composition(card: Card)
    ensures
        canonical_deck().len() == 108,
        canonical_deck().to_multiset().len() == 108,
        canonical_deck().to_multiset().count(card) == copies_in_canonical_deck(card),
{
    broadcast use group_multiset_axioms;

    let w = wild_block();
    let b = color_block(Color::Blue);
    let g = color_block(Color::Green);
    let r = color_block(Color::Red);
    let y = color_block(Color::Yellow);
    lemma_wild_block_count(card);
    lemma_color_block_count(Color::Blue, card);
    lemma_color_block_count(Color::Green, card);
    lemma_color_block_count(Color::Red, card);
    lemma_color_block_count(Color::Yellow, card);
    lemma_multiset_commutative(w, b);
    lemma_multiset_commutative(w + b, g);
    lemma_multiset_commutative(w + b + g, r);
    lemma_multiset_commutative(w + b + g + r, y);
    to_multiset_len(canonical_deck());
}


/// The rounds that a deck of at least `len` cards takes are enough to
/// reach `len`, and one round less would not be, unless one round does.
pub proof fn lemma_rounds_for(len: nat)
    ensures
        rounds_for(len) >= 1,
        108 * rounds_for(len) >= len,
        108 * rounds_for(len) >= 108,
        rounds_for(len) > 1 ==> 108 * (rounds_for(len) - 1) < len,
        108 * rounds_for(len) <= len + 107 || rounds_for(len) == 1,
{
}

/// A deck of whole rounds of the canonical deck holds every card as many
/// times as the canonical deck does, times the number of rounds: every
/// card has the share of the deck that it has of the canonical deck.
pub proof fn lemma_whole_rounds_keep_proportions(rounds: nat, card: Card)
    requires
        rounds >= 1,
    ensures
        cycled_deck(rounds).len() == 108 * rounds,
        cycled_deck(rounds).to_multiset().count(card) == rounds * copies_in_canonical_deck(card),
        cycled_deck(rounds).to_multiset().count(card) * canonical_deck().len()
            == canonical_deck().to_multiset().count(card) * cycled_deck(rounds).len(),
    decreases rounds,
{
    broadcast use group_multiset_axioms;

    lemma_canonical_deck_composition(card);
    let copies = copies_in_canonical_deck(card);
    if rounds == 1 {
        assert(cycled_deck(1) =~= canonical_deck());
    } else {
        let before = cycled_deck((rounds - 1) as nat);
        lemma_whole_rounds_keep_proportions((rounds - 1) as nat, card);
        assert(cycled_deck(rounds) =~= before + canonical_deck());
        lemma_multiset_commutative(before, canonical_deck());
        assert(rounds * copies == (rounds - 1) * copies + copies) by (nonlinear_arith);
    }
    assert((rounds * copies) * 108 == copies * (108 * rounds)) by (nonlinear_arith);
}

/// The colours in the order in which the deck lists them.
pub open spec fn color_at(i: int) -> Color {
    if i == 0 {
        Color::Blue
    } else if i == 1 {
        Color::Green
    } else if i == 2 {
        Color::Red
    } else {
        Color::Yellow
    }
}

/// The canonical deck up to and including the first `colors` colour blocks.
pub open spec fn deck_through(colors: nat) -> Seq<Card>
    decreases colors,
{
    if colors == 0 {
        wild_block()
    } else {
        deck_through((colors - 1) as nat) + color_block(color_at(colors - 1))
    }
}

fn all_colors() -> (colors: [Color; 4])
    ensures
        forall|i: int| 0 <= i < 4 ==> colors[i] == color_at(i),
{
    [Color::Blue, Color::Green, Color::Red, Color::Yellow]
}

fn push_color_run(deck: &mut Vec<Card>, color: Color)
    ensures
        final(deck)@ == old(deck)@ + color_run(color),
{
    let ghost before = deck@;
    let mut n: u8 = 1;
    while n <= 9
        invariant
            1 <= n <= 10,
            deck@ == before + color_run(color).take(n - 1),
        decreases 10 - n,
    {
        deck.push(Card::Numeric(color, n));
        assert(deck@ =~= before + color_run(color).take(n as int));
        n += 1;
    }
    deck.push(Card::Skip(color));
    deck.push(Card::DrawTwo(color));
    deck.push(Card::Reverse(color));
    assert(deck@ =~= before + color_run(color));
}

fn push_color_block(deck: &mut Vec<Card>, color: Color)
    ensures
        final(deck)@ == old(deck)@ + color_block(color),
{
    let ghost before = deck@;
    deck.push(Card::Numeric(color, 0));
    push_color_run(deck, color);
    push_color_run(deck, color);
    assert(deck@ =~= before + color_block(color));
}

/// Builds the canonical deck of 108 cards.
pub fn build_default_deck() -> (deck: Vec<Card>)
    ensures
        deck@ == canonical_deck(),
        deck@.len() == 108,
{
    let mut deck: Vec<Card> = Vec::with_capacity(CANONICAL_DECK_LEN);
    let mut k: usize = 0;
    while k < 4
        invariant
            k <= 4,
            deck@ == wild_block().take(2 * k),
        decreases 4 - k,
    {
        deck.push(Card::Wild(None));
        deck.push(Card::WildDrawFour(None));
        assert(deck@ =~= wild_block().take(2 * (k + 1)));
        k += 1;
    }
    assert(deck@ =~= deck_through(0));
    let colors = all_colors();
    let mut i: usize = 0;
    while i < 4
        invariant
            i <= 4,
            deck@ == deck_through(i as nat),
            forall|j: int| 0 <= j < 4 ==> colors[j] == color_at(j),
        decreases 4 - i,
    {
        push_color_block(&mut deck, colors[i]);
        i += 1;
    }
    proof {
        reveal_with_fuel(deck_through, 5);
        assert(deck_through(4) =~= canonical_deck());
        lemma_canonical_deck_composition(Card::Wild(None));
    }
    deck
}

/// Builds a deck of at least `len` cards out of whole rounds of the
/// canonical deck, as few as it takes and never less than one, so that
/// every card keeps the share it has of the canonical deck.
pub fn build_dynamic_deck(len: usize) -> (deck: Vec<Card>)
    requires
        len + 107 <= usize::MAX,
    ensures
        deck@ == dynamic_deck(len as nat),
        deck@.len() == 108 * rounds_for(len as nat),
        deck@.len() >= len,
        forall|card: Card|
            #[trigger] deck@.to_multiset().count(card) == rounds_for(len as nat)
                * copies_in_canonical_deck(card),
        forall|card: Card|
            #[trigger] deck@.to_multiset().count(card) * 108 == copies_in_canonical_deck(card)
                * deck@.len(),
{
    let base = build_default_deck();
    let rounds: usize = if len <= CANONICAL_DECK_LEN {
        1
    } else {
        (len + 107) / CANONICAL_DECK_LEN
    };
    proof {
        lemma_rounds_for(len as nat);
    }
    let total: usize = rounds * CANONICAL_DECK_LEN;
    let mut deck: Vec<Card> = Vec::new();
    let mut i: usize = 0;
    while i < total
        invariant
            i <= total,
            base@ == canonical_deck(),
            base@.len() == 108,
            rounds == rounds_for(len as nat),
            total == 108 * rounds,
            deck@ == cycled_deck(rounds as nat).take(i as int),
        decreases total - i,
    {
        deck.push(base[i % CANONICAL_DECK_LEN]);
        assert(deck@ =~= cycled_deck(rounds as nat).take(i + 1));
        i += 1;
    }
    proof {
        assert(deck@ =~= cycled_deck(rounds as nat));
        assert forall|card: Card|
            #[trigger] deck@.to_multiset().count(card) == rounds_for(len as nat)
                * copies_in_canonical_deck(card) && deck@.to_multiset().count(card) * 108
                == copies_in_canonical_deck(card) * deck@.len() by {
            lemma_whole_rounds_keep_proportions(rounds as nat, card);
            lemma_canonical_deck_composition(card);
        }
    }
    deck
}

/// Shuffles `cards` in place with `rand`'s `SliceRandom::shuffle`, drawing
/// from the thread's generator. The shuffle only ever swaps two cards, so
/// the same cards are there afterwards; nothing is claimed of their order.
/// The generator gives up (panics) where the system cannot seed it.
#[verifier::external_body]
pub(crate) fn shuffle_cards(cards: &mut Vec<Card>)
    ensures
        final(cards)@.to_multiset() == old(cards)@.to_multiset(),
{
    cards.shuffle(&mut thread_rng());
}

} // verus!
