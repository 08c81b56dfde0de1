use rand::seq::SliceRandom;
use rand::SeedableRng;
use vstd::prelude::*;
use crate::card::{Card, Suit, Value};

verus! {

/// Number of cards in a full deck.
pub const DECK_SIZE: usize = 52;

/// Number of ranks in one suit.
pub const SUIT_SIZE: usize = 13;

/// Suits in the order the deck is built.
pub open spec fn suit_at(q: int) -> Suit {
    if q == 0 {
        Suit::Spade
    } else if q == 1 {
        Suit::Diamond
    } else if q == 2 {
        Suit::Club
    } else {
        Suit::Heart
    }
}

pub open spec fn suit_index(s: Suit) -> int {
    match s {
        Suit::Spade => 0,
        Suit::Diamond => 1,
        Suit::Club => 2,
        Suit::Heart => 3,
    }
}

/// Ranks by position, Ace first.
pub open spec fn value_at(k: int) -> Value {
    if k == 0 {
        Value::Ace
    } else if k == 1 {
        Value::Two
    } else if k == 2 {
        Value::Three
    } else if k == 3 {
        Value::Four
    } else if k == 4 {
        Value::Five
    } else if k == 5 {
        Value::Six
    } else if k == 6 {
        Value::Seven
    } else if k == 7 {
        Value::Eight
    } else if k == 8 {
        Value::Nine
    } else if k == 9 {
        Value::Ten
    } else if k == 10 {
        Value::Jack
    } else if k == 11 {
        Value::Queen
    } else {
        Value::King
    }
}

pub open spec fn value_index(v: Value) -> int {
    match v {
        Value::Ace => 0,
        Value::Two => 1,
        Value::Three => 2,
        Value::Four => 3,
        Value::Five => 4,
        Value::Six => 5,
        Value::Seven => 6,
        Value::Eight => 7,
        Value::Nine => 8,
        Value::Ten => 9,
        Value::Jack => 10,
        Value::Queen => 11,
        Value::King => 12,
    }
}

/// The card at position `i` of an unshuffled deck: spades and diamonds run
/// Ace to King, clubs and hearts King down to Ace; every card lies face down.
pub open spec fn standard_card(i: int) -> Card {
    let q = i / SUIT_SIZE as int;
    let r = i % SUIT_SIZE as int;
    Card { suit: suit_at(q), value: value_at(if q < 2 { r } else { 12 - r }), face_up: false }
}

/// The unshuffled deck, bottom card first.
pub open spec fn standard_deck() -> Seq<Card> {
    Seq::new(DECK_SIZE as nat, |i: int| standard_card(i))
}

/// What the seeded shuffle makes of a sequence of cards under a seed.
pub uninterp spec fn seeded_order(cards: Seq<Card>, seed: u64) -> Seq<Card>;

/// Relies on rand's `SliceRandom::shuffle` with `thread_rng()`: it only swaps
/// elements, so the cards are permuted.
#[verifier::external_body]
fn shuffle_cards(cards: &mut Vec<Card>)
    ensures
        final(cards)@.to_multiset() == old(cards)@.to_multiset(),
        final(cards)@.len() == old(cards)@.len(),
{
    cards.shuffle(&mut rand::thread_rng());
}

/// Relies on rand's `SliceRandom::shuffle` driven by `StdRng::seed_from_u64`:
/// the order depends on the cards and the seed alone, and it only swaps elements.
#[verifier::external_body]
fn shuffle_cards_seeded(cards: &mut Vec<Card>, seed: u64)
    ensures
        final(cards)@ == seeded_order(old(cards)@, seed),
        final(cards)@.to_multiset() == old(cards)@.to_multiset(),
        final(cards)@.len() == old(cards)@.len(),
{
    let mut rng = rand::rngs::StdRng::seed_from_u64(seed);
    cards.shuffle(&mut rng);
}

fn suit_of_index(q: usize) -> (r: Suit)
    ensures
        r == suit_at(q as int),
{
    if q == 0 {
        Suit::Spade
    } else if q == 1 {
        Suit::Diamond
    } else if q == 2 {
        Suit::Club
    } else {
        Suit::Heart
    }
}

fn value_of_index(k: usize) -> (r: Value)
    ensures
        r == value_at(k as int),
{
    if k == 0 {
        Value::Ace
    } else if k == 1 {
        Value::Two
    } else if k == 2 {
        Value::Three
    } else if k == 3 {
        Value::Four
    } else if k == 4 {
        Value::Five
    } else if k == 5 {
        Value::Six
    } else if k == 6 {
        Value::Seven
    } else if k == 7 {
        Value::Eight
    } else if k == 8 {
        Value::Nine
    } else if k == 9 {
        Value::Ten
    } else if k == 10 {
        Value::Jack
    } else if k == 11 {
        Value::Queen
    } else {
        Value::King
    }
}

/// A deck of at most 52 cards; the last card of the sequence is the top.
pub struct Deck {
    cards: Vec<Card>,
}

impl View for Deck {
    type V = Seq<Card>;

    closed spec fn view(&self) -> Seq<Card> {
        self.cards@
    }
}

impl Deck {
    /// A deck never holds more than a full deck's worth of cards.
    pub open spec fn wf(&self) -> bool {
        self@.len() <= DECK_SIZE
    }

    /// A full deck in the fixed construction order, every card face down.
    pub fn new() -> (r: Deck)
        ensures
            r@ == standard_deck(),
            r.wf(),
    {
        let mut cards: Vec<Card> = Vec::new();
        let mut i: usize = 0;
        while i < DECK_SIZE
            invariant
                i <= DECK_SIZE,
                cards@ == Seq::new(i as nat, |j: int| standard_card(j)),
            decreases DECK_SIZE - i,
        {
            let q: usize = i / SUIT_SIZE;
            let r: usize = i % SUIT_SIZE;
            let k: usize = if q < 2 { r } else { 12 - r };
            cards.push(Card { suit: suit_of_index(q), value: value_of_index(k), face_up: false });
            i = i + 1;
            assert(cards@ =~= Seq::new(i as nat, |j: int| standard_card(j)));
        }
        Deck { cards }
    }

    /// The cards, bottom first.
    pub fn cards(&self) -> (r: &Vec<Card>)
        ensures
            r@ == self@,
    {
        &self.cards
    }

    /// Number of cards left.
    pub fn len(&self) -> (r: usize)
        ensures
            r == self@.len(),
    {
        self.cards.len()
    }

    /// Puts the cards in a random order.
    pub fn shuffle(&mut self)
        ensures
            final(self)@.to_multiset() == old(self)@.to_multiset(),
            final(self)@.len() == old(self)@.len(),
    {
        shuffle_cards(&mut self.cards);
    }

    /// Puts the cards in the order that `seed` determines.
    pub fn shuffle_seeded(&mut self, seed: u64)
        ensures
            final(self)@ == seeded_order(old(self)@, seed),
            final(self)@.to_multiset() == old(self)@.to_multiset(),
            final(self)@.len() == old(self)@.len(),
    {
        shuffle_cards_seeded(&mut self.cards, seed);
    }

    /// Takes the top card, or `None` when the deck is empty.
    pub fn draw(&mut self) -> (r: Option<Card>)
        ensures
            old(self)@.len() == 0 ==> r.is_none() && final(self)@ == old(self)@,
            old(self)@.len() > 0 ==> r == Some(old(self)@.last()) && final(self)@
                == old(self)@.drop_last(),
    {
        self.cards.pop()
    }
}

/// A new deck holds every suit and rank, face down.
pub proof fn lemma_standard_deck_complete(s: Suit, v: Value)
    ensures
        exists|i: int|
            0 <= i < standard_deck().len() && #[trigger] standard_deck()[i] == (Card {
                suit: s,
                value: v,
                face_up: false,
            }),
{
    let q = suit_index(s);
    let i = 13 * q + if q < 2 { value_index(v) } else { 12 - value_index(v) };
    assert(standard_deck()[i] == Card { suit: s, value: v, face_up: false });
}

/// No suit and rank occurs twice in a new deck.
pub proof fn lemma_standard_deck_unique()
    ensures
        standard_deck().len() == DECK_SIZE,
        forall|i: int, j: int|
            0 <= i < standard_deck().len() && 0 <= j < standard_deck().len()
                && (#[trigger] standard_deck()[i]).suit == (#[trigger] standard_deck()[j]).suit
                && standard_deck()[i].value == standard_deck()[j].value ==> i == j,
{
    assert forall|i: int, j: int|
        0 <= i < standard_deck().len() && 0 <= j < standard_deck().len()
            && (#[trigger] standard_deck()[i]).suit == (#[trigger] standard_deck()[j]).suit
            && standard_deck()[i].value == standard_deck()[j].value implies i == j by {
        let qi = i / 13;
        let qj = j / 13;
        assert(qi == qj);
        let ri = i % 13;
        let rj = j % 13;
        assert(ri == rj);
    }
}

} // verus!

verus! {

/// Any order of a new deck, a shuffled one included, holds each suit and
/// rank exactly once.
pub proof fn lemma_reordered_deck_complete(d: Seq<Card>, s: Suit, v: Value)
    requires
        d.to_multiset() == standard_deck().to_multiset(),
    ensures
        d.to_multiset().count(Card { suit: s, value: v, face_up: false }) == 1,
{
    let c = Card { suit: s, value: v, face_up: false };
    lemma_standard_deck_unique();
    lemma_standard_deck_complete(s, v);
    assert(standard_deck().no_duplicates());
    standard_deck().lemma_multiset_has_no_duplicates();
    vstd::seq_lib::to_multiset_contains(standard_deck(), c);
}

} // verus!
