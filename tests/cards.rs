use blackjack::card::{Card, Suit, Value};
use blackjack::deck::Deck;
use blackjack::error::GameError;
use blackjack::player::{decimal_string, Player};

fn up(suit: Suit, value: Value) -> Card {
    Card::new(suit, value, true)
}

fn hand(cards: Vec<Card>) -> Player {
    let mut p = Player::new(String::from("Player 1"));
    p.cards = cards;
    p
}

#[test]
fn card_display_face_down_and_up() {
    let mut c = Card::new(Suit::Spade, Value::Ace, false);
    assert_eq!(c.display(), "Face Down");
    c.flip();
    assert!(c.face_up);
    assert_eq!(c.display(), "Ace of Spades");
    c.flip();
    assert!(!c.face_up);
    assert_eq!(Card::new(Suit::Heart, Value::Queen, true).display(), "Queen of Hearts");
}

#[test]
fn new_deck_holds_every_card_once() {
    let deck = Deck::new();
    let cards = deck.cards();
    assert_eq!(cards.len(), 52);
    assert_eq!(deck.len(), 52);
    for i in 0..cards.len() {
        assert!(!cards[i].face_up);
        for j in (i + 1)..cards.len() {
            assert!(!(cards[i].suit == cards[j].suit && cards[i].value == cards[j].value));
        }
    }
}

#[test]
fn new_deck_construction_order() {
    let deck = Deck::new();
    let c = deck.cards();
    assert_eq!((c[0].suit, c[0].value), (Suit::Spade, Value::Ace));
    assert_eq!((c[12].suit, c[12].value), (Suit::Spade, Value::King));
    assert_eq!((c[13].suit, c[13].value), (Suit::Diamond, Value::Ace));
    assert_eq!((c[26].suit, c[26].value), (Suit::Club, Value::King));
    assert_eq!((c[38].suit, c[38].value), (Suit::Club, Value::Ace));
    assert_eq!((c[39].suit, c[39].value), (Suit::Heart, Value::King));
    assert_eq!((c[51].suit, c[51].value), (Suit::Heart, Value::Ace));
}

fn sorted_keys(d: &Deck) -> Vec<(usize, usize)> {
    let mut keys: Vec<(usize, usize)> =
        d.cards().iter().map(|c| (c.suit as usize, c.value as usize)).collect();
    keys.sort();
    keys
}

#[test]
fn shuffle_keeps_the_same_cards() {
    let fresh = Deck::new();
    let mut deck = Deck::new();
    deck.shuffle();
    assert_eq!(deck.len(), 52);
    assert_eq!(sorted_keys(&deck), sorted_keys(&fresh));
}

#[test]
fn shuffle_moves_cards_around() {
    let fresh = Deck::new();
    let mut moved = 0;
    for _ in 0..5 {
        let mut deck = Deck::new();
        deck.shuffle();
        if deck.cards() != fresh.cards() {
            moved += 1;
        }
    }
    assert!(moved >= 4);
}

#[test]
fn shuffle_top_card_spreads_over_suits() {
    let mut seen = [0usize; 4];
    for _ in 0..400 {
        let mut deck = Deck::new();
        deck.shuffle();
        let top = deck.draw().unwrap();
        seen[top.suit as usize] += 1;
    }
    for count in seen.iter() {
        assert!(*count > 40);
    }
}

#[test]
fn seeded_shuffle_is_reproducible() {
    let mut a = Deck::new();
    let mut b = Deck::new();
    a.shuffle_seeded(7);
    b.shuffle_seeded(7);
    assert_eq!(a.cards(), b.cards());
    assert_eq!(sorted_keys(&a), sorted_keys(&Deck::new()));
    let mut c = Deck::new();
    c.shuffle_seeded(8);
    assert_ne!(a.cards(), c.cards());
}

#[test]
fn draw_takes_from_the_top_until_empty() {
    let mut deck = Deck::new();
    let top = deck.draw().unwrap();
    assert_eq!((top.suit, top.value), (Suit::Heart, Value::Ace));
    assert_eq!(deck.len(), 51);
    for _ in 0..51 {
        assert!(deck.draw().is_some());
    }
    assert_eq!(deck.draw(), None);
    assert_eq!(deck.len(), 0);
}

#[test]
fn draw_from_sets_visibility() {
    let mut deck = Deck::new();
    let mut p = Player::new(String::from("Player 1"));
    assert_eq!(p.draw_from(&mut deck, true), Ok(()));
    assert_eq!(p.draw_from(&mut deck, false), Ok(()));
    assert_eq!(p.cards.len(), 2);
    assert!(p.cards[0].face_up);
    assert!(!p.cards[1].face_up);
    assert_eq!((p.cards[1].suit, p.cards[1].value), (Suit::Heart, Value::Two));
    assert_eq!(deck.len(), 50);
}

#[test]
fn draw_from_empty_deck_fails() {
    let mut deck = Deck::new();
    while deck.draw().is_some() {}
    let mut p = Player::new(String::from("Player 1"));
    assert_eq!(p.draw_from(&mut deck, true), Err(GameError::EmptyDeck));
    assert!(p.cards.is_empty());
}

#[test]
fn two_aces_and_nine_score_21() {
    let p = hand(vec![
        up(Suit::Spade, Value::Ace),
        up(Suit::Heart, Value::Ace),
        up(Suit::Club, Value::Nine),
    ]);
    assert_eq!(p.get_sum(), 21);
}

#[test]
fn ace_king_scores_21() {
    let p = hand(vec![up(Suit::Spade, Value::Ace), up(Suit::Heart, Value::King)]);
    assert_eq!(p.get_sum(), 21);
}

#[test]
fn ten_jack_two_is_bust() {
    let p = hand(vec![
        up(Suit::Spade, Value::Ten),
        up(Suit::Heart, Value::Jack),
        up(Suit::Club, Value::Two),
    ]);
    assert_eq!(p.get_sum(), 22);
}

#[test]
fn every_rank_scores_its_points() {
    let ranks = [
        (Value::Ace, 11),
        (Value::Two, 2),
        (Value::Three, 3),
        (Value::Four, 4),
        (Value::Five, 5),
        (Value::Six, 6),
        (Value::Seven, 7),
        (Value::Eight, 8),
        (Value::Nine, 9),
        (Value::Ten, 10),
        (Value::Jack, 10),
        (Value::Queen, 10),
        (Value::King, 10),
    ];
    for (v, pts) in ranks.iter() {
        assert_eq!(hand(vec![up(Suit::Diamond, *v)]).get_sum(), *pts);
    }
    assert_eq!(hand(vec![]).get_sum(), 0);
}

#[test]
fn four_aces_soften_as_needed() {
    let aces = vec![
        up(Suit::Spade, Value::Ace),
        up(Suit::Heart, Value::Ace),
        up(Suit::Club, Value::Ace),
        up(Suit::Diamond, Value::Ace),
    ];
    assert_eq!(hand(aces.clone()).get_sum(), 14);
    let mut more = aces;
    more.push(up(Suit::Spade, Value::King));
    more.push(up(Suit::Spade, Value::Nine));
    assert_eq!(hand(more).get_sum(), 23);
}

#[test]
fn face_down_card_does_not_count() {
    let mut p = hand(vec![up(Suit::Spade, Value::Nine), up(Suit::Heart, Value::Five)]);
    assert_eq!(p.get_sum(), 14);
    p.cards.push(Card::new(Suit::Club, Value::King, false));
    assert_eq!(p.get_sum(), 14);
    p.cards.push(Card::new(Suit::Club, Value::Ace, false));
    assert_eq!(p.get_sum(), 14);
    p.make_all_face_up();
    assert!(p.cards.iter().all(|c| c.face_up));
    assert_eq!(p.get_sum(), 25);
    assert_eq!(p.cards[2].value, Value::King);
}

#[test]
fn player_display_lists_hand_and_sum() {
    let mut p = hand(vec![up(Suit::Heart, Value::Ace), Card::new(Suit::Spade, Value::Two, false)]);
    assert_eq!(p.display(), "Player 1: [Ace of Hearts, Face Down], Sum: 11");
    p.make_all_face_up();
    assert_eq!(p.display(), "Player 1: [Ace of Hearts, Two of Spades], Sum: 13");
    assert_eq!(hand(vec![]).display(), "Player 1: [], Sum: 0");
}

#[test]
fn decimal_string_writes_digits() {
    assert_eq!(decimal_string(0), "0");
    assert_eq!(decimal_string(7), "7");
    assert_eq!(decimal_string(21), "21");
    assert_eq!(decimal_string(4294967295), "4294967295");
}
