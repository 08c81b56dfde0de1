use vstd::prelude::*;

verus! {

/// The four suits of a standard deck.
#[derive(Debug, Clone, Copy, PartialEq, Eq, Structural)]
pub enum Suit {
    Spade,
    Diamond,
    Club,
    Heart,
}

/// The thirteen ranks, from Ace up to King.
#[derive(Debug, Clone, Copy, PartialEq, Eq, Structural)]
pub enum Value {
    Ace,
    Two,
    Three,
    Four,
    Five,
    Six,
    Seven,
    Eight,
    Nine,
    Ten,
    Jack,
    Queen,
    King,
}

/// A playing card together with whether it lies face up.
#[derive(Debug, Clone, Copy, PartialEq, Eq, Structural)]
pub struct Card {
    pub suit: Suit,
    pub value: Value,
    pub face_up: bool,
}

/// The points a card of this rank is worth before any ace is softened.
pub open spec fn points(v: Value) -> int {
    match v {
        Value::Ace => 11,
        Value::Two => 2,
        Value::Three => 3,
        Value::Four => 4,
        Value::Five => 5,
        Value::Six => 6,
        Value::Seven => 7,
        Value::Eight => 8,
        Value::Nine => 9,
        _ => 10,
    }
}

pub open spec fn suit_name(s: Suit) -> Seq<char> {
    match s {
        Suit::Spade => "Spade"@,
        Suit::Diamond => "Diamond"@,
        Suit::Club => "Club"@,
        Suit::Heart => "Heart"@,
    }
}

pub open spec fn value_name(v: Value) -> Seq<char> {
    match v {
        Value::Ace => "Ace"@,
        Value::Two => "Two"@,
        Value::Three => "Three"@,
        Value::Four => "Four"@,
        Value::Five => "Five"@,
        Value::Six => "Six"@,
        Value::Seven => "Seven"@,
        Value::Eight => "Eight"@,
        Value::Nine => "Nine"@,
        Value::Ten => "Ten"@,
        Value::Jack => "Jack"@,
        Value::Queen => "Queen"@,
        Value::King => "King"@,
    }
}

/// How a card reads on the table: hidden, or "<rank> of <suit>s".
pub open spec fn card_text(c: Card) -> Seq<char> {
    if !c.face_up {
        "Face Down"@
    } else {
        value_name(c.value) + " of "@ + suit_name(c.suit) + "s"@
    }
}

impl Suit {
    pub fn name(&self) -> (r: &'static str)
        ensures
            r@ == suit_name(*self),
    {
        match self {
            Suit::Spade => "Spade",
            Suit::Diamond => "Diamond",
            Suit::Club => "Club",
            Suit::Heart => "Heart",
        }
    }
}

impl Value {
    pub fn name(&self) -> (r: &'static str)
        ensures
            r@ == value_name(*self),
    {
        match self {
            Value::Ace => "Ace",
            Value::Two => "Two",
            Value::Three => "Three",
            Value::Four => "Four",
            Value::Five => "Five",
            Value::Six => "Six",
            Value::Seven => "Seven",
            Value::Eight => "Eight",
            Value::Nine => "Nine",
            Value::Ten => "Ten",
            Value::Jack => "Jack",
            Value::Queen => "Queen",
            Value::King => "King",
        }
    }

    /// Points of this rank, an ace counting 11.
    pub fn points(&self) -> (r: u8)
        ensures
            r as int == points(*self),
    {
        match self {
            Value::Ace => 11,
            Value::Two => 2,
            Value::Three => 3,
            Value::Four => 4,
            Value::Five => 5,
            Value::Six => 6,
            Value::Seven => 7,
            Value::Eight => 8,
            Value::Nine => 9,
            Value::Ten | Value::Jack | Value::Queen | Value::King => 10,
        }
    }
}

impl Card {
    pub fn new(suit: Suit, value: Value, face_up: bool) -> (r: Card)
        ensures
            r == (Card { suit, value, face_up }),
    {
        Card { suit, value, face_up }
    }

    /// Turns the card over.
    pub fn flip(&mut self)
        ensures
            *final(self) == (Card { face_up: !old(self).face_up, ..*old(self) }),
    {
        self.face_up = !self.face_up;
    }

    /// The text shown for this card.
    pub fn display(&self) -> (r: String)
        ensures
            r@ == card_text(*self),
    {
        if !self.face_up {
            String::from_str("Face Down")
        } else {
            let s = String::from_str(self.value.name());
            let s = s.concat(" of ");
            let s = s.concat(self.suit.name());
            s.concat("s")
        }
    }
}

} // verus!
