use vstd::prelude::*;
use crate::card::{card_text, points, Card, Value};
use crate::deck::Deck;
use crate::error::GameError;

verus! {

/// The total a hand must not exceed.
pub const BLACKJACK: i32 = 21;

/// Sum of the points of the face-up cards, each ace counted as 11.
pub open spec fn raw_total(hand: Seq<Card>) -> int
    decreases hand.len(),
{
    if hand.len() == 0 {
        0
    } else {
        let c = hand.last();
        raw_total(hand.drop_last()) + if c.face_up { points(c.value) } else { 0 }
    }
}

/// Number of face-up aces.
pub open spec fn face_up_aces(hand: Seq<Card>) -> int
    decreases hand.len(),
{
    if hand.len() == 0 {
        0
    } else {
        let c = hand.last();
        face_up_aces(hand.drop_last()) + if c.face_up && c.value == Value::Ace { 1int } else { 0 }
    }
}

/// Counts aces as 1 instead of 11, one at a time, while the total is over 21.
pub open spec fn soften(total: int, aces: int) -> int
    decreases aces,
{
    if total > 21 && aces > 0 {
        soften(total - 10, aces - 1)
    } else {
        total
    }
}

/// The blackjack score of a hand, counting face-up cards only.
pub open spec fn score(hand: Seq<Card>) -> int {
    soften(raw_total(hand), face_up_aces(hand))
}

/// The card turned face up.
pub open spec fn shown(c: Card) -> Card {
    Card { face_up: true, ..c }
}

/// Whether a hand is small enough for its score to fit in an `i32`.
pub open spec fn hand_fits(hand: Seq<Card>) -> bool {
    11 * hand.len() <= i32::MAX
}

pub proof fn lemma_total_bounds(hand: Seq<Card>)
    ensures
        0 <= face_up_aces(hand) <= hand.len(),
        0 <= raw_total(hand) <= 11 * hand.len(),
        11 * face_up_aces(hand) <= raw_total(hand),
    decreases hand.len(),
{
    if hand.len() > 0 {
        lemma_total_bounds(hand.drop_last());
    }
}

pub proof fn lemma_soften_bounds(total: int, aces: int)
    ensures
        total >= 0 ==> soften(total, aces) >= 0,
        soften(total, aces) <= total,
    decreases aces,
{
    if total > 21 && aces > 0 {
        lemma_soften_bounds(total - 10, aces - 1);
    }
}

/// A face-down card added to a hand leaves its score as it was.
pub proof fn lemma_face_down_keeps_score(hand: Seq<Card>, c: Card)
    requires
        !c.face_up,
    ensures
        score(hand.push(c)) == score(hand),
{
    assert(hand.push(c).drop_last() =~= hand);
}

/// Whether a hand wins against a dealer with the given score: a natural
/// (two cards making 21), or at most 21 and either above the dealer or
/// against a dealer who went bust.
pub open spec fn wins(hand: Seq<Card>, dealer_score: int) -> bool {
    (score(hand) == 21 && hand.len() == 2) || (score(hand) <= 21 && (score(hand) > dealer_score
        || dealer_score > 21))
}

pub open spec fn digit_text(d: int) -> Seq<char> {
    if d == 0 {
        "0"@
    } else if d == 1 {
        "1"@
    } else if d == 2 {
        "2"@
    } else if d == 3 {
        "3"@
    } else if d == 4 {
        "4"@
    } else if d == 5 {
        "5"@
    } else if d == 6 {
        "6"@
    } else if d == 7 {
        "7"@
    } else if d == 8 {
        "8"@
    } else {
        "9"@
    }
}

/// The decimal digits of `n`.
pub open spec fn decimal(n: nat) -> Seq<char>
    decreases n,
{
    if n < 10 {
        digit_text(n as int)
    } else {
        decimal(n / 10) + digit_text((n % 10) as int)
    }
}

/// The cards of a hand as shown, separated by commas.
pub open spec fn hand_text(hand: Seq<Card>) -> Seq<char>
    decreases hand.len(),
{
    if hand.len() == 0 {
        Seq::empty()
    } else if hand.len() == 1 {
        card_text(hand[0])
    } else {
        hand_text(hand.drop_last()) + ", "@ + card_text(hand.last())
    }
}

/// How a player reads on the table: name, hand and score.
pub open spec fn player_text(name: Seq<char>, hand: Seq<Card>) -> Seq<char> {
    name + ": ["@ + hand_text(hand) + "], Sum: "@ + decimal(score(hand) as nat)
}

fn digit_str(d: u32) -> (r: &'static str)
    requires
        d < 10,
    ensures
        r@ == digit_text(d as int),
{
    if d == 0 {
        "0"
    } else if d == 1 {
        "1"
    } else if d == 2 {
        "2"
    } else if d == 3 {
        "3"
    } else if d == 4 {
        "4"
    } else if d == 5 {
        "5"
    } else if d == 6 {
        "6"
    } else if d == 7 {
        "7"
    } else if d == 8 {
        "8"
    } else {
        "9"
    }
}

/// `n` written in decimal.
pub fn decimal_string(n: u32) -> (r: String)
    ensures
        r@ == decimal(n as nat),
    decreases n,
{
    let last = digit_str(n % 10);
    if n < 10 {
        String::from_str(last)
    } else {
        decimal_string(n / 10).concat(last)
    }
}

/// A hand with a name; its score is always derived from the cards.
#[derive(Debug)]
pub struct Player {
    pub name: String,
    pub cards: Vec<Card>,
}

impl Player {
    /// A player with an empty hand.
    pub fn new(name: String) -> (r: Player)
        ensures
            r.name == name,
            r.cards@.len() == 0,
    {
        let cards = Vec::new();
        Player { name, cards }
    }

    /// The score of the hand as it lies.
    pub open spec fn score(&self) -> int {
        score(self.cards@)
    }

    /// Draws the top card of `deck` into the hand, face up or down as asked.
    pub fn draw_from(&mut self, deck: &mut Deck, face_up: bool) -> (r: Result<(), GameError>)
        ensures
            old(deck)@.len() == 0 ==> r == Err::<(), GameError>(GameError::EmptyDeck)
                && *final(self) == *old(self) && final(deck)@ == old(deck)@,
            old(deck)@.len() > 0 ==> r == Ok::<(), GameError>(()) && final(deck)@
                == old(deck)@.drop_last() && final(self).name == old(self).name
                && final(self).cards@ == old(self).cards@.push(
                Card { face_up, ..old(deck)@.last() },
            ),
    {
        match deck.draw() {
            None => Err(GameError::EmptyDeck),
            Some(card) => {
                let mut card = card;
                if card.face_up != face_up {
                    card.flip();
                }
                self.cards.push(card);
                Ok(())
            },
        }
    }

    /// The score of the face-up cards, aces counting 11 or 1.
    pub fn get_sum(&self) -> (r: i32)
        requires
            hand_fits(self.cards@),
        ensures
            r == self.score(),
            r >= 0,
    {
        let mut total: i32 = 0;
        let mut aces: i32 = 0;
        let mut i: usize = 0;
        while i < self.cards.len()
            invariant
                i <= self.cards@.len(),
                hand_fits(self.cards@),
                total == raw_total(self.cards@.take(i as int)),
                aces == face_up_aces(self.cards@.take(i as int)),
            decreases self.cards@.len() - i,
        {
            let card = self.cards[i];
            proof {
                assert(self.cards@.take(i + 1).drop_last() =~= self.cards@.take(i as int));
                lemma_total_bounds(self.cards@.take(i as int));
            }
            if card.face_up {
                total = total + card.value.points() as i32;
                if card.value == Value::Ace {
                    aces = aces + 1;
                }
            }
            i = i + 1;
        }
        assert(self.cards@.take(i as int) =~= self.cards@);
        proof {
            lemma_total_bounds(self.cards@);
            lemma_soften_bounds(total as int, aces as int);
        }
        while total > BLACKJACK && aces > 0
            invariant
                aces >= 0,
                total >= 0,
                soften(total as int, aces as int) == self.score(),
            decreases aces,
        {
            total = total - 10;
            aces = aces - 1;
        }
        total
    }

    /// Whether this hand wins against a dealer holding `dealer_score`.
    pub fn wins_against(&self, dealer_score: i32) -> (r: bool)
        requires
            hand_fits(self.cards@),
        ensures
            r == wins(self.cards@, dealer_score as int),
    {
        let s = self.get_sum();
        (s == BLACKJACK && self.cards.len() == 2) || (s <= BLACKJACK && (s > dealer_score
            || dealer_score > BLACKJACK))
    }

    /// The player's name, hand and score as shown on the table.
    pub fn display(&self) -> (r: String)
        requires
            hand_fits(self.cards@),
        ensures
            r@ == player_text(self.name@, self.cards@),
    {
        let mut text = String::from_str(self.name.as_str()).concat(": [");
        let ghost head = text@;
        let mut i: usize = 0;
        while i < self.cards.len()
            invariant
                i <= self.cards@.len(),
                text@ == head + hand_text(self.cards@.take(i as int)),
            decreases self.cards@.len() - i,
        {
            proof {
                assert(self.cards@.take(i + 1).drop_last() =~= self.cards@.take(i as int));
            }
            if i > 0 {
                text = text.concat(", ");
            }
            let shown = self.cards[i].display();
            text = text.concat(shown.as_str());
            i = i + 1;
        }
        assert(self.cards@.take(i as int) =~= self.cards@);
        let sum = self.get_sum();
        text = text.concat("], Sum: ");
        let digits = decimal_string(sum as u32);
        text.concat(digits.as_str())
    }

    /// Turns every card of the hand face up.
    pub fn make_all_face_up(&mut self)
        ensures
            final(self).name == old(self).name,
            final(self).cards@ == old(self).cards@.map_values(|c: Card| shown(c)),
    {
        let mut i: usize = 0;
        while i < self.cards.len()
            invariant
                i <= self.cards@.len(),
                self.cards@.len() == old(self).cards@.len(),
                self.name == old(self).name,
                forall|j: int| 0 <= j < i ==> self.cards@[j] == shown(#[trigger] old(self).cards@[j]),
                forall|j: int| i <= j < self.cards@.len() ==> self.cards@[j] == #[trigger] old(self).cards@[j],
            decreases self.cards@.len() - i,
        {
            let mut card = self.cards[i];
            if !card.face_up {
                card.flip();
            }
            self.cards.set(i, card);
            i = i + 1;
        }
        assert(self.cards@ =~= old(self).cards@.map_values(|c: Card| shown(c)));
    }
}

} // verus!
