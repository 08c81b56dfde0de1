use vstd::prelude::*;
use crate::card::Card;
use crate::deck::{seeded_order, standard_deck, Deck, DECK_SIZE};
use crate::error::GameError;
use crate::player::{decimal, decimal_string, hand_fits, score, shown, wins, Player};

verus! {

/// Fewest players a round takes.
pub const MIN_PLAYERS: i32 = 1;

/// Most players a round takes.
pub const MAX_PLAYERS: i32 = 4;

/// The dealer draws while its score is below this.
pub const DEALER_STANDS_AT: i32 = 17;

/// The card turned face down.
pub open spec fn hidden(c: Card) -> Card {
    Card { face_up: false, ..c }
}

/// The name of the player at position `i`, counted from zero.
pub open spec fn player_name(i: int) -> Seq<char> {
    "Player "@ + decimal((i + 1) as nat)
}

pub open spec fn valid_player_count(n: i32) -> bool {
    MIN_PLAYERS <= n <= MAX_PLAYERS
}

/// The opening hand of player `i` of `n` dealt from `d`: one card in each
/// of the two passes, both face up.
pub open spec fn opening_hand(d: Seq<Card>, n: int, i: int) -> Seq<Card> {
    seq![shown(d[d.len() - 1 - i]), shown(d[d.len() - 2 - n - i])]
}

/// The dealer's opening hand: the hole card face down, then one face up.
pub open spec fn dealer_opening(d: Seq<Card>, n: int) -> Seq<Card> {
    seq![hidden(d[d.len() - 1 - n]), shown(d[d.len() - 2 - 2 * n])]
}

/// The dealer reveals the hole card, then draws face up until the score
/// reaches 17; `None` when the deck runs out first.
pub open spec fn dealer_play(hand: Seq<Card>, deck: Seq<Card>) -> Option<(Seq<Card>, Seq<Card>)>
    decreases deck.len(),
{
    if score(hand) >= DEALER_STANDS_AT {
        Some((hand, deck))
    } else if deck.len() == 0 {
        None
    } else {
        dealer_play(hand.push(shown(deck.last())), deck.drop_last())
    }
}

/// The winning players, in their order.
pub open spec fn winners_of(players: Seq<Player>, dealer_score: int) -> Seq<Player>
    decreases players.len(),
{
    if players.len() == 0 {
        Seq::empty()
    } else {
        let w = winners_of(players.drop_last(), dealer_score);
        if wins(players.last().cards@, dealer_score) {
            w.push(players.last())
        } else {
            w
        }
    }
}

/// Whether a key asks for another card.
pub open spec fn is_hit_key(k: char) -> bool {
    k == 'H' || k == 'h'
}

/// Whether a key ends the player's turn.
pub open spec fn is_stand_key(k: char) -> bool {
    k == 'S' || k == 's'
}

/// What a key did during a player's turn.
#[derive(Debug, Clone, Copy, PartialEq, Eq, Structural)]
pub enum Turn {
    /// The key was neither hit nor stand; nothing changed.
    Ignored,
    /// A card was drawn and the player may go on.
    Drew,
    /// A card was drawn and the score went over 21; the turn is over.
    Bust,
    /// A card was drawn and the score is exactly 21; the turn is over.
    Reached21,
    /// The player stood; the turn is over.
    Stood,
}

/// The outcome of a round: the players who won, in their order.
#[derive(Debug)]
pub enum BlackjackResult {
    Winners(Vec<Player>),
}

/// One round: the deck, the dealer, the players, whose turn it is
/// (`turn == players.len()` once every player is done) and whether the
/// dealer has played.
pub struct Round {
    pub deck: Deck,
    pub dealer: Player,
    pub players: Vec<Player>,
    pub turn: usize,
    pub dealer_done: bool,
}

impl Round {
    /// Every hand and the deck together never exceed one full deck.
    pub open spec fn wf(&self) -> bool {
        &&& self.deck.wf()
        &&& self.players@.len() <= MAX_PLAYERS
        &&& self.turn <= self.players@.len()
        &&& self.dealer.cards@.len() + self.deck@.len() <= DECK_SIZE
        &&& forall|i: int|
            0 <= i < self.players@.len() ==> #[trigger] self.players@[i].cards@.len()
                + self.deck@.len() <= DECK_SIZE
        &&& self.dealer_done ==> self.turn == self.players@.len()
    }

    /// The round as dealt to `n` players from the deck `d`, before anyone plays.
    pub open spec fn is_dealt_from(&self, n: int, d: Seq<Card>) -> bool {
        &&& self.players@.len() == n
        &&& forall|i: int|
            0 <= i < n ==> (#[trigger] self.players@[i]).cards@ == opening_hand(d, n, i)
                && self.players@[i].name@ == player_name(i)
        &&& self.dealer.name@ == "Dealer"@
        &&& self.dealer.cards@ == dealer_opening(d, n)
        &&& self.deck@ == d.take(d.len() - 2 * n - 2)
        &&& self.turn == 0
        &&& !self.dealer_done
    }
}

fn player_name_text(i: i32) -> (r: String)
    requires
        0 <= i < MAX_PLAYERS,
    ensures
        r@ == player_name(i as int),
{
    let number = decimal_string((i + 1) as u32);
    String::from_str("Player ").concat(number.as_str())
}

/// Player `i` draws the top card of `deck`.
fn deal_to(players: &mut Vec<Player>, i: usize, deck: &mut Deck, face_up: bool)
    requires
        i < old(players)@.len(),
        old(deck)@.len() > 0,
    ensures
        final(deck)@ == old(deck)@.drop_last(),
        final(players)@.len() == old(players)@.len(),
        forall|j: int|
            0 <= j < old(players)@.len() && j != i ==> #[trigger] final(players)@[j] == old(
                players,
            )@[j],
        final(players)@[i as int].name == old(players)@[i as int].name,
        final(players)@[i as int].cards@ == old(players)@[i as int].cards@.push(
            Card { face_up, ..old(deck)@.last() },
        ),
{
    let _ = players[i].draw_from(deck, face_up);
}

impl Round {
    /// Deals a round to `num_players` players from `deck` as it lies: the
    /// first card to each player, the dealer's hole card, the second card to
    /// each player, the dealer's face-up card.
    pub fn deal(num_players: i32, deck: Deck) -> (r: Result<Round, GameError>)
        requires
            deck.wf(),
        ensures
            !valid_player_count(num_players) <==> r == Err::<Round, GameError>(
                GameError::InvalidPlayerCount,
            ),
            valid_player_count(num_players) && deck@.len() < 2 * num_players + 2 ==> r == Err::<
                Round,
                GameError,
            >(GameError::EmptyDeck),
            valid_player_count(num_players) && deck@.len() >= 2 * num_players + 2 ==> r is Ok
                && r->Ok_0.wf() && r->Ok_0.is_dealt_from(num_players as int, deck@),
    {
        if num_players < MIN_PLAYERS || num_players > MAX_PLAYERS {
            return Err(GameError::InvalidPlayerCount);
        }
        let n: usize = num_players as usize;
        if deck.len() < 2 * n + 2 {
            return Err(GameError::EmptyDeck);
        }
        let ghost d = deck@;
        let ghost len = d.len() as int;
        let mut deck = deck;
        let mut players: Vec<Player> = Vec::new();
        let mut i: usize = 0;
        while i < n
            invariant
                i <= n <= MAX_PLAYERS,
                players@.len() == i,
                forall|j: int|
                    0 <= j < i ==> (#[trigger] players@[j]).name@ == player_name(j)
                        && players@[j].cards@.len() == 0,
            decreases n - i,
        {
            players.push(Player::new(player_name_text(i as i32)));
            i = i + 1;
        }
        let mut i: usize = 0;
        while i < n
            invariant
                i <= n <= MAX_PLAYERS,
                n == num_players,
                len >= 2 * n + 2,
                d.len() == len,
                deck@ == d.take(len - i),
                players@.len() == n,
                forall|j: int|
                    0 <= j < n ==> (#[trigger] players@[j]).name@ == player_name(j),
                forall|j: int|
                    0 <= j < i ==> (#[trigger] players@[j]).cards@ == seq![shown(d[len - 1 - j])],
                forall|j: int| i <= j < n ==> (#[trigger] players@[j]).cards@.len() == 0,
            decreases n - i,
        {
            deal_to(&mut players, i, &mut deck, true);
            i = i + 1;
            proof {
                assert(deck@ =~= d.take(len - i));
                assert forall|j: int| 0 <= j < i implies (#[trigger] players@[j]).cards@
                    == seq![shown(d[len - 1 - j])] by {
                    if j == i - 1 {
                        assert(players@[j].cards@ =~= seq![shown(d[len - 1 - j])]);
                    }
                }
            }
        }
        let mut dealer = Player::new(String::from_str("Dealer"));
        let _ = dealer.draw_from(&mut deck, false);
        let mut i: usize = 0;
        while i < n
            invariant
                i <= n <= MAX_PLAYERS,
                n == num_players,
                len >= 2 * n + 2,
                d.len() == len,
                deck@ == d.take(len - n - 1 - i),
                players@.len() == n,
                dealer.name@ == "Dealer"@,
                dealer.cards@ == seq![hidden(d[len - 1 - n])],
                forall|j: int|
                    0 <= j < n ==> (#[trigger] players@[j]).name@ == player_name(j),
                forall|j: int|
                    0 <= j < i ==> (#[trigger] players@[j]).cards@ == opening_hand(d, n as int, j),
                forall|j: int|
                    i <= j < n ==> (#[trigger] players@[j]).cards@ == seq![shown(d[len - 1 - j])],
            decreases n - i,
        {
            deal_to(&mut players, i, &mut deck, true);
            i = i + 1;
            proof {
                assert(deck@ =~= d.take(len - n - 1 - i));
                assert forall|j: int| 0 <= j < i implies (#[trigger] players@[j]).cards@
                    == opening_hand(d, n as int, j) by {
                    if j == i - 1 {
                        assert(players@[j].cards@ =~= opening_hand(d, n as int, j));
                    }
                }
            }
        }
        let _ = dealer.draw_from(&mut deck, true);
        proof {
            assert(dealer.cards@ =~= dealer_opening(d, n as int));
            assert(deck@ =~= d.take(len - 2 * n - 2));
        }
        Ok(Round { deck, dealer, players, turn: 0, dealer_done: false })
    }

    /// Builds and shuffles a fresh deck, then deals a round from it.
    pub fn start(num_players: i32) -> (r: Result<Round, GameError>)
        ensures
            !valid_player_count(num_players) <==> r == Err::<Round, GameError>(
                GameError::InvalidPlayerCount,
            ),
            valid_player_count(num_players) ==> r is Ok && r->Ok_0.wf() && exists|d: Seq<Card>|
                d.to_multiset() == standard_deck().to_multiset() && #[trigger] r->Ok_0.is_dealt_from(
                    num_players as int,
                    d,
                ),
    {
        if num_players < MIN_PLAYERS || num_players > MAX_PLAYERS {
            return Err(GameError::InvalidPlayerCount);
        }
        let mut deck = Deck::new();
        deck.shuffle();
        let ghost d = deck@;
        let r = Round::deal(num_players, deck);
        proof {
            if r is Ok {
                assert(r->Ok_0.is_dealt_from(num_players as int, d));
            }
        }
        r
    }

    /// Builds a fresh deck, shuffles it in the order `seed` determines, and
    /// deals a round from it; the same seed gives the same round.
    pub fn start_seeded(num_players: i32, seed: u64) -> (r: Result<Round, GameError>)
        ensures
            !valid_player_count(num_players) <==> r == Err::<Round, GameError>(
                GameError::InvalidPlayerCount,
            ),
            valid_player_count(num_players) ==> r is Ok && r->Ok_0.wf()
                && r->Ok_0.is_dealt_from(num_players as int, seeded_order(standard_deck(), seed)),
    {
        if num_players < MIN_PLAYERS || num_players > MAX_PLAYERS {
            return Err(GameError::InvalidPlayerCount);
        }
        let mut deck = Deck::new();
        deck.shuffle_seeded(seed);
        Round::deal(num_players, deck)
    }

    /// Applies one key pressed by the player whose turn it is: hit draws a
    /// card face up and ends the turn at 21 or above, stand ends the turn,
    /// any other key changes nothing.
    pub fn hit_or_stand(&mut self, key: char) -> (r: Result<Turn, GameError>)
        requires
            old(self).wf(),
            old(self).turn < old(self).players@.len(),
        ensures
            final(self).wf(),
            final(self).dealer == old(self).dealer,
            final(self).dealer_done == old(self).dealer_done,
            is_hit_key(key) && old(self).deck@.len() == 0 ==> r == Err::<Turn, GameError>(
                GameError::EmptyDeck,
            ) && *final(self) == *old(self),
            is_hit_key(key) && old(self).deck@.len() > 0 ==> {
                let t = old(self).turn as int;
                let hand = old(self).players@[t].cards@.push(shown(old(self).deck@.last()));
                &&& final(self).deck@ == old(self).deck@.drop_last()
                &&& final(self).players@.len() == old(self).players@.len()
                &&& forall|j: int|
                    0 <= j < old(self).players@.len() && j != t
                        ==> #[trigger] final(self).players@[j] == old(self).players@[j]
                &&& final(self).players@[t].name == old(self).players@[t].name
                &&& final(self).players@[t].cards@ == hand
                &&& r == Ok::<Turn, GameError>(
                    if score(hand) > 21 {
                        Turn::Bust
                    } else if score(hand) == 21 {
                        Turn::Reached21
                    } else {
                        Turn::Drew
                    },
                )
                &&& final(self).turn == if score(hand) >= 21 {
                    t + 1
                } else {
                    t
                }
            },
            is_stand_key(key) ==> r == Ok::<Turn, GameError>(Turn::Stood) && final(self).turn
                == old(self).turn + 1 && final(self).players == old(self).players
                && final(self).deck == old(self).deck,
            !is_hit_key(key) && !is_stand_key(key) ==> r == Ok::<Turn, GameError>(Turn::Ignored)
                && *final(self) == *old(self),
    {
        if key == 'H' || key == 'h' {
            if self.deck.len() == 0 {
                return Err(GameError::EmptyDeck);
            }
            let t = self.turn;
            deal_to(&mut self.players, t, &mut self.deck, true);
            assert(self.players@[t as int].cards@.len() + self.deck@.len() <= DECK_SIZE);
            let s = self.players[t].get_sum();
            if s > 21 {
                self.turn = t + 1;
                Ok(Turn::Bust)
            } else if s == 21 {
                self.turn = t + 1;
                Ok(Turn::Reached21)
            } else {
                Ok(Turn::Drew)
            }
        } else if key == 'S' || key == 's' {
            self.turn = self.turn + 1;
            Ok(Turn::Stood)
        } else {
            Ok(Turn::Ignored)
        }
    }

    /// The dealer's turn: reveal the hole card, then draw face up while the
    /// score is below 17.
    pub fn play_dealer(&mut self) -> (r: Result<(), GameError>)
        requires
            old(self).wf(),
            old(self).turn == old(self).players@.len(),
            !old(self).dealer_done,
        ensures
            final(self).wf(),
            final(self).players == old(self).players,
            final(self).turn == old(self).turn,
            final(self).dealer.name == old(self).dealer.name,
            match dealer_play(old(self).dealer.cards@.map_values(|c: Card| shown(c)), old(self).deck@) {
                Some(end) => r == Ok::<(), GameError>(()) && final(self).dealer.cards@ == end.0
                    && final(self).deck@ == end.1 && final(self).dealer_done,
                None => r == Err::<(), GameError>(GameError::EmptyDeck) && !final(self).dealer_done,
            },
    {
        self.dealer.make_all_face_up();
        let ghost start = self.dealer.cards@;
        let ghost deck0 = self.deck@;
        while self.dealer.get_sum() < DEALER_STANDS_AT
            invariant
                self.wf(),
                self.players == old(self).players,
                self.turn == old(self).turn,
                !self.dealer_done,
                self.dealer.name == old(self).dealer.name,
                dealer_play(self.dealer.cards@, self.deck@) == dealer_play(start, deck0),
                start == old(self).dealer.cards@.map_values(|c: Card| shown(c)),
                deck0 == old(self).deck@,
            decreases self.deck@.len(),
        {
            if self.deck.len() == 0 {
                return Err(GameError::EmptyDeck);
            }
            let _ = self.dealer.draw_from(&mut self.deck, true);
        }
        self.dealer_done = true;
        Ok(())
    }

    /// Ends the round: the players who won, in their order.
    pub fn settle(self) -> (r: BlackjackResult)
        requires
            self.wf(),
            self.dealer_done,
        ensures
            match r {
                BlackjackResult::Winners(w) => w@ == winners_of(
                    self.players@,
                    score(self.dealer.cards@),
                ),
            },
    {
        let dealer_score = self.dealer.get_sum();
        let mut players = self.players;
        let ghost all = players@;
        let mut winners: Vec<Player> = Vec::new();
        let n = players.len();
        let mut i: usize = 0;
        while i < n
            invariant
                i <= n == all.len(),
                forall|j: int| 0 <= j < all.len() ==> hand_fits(#[trigger] all[j].cards@),
                players@ == all.skip(i as int),
                winners@ == winners_of(all.take(i as int), dealer_score as int),
            decreases n - i,
        {
            let p = players.remove(0);
            proof {
                assert(all.take(i + 1).drop_last() =~= all.take(i as int));
                assert(all.skip(i + 1) =~= all.skip(i as int).subrange(1, all.len() - i));
                assert(p == all[i as int]);
            }
            if p.wins_against(dealer_score) {
                winners.push(p);
            }
            i = i + 1;
        }
        assert(all.take(n as int) =~= all);
        BlackjackResult::Winners(winners)
    }
}

} // verus!

verus! {

/// Every player whose hand wins against the dealer's score is among the
/// winners.
pub proof fn lemma_winning_hand_is_listed(players: Seq<Player>, dealer_score: int, i: int)
    requires
        0 <= i < players.len(),
        wins(players[i].cards@, dealer_score),
    ensures
        winners_of(players, dealer_score).contains(players[i]),
    decreases players.len(),
{
    let w = winners_of(players.drop_last(), dealer_score);
    if i == players.len() - 1 {
        assert(w.push(players.last()).last() == players[i]);
    } else {
        lemma_winning_hand_is_listed(players.drop_last(), dealer_score, i);
        let k = choose|k: int| 0 <= k < w.len() && w[k] == players[i];
        if wins(players.last().cards@, dealer_score) {
            assert(w.push(players.last())[k] == players[i]);
        }
    }
}

/// Only players whose hand wins are among the winners.
pub proof fn lemma_listed_hand_wins(players: Seq<Player>, dealer_score: int, p: Player)
    requires
        winners_of(players, dealer_score).contains(p),
    ensures
        players.contains(p),
        wins(p.cards@, dealer_score),
    decreases players.len(),
{
    if players.len() > 0 {
        let w = winners_of(players.drop_last(), dealer_score);
        if w.contains(p) {
            lemma_listed_hand_wins(players.drop_last(), dealer_score, p);
            let k = choose|k: int| 0 <= k < players.drop_last().len() && players.drop_last()[k] == p;
            assert(players[k] == p);
        } else {
            let k = choose|k: int| 0 <= k < winners_of(players, dealer_score).len() && winners_of(players, dealer_score)[k] == p;
            assert(k == w.len());
            assert(players[players.len() - 1] == p);
        }
    }
}

/// A natural (two cards making 21) wins against any dealer score, a dealer's
/// natural included.
pub proof fn lemma_natural_wins(players: Seq<Player>, dealer_score: int, i: int)
    requires
        0 <= i < players.len(),
        players[i].cards@.len() == 2,
        score(players[i].cards@) == 21,
    ensures
        winners_of(players, dealer_score).contains(players[i]),
{
    lemma_winning_hand_is_listed(players, dealer_score, i);
}

/// The dealer stops drawing only at 17 or more.
pub proof fn lemma_dealer_stands_at_17(hand: Seq<Card>, deck: Seq<Card>)
    requires
        dealer_play(hand, deck) is Some,
    ensures
        score(dealer_play(hand, deck)->Some_0.0) >= DEALER_STANDS_AT,
    decreases deck.len(),
{
    if score(hand) < DEALER_STANDS_AT && deck.len() > 0 {
        lemma_dealer_stands_at_17(hand.push(shown(deck.last())), deck.drop_last());
    }
}

/// When the dealer ends over 21, every player with 21 or less wins.
pub proof fn lemma_dealer_bust_pays_all(players: Seq<Player>, dealer_score: int, i: int)
    requires
        dealer_score > 21,
        0 <= i < players.len(),
        score(players[i].cards@) <= 21,
    ensures
        winners_of(players, dealer_score).contains(players[i]),
{
    lemma_winning_hand_is_listed(players, dealer_score, i);
}

/// Two rounds dealt from decks shuffled with the same seed hold the same
/// hands, names and remaining deck.
pub proof fn lemma_same_seed_same_deal(n: int, seed: u64, a: Round, b: Round)
    requires
        a.is_dealt_from(n, seeded_order(standard_deck(), seed)),
        b.is_dealt_from(n, seeded_order(standard_deck(), seed)),
    ensures
        a.players@.len() == b.players@.len(),
        forall|i: int|
            0 <= i < a.players@.len() ==> (#[trigger] a.players@[i]).cards@ == b.players@[i].cards@
                && a.players@[i].name@ == b.players@[i].name@,
        a.dealer.cards@ == b.dealer.cards@,
        a.deck@ == b.deck@,
{
}

} // verus!
