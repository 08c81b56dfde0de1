//! A game of blackjack against a dealer: cards, a deck, hands with their
//! scores, and the round as a state machine whose decisions are verified.

pub mod card;
pub mod deck;
pub mod error;
pub mod player;
pub mod game;
