use vstd::prelude::*;

verus! {

/// Why a round could not go on.
#[derive(Debug, Clone, Copy, PartialEq, Eq, Structural)]
pub enum GameError {
    /// A round takes between one and four players.
    InvalidPlayerCount,
    /// A card was asked of a deck that had none left.
    EmptyDeck,
}

} // verus!
