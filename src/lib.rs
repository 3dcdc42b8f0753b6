//! Rules engine for a multi-player blackjack table: cards and decks, hand
//! evaluation with a single soft-ace adjustment, chip accounting, the dealer's
//! drawing policy and the settlement of bets at the end of a round.
use vstd::prelude::*;

pub mod betting;
pub mod card;
pub mod chips;
pub mod deck;
pub mod hand;
pub mod round;
pub mod table;

verus! {

/// The two kinds of failure that the engine reports to its caller.
#[derive(Debug, Clone, Copy, PartialEq, Eq, Structural)]
pub enum DeckError {
    /// A draw or a deal found fewer cards in the deck than it needed.
    EmptyDeck,
    /// The betting phase could not tell whether the game is over.
    ErrorWhileBetting,
}

impl DeckError {
    /// A short description of the error, for whoever reports it.
    pub fn to_string(&self) -> (r: String)
        ensures
            *self == DeckError::EmptyDeck ==> r@ == "the deck is empty"@,
            *self == DeckError::ErrorWhileBetting ==> r@ == "error while betting"@,
    {
        match self {
            DeckError::EmptyDeck => String::from_str("the deck is empty"),
            DeckError::ErrorWhileBetting => String::from_str("error while betting"),
        }
    }
}

} // verus!
