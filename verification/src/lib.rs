//! A blackjack table for one player and the house: the card and deck model,
//! the hand evaluator, and the rules of a round as a step function.

pub mod card;
pub mod deck;
pub mod hand;
pub mod input;
pub mod player;
mod random;
pub mod round;

pub use card::{Card, Suit, Value};
pub use deck::Deck;
pub use hand::{card_value, Hand};
pub use input::{plays_again, read_choice};
pub use player::{draw_card, Player};
pub use round::{advance, is_ready, Choice, Event, Outcome, Phase};
