//! A spaced-repetition flashcard engine: a leveled review schedule for cards,
//! decks stored as one JSON row per card, and the review/learn session that
//! decides, card by card, what gets recorded and written back.

pub mod card;
pub mod deck;
pub mod row;
pub mod session;
pub mod study;
pub mod aggregate;
pub mod about;
pub mod time;
