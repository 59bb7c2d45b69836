//! Poker hand ranking.
//!
//! A hand of five cards is classified into one of the nine standard poker
//! categories and packed into a single `i64` score whose numeric order
//! matches poker hand strength.  On top of the five-card encoder sit a
//! selector that finds the best five-card hand inside a seven-card pool and
//! a comparator that relates a pool's best hand to a reference score.

pub mod best;
pub mod card;
pub mod score;

pub use best::{comp, eval, DRAW, LOSS, WIN};
pub use card::{rank, suit, Card, Rank, Suit};
pub use score::eval5;

