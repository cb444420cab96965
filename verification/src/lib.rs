//! Single-player blackjack against a house dealer: a shuffled deck, hands
//! valued under the soft-ace rule, and the rules of a round and of a session.

pub mod card;
pub mod deck;
pub mod hand;
pub mod input;
pub mod outcome;
pub mod player;
pub mod round;
pub mod session;
pub mod shuffle;
pub mod text;
