//! A terminal card-drawing game library: a fixed 56-card deck (52 standard
//! cards plus 4 jokers), a draw/reshuffle deck manager, and a round engine
//! that resolves round winners, applies scores and decides when the game ends.

pub mod card;
pub mod deck;
pub mod display;
pub mod engine;
pub mod player;
