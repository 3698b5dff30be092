//! Per-player state: a display name, a cumulative score and the card drawn
//! in the current round.

use vstd::prelude::*;

use crate::card::Card;

verus! {

#[derive(Debug, Clone)]
pub struct Player {
    pub name: String,
    pub score: i32,
    pub drawed: Option<Card>,
}

impl Player {
    /// A player's score never goes below zero.
    pub open spec fn wf(&self) -> bool {
        0 <= self.score
    }

    pub fn new(name: String) -> (p: Player)
        ensures
            p.name == name,
            p.score == 0,
            p.drawed is None,
            p.wf(),
    {
        Player { name, score: 0, drawed: None }
    }
}

} // verus!
