//! The card model: suits, faces and cards, with a total ordering given by an
//! integer rank. Each (rank, suit) combination maps to a unique integer; the
//! joker gets a sentinel rank below every concrete card.

use vstd::prelude::*;

verus! {

#[derive(Debug, Eq, PartialEq, Copy, Clone, Structural)]
pub enum Suit {
    Spade,
    Heart,
    Diamond,
    Club,
}

#[derive(Debug, Eq, PartialEq, Copy, Clone, Structural)]
pub enum Face {
    Jack,
    Queen,
    King,
    Ace,
}

#[derive(Debug, Eq, PartialEq, Copy, Clone, Structural)]
pub enum Card {
    Number(i32, Suit),
    Face(Face, Suit),
    Joker,
}

/// Rank of a suit within cards of the same number or face:
/// Club < Diamond < Heart < Spade.
pub open spec fn suit_value(s: Suit) -> int {
    match s {
        Suit::Spade => 3,
        Suit::Heart => 2,
        Suit::Diamond => 1,
        Suit::Club => 0,
    }
}

/// Rank of a face card's face; numbers end at 10, so faces start at 11.
pub open spec fn face_value(f: Face) -> int {
    match f {
        Face::Jack => 11,
        Face::Queen => 12,
        Face::King => 13,
        Face::Ace => 14,
    }
}

/// The integer rank of a card. Since there are 4 suits, the number or face
/// rank is multiplied by 4, so that each rank/suit combination is a unique
/// integer. The joker gets a sentinel below every concrete card.
pub open spec fn card_value(c: Card) -> int {
    match c {
        Card::Number(i, s) => (i as int) * 4 + suit_value(s),
        Card::Face(f, s) => face_value(f) * 4 + suit_value(s),
        Card::Joker => -1,
    }
}

/// A card the game can actually hold: numbered cards carry a rank from 2 to 10.
pub open spec fn valid_card(c: Card) -> bool {
    match c {
        Card::Number(i, _) => 2 <= i <= 10,
        Card::Face(_, _) => true,
        Card::Joker => true,
    }
}

impl Suit {
    /// The four suits in order of rank.
    pub fn value(&self) -> (v: i32)
        ensures
            v as int == suit_value(*self),
    {
        match self {
            Suit::Spade => 3,
            Suit::Heart => 2,
            Suit::Diamond => 1,
            Suit::Club => 0,
        }
    }

    pub fn all_suits() -> (v: Vec<Suit>)
        ensures
            v@ == seq![Suit::Spade, Suit::Heart, Suit::Diamond, Suit::Club],
    {
        let mut v: Vec<Suit> = Vec::new();
        v.push(Suit::Spade);
        v.push(Suit::Heart);
        v.push(Suit::Diamond);
        v.push(Suit::Club);
        proof {
            assert(v@ =~= seq![Suit::Spade, Suit::Heart, Suit::Diamond, Suit::Club]);
        }
        v
    }
}

impl Face {
    pub fn value(&self) -> (v: i32)
        ensures
            v as int == face_value(*self),
    {
        match self {
            Face::Jack => 11,
            Face::Queen => 12,
            Face::King => 13,
            Face::Ace => 14,
        }
    }

    pub fn all_faces() -> (v: Vec<Face>)
        ensures
            v@ == seq![Face::Jack, Face::Queen, Face::King, Face::Ace],
    {
        let mut v: Vec<Face> = Vec::new();
        v.push(Face::Jack);
        v.push(Face::Queen);
        v.push(Face::King);
        v.push(Face::Ace);
        proof {
            assert(v@ =~= seq![Face::Jack, Face::Queen, Face::King, Face::Ace]);
        }
        v
    }
}

impl Card {
    /// The card's rank, used for ordering draws within a round.
    pub fn value(&self) -> (v: i32)
        requires
            valid_card(*self),
        ensures
            v as int == card_value(*self),
    {
        match self {
            Card::Number(i, suit) => *i * 4 + suit.value(),
            Card::Face(face, suit) => face.value() * 4 + suit.value(),
            Card::Joker => -1,
        }
    }
}

/// Rank is injective over the valid concrete cards: two non-joker cards with
/// the same rank are the same card.
pub proof fn lemma_value_injective(c1: Card, c2: Card)
    requires
        valid_card(c1),
        valid_card(c2),
        c1 != Card::Joker,
        c2 != Card::Joker,
        card_value(c1) == card_value(c2),
    ensures
        c1 == c2,
{
}

/// The joker's rank is strictly below the rank of every valid concrete card,
/// so a normal draw always outranks a joker draw.
pub proof fn lemma_joker_lowest(c: Card)
    requires
        valid_card(c),
        c != Card::Joker,
    ensures
        card_value(Card::Joker) < card_value(c),
{
}

} // verus!
