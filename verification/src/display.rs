//! Pure text rendering for the domain values: English words for the card
//! numbers, names for faces and suits, the bracketed card label, and the
//! scoreboard name truncation. All of it is plain string building; writing
//! to the terminal stays outside the library.

use vstd::prelude::*;
use vstd::string::StrSliceExecFns;
use vstd::string::StringExecFns;

use crate::card::Card;
use crate::card::Face;
use crate::card::Suit;

verus! {

/// The English word for a card number from 2 to 10; empty otherwise.
pub open spec fn number_name(i: int) -> Seq<char> {
    if i == 2 {
        "Two"@
    } else if i == 3 {
        "Three"@
    } else if i == 4 {
        "Four"@
    } else if i == 5 {
        "Five"@
    } else if i == 6 {
        "Six"@
    } else if i == 7 {
        "Seven"@
    } else if i == 8 {
        "Eight"@
    } else if i == 9 {
        "Nine"@
    } else if i == 10 {
        "Ten"@
    } else {
        ""@
    }
}

pub open spec fn suit_name(s: Suit) -> Seq<char> {
    match s {
        Suit::Spade => "Spade"@,
        Suit::Heart => "Heart"@,
        Suit::Diamond => "Diamond"@,
        Suit::Club => "Club"@,
    }
}

pub open spec fn face_name(f: Face) -> Seq<char> {
    match f {
        Face::Jack => "Jack"@,
        Face::Queen => "Queen"@,
        Face::King => "King"@,
        Face::Ace => "Ace"@,
    }
}

/// The label a card is announced with: number word or face name, then the
/// suit in plural, in brackets; the joker has a fixed label.
pub open spec fn card_label(c: Card) -> Seq<char> {
    match c {
        Card::Number(i, s) => "["@ + number_name(i as int) + " of "@ + suit_name(s) + "s]"@,
        Card::Face(f, s) => "["@ + face_name(f) + " of "@ + suit_name(s) + "s]"@,
        Card::Joker => "[Joker]"@,
    }
}

/// A name as the scoreboard shows it: kept as it is up to 19 characters,
/// longer names cut to 19 with ".." appended.
pub open spec fn scoreboard_label(name: Seq<char>) -> Seq<char> {
    if name.len() > 19 {
        name.subrange(0, 19) + ".."@
    } else {
        name
    }
}

/// Converts a card number to English text.
pub fn to_eng(i: &i32) -> (s: &'static str)
    ensures
        s@ == number_name(*i as int),
{
    match i {
        2 => "Two",
        3 => "Three",
        4 => "Four",
        5 => "Five",
        6 => "Six",
        7 => "Seven",
        8 => "Eight",
        9 => "Nine",
        10 => "Ten",
        _ => "",
    }
}

impl Suit {
    pub fn name(&self) -> (s: &'static str)
        ensures
            s@ == suit_name(*self),
    {
        match self {
            Suit::Spade => "Spade",
            Suit::Heart => "Heart",
            Suit::Diamond => "Diamond",
            Suit::Club => "Club",
        }
    }
}

impl Face {
    pub fn name(&self) -> (s: &'static str)
        ensures
            s@ == face_name(*self),
    {
        match self {
            Face::Jack => "Jack",
            Face::Queen => "Queen",
            Face::King => "King",
            Face::Ace => "Ace",
        }
    }
}

impl Card {
    /// Renders the card for an announcement, e.g. a number card as
    /// "[Two of Spades]" or the joker as "[Joker]".
    pub fn display(&self) -> (s: String)
        ensures
            s@ == card_label(*self),
    {
        match self {
            Card::Number(i, suit) => {
                let mut r = String::from_str("[");
                r.append(to_eng(i));
                r.append(" of ");
                r.append(suit.name());
                r.append("s]");
                proof {
                    assert(r@ =~= card_label(*self));
                }
                r
            },
            Card::Face(face, suit) => {
                let mut r = String::from_str("[");
                r.append(face.name());
                r.append(" of ");
                r.append(suit.name());
                r.append("s]");
                proof {
                    assert(r@ =~= card_label(*self));
                }
                r
            },
            Card::Joker => String::from_str("[Joker]"),
        }
    }
}

/// A player's name as the scoreboard shows it: names longer than 19
/// characters are cut and marked with "..".
pub fn scoreboard_name(name: &String) -> (r: String)
    ensures
        r@ == scoreboard_label(name@),
{
    let n = name.as_str().unicode_len();
    if n > 19 {
        let mut r = String::from_str(name.as_str().substring_char(0, 19));
        r.append("..");
        proof {
            assert(r@ =~= scoreboard_label(name@));
        }
        r
    } else {
        name.clone()
    }
}

} // verus!
