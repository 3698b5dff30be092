//! The deck manager. A deck owns two pools: `deck` (face-down, shuffled) and
//! `dealt` (already drawn, in draw order). Together they always hold exactly
//! the fixed 56-card set: 36 numbered cards (ranks 2 to 10, 4 suits), 16 face
//! cards (4 faces, 4 suits) and 4 jokers. Drawing from an empty `deck` pool
//! first moves every dealt card back and reshuffles, so a draw never fails.

use vstd::prelude::*;
use vstd::seq_lib::group_to_multiset_ensures;
use vstd::seq_lib::lemma_multiset_commutative;
use vstd::multiset::Multiset;
use rand::seq::SliceRandom;

use crate::card::Card;
use crate::card::Face;
use crate::card::Suit;
use crate::card::valid_card;

verus! {

pub struct Deck {
    pub deck: Vec<Card>,
    pub dealt: Vec<Card>,
}

/// The suit at a given position within one rank's block of four cards.
pub open spec fn suit_of_index(j: int) -> Suit {
    if j == 0 {
        Suit::Spade
    } else if j == 1 {
        Suit::Heart
    } else if j == 2 {
        Suit::Diamond
    } else {
        Suit::Club
    }
}

/// The face at a given position among the four faces.
pub open spec fn face_of_index(j: int) -> Face {
    if j == 0 {
        Face::Jack
    } else if j == 1 {
        Face::Queen
    } else if j == 2 {
        Face::King
    } else {
        Face::Ace
    }
}

/// The card at a given position of the unshuffled 56-card set: first the 36
/// numbered cards in rank order, then the 16 face cards, then the 4 jokers.
pub open spec fn card_of_index(i: int) -> Card {
    if i < 36 {
        Card::Number((2 + i / 4) as i32, suit_of_index(i % 4))
    } else if i < 52 {
        Card::Face(face_of_index((i - 36) / 4), suit_of_index(i % 4))
    } else {
        Card::Joker
    }
}

/// The fixed 56-card starting set, as a sequence in construction order.
pub open spec fn full_deck() -> Seq<Card> {
    Seq::new(56, |i: int| card_of_index(i))
}

/// Every card a deck holds, across both pools, as a multiset.
pub open spec fn deck_cards(d: Deck) -> Multiset<Card> {
    d.deck@.to_multiset().add(d.dealt@.to_multiset())
}

impl Deck {
    /// Deck invariant: the two pools together hold exactly the fixed
    /// 56-card starting set. Cards are never created, destroyed or
    /// duplicated beyond it.
    pub open spec fn wf(&self) -> bool {
        deck_cards(*self) == full_deck().to_multiset()
    }
}

/// Every card of the fixed starting set is a valid card.
pub proof fn lemma_full_deck_valid(c: Card)
    requires
        full_deck().to_multiset().count(c) > 0,
    ensures
        valid_card(c),
{
    broadcast use group_to_multiset_ensures;

    assert(full_deck().contains(c));
    let i = choose|i: int| 0 <= i < full_deck().len() && full_deck()[i] == c;
    assert(c == card_of_index(i));
}

/// Deck conservation: a well-formed deck holds exactly the fixed 56-card
/// multiset across its two pools, so their lengths always sum to 56.
pub proof fn lemma_deck_conservation(d: Deck)
    requires
        d.wf(),
    ensures
        deck_cards(d) == full_deck().to_multiset(),
        d.deck@.len() + d.dealt@.len() == 56,
{
    broadcast use group_to_multiset_ensures;
    broadcast use vstd::multiset::group_multiset_axioms;

    assert(full_deck().to_multiset().len() == 56);
    assert(deck_cards(d).len() == d.deck@.to_multiset().len() + d.dealt@.to_multiset().len());
}

/// Relies on rand::seq::SliceRandom::shuffle (with rand::thread_rng): it
/// permutes the slice in place, adding and removing nothing.
#[verifier::external_body]
fn shuffle_cards(cards: &mut Vec<Card>)
    ensures
        final(cards)@.to_multiset() == old(cards)@.to_multiset(),
        final(cards)@.len() == old(cards)@.len(),
{
    cards.shuffle(&mut rand::thread_rng());
}

fn suit_of_position(j: usize) -> (s: Suit)
    requires
        j < 4,
    ensures
        s == suit_of_index(j as int),
{
    if j == 0 {
        Suit::Spade
    } else if j == 1 {
        Suit::Heart
    } else if j == 2 {
        Suit::Diamond
    } else {
        Suit::Club
    }
}

fn face_of_position(j: usize) -> (f: Face)
    requires
        j < 4,
    ensures
        f == face_of_index(j as int),
{
    if j == 0 {
        Face::Jack
    } else if j == 1 {
        Face::Queen
    } else if j == 2 {
        Face::King
    } else {
        Face::Ace
    }
}

fn card_of_position(i: usize) -> (c: Card)
    requires
        i < 56,
    ensures
        c == card_of_index(i as int),
{
    let suit = suit_of_position(i % 4);
    if i < 36 {
        Card::Number((2 + i / 4) as i32, suit)
    } else if i < 52 {
        Card::Face(face_of_position((i - 36) / 4), suit)
    } else {
        Card::Joker
    }
}

impl Deck {
    /// Builds the fixed 56-card set, shuffles it into the face-down pool,
    /// and starts with nothing dealt.
    pub fn new() -> (d: Deck)
        ensures
            d.wf(),
            d.deck@.len() == 56,
            d.dealt@.len() == 0,
    {
        let mut deck: Vec<Card> = Vec::with_capacity(56);
        let mut i: usize = 0;
        while i < 56
            invariant
                i <= 56,
                deck@.len() == i,
                forall|k: int| 0 <= k < i ==> deck@[k] == card_of_index(k),
            decreases 56 - i,
        {
            deck.push(card_of_position(i));
            i = i + 1;
        }
        proof {
            assert(deck@ =~= full_deck());
        }
        shuffle_cards(&mut deck);
        let d = Deck { deck, dealt: Vec::new() };
        proof {
            broadcast use group_to_multiset_ensures;
            broadcast use vstd::multiset::group_multiset_axioms;

            assert(d.dealt@.to_multiset() =~= Multiset::<Card>::empty());
            assert(deck_cards(d) =~= full_deck().to_multiset());
        }
        d
    }

    /// Moves every dealt card back into the face-down pool and shuffles it.
    /// No card is gained or lost: the deck's overall multiset is unchanged.
    pub fn reshuffle(&mut self)
        ensures
            deck_cards(*final(self)) == deck_cards(*old(self)),
            final(self).dealt@.len() == 0,
            final(self).deck@.len() == old(self).deck@.len() + old(self).dealt@.len(),
            old(self).wf() ==> final(self).wf(),
    {
        let ghost old_deck = self.deck@;
        let ghost old_dealt = self.dealt@;
        self.deck.append(&mut self.dealt);
        proof {
            broadcast use group_to_multiset_ensures;
            broadcast use vstd::multiset::group_multiset_axioms;
            broadcast use lemma_multiset_commutative;

            assert((old_deck + old_dealt).to_multiset() =~= old_deck.to_multiset().add(
                old_dealt.to_multiset(),
            ));
            assert(self.dealt@.to_multiset() =~= Multiset::<Card>::empty());
        }
        shuffle_cards(&mut self.deck);
        proof {
            broadcast use group_to_multiset_ensures;
            broadcast use vstd::multiset::group_multiset_axioms;

            assert(deck_cards(*self) =~= old_deck.to_multiset().add(old_dealt.to_multiset()));
        }
    }

    /// Removes the front card of the face-down pool and appends it to the
    /// dealt pool, reshuffling first if the face-down pool is empty. Always
    /// succeeds on a well-formed deck, returns a card of the starting set,
    /// and preserves the deck invariant. When the face-down pool was empty,
    /// exactly one reshuffle happens: afterwards it holds the other 55 cards
    /// and the dealt pool holds just the drawn card.
    pub fn draw(&mut self) -> (card: Card)
        requires
            old(self).wf(),
        ensures
            final(self).wf(),
            valid_card(card),
            deck_cards(*old(self)).count(card) > 0,
            final(self).deck@.len() + final(self).dealt@.len() == 56,
            old(self).deck@.len() > 0 ==> {
                &&& card == old(self).deck@[0]
                &&& final(self).deck@ == old(self).deck@.remove(0)
                &&& final(self).dealt@ == old(self).dealt@.push(card)
            },
            old(self).deck@.len() == 0 ==> {
                &&& final(self).deck@.len() == 55
                &&& final(self).dealt@ == seq![card]
            },
    {
        proof {
            lemma_deck_conservation(*old(self));
        }
        let ghost pre = *self;
        if self.deck.is_empty() {
            self.reshuffle();
        }
        proof {
            broadcast use group_to_multiset_ensures;
            broadcast use vstd::multiset::group_multiset_axioms;

            lemma_deck_conservation(*self);
            assert(self.deck@.len() > 0);
        }
        let card = self.deck.remove(0);
        self.dealt.push(card);
        proof {
            broadcast use group_to_multiset_ensures;
            broadcast use vstd::multiset::group_multiset_axioms;

            assert(deck_cards(*self) =~= deck_cards(pre));
            lemma_full_deck_valid(card);
        }
        card
    }
}

} // verus!
