//! The round engine: resolves the winner of a round of draws, applies the
//! score changes (+2 to the round winner, -1 floored at zero for every joker
//! draw), and decides when the game is over. A player wins the game on
//! reaching the score threshold, unless some other player trails the
//! threshold-holder by exactly one point: then the game goes on, since a
//! comeback is still live in the next round.

use vstd::prelude::*;
use vstd::seq_lib::group_to_multiset_ensures;

use crate::card::Card;
use crate::card::card_value;
use crate::card::valid_card;
use crate::player::Player;

verus! {

/// A game-winning score.
pub const WIN_THRESHOLD: i32 = 21;

/// The card a player drew this round; meaningful only when one was drawn.
pub open spec fn drawn_card(p: Player) -> Card {
    p.drawed->Some_0
}

/// Every player has drawn a card this round, and a valid one.
pub open spec fn all_drawn(players: Seq<Player>) -> bool {
    forall|i: int|
        0 <= i < players.len() ==> players[i].drawed is Some && valid_card(
            drawn_card(players[i]),
        )
}

/// Every player's score is non-negative.
pub open spec fn all_wf(players: Seq<Player>) -> bool {
    forall|i: int| 0 <= i < players.len() ==> players[i].wf()
}

/// Room to add the round-winner bonus without overflowing the score type.
pub open spec fn scores_have_headroom(players: Seq<Player>) -> bool {
    forall|i: int| 0 <= i < players.len() ==> players[i].score <= i32::MAX - 2
}

/// Player `w` wins the round: no draw outranks theirs, and every earlier
/// player's draw ranks strictly lower, so ties go to the first player in
/// iteration order.
pub open spec fn is_round_winner(players: Seq<Player>, w: int) -> bool {
    &&& 0 <= w < players.len()
    &&& forall|i: int|
        0 <= i < players.len() ==> card_value(drawn_card(players[i])) <= card_value(
            drawn_card(players[w]),
        )
    &&& forall|i: int|
        0 <= i < w ==> card_value(drawn_card(players[i])) < card_value(drawn_card(players[w]))
}

/// A player's score after a round, from their score before it: the round
/// winner gains 2, then a joker draw costs 1, floored at zero.
pub open spec fn round_score(old_score: int, is_winner: bool, drew_joker: bool) -> int {
    let with_bonus: int = if is_winner {
        old_score + 2
    } else {
        old_score
    };
    if drew_joker {
        if with_bonus >= 1 {
            with_bonus - 1
        } else {
            0
        }
    } else {
        with_bonus
    }
}

/// A round never drives a score negative, and a joker draw costs exactly one
/// point, floored at zero, whether or not the drawer also won the round.
pub proof fn lemma_score_floor(old_score: int, is_winner: bool)
    requires
        0 <= old_score,
    ensures
        0 <= round_score(old_score, is_winner, false),
        0 <= round_score(old_score, is_winner, true),
        round_score(old_score, is_winner, false) >= 1 ==> round_score(old_score, is_winner, true)
            == round_score(old_score, is_winner, false) - 1,
        round_score(old_score, is_winner, false) == 0 ==> round_score(old_score, is_winner, true)
            == 0,
{
}

/// Player `w` is the first, in scan order, whose score has reached the
/// threshold.
pub open spec fn first_to_threshold(players: Seq<Player>, w: int) -> bool {
    &&& 0 <= w < players.len()
    &&& players[w].score >= WIN_THRESHOLD
    &&& forall|i: int| 0 <= i < w ==> players[i].score < WIN_THRESHOLD
}

/// Some player trails player `w` by exactly one point, which blocks the win.
pub open spec fn blocked(players: Seq<Player>, w: int) -> bool {
    exists|j: int| 0 <= j < players.len() && players[j].score == players[w].score - 1
}

/// The game is over: the first player at the threshold is not trailed by
/// exactly one point.
pub open spec fn game_over(players: Seq<Player>) -> bool {
    exists|w: int| first_to_threshold(players, w) && !blocked(players, w)
}

fn drawn_of(p: &Player) -> (c: Card)
    requires
        p.drawed is Some,
    ensures
        c == drawn_card(*p),
{
    match p.drawed {
        Some(c) => c,
        None => Card::Joker,
    }
}

/// The index of the round winner: the first player whose drawn card ranks
/// at least as high as every other draw.
pub fn round_winner(players: &Vec<Player>) -> (w: usize)
    requires
        players@.len() > 0,
        all_drawn(players@),
    ensures
        is_round_winner(players@, w as int),
{
    let mut w: usize = 0;
    let mut i: usize = 1;
    while i < players.len()
        invariant
            players@.len() > 0,
            all_drawn(players@),
            w < i <= players@.len(),
            forall|k: int|
                0 <= k < i ==> card_value(drawn_card(players@[k])) <= card_value(
                    drawn_card(players@[w as int]),
                ),
            forall|k: int|
                0 <= k < w ==> card_value(drawn_card(players@[k])) < card_value(
                    drawn_card(players@[w as int]),
                ),
        decreases players@.len() - i,
    {
        let ci = drawn_of(&players[i]).value();
        let cw = drawn_of(&players[w]).value();
        if ci > cw {
            w = i;
        }
        i = i + 1;
    }
    w
}

/// Plays out the scoring of one round, once every player has drawn: the
/// first player with the highest-ranked draw wins and gains 2 points, then
/// every player who drew a joker loses 1 point, floored at zero. Returns the
/// round winner's index; names and drawn cards are untouched.
pub fn resolve_round(players: &mut Vec<Player>) -> (w: usize)
    requires
        old(players)@.len() > 0,
        all_drawn(old(players)@),
        all_wf(old(players)@),
        scores_have_headroom(old(players)@),
    ensures
        is_round_winner(old(players)@, w as int),
        final(players)@.len() == old(players)@.len(),
        forall|i: int|
            0 <= i < old(players)@.len() ==> {
                &&& final(players)@[i].name == old(players)@[i].name
                &&& final(players)@[i].drawed == old(players)@[i].drawed
                &&& final(players)@[i].score as int == round_score(
                    old(players)@[i].score as int,
                    i == w as int,
                    drawn_card(old(players)@[i]) == Card::Joker,
                )
            },
        all_wf(final(players)@),
{
    let ghost orig = players@;
    let w = round_winner(players);
    let mut updated: Vec<Player> = Vec::new();
    while players.len() > 0
        invariant
            orig.len() == updated@.len() + players@.len(),
            players@ == orig.subrange(updated@.len() as int, orig.len() as int),
            w < orig.len(),
            all_drawn(orig),
            all_wf(orig),
            scores_have_headroom(orig),
            forall|i: int|
                0 <= i < updated@.len() ==> {
                    &&& updated@[i].name == orig[i].name
                    &&& updated@[i].drawed == orig[i].drawed
                    &&& updated@[i].score as int == round_score(
                        orig[i].score as int,
                        i == w as int,
                        drawn_card(orig[i]) == Card::Joker,
                    )
                },
        decreases players@.len(),
    {
        let ghost idx = updated@.len() as int;
        let p = players.remove(0);
        proof {
            assert(p == orig[idx]);
            assert(players@ =~= orig.subrange(idx + 1, orig.len() as int));
        }
        let mut s = p.score;
        if updated.len() == w {
            s = s + 2;
        }
        let drew_joker = match p.drawed {
            Some(Card::Joker) => true,
            _ => false,
        };
        if drew_joker {
            if s >= 1 {
                s = s - 1;
            } else {
                s = 0;
            }
        }
        updated.push(
            Player { name: p.name, score: s, drawed: p.drawed },
        );
    }
    *players = updated;
    proof {
        assert forall|i: int| 0 <= i < players@.len() implies players@[i].wf() by {
            lemma_score_floor(orig[i].score as int, i == w as int);
            assert(players@[i].score as int == round_score(
                orig[i].score as int,
                i == w as int,
                drawn_card(orig[i]) == Card::Joker,
            ));
        }
    }
    w
}

/// Decides whether the game is over. The first player in scan order whose
/// score has reached the threshold is the game winner, unless some player
/// trails that score by exactly one point: then the game goes on, and no
/// later player is considered this round.
pub fn find_game_winner(players: &Vec<Player>) -> (r: Option<usize>)
    ensures
        match r {
            Some(w) => first_to_threshold(players@, w as int) && !blocked(players@, w as int),
            None => forall|w: int| first_to_threshold(players@, w) ==> blocked(players@, w),
        },
        r is Some <==> game_over(players@),
{
    let mut i: usize = 0;
    while i < players.len()
        invariant
            i <= players@.len(),
            forall|k: int| 0 <= k < i ==> players@[k].score < WIN_THRESHOLD,
        decreases players@.len() - i,
    {
        if players[i].score >= WIN_THRESHOLD {
            let target = players[i].score - 1;
            let mut j: usize = 0;
            while j < players.len()
                invariant
                    i < players@.len(),
                    players@[i as int].score >= WIN_THRESHOLD,
                    forall|k: int| 0 <= k < i ==> players@[k].score < WIN_THRESHOLD,
                    target as int == players@[i as int].score - 1,
                    j <= players@.len(),
                    forall|k: int| 0 <= k < j ==> players@[k].score != target,
                decreases players@.len() - j,
            {
                if players[j].score == target {
                    proof {
                        assert(forall|w: int|
                            first_to_threshold(players@, w) ==> w == i as int);
                    }
                    return None;
                }
                j = j + 1;
            }
            proof {
                assert(!blocked(players@, i as int));
            }
            return Some(i);
        }
        i = i + 1;
    }
    None
}

/// Reorders the players by ascending score, as the scoreboard presents
/// them: the leader comes last. The same players come out, possibly in a
/// different order.
pub fn sort_players_by_score(players: &mut Vec<Player>)
    ensures
        final(players)@.len() == old(players)@.len(),
        final(players)@.to_multiset() == old(players)@.to_multiset(),
        forall|i: int, j: int|
            0 <= i <= j < final(players)@.len() ==> final(players)@[i].score
                <= final(players)@[j].score,
{
    let ghost orig = players@;
    let mut out: Vec<Player> = Vec::new();
    proof {
        broadcast use group_to_multiset_ensures;
        broadcast use vstd::multiset::group_multiset_axioms;

        assert(out@.to_multiset() =~= vstd::multiset::Multiset::<Player>::empty());
        assert(out@.to_multiset().add(players@.to_multiset()) =~= orig.to_multiset());
    }
    while players.len() > 0
        invariant
            out@.len() + players@.len() == orig.len(),
            out@.to_multiset().add(players@.to_multiset()) == orig.to_multiset(),
            forall|i: int, j: int| 0 <= i <= j < out@.len() ==> out@[i].score <= out@[j].score,
            forall|i: int, j: int|
                0 <= i < out@.len() && 0 <= j < players@.len() ==> out@[i].score
                    <= players@[j].score,
        decreases players@.len(),
    {
        let mut m: usize = 0;
        let mut k: usize = 1;
        while k < players.len()
            invariant
                players@.len() > 0,
                m < k <= players@.len(),
                forall|t: int| 0 <= t < k ==> players@[m as int].score <= players@[t].score,
            decreases players@.len() - k,
        {
            if players[k].score < players[m].score {
                m = k;
            }
            k = k + 1;
        }
        let ghost pre_out = out@;
        let ghost pre_rest = players@;
        let p = players.remove(m);
        out.push(p);
        proof {
            broadcast use group_to_multiset_ensures;
            broadcast use vstd::multiset::group_multiset_axioms;

            pre_rest.remove_ensures(m as int);
            assert(pre_rest.contains(p));
            assert(out@.to_multiset().add(players@.to_multiset()) =~= pre_out.to_multiset().add(
                pre_rest.to_multiset(),
            ));
        }
    }
    proof {
        broadcast use group_to_multiset_ensures;
        broadcast use vstd::multiset::group_multiset_axioms;

        assert(players@.to_multiset() =~= vstd::multiset::Multiset::<Player>::empty());
        assert(out@.to_multiset() =~= orig.to_multiset());
    }
    *players = out;
}

/// The number of players the game accepts: 2 to 4 inclusive.
pub fn valid_player_count(n: u32) -> (ok: bool)
    ensures
        ok == (2 <= n && n <= 4),
{
    2 <= n && n <= 4
}

} // verus!
