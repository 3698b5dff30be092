use cardgame::card::Card;
use cardgame::card::Face;
use cardgame::card::Suit;
use cardgame::deck::Deck;
use cardgame::display::scoreboard_name;
use cardgame::display::to_eng;
use cardgame::engine::find_game_winner;
use cardgame::engine::resolve_round;
use cardgame::engine::round_winner;
use cardgame::engine::sort_players_by_score;
use cardgame::engine::valid_player_count;
use cardgame::player::Player;

fn players_with_scores(scores: &[i32]) -> Vec<Player> {
    scores
        .iter()
        .map(|&s| {
            let mut p = Player::new(String::from("p"));
            p.score = s;
            p
        })
        .collect()
}

#[test]
fn card_values_match_rank_formula() {
    assert_eq!(Card::Number(2, Suit::Club).value(), 8);
    assert_eq!(Card::Number(5, Suit::Club).value(), 20);
    assert_eq!(Card::Number(10, Suit::Spade).value(), 43);
    assert_eq!(Card::Face(Face::Jack, Suit::Club).value(), 44);
    assert_eq!(Card::Face(Face::Ace, Suit::Spade).value(), 59);
    assert_eq!(Card::Joker.value(), -1);
}

#[test]
fn suit_order_club_lowest_spade_highest() {
    assert!(Suit::Club.value() < Suit::Diamond.value());
    assert!(Suit::Diamond.value() < Suit::Heart.value());
    assert!(Suit::Heart.value() < Suit::Spade.value());
}

#[test]
fn joker_ranks_below_every_concrete_card() {
    for suit in Suit::all_suits() {
        for i in 2..=10 {
            assert!(Card::Joker.value() < Card::Number(i, suit).value());
        }
        for face in Face::all_faces() {
            assert!(Card::Joker.value() < Card::Face(face, suit).value());
        }
    }
}

#[test]
fn concrete_ranks_are_injective() {
    // The 52 concrete cards must cover 52 distinct values; with the rank
    // formula those are exactly 8 through 59.
    let mut values = Vec::new();
    for suit in Suit::all_suits() {
        for i in 2..=10 {
            values.push(Card::Number(i, suit).value());
        }
        for face in Face::all_faces() {
            values.push(Card::Face(face, suit).value());
        }
    }
    values.sort();
    let expected: Vec<i32> = (8..=59).collect();
    assert_eq!(values, expected);
}

#[test]
fn all_suits_and_faces_list_every_variant() {
    assert_eq!(
        Suit::all_suits(),
        vec![Suit::Spade, Suit::Heart, Suit::Diamond, Suit::Club]
    );
    assert_eq!(
        Face::all_faces(),
        vec![Face::Jack, Face::Queen, Face::King, Face::Ace]
    );
}

#[test]
fn new_deck_has_56_cards_and_nothing_dealt() {
    let deck = Deck::new();
    assert_eq!(deck.deck.len(), 56);
    assert_eq!(deck.dealt.len(), 0);
}

#[test]
fn full_deck_holds_the_fixed_card_set() {
    // Drawing everything must yield the 4 jokers and each of the 52
    // concrete cards exactly once, whatever order the shuffle chose.
    let mut deck = Deck::new();
    let mut drawn = Vec::new();
    for _ in 0..56 {
        drawn.push(deck.draw());
    }
    let jokers = drawn.iter().filter(|c| **c == Card::Joker).count();
    assert_eq!(jokers, 4);
    let mut values: Vec<i32> = drawn
        .iter()
        .filter(|c| **c != Card::Joker)
        .map(|c| c.value())
        .collect();
    values.sort();
    let expected: Vec<i32> = (8..=59).collect();
    assert_eq!(values, expected);
}

#[test]
fn draw_moves_one_card_to_the_dealt_pool() {
    let mut deck = Deck::new();
    let card = deck.draw();
    assert_eq!(deck.deck.len(), 55);
    assert_eq!(deck.dealt.len(), 1);
    assert_eq!(deck.dealt[0], card);
}

#[test]
fn exhausted_deck_reshuffles_on_the_next_draw() {
    let mut deck = Deck::new();
    for _ in 0..56 {
        deck.draw();
    }
    assert_eq!(deck.deck.len(), 0);
    assert_eq!(deck.dealt.len(), 56);
    // The 57th draw triggers exactly one reshuffle and still succeeds.
    deck.draw();
    assert_eq!(deck.deck.len(), 55);
    assert_eq!(deck.dealt.len(), 1);
}

#[test]
fn reshuffle_returns_dealt_cards_to_the_deck() {
    let mut deck = Deck::new();
    for _ in 0..10 {
        deck.draw();
    }
    deck.reshuffle();
    assert_eq!(deck.deck.len(), 56);
    assert_eq!(deck.dealt.len(), 0);
}

#[test]
fn ace_of_spades_beats_five_of_clubs() {
    // Round 1 of a 2-player game: A draws the top-ranked card (59), B a
    // low number card (20). A wins and gains 2, no penalty, game goes on.
    let mut players = vec![
        Player::new(String::from("A")),
        Player::new(String::from("B")),
    ];
    players[0].drawed = Some(Card::Face(Face::Ace, Suit::Spade));
    players[1].drawed = Some(Card::Number(5, Suit::Club));
    assert_eq!(players[0].drawed.unwrap().value(), 59);
    assert_eq!(players[1].drawed.unwrap().value(), 20);
    let w = resolve_round(&mut players);
    assert_eq!(w, 0);
    assert_eq!(players[0].score, 2);
    assert_eq!(players[1].score, 0);
    assert!(find_game_winner(&players).is_none());
}

#[test]
fn joker_draw_loses_the_round_and_a_point() {
    // A draws the joker, B any concrete card: B wins the round, A is
    // penalized one point, floored at zero since A started at zero.
    let mut players = vec![
        Player::new(String::from("A")),
        Player::new(String::from("B")),
    ];
    players[0].drawed = Some(Card::Joker);
    players[1].drawed = Some(Card::Number(2, Suit::Club));
    let w = resolve_round(&mut players);
    assert_eq!(w, 1);
    assert_eq!(players[0].score, 0);
    assert_eq!(players[1].score, 2);
}

#[test]
fn joker_penalty_comes_off_a_positive_score() {
    let mut players = players_with_scores(&[3, 5]);
    players[0].drawed = Some(Card::Joker);
    players[1].drawed = Some(Card::Number(9, Suit::Heart));
    let w = resolve_round(&mut players);
    assert_eq!(w, 1);
    assert_eq!(players[0].score, 2);
    assert_eq!(players[1].score, 7);
}

#[test]
fn all_joker_round_gives_first_player_the_win_and_the_penalty() {
    // Every draw is a joker: the first player wins the round (+2) and is
    // penalized like the rest (-1), ending one point up.
    let mut players = vec![
        Player::new(String::from("A")),
        Player::new(String::from("B")),
    ];
    players[0].drawed = Some(Card::Joker);
    players[1].drawed = Some(Card::Joker);
    let w = resolve_round(&mut players);
    assert_eq!(w, 0);
    assert_eq!(players[0].score, 1);
    assert_eq!(players[1].score, 0);
}

#[test]
fn round_winner_is_first_among_equal_draws() {
    let mut players = vec![
        Player::new(String::from("A")),
        Player::new(String::from("B")),
        Player::new(String::from("C")),
    ];
    players[0].drawed = Some(Card::Joker);
    players[1].drawed = Some(Card::Joker);
    players[2].drawed = Some(Card::Number(2, Suit::Club));
    assert_eq!(round_winner(&players), 2);
}

#[test]
fn trailing_by_one_blocks_the_win() {
    let players = players_with_scores(&[21, 20]);
    assert_eq!(find_game_winner(&players), None);
}

#[test]
fn threshold_with_no_close_trailer_ends_the_game() {
    let players = players_with_scores(&[21, 19]);
    assert_eq!(find_game_winner(&players), Some(0));
}

#[test]
fn past_threshold_with_trailers_two_behind_ends_the_game() {
    let players = players_with_scores(&[22, 20, 20]);
    assert_eq!(find_game_winner(&players), Some(0));
}

#[test]
fn below_threshold_never_ends_the_game() {
    let players = players_with_scores(&[20, 20]);
    assert_eq!(find_game_winner(&players), None);
}

#[test]
fn first_player_at_threshold_is_the_one_considered() {
    // The scan stops at the first player with 21 or more; later players
    // are not considered, so a blocked first candidate keeps the game on.
    let blocked = players_with_scores(&[21, 20, 25]);
    assert_eq!(find_game_winner(&blocked), None);
    let clear = players_with_scores(&[19, 23, 21]);
    assert_eq!(find_game_winner(&clear), Some(1));
}

#[test]
fn scoreboard_sorts_by_ascending_score() {
    let mut players = players_with_scores(&[7, 2, 9, 2]);
    sort_players_by_score(&mut players);
    let scores: Vec<i32> = players.iter().map(|p| p.score).collect();
    assert_eq!(scores, vec![2, 2, 7, 9]);
}

#[test]
fn new_player_starts_clean() {
    let p = Player::new(String::from("Dana"));
    assert_eq!(p.name, "Dana");
    assert_eq!(p.score, 0);
    assert_eq!(p.drawed, None);
}

#[test]
fn player_count_accepts_two_to_four() {
    assert!(!valid_player_count(0));
    assert!(!valid_player_count(1));
    assert!(valid_player_count(2));
    assert!(valid_player_count(3));
    assert!(valid_player_count(4));
    assert!(!valid_player_count(5));
}

#[test]
fn number_words_render_in_english() {
    assert_eq!(to_eng(&2), "Two");
    assert_eq!(to_eng(&7), "Seven");
    assert_eq!(to_eng(&10), "Ten");
}

#[test]
fn cards_display_with_their_full_names() {
    assert_eq!(Card::Number(2, Suit::Spade).display(), "[Two of Spades]");
    assert_eq!(
        Card::Face(Face::Queen, Suit::Diamond).display(),
        "[Queen of Diamonds]"
    );
    assert_eq!(Card::Joker.display(), "[Joker]");
}

#[test]
fn long_names_are_cut_for_the_scoreboard() {
    let short = String::from("Alice");
    assert_eq!(scoreboard_name(&short), "Alice");
    let exact = String::from("abcdefghijklmnopqrs");
    assert_eq!(scoreboard_name(&exact), "abcdefghijklmnopqrs");
    let long = String::from("abcdefghijklmnopqrstuvwxyz");
    assert_eq!(scoreboard_name(&long), "abcdefghijklmnopqrs..");
}
