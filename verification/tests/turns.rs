use loveletter::events::Event;
use loveletter::table::{Games, Players, Table};

fn seat(turn: i32, name: &str, hand: [usize; 2], alive: bool) -> Players {
    Players {
        id: format!("p{}", turn),
        turn,
        name: name.to_string(),
        hand: hand.to_vec(),
        immune: false,
        alive,
        text: String::new(),
        input: false,
    }
}

fn table(turn: i32, deck: Vec<usize>, seats: Vec<Players>) -> Table {
    Table {
        game: Games { id: "G".to_string(), turn, deck, players: seats.len() as i32, played_card: 1, player_pick: 2 },
        seats,
    }
}

fn texts(out: &[Event]) -> Vec<(Option<i32>, String, bool)> {
    out.iter().map(|e| (e.player, e.event.text.clone(), e.event.input)).collect()
}

#[test]
fn no_living_player_ends_the_game() {
    let mut t = table(1, vec![3], vec![seat(1, "Al", [1, 0], false), seat(2, "Bo", [2, 0], false)]);
    let mut out = Vec::new();
    t.run_turn(&mut out);
    assert_eq!(texts(&out), vec![(None, "Game over! No players left! Something went wrong :(\n".to_string(), false)]);
    assert_eq!(t.game.played_card, -1);
    assert_eq!(t.game.player_pick, -1);
    assert_eq!(t.seats[0].text, "Game over! No players left! Something went wrong :(\n");
}

#[test]
fn last_living_player_wins() {
    let mut t = table(1, vec![3], vec![seat(1, "Al", [1, 0], false), seat(2, "Bo", [2, 0], true)]);
    let mut out = Vec::new();
    t.run_turn(&mut out);
    assert_eq!(texts(&out), vec![(None, "Game over! Player 2 called Bo wins!\n".to_string(), false)]);
    assert_eq!(t.game.turn, 1);
}

#[test]
fn turn_deals_and_asks_for_a_card() {
    let mut t = table(0, vec![3, 5], vec![seat(1, "Al", [2, 0], true), seat(2, "Bo", [4, 0], true)]);
    let mut out = Vec::new();
    t.run_turn(&mut out);
    assert_eq!(t.game.turn, 1);
    assert_eq!(t.seats[0].hand, vec![2, 5]);
    assert_eq!(t.game.deck, vec![3]);
    assert_eq!(t.game.played_card, -1);
    assert_eq!(t.game.player_pick, -1);
    assert_eq!(
        texts(&out),
        vec![
            (None, "It is player 1 called Al's turn\n".to_string(), false),
            (
                Some(1),
                "Your hand is:\n1. 2-Clown-Look at another players card.\n2. 5-Wizard-Target another player to discard a card\nDo you want to play card 1 or 2:\n".to_string(),
                true
            ),
        ]
    );
    assert!(t.seats[0].input);
    assert!(!t.seats[1].input);
    assert_eq!(t.seats[1].text, "It is player 1 called Al's turn\n");
}

#[test]
fn turn_skips_the_dead_and_clears_immunity() {
    let mut seats = vec![seat(1, "Al", [1, 0], true), seat(2, "Bo", [1, 0], false), seat(3, "Cy", [1, 0], true)];
    seats[1].immune = true;
    seats[2].immune = true;
    seats[0].immune = true;
    let mut t = table(1, vec![4, 4, 4], seats);
    let mut out = Vec::new();
    t.run_turn(&mut out);
    assert_eq!(t.game.turn, 3);
    assert!(!t.seats[1].immune);
    assert!(!t.seats[2].immune);
    assert!(t.seats[0].immune);
    assert_eq!(t.seats[2].hand, vec![1, 4]);
}

#[test]
fn turn_wraps_round_the_table() {
    let mut t = table(3, vec![4], vec![seat(1, "Al", [1, 0], true), seat(2, "Bo", [1, 0], true), seat(3, "Cy", [1, 0], true)]);
    let mut out = Vec::new();
    t.run_turn(&mut out);
    assert_eq!(t.game.turn, 1);
    assert_eq!(out[0].event.text, "It is player 1 called Al's turn\n");
}

#[test]
fn empty_deck_highest_card_wins_first_among_equals() {
    let mut t = table(1, vec![], vec![seat(1, "Al", [3, 0], true), seat(2, "Bo", [0, 5], true), seat(3, "Cy", [5, 0], true), seat(4, "Di", [8, 0], false)]);
    let mut out = Vec::new();
    t.run_turn(&mut out);
    assert_eq!(t.game.turn, 2);
    assert_eq!(
        texts(&out),
        vec![(None, "Player 2 called Bo won the game because they had the highest card 5-Wizard\n".to_string(), false)]
    );
}

#[test]
fn empty_deck_without_cards_has_no_winner() {
    let mut t = table(1, vec![], vec![seat(1, "Al", [0, 0], true), seat(2, "Bo", [0, 0], true)]);
    let mut out = Vec::new();
    t.run_turn(&mut out);
    assert_eq!(texts(&out), vec![(None, "Somehow noone won the game :(\n".to_string(), false)]);
}

#[test]
fn minister_with_twelve_or_more_is_out() {
    let mut t = table(2, vec![5], vec![seat(1, "Al", [7, 0], true), seat(2, "Bo", [2, 0], true)]);
    let mut out = Vec::new();
    t.run_turn(&mut out);
    assert!(!t.seats[0].alive);
    assert_eq!(t.seats[0].hand, vec![7, 5]);
    assert_eq!(
        texts(&out),
        vec![
            (None, "It is player 1 called Al's turn\n".to_string(), false),
            (
                Some(1),
                "Your hand is:\n1. 7-Minister-If your hand has a total of 12 or more you are eliminated.\n2. 5-Wizard-Target another player to discard a card\nDo you want to play card 1 or 2:\n".to_string(),
                true
            ),
            (None, "Player 1 called Al is out due to having a minister and a hand total of 12 or greater.\n".to_string(), false),
            (None, "Game over! Player 2 called Bo wins!\n".to_string(), false),
        ]
    );
}

#[test]
fn minister_with_less_than_twelve_stays() {
    let mut t = table(2, vec![4], vec![seat(1, "Al", [7, 0], true), seat(2, "Bo", [2, 0], true)]);
    let mut out = Vec::new();
    t.run_turn(&mut out);
    assert!(t.seats[0].alive);
    assert_eq!(out.len(), 2);
}

#[test]
fn empty_deck_mid_deal_gives_a_soldier() {
    let mut t = table(0, vec![6], vec![seat(1, "Al", [0, 0], true), seat(2, "Bo", [2, 0], true)]);
    let mut out = Vec::new();
    t.run_turn(&mut out);
    assert_eq!(t.seats[0].hand, vec![6, 1]);
    assert!(t.game.deck.is_empty());
}

#[test]
fn continue_turns_goes_to_next_living() {
    let mut t = table(2, vec![1], vec![seat(1, "Al", [1, 0], true), seat(2, "Bo", [1, 0], true), seat(3, "Cy", [1, 0], false), seat(4, "Di", [1, 0], false)]);
    t.continue_turns();
    assert_eq!(t.game.turn, 1);
    assert_eq!(t.count_alive(), 2);
    assert_eq!(t.first_alive_seat(), 0);
}

#[test]
fn leader_is_first_highest() {
    let t = table(1, vec![], vec![seat(1, "Al", [2, 6], true), seat(2, "Bo", [6, 1], true), seat(3, "Cy", [8, 0], false)]);
    assert_eq!(t.find_leader(), (Some(0), 6));
    let nobody = table(1, vec![], vec![seat(1, "Al", [0, 0], true)]);
    assert_eq!(nobody.find_leader(), (None, 0));
}
