use loveletter::events::Event;
use loveletter::play::{accepted_reply, is_accepted, InputError};
use loveletter::table::{Games, Players, Table};

fn seat(turn: i32, name: &str, hand: [usize; 2]) -> Players {
    Players {
        id: format!("p{}", turn),
        turn,
        name: name.to_string(),
        hand: hand.to_vec(),
        immune: false,
        alive: true,
        text: String::new(),
        input: turn == 1,
    }
}

fn table(deck: Vec<usize>, seats: Vec<Players>, played_card: i32, player_pick: i32) -> Table {
    Table {
        game: Games { id: "G".to_string(), turn: 1, deck, players: seats.len() as i32, played_card, player_pick },
        seats,
    }
}

fn two(h1: [usize; 2], h2: [usize; 2], deck: Vec<usize>, played_card: i32, player_pick: i32) -> Table {
    table(deck, vec![seat(1, "Al", h1), seat(2, "Bo", h2)], played_card, player_pick)
}

fn texts(out: &[Event]) -> Vec<(Option<i32>, String, bool)> {
    out.iter().map(|e| (e.player, e.event.text.clone(), e.event.input)).collect()
}

fn send(t: &mut Table, id: &str, input: &str) -> Result<Vec<Event>, InputError> {
    t.receive_input(&id.to_string(), input)
}

fn all(s: &str) -> (Option<i32>, String, bool) {
    (None, s.to_string(), false)
}

#[test]
fn input_refused_for_unknown_player() {
    let mut t = two([4, 2], [3, 0], vec![5], -1, -1);
    assert_eq!(send(&mut t, "nope", "1").unwrap_err(), InputError::PlayerMissing);
    assert_eq!(InputError::PlayerMissing.message(), "Player Does not exist");
    assert_eq!(InputError::GameMissing.message(), "Game Does not exist");
}

#[test]
fn input_refused_out_of_turn() {
    let mut t = two([4, 2], [3, 0], vec![5], -1, -1);
    t.seats[1].input = true;
    let e = send(&mut t, "p2", "1").unwrap_err();
    assert_eq!(e, InputError::NotYourTurn);
    assert_eq!(e.message(), "It is not your turn");
    assert_eq!(t.seats[1].hand, vec![3, 0]);
}

#[test]
fn input_refused_when_not_asked() {
    let mut t = two([4, 2], [3, 0], vec![5], -1, -1);
    t.seats[0].input = false;
    let e = send(&mut t, "p1", "1").unwrap_err();
    assert_eq!(e, InputError::NotAsked);
    assert_eq!(e.message(), "You can't input right now");
}

#[test]
fn input_refused_when_not_a_number() {
    let mut t = two([4, 2], [3, 0], vec![5], -1, -1);
    for s in ["x", "", "-1", " 1"] {
        let e = send(&mut t, "p1", s).unwrap_err();
        assert_eq!(e, InputError::InvalidInput);
        assert_eq!(e.message(), "Invalid input");
    }
    assert_eq!(t.seats[0].hand, vec![4, 2]);
    assert_eq!(t.seats[0].text, "");
}

#[test]
fn input_refused_for_a_card_not_in_hand() {
    let mut t = two([4, 2], [3, 0], vec![5], -1, -1);
    for s in ["0", "3", "100"] {
        let e = send(&mut t, "p1", s).unwrap_err();
        assert_eq!(e, InputError::InvalidCard);
        assert_eq!(e.message(), "Invalid card picked");
    }
}

#[test]
fn input_refused_for_a_missing_target() {
    let mut t = table(vec![5], vec![seat(1, "Al", [2, 3]), seat(2, "Bo", [4, 0]), seat(3, "Cy", [5, 0])], 0, -1);
    t.seats[2].alive = false;
    for s in ["3", "9", "0"] {
        let e = send(&mut t, "p1", s).unwrap_err();
        assert_eq!(e, InputError::InvalidPlayer);
        assert_eq!(e.message(), "Invalid player picked");
    }
    assert_eq!(t.game.player_pick, -1);
}

#[test]
fn input_refused_for_a_guess_out_of_range() {
    let mut t = two([1, 2], [3, 0], vec![5], 0, 2);
    for s in ["1", "0", "9"] {
        let e = send(&mut t, "p1", s).unwrap_err();
        assert_eq!(e, InputError::InvalidGuess);
        assert_eq!(e.message(), "Invalid guess");
    }
    assert_eq!(t.seats[0].hand, vec![1, 2]);
}

#[test]
fn priestess_makes_immune() {
    let mut t = two([4, 2], [3, 0], vec![5, 6], -1, -1);
    let out = send(&mut t, "p1", "1").unwrap();
    assert!(t.seats[0].immune);
    assert_eq!(t.seats[0].hand, vec![0, 2]);
    assert_eq!(t.game.turn, 2);
    assert_eq!(t.seats[1].hand, vec![3, 6]);
    assert_eq!(
        texts(&out),
        vec![
            all("Player 1 called Al played the priestess.\n"),
            all("It is player 2 called Bo's turn\n"),
            (
                Some(2),
                "Your hand is:\n1. 3-Knight-Compare your card with another players card. The player with the lower card is eleminated.\n2. 6-General-Swap your hand with another players hand.\nDo you want to play card 1 or 2:\n".to_string(),
                true
            ),
        ]
    );
}

#[test]
fn princess_discarded_is_out() {
    let mut t = two([2, 8], [3, 0], vec![5], -1, -1);
    let out = send(&mut t, "p1", "+2").unwrap();
    assert!(!t.seats[0].alive);
    assert_eq!(t.seats[0].hand, vec![2, 0]);
    assert_eq!(
        texts(&out),
        vec![all("Player 1 called Al played the princess and is out.\n"), all("Game over! Player 2 called Bo wins!\n")]
    );
}

#[test]
fn minister_played_does_nothing() {
    let mut t = two([7, 2], [3, 0], vec![5], -1, -1);
    let out = send(&mut t, "p1", "1").unwrap();
    assert!(t.seats[0].alive);
    assert_eq!(out[0].event.text, "Player 1 called Al played the minister.\n");
    assert_eq!(t.game.turn, 2);
}

#[test]
fn empty_card_played() {
    let mut t = two([0, 2], [3, 0], vec![5], -1, -1);
    let out = send(&mut t, "p1", "1").unwrap();
    assert_eq!(out[0].event.text, "Player 1 called Al played an empty card. How? I have no clue.\n");
    assert_eq!(t.game.turn, 2);
}

#[test]
fn targeted_card_asks_for_a_target() {
    let mut t = table(vec![5], vec![seat(1, "Al", [2, 3]), seat(2, "Bo", [4, 0]), seat(3, "Cy", [5, 0]), seat(4, "Di", [1, 0])], -1, -1);
    t.seats[2].alive = false;
    t.seats[3].immune = true;
    let out = send(&mut t, "p1", "2").unwrap();
    assert_eq!(t.game.played_card, 1);
    assert_eq!(t.seats[0].hand, vec![2, 3]);
    assert_eq!(
        texts(&out),
        vec![(Some(1), "What player do you want to target?\nPlayers:\n2 Bo\n4 Di\n".to_string(), true)]
    );
    assert!(t.seats[0].input);
}

#[test]
fn clown_shows_the_target_cards() {
    let mut t = two([2, 3], [5, 0], vec![4], 0, -1);
    let out = send(&mut t, "p1", "2").unwrap();
    assert_eq!(t.seats[0].hand, vec![0, 3]);
    assert_eq!(out[0].player, Some(1));
    assert_eq!(out[0].event.text, "Player 2 called Bo has card(s):\n5-Wizard-Target another player to discard a card\n");
    assert_eq!(out[1].event.text, "Player 1 called Al played the clown, and looked at player 2 called Bo\n");
    assert_eq!(out[2].event.text, "It is player 2 called Bo's turn\n");
}

#[test]
fn knight_lower_card_loses() {
    let mut t = two([3, 2], [5, 0], vec![4], 0, -1);
    let out = send(&mut t, "p1", "2").unwrap();
    assert!(!t.seats[0].alive);
    assert!(t.seats[1].alive);
    assert_eq!(t.seats[0].hand, vec![0, 2]);
    assert_eq!(
        texts(&out),
        vec![
            all("Player 1 called Al played a knight and lost against player 2 called Bo.\nPlayer 1 had a 2-Clown\n"),
            all("Game over! Player 2 called Bo wins!\n"),
        ]
    );
}

#[test]
fn knight_higher_card_wins() {
    let mut t = two([3, 6], [5, 0], vec![4], 0, -1);
    let out = send(&mut t, "p1", "2").unwrap();
    assert!(t.seats[0].alive);
    assert!(!t.seats[1].alive);
    assert_eq!(
        texts(&out),
        vec![
            all("Player 1 called Al played a knight and won against player 2 called Bo\nPlayer 2 had a 5-Wizard\n"),
            all("Game over! Player 1 called Al wins!\n"),
        ]
    );
}

#[test]
fn knight_tie_eliminates_nobody() {
    let mut t = two([3, 5], [5, 0], vec![4], 0, -1);
    let out = send(&mut t, "p1", "2").unwrap();
    assert!(t.seats[0].alive && t.seats[1].alive);
    assert_eq!(out[0].event.text, "Player 1 called Al played a knight and tied with player 2 called Bo.\n");
    assert_eq!(t.game.turn, 2);
}

#[test]
fn wizard_makes_the_target_discard() {
    let mut t = two([5, 2], [6, 0], vec![1, 4], 0, -1);
    let out = send(&mut t, "p1", "2").unwrap();
    assert!(t.seats[1].alive);
    assert_eq!(t.seats[0].hand, vec![0, 2]);
    assert_eq!(t.seats[1].hand, vec![4, 1]);
    assert!(t.game.deck.is_empty());
    assert_eq!(out[0].event.text, "Player 1 called Al played a wizard and caused player 2 called Bo to discard their hand\n");
}

#[test]
fn wizard_on_an_empty_deck_is_flagged() {
    let t = two([5, 2], [8, 0], vec![], 0, -1);
    assert!(t.input_exhausts_deck(&"p1".to_string(), "2"));
    assert!(!t.input_exhausts_deck(&"p1".to_string(), "3"));
    let mut immune = two([5, 2], [8, 0], vec![], 0, -1);
    immune.seats[1].immune = true;
    assert!(!immune.input_exhausts_deck(&"p1".to_string(), "2"));
    let clown = two([2, 2], [8, 0], vec![], 0, -1);
    assert!(!clown.input_exhausts_deck(&"p1".to_string(), "2"));
}

#[test]
fn general_swaps_hands() {
    let mut t = two([6, 2], [7, 0], vec![4], 0, -1);
    let out = send(&mut t, "p1", "2").unwrap();
    assert_eq!(t.seats[0].hand, vec![7, 0]);
    assert_eq!(t.seats[1].hand, vec![4, 2]);
    assert_eq!(
        texts(&out)[..3].to_vec(),
        vec![
            all("Player 1 called Al played a general and caused player 2 called Bo to switch hands with them\n"),
            (Some(1), "Your cards were switched and now are \n7-Minister-If your hand has a total of 12 or more you are eliminated.\n".to_string(), false),
            (Some(2), "Your cards were switched and now are \n2-Clown-Look at another players card.\n".to_string(), false),
        ]
    );
}

#[test]
fn own_seat_is_no_target() {
    let mut t = two([6, 3], [7, 0], vec![4], 0, -1);
    assert_eq!(send(&mut t, "p1", "1").unwrap_err(), InputError::InvalidPlayer);
    assert_eq!(t.seats[0].hand, vec![6, 3]);
    assert_eq!(t.game.played_card, 0);
    let e = two([5, 3], [7, 0], vec![], 0, -1);
    assert!(!e.input_exhausts_deck(&"p1".to_string(), "1"));
}

#[test]
fn wizard_making_the_princess_discarded_puts_the_target_out() {
    let mut t = two([5, 2], [8, 3], vec![1, 4], 0, -1);
    let out = send(&mut t, "p1", "2").unwrap();
    assert!(!t.seats[1].alive);
    assert_eq!(t.seats[1].hand, vec![4, 0]);
    assert_eq!(t.seats[0].hand, vec![0, 2]);
    assert_eq!(
        texts(&out),
        vec![
            all("Player 1 called Al played a wizard and caused player 2 called Bo to discard their hand\n"),
            all("Player 2 called Bo discarded the princess and is out.\n"),
            all("Game over! Player 1 called Al wins!\n"),
        ]
    );
}

#[test]
fn soldier_asks_for_a_guess() {
    let mut t = two([1, 2], [5, 0], vec![4], 0, -1);
    let out = send(&mut t, "p1", "2").unwrap();
    assert_eq!(t.game.player_pick, 2);
    assert_eq!(t.seats[0].hand, vec![1, 2]);
    assert_eq!(texts(&out), vec![(Some(1), "Pick the card number you want to guess:\n".to_string(), true)]);
}

#[test]
fn soldier_right_guess_eliminates() {
    let mut t = two([1, 2], [5, 0], vec![4], 0, 2);
    let out = send(&mut t, "p1", "5").unwrap();
    assert!(!t.seats[1].alive);
    assert_eq!(t.seats[0].hand, vec![0, 2]);
    assert_eq!(
        texts(&out),
        vec![
            all("Player 1 called Al played a soldier, and guessed that player 2 called Bo had the card number 5 called Wizard and was correct.\n"),
            all("Player 2 called Bo is eliminated due to soldier.\n"),
            all("Game over! Player 1 called Al wins!\n"),
        ]
    );
}

#[test]
fn soldier_wrong_guess_passes_the_turn() {
    let mut t = two([1, 2], [5, 0], vec![4], 0, 2);
    let out = send(&mut t, "p1", "6").unwrap();
    assert!(t.seats[1].alive);
    assert_eq!(out[0].event.text, "Player 1 called Al played a soldier, and guessed that player 2 called Bo had the card number 6 called General and was wrong.\n");
    assert_eq!(t.game.turn, 2);
}

#[test]
fn immune_target_is_unaffected() {
    let mut t = two([3, 2], [5, 0], vec![4], 0, -1);
    t.seats[1].immune = true;
    let out = send(&mut t, "p1", "2").unwrap();
    assert!(t.seats[0].alive && t.seats[1].alive);
    assert_eq!(t.seats[0].hand, vec![0, 2]);
    assert_eq!(out[0].player, Some(1));
    assert_eq!(
        out[0].event.text,
        "Player 1 called Al tried to play card 0 called Empty Card on player 2 called Bo, but player 2 is immune to attacks right now.\n"
    );
}

#[test]
fn each_player_is_told_what_reached_them() {
    let mut t = two([6, 2], [7, 0], vec![4], 0, -1);
    t.seats[0].text = "before\n".to_string();
    let out = send(&mut t, "p1", "2").unwrap();
    for s in &t.seats {
        let heard: String = out.iter().filter(|e| e.reaches(&"G".to_string(), s.turn)).map(|e| e.event.text.clone()).collect();
        let before = if s.turn == 1 { "before\n" } else { "" };
        assert_eq!(s.text, format!("{}{}", before, heard));
    }
}

#[test]
fn replies_to_input() {
    assert_eq!(accepted_reply(), "Input received");
    assert!(is_accepted("Input received"));
    assert!(!is_accepted("Invalid input"));
    assert!(!is_accepted("Input received\n"));
}

#[test]
fn only_the_current_player_is_ever_asked() {
    let mut t = table(vec![1, 2, 3, 4, 5], vec![seat(1, "Al", [1, 2]), seat(2, "Bo", [3, 0]), seat(3, "Cy", [6, 0])], -1, -1);
    let check = |t: &Table| {
        for s in &t.seats {
            if s.input {
                assert_eq!(s.turn, t.game.turn);
            }
        }
    };
    send(&mut t, "p1", "1").unwrap();
    check(&t);
    send(&mut t, "p1", "3").unwrap();
    check(&t);
    send(&mut t, "p1", "4").unwrap();
    check(&t);
    assert_eq!(t.game.turn, 2);
    assert!(t.seats[1].input);
    assert!(!t.seats[0].input);
}
