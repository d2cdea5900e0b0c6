use loveletter::lobby::{new_game, JoinError};
use loveletter::table::{Games, Table};

fn empty_game(players: i32, deck: Vec<usize>) -> Table {
    Table { game: Games { id: "G".to_string(), turn: 0, deck, players, played_card: -1, player_pick: -1 }, seats: Vec::new() }
}

#[test]
fn new_game_is_ready_for_players() {
    let t = new_game(4);
    assert_eq!(t.game.id.chars().count(), 10);
    assert!(t.game.id.chars().all(|c| c.is_ascii_alphanumeric()));
    assert_eq!(t.game.deck.len(), 16);
    assert_eq!(t.game.players, 4);
    assert_eq!(t.game.turn, 0);
    assert!(t.seats.is_empty());
}

#[test]
fn joining_takes_the_next_seat() {
    let mut t = empty_game(3, vec![1, 2, 3]);
    let out = t.join("a".to_string(), "Ann".to_string()).unwrap();
    assert_eq!(t.seats.len(), 1);
    assert_eq!(t.seats[0].turn, 1);
    assert_eq!(t.seats[0].hand, vec![3, 0]);
    assert!(t.seats[0].alive);
    assert_eq!(t.game.deck, vec![1, 2]);
    let texts: Vec<String> = out.iter().map(|e| e.event.text.clone()).collect();
    assert_eq!(texts, vec!["Ann joined the game\n".to_string(), "To join the game use game ID G\n".to_string()]);
    assert!(out.iter().all(|e| e.player.is_none() && !e.event.input && e.game == "G"));
    assert_eq!(t.seats[0].text, "Ann joined the game\nTo join the game use game ID G\n");
    t.join("b".to_string(), "Ben".to_string()).unwrap();
    assert_eq!(t.seats[1].turn, 2);
    assert_eq!(t.seats[1].hand, vec![2, 0]);
    assert_eq!(t.game.turn, 0);
}

#[test]
fn full_game_refuses() {
    let mut t = empty_game(1, vec![1, 2, 3, 4]);
    t.join("a".to_string(), "Ann".to_string()).unwrap();
    let r = t.join("b".to_string(), "Ben".to_string());
    assert_eq!(r.unwrap_err(), JoinError::Full);
    assert_eq!(t.seats.len(), 1);
    assert_eq!(JoinError::Full.message(), "Game is full");
    assert_eq!(JoinError::NotFound.message(), "Game not found");
}

#[test]
fn game_for_nobody_is_full_at_once() {
    let mut t = empty_game(0, vec![1]);
    assert_eq!(t.join("a".to_string(), "Ann".to_string()).unwrap_err(), JoinError::Full);
}

#[test]
fn game_for_a_negative_number_never_fills() {
    let mut t = empty_game(-1, vec![1, 2, 3, 4]);
    for k in 0..3 {
        let out = t.join(format!("p{}", k), format!("P{}", k)).unwrap();
        assert_eq!(out.len(), 2);
    }
    assert_eq!(t.game.turn, 0);
}

#[test]
fn last_seat_starts_the_game() {
    let mut t = empty_game(2, vec![5, 4, 3, 2]);
    t.join("a".to_string(), "Ann".to_string()).unwrap();
    let out = t.join("b".to_string(), "Ben".to_string()).unwrap();
    let texts: Vec<(Option<i32>, String, bool)> = out.iter().map(|e| (e.player, e.event.text.clone(), e.event.input)).collect();
    assert_eq!(
        texts,
        vec![
            (None, "Ben joined the game\n".to_string(), false),
            (None, "To join the game use game ID G\n".to_string(), false),
            (None, "Game is starting\n".to_string(), false),
            (None, "It is player 1 called Ann's turn\n".to_string(), false),
            (
                Some(1),
                "Your hand is:\n1. 2-Clown-Look at another players card.\n2. 4-Priestess-Ignore all attacks from other players.\nDo you want to play card 1 or 2:\n".to_string(),
                true
            ),
        ]
    );
    assert_eq!(t.game.turn, 1);
    assert_eq!(t.seats[0].hand, vec![2, 4]);
    assert_eq!(t.seats[1].hand, vec![3, 0]);
    assert_eq!(t.game.deck, vec![5]);
    assert!(t.seats[0].input);
}

#[test]
fn single_player_game_ends_at_once() {
    let mut t = empty_game(1, vec![5, 4]);
    let out = t.join("a".to_string(), "Ann".to_string()).unwrap();
    assert_eq!(out.last().unwrap().event.text, "Game over! Player 1 called Ann wins!\n");
}

#[test]
fn test_event_reaches_everyone() {
    let mut t = empty_game(3, vec![5, 4]);
    t.join("a".to_string(), "Ann".to_string()).unwrap();
    let out = t.test_event();
    assert_eq!(out.len(), 1);
    assert_eq!(out[0].event.text, "test\n");
    assert!(t.seats[0].text.ends_with("test\n"));
}

#[test]
fn joiners_are_told_what_reached_them() {
    let mut t = empty_game(2, vec![5, 4, 3, 2]);
    let first = t.join("a".to_string(), "Ann".to_string()).unwrap();
    let second = t.join("b".to_string(), "Ben".to_string()).unwrap();
    let heard = |out: &Vec<loveletter::events::Event>, turn: i32| -> String {
        out.iter().filter(|e| e.reaches(&"G".to_string(), turn)).map(|e| e.event.text.clone()).collect()
    };
    assert_eq!(t.seats[0].text, format!("{}{}", heard(&first, 1), heard(&second, 1)));
    assert_eq!(t.seats[1].text, heard(&second, 2));
}
