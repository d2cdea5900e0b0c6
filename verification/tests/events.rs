use loveletter::events::{Event, EventData};
use loveletter::ids::random_id;
use loveletter::table::{Games, Players, Table};

fn seat(turn: i32, name: &str) -> Players {
    Players {
        id: format!("p{}", turn),
        turn,
        name: name.to_string(),
        hand: vec![1, 0],
        immune: false,
        alive: true,
        text: String::new(),
        input: false,
    }
}

fn table() -> Table {
    Table {
        game: Games { id: "G".to_string(), turn: 1, deck: vec![], players: 2, played_card: -1, player_pick: -1 },
        seats: vec![seat(1, "Al"), seat(2, "Bo")],
    }
}

#[test]
fn events_reach_their_game_and_player() {
    let to_all = Event::new("G".to_string(), None, "x".to_string(), false);
    let to_two = Event::new("G".to_string(), Some(2), "y".to_string(), true);
    assert!(to_all.reaches(&"G".to_string(), 1));
    assert!(to_all.reaches(&"G".to_string(), 2));
    assert!(!to_all.reaches(&"H".to_string(), 1));
    assert!(to_two.reaches(&"G".to_string(), 2));
    assert!(!to_two.reaches(&"G".to_string(), 1));
    assert!(!to_two.reaches(&"H".to_string(), 2));
    assert_eq!(to_two.event.text, "y");
    assert!(to_two.event.input);
}

#[test]
fn recorded_event_goes_to_its_player_only() {
    let mut t = table();
    t.record_event(&Event { game: "G".to_string(), player: Some(2), event: EventData { text: "hi\n".to_string(), input: true } });
    assert_eq!(t.seats[0].text, "");
    assert!(!t.seats[0].input);
    assert_eq!(t.seats[1].text, "hi\n");
    assert!(t.seats[1].input);
    t.record_event(&Event { game: "G".to_string(), player: None, event: EventData { text: "all\n".to_string(), input: false } });
    assert_eq!(t.seats[0].text, "all\n");
    assert_eq!(t.seats[1].text, "hi\nall\n");
    assert!(!t.seats[1].input);
}

#[test]
fn event_of_another_game_is_not_recorded() {
    let mut t = table();
    t.record_event(&Event { game: "H".to_string(), player: None, event: EventData { text: "x".to_string(), input: true } });
    assert_eq!(t.seats[0].text, "");
    assert_eq!(t.seats[1].text, "");
}

#[test]
fn catch_up_repeats_everything_said() {
    let mut p = seat(1, "Al");
    p.text = "a\nb\n".to_string();
    p.input = true;
    let e = p.catch_up(&"G".to_string());
    assert_eq!(e.game, "G");
    assert_eq!(e.player, None);
    assert_eq!(e.event.text, "a\nb\n");
    assert!(e.event.input);
}

#[test]
fn ids_are_ten_letters_or_digits() {
    for _ in 0..20 {
        let id = random_id();
        assert_eq!(id.chars().count(), 10);
        assert!(id.chars().all(|c| c.is_ascii_alphanumeric()));
    }
}

#[test]
fn ids_differ_from_call_to_call() {
    let a = random_id();
    let b = random_id();
    let c = loveletter::random_id();
    assert!(a != b || b != c);
}
