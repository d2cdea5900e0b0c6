use loveletter::client::{
    after_reply, events_url, input_body, input_url, join_body, join_url, new_game_body, new_game_url,
    resume_banner, resume_target, server_address, wants_new_game,
};

#[test]
fn empty_address_means_the_default_server() {
    assert_eq!(server_address(""), "https://loveletter.lschaefer.xyz");
    assert_eq!(server_address("http://localhost:8080"), "http://localhost:8080");
}

#[test]
fn three_arguments_resume_a_game() {
    let args: Vec<String> = ["prog", "http://s", "G", "P"].iter().map(|s| s.to_string()).collect();
    assert_eq!(resume_target(&args), Some(("http://s".to_string(), "G".to_string(), "P".to_string())));
    let few: Vec<String> = ["prog", "http://s", "G"].iter().map(|s| s.to_string()).collect();
    assert_eq!(resume_target(&few), None);
}

#[test]
fn y_creates_a_game() {
    assert!(wants_new_game("y\n"));
    assert!(wants_new_game("yes"));
    assert!(!wants_new_game("n\n"));
    assert!(!wants_new_game("Y"));
    assert!(!wants_new_game("\n"));
}

#[test]
fn banner_tells_how_to_come_back() {
    assert_eq!(
        resume_banner("http://s", "G", "P"),
        "If you want to run this program again while staying in the same game you can just run the command and add `http://s G P` to the end."
    );
}

#[test]
fn request_addresses() {
    assert_eq!(new_game_url("http://s"), "http://s/newgame");
    assert_eq!(join_url("http://s", "G"), "http://s/join/G");
    assert_eq!(events_url("http://s", "G", "P"), "http://s/events/G/P");
    assert_eq!(input_url("http://s", "G", "P"), "http://s/input/G/P");
}

#[test]
fn request_bodies() {
    assert_eq!(new_game_body(4), "{\"players\":4}");
    assert_eq!(new_game_body(-2), "{\"players\":-2}");
    assert_eq!(join_body("Ann"), "{\"name\":\"Ann\"}");
    assert_eq!(join_body("a\"b\\c"), "{\"name\":\"a\\\"b\\\\c\"}");
    assert_eq!(input_body("2"), "{\"input\":\"2\"}");
}

#[test]
fn reply_decides_whether_to_ask_again() {
    assert_eq!(after_reply("Input received"), None);
    assert_eq!(after_reply("Invalid input"), Some("Invalid input\n".to_string()));
    assert_eq!(after_reply(""), Some("\n".to_string()));
}
