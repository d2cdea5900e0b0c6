//! What the terminal client computes: the addresses and bodies of its requests, whether to
//! create a game or join one, where to go back into a game, and what to do with the server's
//! answer to an input.

use crate::play::{accepted_text, is_accepted};
use crate::text::{dec_int, int_text};
use vstd::prelude::*;

verus! {

/// The server the client uses when no address is entered.
pub open spec fn default_server_text() -> Seq<char> {
    "https://loveletter.lschaefer.xyz"@
}

/// The server to talk to: the address entered, or the default server when none was entered.
pub fn server_address(entered: &str) -> (s: String)
    ensures
        s@ == (if entered@.len() == 0 { default_server_text() } else { entered@ }),
{
    if entered.unicode_len() == 0 {
        String::from_str("https://loveletter.lschaefer.xyz")
    } else {
        String::from_str(entered)
    }
}

/// Where the client goes back into a game: the server, game id and player id given as the
/// first three arguments after the program's name, when there are that many.
pub fn resume_target(args: &Vec<String>) -> (r: Option<(String, String, String)>)
    ensures
        r is Some <==> args.len() > 3,
        r matches Some(t) ==> t.0@ == args[1]@ && t.1@ == args[2]@ && t.2@ == args[3]@,
{
    if args.len() > 3 {
        Some((args[1].clone(), args[2].clone(), args[3].clone()))
    } else {
        None
    }
}

/// Whether the answer to "Do you want to create a new game?" asks for a new game: its first
/// character is `y`.
pub fn wants_new_game(line: &str) -> (r: bool)
    requires
        line@.len() > 0,
    ensures
        r == (line@[0] == 'y'),
{
    line.get_char(0) == 'y'
}

/// The line that tells the player how to come back into the same game.
pub fn resume_banner(server: &str, game: &str, player: &str) -> (s: String)
    ensures
        s@ == "If you want to run this program again while staying in the same game you can just run the command and add `"@
            + server@ + " "@ + game@ + " "@ + player@ + "` to the end."@,
{
    let mut s = String::from_str("If you want to run this program again while staying in the same game you can just run the command and add `");
    s.append(server);
    s.append(" ");
    s.append(game);
    s.append(" ");
    s.append(player);
    s.append("` to the end.");
    s
}

/// The address that creates a game.
pub fn new_game_url(server: &str) -> (s: String)
    ensures
        s@ == server@ + "/newgame"@,
{
    let mut s = String::from_str(server);
    s.append("/newgame");
    s
}

/// The address that joins a game.
pub fn join_url(server: &str, game: &str) -> (s: String)
    ensures
        s@ == server@ + "/join/"@ + game@,
{
    let mut s = String::from_str(server);
    s.append("/join/");
    s.append(game);
    s
}

/// The address of a player's event stream.
pub fn events_url(server: &str, game: &str, player: &str) -> (s: String)
    ensures
        s@ == server@ + "/events/"@ + game@ + "/"@ + player@,
{
    let mut s = String::from_str(server);
    s.append("/events/");
    s.append(game);
    s.append("/");
    s.append(player);
    s
}

/// The address a player sends input to.
pub fn input_url(server: &str, game: &str, player: &str) -> (s: String)
    ensures
        s@ == server@ + "/input/"@ + game@ + "/"@ + player@,
{
    let mut s = String::from_str(server);
    s.append("/input/");
    s.append(game);
    s.append("/");
    s.append(player);
    s
}

/// The body of the request that creates a game for `players` players.
pub fn new_game_body(players: i32) -> (s: String)
    ensures
        s@ == "{\"players\":"@ + dec_int(players as int) + "}"@,
{
    let mut s = String::from_str("{\"players\":");
    s.append(int_text(players as i64).as_str());
    s.append("}");
    s
}

/// The JSON text of an object with the single string field `key` holding `value`, as
/// `serde_json` writes it.
pub uninterp spec fn json_one_field(key: Seq<char>, value: Seq<char>) -> Seq<char>;

/// `serde_json`: writes the object `{key: value}` with `value` a JSON string, by
/// `Value::to_string`. The text is named, not spelled out: the escaping of the string is
/// `serde_json`'s.
#[verifier::external_body]
fn one_field_json(key: &str, value: &str) -> (s: String)
    ensures
        s@ == json_one_field(key@, value@),
{
    let mut fields = serde_json::Map::new();
    fields.insert(key.to_string(), serde_json::Value::String(value.to_string()));
    serde_json::Value::Object(fields).to_string()
}

/// The body of the request that joins a game under the name `name`.
pub fn join_body(name: &str) -> (s: String)
    ensures
        s@ == json_one_field("name"@, name@),
{
    one_field_json("name", name)
}

/// The body of the request that sends the input `input`.
pub fn input_body(input: &str) -> (s: String)
    ensures
        s@ == json_one_field("input"@, input@),
{
    one_field_json("input", input)
}

/// What the client does with the server's answer to an input: nothing more when the input was
/// accepted (`None`); otherwise it shows the answer on a line of its own and asks again.
pub fn after_reply(reply: &str) -> (r: Option<String>)
    ensures
        r is None <==> reply@ == accepted_text(),
        r matches Some(t) ==> t@ == reply@ + "\n"@,
{
    if is_accepted(reply) {
        None
    } else {
        let mut s = String::from_str(reply);
        s.append("\n");
        Some(s)
    }
}

} // verus!
