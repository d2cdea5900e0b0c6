//! The texts that the game tells its players.

use crate::cards::{card_description, card_description_spec, card_name, card_name_spec};
use crate::table::{PlayerView, Players};
use crate::text::{dec_int, dec_nat, int_text, nat_text};
use vstd::prelude::*;

verus! {

/// "Player 3 called Ann": how a player is named in the game's texts.
pub open spec fn label(turn: int, name: Seq<char>) -> Seq<char> {
    "Player "@ + dec_int(turn) + " called "@ + name
}

pub open spec fn starting_text() -> Seq<char> {
    "Game is starting\n"@
}

pub open spec fn joined_text(name: Seq<char>) -> Seq<char> {
    name + " joined the game\n"@
}

pub open spec fn join_hint_text(game: Seq<char>) -> Seq<char> {
    "To join the game use game ID "@ + game + "\n"@
}

pub open spec fn played_empty_text(turn: int, name: Seq<char>) -> Seq<char> {
    label(turn, name) + " played an empty card. How? I have no clue.\n"@
}

pub open spec fn played_priestess_text(turn: int, name: Seq<char>) -> Seq<char> {
    label(turn, name) + " played the priestess.\n"@
}

pub open spec fn played_minister_text(turn: int, name: Seq<char>) -> Seq<char> {
    label(turn, name) + " played the minister.\n"@
}

pub open spec fn played_princess_text(turn: int, name: Seq<char>) -> Seq<char> {
    label(turn, name) + " played the princess and is out.\n"@
}

pub open spec fn princess_discarded_text(turn: int, name: Seq<char>) -> Seq<char> {
    label(turn, name) + " discarded the princess and is out.\n"@
}

/// The lines "\n<seat> <name>" of the living players among the first `k` seats other than
/// seat `me`.
pub open spec fn target_entries(seats: Seq<PlayerView>, me: i32, k: int) -> Seq<char>
    decreases k,
{
    if k <= 0 {
        Seq::empty()
    } else {
        let p = seats[k - 1];
        target_entries(seats, me, k - 1) + if p.alive && p.turn != me {
            "\n"@ + dec_int(p.turn as int) + " "@ + p.name
        } else {
            Seq::empty()
        }
    }
}

/// Asks the player of seat `me` for a target among the other living players.
pub open spec fn target_prompt_text(seats: Seq<PlayerView>, me: i32) -> Seq<char> {
    "What player do you want to target?\n"@ + ("Players:"@ + target_entries(seats, me, seats.len() as int)) + "\n"@
}

pub open spec fn immune_text(turn: int, name: Seq<char>, slot: int, picked: nat, target: Seq<char>) -> Seq<char> {
    label(turn, name) + " tried to play card "@ + dec_int(slot) + " called "@ + card_name_spec(slot)
        + " on player "@ + dec_nat(picked) + " called "@ + target + ", but player "@ + dec_nat(picked)
        + " is immune to attacks right now.\n"@
}

/// The lines "\n<card>-<name>-<description>" of the cards of a hand, empty slots left out.
pub open spec fn cards_text(h: Seq<usize>) -> Seq<char>
    decreases h.len(),
{
    if h.len() == 0 {
        Seq::empty()
    } else {
        let c = h.last();
        cards_text(h.drop_last()) + if c != 0 {
            "\n"@ + dec_nat(c as nat) + "-"@ + card_name_spec(c as int) + "-"@ + card_description_spec(c as int)
        } else {
            Seq::empty()
        }
    }
}

pub open spec fn shown_cards_text(turn: int, name: Seq<char>, hand: Seq<usize>) -> Seq<char> {
    label(turn, name) + " has card(s):"@ + cards_text(hand) + "\n"@
}

pub open spec fn played_clown_text(turn: int, name: Seq<char>, target_turn: int, target: Seq<char>) -> Seq<char> {
    label(turn, name) + " played the clown, and looked at player "@ + dec_int(target_turn) + " called "@ + target + "\n"@
}

pub open spec fn knight_lost_text(turn: int, name: Seq<char>, target_turn: int, target: Seq<char>, card: nat) -> Seq<char> {
    label(turn, name) + " played a knight and lost against player "@ + dec_int(target_turn) + " called "@ + target
        + ".\nPlayer "@ + dec_int(turn) + " had a "@ + dec_nat(card) + "-"@ + card_name_spec(card as int) + "\n"@
}

pub open spec fn knight_tie_text(turn: int, name: Seq<char>, target_turn: int, target: Seq<char>) -> Seq<char> {
    label(turn, name) + " played a knight and tied with player "@ + dec_int(target_turn) + " called "@ + target + ".\n"@
}

pub open spec fn knight_won_text(turn: int, name: Seq<char>, target_turn: int, target: Seq<char>, card: nat) -> Seq<char> {
    label(turn, name) + " played a knight and won against player "@ + dec_int(target_turn) + " called "@ + target
        + "\nPlayer "@ + dec_int(target_turn) + " had a "@ + dec_nat(card) + "-"@ + card_name_spec(card as int) + "\n"@
}

pub open spec fn played_wizard_text(turn: int, name: Seq<char>, target_turn: int, target: Seq<char>) -> Seq<char> {
    label(turn, name) + " played a wizard and caused player "@ + dec_int(target_turn) + " called "@ + target
        + " to discard their hand\n"@
}

pub open spec fn played_general_text(turn: int, name: Seq<char>, target_turn: int, target: Seq<char>) -> Seq<char> {
    label(turn, name) + " played a general and caused player "@ + dec_int(target_turn) + " called "@ + target
        + " to switch hands with them\n"@
}

pub open spec fn switched_text(hand: Seq<usize>) -> Seq<char> {
    "Your cards were switched and now are "@ + cards_text(hand) + "\n"@
}

pub open spec fn guess_prompt_text() -> Seq<char> {
    "Pick the card number you want to guess:\n"@
}

pub open spec fn soldier_text(turn: int, name: Seq<char>, target_turn: int, target: Seq<char>, guess: nat, right: bool) -> Seq<char> {
    label(turn, name) + " played a soldier, and guessed that player "@ + dec_int(target_turn) + " called "@ + target
        + " had the card number "@ + dec_nat(guess) + " called "@ + card_name_spec(guess as int)
        + if right { " and was correct.\n"@ } else { " and was wrong.\n"@ }
}

pub open spec fn soldier_out_text(turn: int, name: Seq<char>) -> Seq<char> {
    label(turn, name) + " is eliminated due to soldier.\n"@
}

pub open spec fn no_players_text() -> Seq<char> {
    "Game over! No players left! Something went wrong :(\n"@
}

pub open spec fn last_standing_text(turn: int, name: Seq<char>) -> Seq<char> {
    "Game over! "@ + label(turn, name) + " wins!\n"@
}

pub open spec fn highest_card_text(turn: int, name: Seq<char>, card: nat) -> Seq<char> {
    label(turn, name) + " won the game because they had the highest card "@ + dec_nat(card) + "-"@
        + card_name_spec(card as int) + "\n"@
}

pub open spec fn no_winner_text() -> Seq<char> {
    "Somehow noone won the game :(\n"@
}

pub open spec fn turn_text(turn: int, name: Seq<char>) -> Seq<char> {
    "It is player "@ + dec_int(turn) + " called "@ + name + "'s turn\n"@
}

pub open spec fn hand_prompt_text(c1: nat, c2: nat) -> Seq<char> {
    "Your hand is:\n1. "@ + dec_nat(c1) + "-"@ + card_name_spec(c1 as int) + "-"@ + card_description_spec(c1 as int)
        + "\n2. "@ + dec_nat(c2) + "-"@ + card_name_spec(c2 as int) + "-"@ + card_description_spec(c2 as int)
        + "\nDo you want to play card 1 or 2:\n"@
}

pub open spec fn minister_out_text(turn: int, name: Seq<char>) -> Seq<char> {
    label(turn, name) + " is out due to having a minister and a hand total of 12 or greater.\n"@
}

pub open spec fn test_text() -> Seq<char> {
    "test\n"@
}

fn from(s: &str) -> (r: String)
    ensures
        r@ == s@,
{
    String::from_str(s)
}

pub fn label_exec(turn: i32, name: &String) -> (s: String)
    ensures
        s@ == label(turn as int, name@),
{
    let mut s = from("Player ");
    s.append(int_text(turn as i64).as_str());
    s.append(" called ");
    s.append(name.as_str());
    s
}

pub fn starting() -> (s: String)
    ensures
        s@ == starting_text(),
{
    from("Game is starting\n")
}

pub fn joined(name: &String) -> (s: String)
    ensures
        s@ == joined_text(name@),
{
    let mut s = name.clone();
    s.append(" joined the game\n");
    s
}

pub fn join_hint(game: &String) -> (s: String)
    ensures
        s@ == join_hint_text(game@),
{
    let mut s = from("To join the game use game ID ");
    s.append(game.as_str());
    s.append("\n");
    s
}

pub fn played_empty(turn: i32, name: &String) -> (s: String)
    ensures
        s@ == played_empty_text(turn as int, name@),
{
    let mut s = label_exec(turn, name);
    s.append(" played an empty card. How? I have no clue.\n");
    s
}

pub fn played_priestess(turn: i32, name: &String) -> (s: String)
    ensures
        s@ == played_priestess_text(turn as int, name@),
{
    let mut s = label_exec(turn, name);
    s.append(" played the priestess.\n");
    s
}

pub fn played_minister(turn: i32, name: &String) -> (s: String)
    ensures
        s@ == played_minister_text(turn as int, name@),
{
    let mut s = label_exec(turn, name);
    s.append(" played the minister.\n");
    s
}

pub fn played_princess(turn: i32, name: &String) -> (s: String)
    ensures
        s@ == played_princess_text(turn as int, name@),
{
    let mut s = label_exec(turn, name);
    s.append(" played the princess and is out.\n");
    s
}

pub fn princess_discarded(turn: i32, name: &String) -> (s: String)
    ensures
        s@ == princess_discarded_text(turn as int, name@),
{
    let mut s = label_exec(turn, name);
    s.append(" discarded the princess and is out.\n");
    s
}

pub fn target_prompt(seats: &Vec<Players>, me: i32) -> (s: String)
    ensures
        s@ == target_prompt_text(seats@.map_values(|p: Players| p@), me),
{
    let ghost views = seats@.map_values(|p: Players| p@);
    let mut list = from("Players:");
    let mut k: usize = 0;
    while k < seats.len()
        invariant
            k <= seats.len(),
            views == seats@.map_values(|p: Players| p@),
            list@ == "Players:"@ + target_entries(views, me, k as int),
        decreases seats.len() - k,
    {
        let p = &seats[k];
        assert(views[k as int] == p@);
        if p.alive && p.turn != me {
            list.append("\n");
            list.append(int_text(p.turn as i64).as_str());
            list.append(" ");
            list.append(p.name.as_str());
        }
        k = k + 1;
        assert(list@ =~= "Players:"@ + target_entries(views, me, k as int));
    }
    let mut s = from("What player do you want to target?\n");
    s.append(list.as_str());
    s.append("\n");
    s
}

pub fn immune(turn: i32, name: &String, slot: i32, picked: usize, target: &String) -> (s: String)
    requires
        0 <= slot <= 8,
    ensures
        s@ == immune_text(turn as int, name@, slot as int, picked as nat, target@),
{
    let mut s = label_exec(turn, name);
    s.append(" tried to play card ");
    s.append(int_text(slot as i64).as_str());
    s.append(" called ");
    s.append(card_name(slot as usize));
    s.append(" on player ");
    s.append(nat_text(picked as u64).as_str());
    s.append(" called ");
    s.append(target.as_str());
    s.append(", but player ");
    s.append(nat_text(picked as u64).as_str());
    s.append(" is immune to attacks right now.\n");
    s
}

pub fn cards(h: &Vec<usize>) -> (s: String)
    requires
        forall|i: int| 0 <= i < h.len() ==> h[i] <= 8,
    ensures
        s@ == cards_text(h@),
{
    let mut s = String::new();
    let mut k: usize = 0;
    while k < h.len()
        invariant
            k <= h.len(),
            forall|i: int| 0 <= i < h.len() ==> h[i] <= 8,
            s@ == cards_text(h@.subrange(0, k as int)),
        decreases h.len() - k,
    {
        let c = h[k];
        if c != 0 {
            s.append("\n");
            s.append(nat_text(c as u64).as_str());
            s.append("-");
            s.append(card_name(c));
            s.append("-");
            s.append(card_description(c));
        }
        assert(h@.subrange(0, k + 1).drop_last() =~= h@.subrange(0, k as int));
        k = k + 1;
    }
    assert(h@.subrange(0, k as int) =~= h@);
    s
}

pub fn shown_cards(turn: i32, name: &String, hand: &Vec<usize>) -> (s: String)
    requires
        forall|i: int| 0 <= i < hand.len() ==> hand[i] <= 8,
    ensures
        s@ == shown_cards_text(turn as int, name@, hand@),
{
    let mut s = label_exec(turn, name);
    s.append(" has card(s):");
    s.append(cards(hand).as_str());
    s.append("\n");
    s
}

pub fn played_clown(turn: i32, name: &String, target_turn: i32, target: &String) -> (s: String)
    ensures
        s@ == played_clown_text(turn as int, name@, target_turn as int, target@),
{
    let mut s = label_exec(turn, name);
    s.append(" played the clown, and looked at player ");
    s.append(int_text(target_turn as i64).as_str());
    s.append(" called ");
    s.append(target.as_str());
    s.append("\n");
    s
}

pub fn knight_lost(turn: i32, name: &String, target_turn: i32, target: &String, card: usize) -> (s: String)
    requires
        card <= 8,
    ensures
        s@ == knight_lost_text(turn as int, name@, target_turn as int, target@, card as nat),
{
    let mut s = label_exec(turn, name);
    s.append(" played a knight and lost against player ");
    s.append(int_text(target_turn as i64).as_str());
    s.append(" called ");
    s.append(target.as_str());
    s.append(".\nPlayer ");
    s.append(int_text(turn as i64).as_str());
    s.append(" had a ");
    s.append(nat_text(card as u64).as_str());
    s.append("-");
    s.append(card_name(card));
    s.append("\n");
    s
}

pub fn knight_tie(turn: i32, name: &String, target_turn: i32, target: &String) -> (s: String)
    ensures
        s@ == knight_tie_text(turn as int, name@, target_turn as int, target@),
{
    let mut s = label_exec(turn, name);
    s.append(" played a knight and tied with player ");
    s.append(int_text(target_turn as i64).as_str());
    s.append(" called ");
    s.append(target.as_str());
    s.append(".\n");
    s
}

pub fn knight_won(turn: i32, name: &String, target_turn: i32, target: &String, card: usize) -> (s: String)
    requires
        card <= 8,
    ensures
        s@ == knight_won_text(turn as int, name@, target_turn as int, target@, card as nat),
{
    let mut s = label_exec(turn, name);
    s.append(" played a knight and won against player ");
    s.append(int_text(target_turn as i64).as_str());
    s.append(" called ");
    s.append(target.as_str());
    s.append("\nPlayer ");
    s.append(int_text(target_turn as i64).as_str());
    s.append(" had a ");
    s.append(nat_text(card as u64).as_str());
    s.append("-");
    s.append(card_name(card));
    s.append("\n");
    s
}

pub fn played_wizard(turn: i32, name: &String, target_turn: i32, target: &String) -> (s: String)
    ensures
        s@ == played_wizard_text(turn as int, name@, target_turn as int, target@),
{
    let mut s = label_exec(turn, name);
    s.append(" played a wizard and caused player ");
    s.append(int_text(target_turn as i64).as_str());
    s.append(" called ");
    s.append(target.as_str());
    s.append(" to discard their hand\n");
    s
}

pub fn played_general(turn: i32, name: &String, target_turn: i32, target: &String) -> (s: String)
    ensures
        s@ == played_general_text(turn as int, name@, target_turn as int, target@),
{
    let mut s = label_exec(turn, name);
    s.append(" played a general and caused player ");
    s.append(int_text(target_turn as i64).as_str());
    s.append(" called ");
    s.append(target.as_str());
    s.append(" to switch hands with them\n");
    s
}

pub fn switched(hand: &Vec<usize>) -> (s: String)
    requires
        forall|i: int| 0 <= i < hand.len() ==> hand[i] <= 8,
    ensures
        s@ == switched_text(hand@),
{
    let mut s = from("Your cards were switched and now are ");
    s.append(cards(hand).as_str());
    s.append("\n");
    s
}

pub fn guess_prompt() -> (s: String)
    ensures
        s@ == guess_prompt_text(),
{
    from("Pick the card number you want to guess:\n")
}

pub fn soldier(turn: i32, name: &String, target_turn: i32, target: &String, guess: usize, right: bool) -> (s: String)
    requires
        guess <= 8,
    ensures
        s@ == soldier_text(turn as int, name@, target_turn as int, target@, guess as nat, right),
{
    let mut s = label_exec(turn, name);
    s.append(" played a soldier, and guessed that player ");
    s.append(int_text(target_turn as i64).as_str());
    s.append(" called ");
    s.append(target.as_str());
    s.append(" had the card number ");
    s.append(nat_text(guess as u64).as_str());
    s.append(" called ");
    s.append(card_name(guess));
    if right {
        s.append(" and was correct.\n");
    } else {
        s.append(" and was wrong.\n");
    }
    s
}

pub fn soldier_out(turn: i32, name: &String) -> (s: String)
    ensures
        s@ == soldier_out_text(turn as int, name@),
{
    let mut s = label_exec(turn, name);
    s.append(" is eliminated due to soldier.\n");
    s
}

pub fn no_players() -> (s: String)
    ensures
        s@ == no_players_text(),
{
    from("Game over! No players left! Something went wrong :(\n")
}

pub fn last_standing(turn: i32, name: &String) -> (s: String)
    ensures
        s@ == last_standing_text(turn as int, name@),
{
    let mut s = from("Game over! ");
    s.append(label_exec(turn, name).as_str());
    s.append(" wins!\n");
    s
}

pub fn highest_card(turn: i32, name: &String, card: usize) -> (s: String)
    requires
        card <= 8,
    ensures
        s@ == highest_card_text(turn as int, name@, card as nat),
{
    let mut s = label_exec(turn, name);
    s.append(" won the game because they had the highest card ");
    s.append(nat_text(card as u64).as_str());
    s.append("-");
    s.append(card_name(card));
    s.append("\n");
    s
}

pub fn no_winner() -> (s: String)
    ensures
        s@ == no_winner_text(),
{
    from("Somehow noone won the game :(\n")
}

pub fn turn_notice(turn: i32, name: &String) -> (s: String)
    ensures
        s@ == turn_text(turn as int, name@),
{
    let mut s = from("It is player ");
    s.append(int_text(turn as i64).as_str());
    s.append(" called ");
    s.append(name.as_str());
    s.append("'s turn\n");
    s
}

pub fn hand_prompt(c1: usize, c2: usize) -> (s: String)
    requires
        c1 <= 8,
        c2 <= 8,
    ensures
        s@ == hand_prompt_text(c1 as nat, c2 as nat),
{
    let mut s = from("Your hand is:\n1. ");
    s.append(nat_text(c1 as u64).as_str());
    s.append("-");
    s.append(card_name(c1));
    s.append("-");
    s.append(card_description(c1));
    s.append("\n2. ");
    s.append(nat_text(c2 as u64).as_str());
    s.append("-");
    s.append(card_name(c2));
    s.append("-");
    s.append(card_description(c2));
    s.append("\nDo you want to play card 1 or 2:\n");
    s
}

pub fn minister_out(turn: i32, name: &String) -> (s: String)
    ensures
        s@ == minister_out_text(turn as int, name@),
{
    let mut s = label_exec(turn, name);
    s.append(" is out due to having a minister and a hand total of 12 or greater.\n");
    s
}

pub fn test_notice() -> (s: String)
    ensures
        s@ == test_text(),
{
    from("test\n")
}

} // verus!
