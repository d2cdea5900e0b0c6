//! Creating a game, joining it, and starting it once every seat is taken.

use crate::cards::{create_deck, create_hand, full_deck};
use crate::events::Event;
use crate::ids::{is_game_id, random_id};
use crate::messages::{join_hint, join_hint_text, joined, joined_text, starting, starting_text, test_notice, test_text};
use crate::table::{announce, record_keeps_wf, step_of, PlayerView, Players, Step, Table, TableView, wf, GameView};
use crate::turns::run_turn_spec;
use vstd::prelude::*;

verus! {

/// Why a player cannot join a game.
#[derive(Clone, Copy, Debug, PartialEq, Eq, Structural)]
pub enum JoinError {
    /// There is no game with that id.
    NotFound,
    /// Every seat of the game is taken.
    Full,
}

impl JoinError {
    /// What the server answers when a join is refused.
    pub fn message(&self) -> (s: String)
        ensures
            s@ == match self {
                JoinError::NotFound => "Game not found"@,
                JoinError::Full => "Game is full"@,
            },
    {
        match self {
            JoinError::NotFound => String::from_str("Game not found"),
            JoinError::Full => String::from_str("Game is full"),
        }
    }
}

/// Whether every seat of the game is taken. A game created for a negative number of
/// players never fills.
pub open spec fn is_full(t: TableView) -> bool {
    t.game.players >= 0 && t.game.players as int <= t.seats.len()
}

/// The record of a player who has just joined: the next seat, the top card of the deck and
/// an empty slot, alive, not immune, told nothing yet.
pub open spec fn newcomer(t: TableView, id: Seq<char>, name: Seq<char>) -> PlayerView {
    PlayerView {
        id,
        turn: (t.seats.len() + 1) as i32,
        name,
        hand: seq![t.game.deck.last(), 0usize],
        immune: false,
        alive: true,
        text: Seq::empty(),
        input: false,
    }
}

/// The table with the new player seated and the dealt card gone from the deck.
pub open spec fn seated(t: TableView, id: Seq<char>, name: Seq<char>) -> TableView {
    TableView {
        game: GameView { deck: t.game.deck.drop_last(), ..t.game },
        seats: t.seats.push(newcomer(t, id, name)),
    }
}

/// Starting a game: everyone is told that it starts, and the first turn runs.
pub open spec fn start_spec(s: Step) -> Step {
    run_turn_spec(announce(s, None, starting_text(), false))
}

/// A player joins a game that has a free seat: the player takes the next seat with the top
/// card of the deck, everyone is told who joined and how to join, and when this was the last
/// free seat the game starts.
pub open spec fn join_spec(t: TableView, id: Seq<char>, name: Seq<char>) -> Step {
    let t1 = seated(t, id, name);
    let s1 = announce(Step { table: t1, out: Seq::empty() }, None, joined_text(name), false);
    let s2 = announce(s1, None, join_hint_text(t.game.id), false);
    if t.game.players as int == t.seats.len() + 1 {
        start_spec(s2)
    } else {
        s2
    }
}

/// A new game for the given number of players: a fresh random id, a shuffled full deck, no
/// one seated, and no turn played.
pub fn new_game(players: i32) -> (t: Table)
    ensures
        wf(t@),
        is_game_id(t@.game.id),
        t@.game.deck.to_multiset() == full_deck().to_multiset(),
        t@.game.deck.len() == 16,
        t@.game.players == players,
        t@.game.turn == 0,
        t@.game.played_card == -1,
        t@.game.player_pick == -1,
        t@.seats.len() == 0,
{
    let id = random_id();
    let deck = create_deck();
    let t = Table::new(id, deck, players);
    t
}

impl Table {
    /// Whether every seat of the game is taken.
    pub fn is_full(&self) -> (r: bool)
        ensures
            r == is_full(self@),
    {
        self.game.players >= 0 && (self.game.players as usize) <= self.seats.len()
    }

    /// Tells everyone that the game starts, and runs the first turn.
    pub fn start_game(&mut self, out: &mut Vec<Event>)
        requires
            wf(old(self)@),
        ensures
            wf(final(self)@),
            step_of(final(self)@, final(out)@) == start_spec(step_of(old(self)@, old(out)@)),
    {
        let text = starting();
        proof { record_keeps_wf(self@, None, starting_text(), false); }
        self.announce(out, None, text, false);
        self.run_turn(out);
    }

    /// Sends everyone of the game the text "test".
    pub fn test_event(&mut self) -> (out: Vec<Event>)
        requires
            wf(old(self)@),
        ensures
            wf(final(self)@),
            step_of(final(self)@, out@) == announce(Step { table: old(self)@, out: Seq::empty() }, None, test_text(), false),
    {
        let mut out: Vec<Event> = Vec::new();
        assert(crate::events::events_view(out@) =~= Seq::empty());
        self.announce(&mut out, None, test_notice(), false);
        out
    }

    /// Seats a new player with the given secret id and name. A full game refuses and is left
    /// as it was; otherwise the player takes the next seat with the top card of the deck,
    /// everyone is told, and the game starts when this was its last free seat.
    pub fn join(&mut self, player_id: String, name: String) -> (r: Result<Vec<Event>, JoinError>)
        requires
            wf(old(self)@),
            old(self)@.seats.len() + 1 < i32::MAX,
            !is_full(old(self)@) ==> old(self)@.game.deck.len() > 0,
        ensures
            wf(final(self)@),
            is_full(old(self)@) ==> r == Err::<Vec<Event>, JoinError>(JoinError::Full) && final(self)@ == old(self)@,
            !is_full(old(self)@) ==> (r matches Ok(out) && step_of(final(self)@, out@) == join_spec(old(self)@, player_id@, name@)),
    {
        let count = self.seats.len();
        if self.game.players >= 0 && (self.game.players as usize) <= count {
            return Err(JoinError::Full);
        }
        let ghost t = self@;
        let hand = create_hand(&mut self.game.deck);
        let seat = Players {
            id: player_id,
            turn: (count + 1) as i32,
            name: name.clone(),
            hand,
            immune: false,
            alive: true,
            text: String::new(),
            input: false,
        };
        self.seats.push(seat);
        let ghost t1 = seated(t, player_id@, name@);
        assert(self.seats[count as int]@ == newcomer(t, player_id@, name@));
        assert(self@.seats =~= t1.seats);
        assert(self@ == t1);
        assert(wf(t1));
        let mut out: Vec<Event> = Vec::new();
        assert(step_of(self@, out@) == Step { table: t1, out: Seq::empty() }) by {
            assert(crate::events::events_view(out@) =~= Seq::empty());
        }
        proof { record_keeps_wf(t1, None, joined_text(name@), false); }
        let text = joined(&name);
        self.announce(&mut out, None, text, false);
        proof { record_keeps_wf(self@, None, join_hint_text(t.game.id), false); }
        let text = join_hint(&self.game.id);
        self.announce(&mut out, None, text, false);
        if self.game.players as i64 == count as i64 + 1 {
            self.start_game(&mut out);
        }
        Ok(out)
    }
}

} // verus!
