//! The events that the game sends to its players: a text, addressed to one player of one
//! game or to all of them, that may ask the player for an answer.

use vstd::prelude::*;

verus! {

/// What a player is told: a text, and whether the game now waits for the player's input.
#[derive(Clone, Debug)]
pub struct EventData {
    pub text: String,
    pub input: bool,
}

/// An event of a game: sent to the player whose turn number is `player`, or to every player
/// of the game when `player` is `None`.
#[derive(Clone, Debug)]
pub struct Event {
    pub game: String,
    pub player: Option<i32>,
    pub event: EventData,
}

/// The mathematical value of an event.
pub struct EventView {
    pub game: Seq<char>,
    pub player: Option<i32>,
    pub text: Seq<char>,
    pub input: bool,
}

impl View for Event {
    type V = EventView;

    open spec fn view(&self) -> EventView {
        EventView {
            game: self.game@,
            player: self.player,
            text: self.event.text@,
            input: self.event.input,
        }
    }
}

/// The values of a list of events.
pub open spec fn events_view(events: Seq<Event>) -> Seq<EventView> {
    events.map_values(|e: Event| e@)
}

/// Whether an event of game `game` addressed to `to` reaches the player with turn `turn`
/// in game `seat_game`.
pub open spec fn reaches_spec(game: Seq<char>, to: Option<i32>, seat_game: Seq<char>, turn: i32) -> bool {
    game == seat_game && (to is None || to == Some(turn))
}

impl Event {
    /// Builds an event.
    pub fn new(game: String, player: Option<i32>, text: String, input: bool) -> (e: Event)
        ensures
            e@ == (EventView { game: game@, player, text: text@, input }),
    {
        Event { game, player, event: EventData { text, input } }
    }

    /// Whether this event is one that the player with turn `turn` of game `game` is to see:
    /// it belongs to that game, and it is addressed to every player or to that one.
    pub fn reaches(&self, game: &String, turn: i32) -> (r: bool)
        ensures
            r == reaches_spec(self.game@, self.player, game@, turn),
    {
        let same_game = self.game == *game;
        match self.player {
            None => same_game,
            Some(p) => same_game && p == turn,
        }
    }
}

} // verus!
