//! The state of one game: the game's own record and one record per seat, as the server
//! keeps them, and how events are written into the players' records.

use crate::events::{Event, EventView, events_view};
use vstd::prelude::*;

verus! {

/// The record of a player of a game.
pub struct Players {
    /// The player's secret id, which the player sends with each input.
    pub id: String,
    /// The player's seat: seats are numbered from 1 in the order the players joined.
    pub turn: i32,
    pub name: String,
    /// The two cards of the player; 0 marks an empty slot.
    pub hand: Vec<usize>,
    /// Whether attacks of other players have no effect on this player.
    pub immune: bool,
    pub alive: bool,
    /// Every text that the game has told this player so far.
    pub text: String,
    /// Whether the game waits for this player's input.
    pub input: bool,
}

/// The mathematical value of a player's record.
pub struct PlayerView {
    pub id: Seq<char>,
    pub turn: i32,
    pub name: Seq<char>,
    pub hand: Seq<usize>,
    pub immune: bool,
    pub alive: bool,
    pub text: Seq<char>,
    pub input: bool,
}

impl View for Players {
    type V = PlayerView;

    open spec fn view(&self) -> PlayerView {
        PlayerView {
            id: self.id@,
            turn: self.turn,
            name: self.name@,
            hand: self.hand@,
            immune: self.immune,
            alive: self.alive,
            text: self.text@,
            input: self.input,
        }
    }
}

/// The record of a game.
pub struct Games {
    pub id: String,
    /// The seat whose turn it is; 0 before the first turn.
    pub turn: i32,
    /// The cards left to draw; the last one is drawn first.
    pub deck: Vec<usize>,
    /// How many players the game waits for before it starts.
    pub players: i32,
    /// Which slot of the hand the current player has played, while the card still
    /// waits for a target; -1 otherwise.
    pub played_card: i32,
    /// The seat that a soldier targets, while the guess is awaited; -1 otherwise.
    pub player_pick: i32,
}

/// The mathematical value of a game's record.
pub struct GameView {
    pub id: Seq<char>,
    pub turn: i32,
    pub deck: Seq<usize>,
    pub players: i32,
    pub played_card: i32,
    pub player_pick: i32,
}

impl View for Games {
    type V = GameView;

    open spec fn view(&self) -> GameView {
        GameView {
            id: self.id@,
            turn: self.turn,
            deck: self.deck@,
            players: self.players,
            played_card: self.played_card,
            player_pick: self.player_pick,
        }
    }
}

/// One game and its players, the player of seat `k` at index `k - 1`.
pub struct Table {
    pub game: Games,
    pub seats: Vec<Players>,
}

/// The mathematical value of a table.
pub struct TableView {
    pub game: GameView,
    pub seats: Seq<PlayerView>,
}

impl View for Table {
    type V = TableView;

    open spec fn view(&self) -> TableView {
        TableView { game: self.game@, seats: self.seats@.map_values(|p: Players| p@) }
    }
}

/// A table together with the events sent so far.
pub struct Step {
    pub table: TableView,
    pub out: Seq<EventView>,
}

/// The step that a table and its list of sent events stand for.
pub open spec fn step_of(t: TableView, out: Seq<Event>) -> Step {
    Step { table: t, out: events_view(out) }
}

/// What holds of every table the game produces: seats are numbered 1, 2, ... in order, each
/// hand has two slots, every card is a card of the game, the current turn is 0 or a seat,
/// and a pending play names a slot of the hand and a pending target names a seat.
pub open spec fn wf(t: TableView) -> bool {
    &&& t.seats.len() < i32::MAX
    &&& forall|i: int| 0 <= i < t.seats.len() ==> #[trigger] t.seats[i].turn == i + 1
    &&& forall|i: int| 0 <= i < t.seats.len() ==> hand_ok(#[trigger] t.seats[i].hand)
    &&& forall|i: int| 0 <= i < t.game.deck.len() ==> #[trigger] t.game.deck[i] <= 8
    &&& 0 <= t.game.turn <= t.seats.len()
    &&& -1 <= t.game.played_card <= 1
    &&& t.game.player_pick == -1 || (t.game.played_card != -1 && 1 <= t.game.player_pick
        <= t.seats.len())
}

/// A hand holds two slots, each empty or a card of the game.
pub open spec fn hand_ok(h: Seq<usize>) -> bool {
    h.len() == 2 && h[0] <= 8 && h[1] <= 8
}

/// The seat record after an event addressed to `to` was written into it.
pub open spec fn record_seat(p: PlayerView, to: Option<i32>, text: Seq<char>, input: bool) -> PlayerView {
    if to is None || to == Some(p.turn) {
        PlayerView { text: p.text + text, input, ..p }
    } else {
        p
    }
}

/// The table after an event addressed to `to` was written into the records of the players it
/// reaches: its text is added to theirs, and their input flag becomes the event's.
pub open spec fn record(t: TableView, to: Option<i32>, text: Seq<char>, input: bool) -> TableView {
    TableView { seats: t.seats.map_values(|p: PlayerView| record_seat(p, to, text, input)), ..t }
}

/// Sends an event of this game and writes it into the records of the players it reaches.
pub open spec fn announce(s: Step, to: Option<i32>, text: Seq<char>, input: bool) -> Step {
    Step {
        table: record(s.table, to, text, input),
        out: s.out.push(EventView { game: s.table.game.id, player: to, text, input }),
    }
}

/// Recording an event changes nothing but the players' texts and input flags.
pub proof fn record_keeps_wf(t: TableView, to: Option<i32>, text: Seq<char>, input: bool)
    requires
        wf(t),
    ensures
        wf(record(t, to, text, input)),
        record(t, to, text, input).game == t.game,
        record(t, to, text, input).seats.len() == t.seats.len(),
        forall|i: int| 0 <= i < t.seats.len() ==> {
            let p = #[trigger] record(t, to, text, input).seats[i];
            &&& p.turn == t.seats[i].turn
            &&& p.id == t.seats[i].id
            &&& p.name == t.seats[i].name
            &&& p.hand == t.seats[i].hand
            &&& p.alive == t.seats[i].alive
            &&& p.immune == t.seats[i].immune
        },
{
}

impl Players {
    /// The event that brings a player who connects up to date: everything the player was told
    /// so far, and whether the game waits for the player's input.
    pub fn catch_up(&self, game: &String) -> (e: Event)
        ensures
            e@ == (EventView { game: game@, player: None, text: self.text@, input: self.input }),
    {
        Event::new(game.clone(), None, self.text.clone(), self.input)
    }
}

impl Table {
    /// A table for a game of `players` players with the given id and deck, with no one seated.
    pub fn new(id: String, deck: Vec<usize>, players: i32) -> (t: Table)
        ensures
            t@.game == (GameView { id: id@, turn: 0, deck: deck@, players, played_card: -1i32, player_pick: -1i32 }),
            t@.seats.len() == 0,
    {
        let t = Table {
            game: Games { id, turn: 0, deck, players, played_card: -1, player_pick: -1 },
            seats: Vec::new(),
        };
        assert(t@.seats =~= Seq::<PlayerView>::empty());
        t
    }

    /// Whether this is a table the game can go on from: seats numbered 1, 2, ... in order,
    /// hands of two slots, cards of the game only, the turn 0 or a seat, and any pending play
    /// naming a slot and any pending target naming a seat.
    pub fn is_well_formed(&self) -> (r: bool)
        ensures
            r == wf(self@),
    {
        let n = self.seats.len();
        if n >= 2147483647 {
            return false;
        }
        let mut k: usize = 0;
        while k < n
            invariant
                n == self.seats.len(),
                n < i32::MAX,
                k <= n,
                forall|i: int| 0 <= i < k ==> #[trigger] self@.seats[i].turn == i + 1,
                forall|i: int| 0 <= i < k ==> hand_ok(#[trigger] self@.seats[i].hand),
            decreases n - k,
        {
            let p = &self.seats[k];
            assert(self@.seats[k as int] == p@);
            if p.turn as i64 != k as i64 + 1 || p.hand.len() != 2 || p.hand[0] > 8 || p.hand[1] > 8 {
                assert(!(self@.seats[k as int].turn == k + 1 && hand_ok(self@.seats[k as int].hand)));
                return false;
            }
            assert(self@.seats[k as int].turn == k + 1 && hand_ok(self@.seats[k as int].hand));
            k = k + 1;
        }
        let mut d: usize = 0;
        while d < self.game.deck.len()
            invariant
                d <= self.game.deck.len(),
                n == self.seats.len(),
                n < i32::MAX,
                forall|i: int| 0 <= i < n ==> #[trigger] self@.seats[i].turn == i + 1,
                forall|i: int| 0 <= i < n ==> hand_ok(#[trigger] self@.seats[i].hand),
                forall|i: int| 0 <= i < d ==> #[trigger] self.game.deck@[i] <= 8,
            decreases self.game.deck.len() - d,
        {
            if self.game.deck[d] > 8 {
                assert(self@.game.deck[d as int] > 8);
                return false;
            }
            d = d + 1;
        }
        let turn = self.game.turn;
        let played = self.game.played_card;
        let pick = self.game.player_pick;
        0 <= turn && turn as usize <= n && -1 <= played && played <= 1
            && (pick == -1 || (played != -1 && 1 <= pick && pick as usize <= n))
    }

    /// Writes an event of this game into the records of the players it reaches: the event's
    /// text is added to each one's text, and each one's input flag becomes the event's.
    /// An event of another game changes nothing.
    pub fn record_event(&mut self, e: &Event)
        ensures
            e.game@ == old(self)@.game.id ==> final(self)@ == record(old(self)@, e.player, e.event.text@, e.event.input),
            e.game@ != old(self)@.game.id ==> final(self)@ == old(self)@,
    {
        if e.game == self.game.id {
            self.write(e.player, e.event.text.as_str(), e.event.input);
        }
    }

    fn write(&mut self, to: Option<i32>, text: &str, input: bool)
        ensures
            final(self)@ == record(old(self)@, to, text@, input),
    {
        let n = self.seats.len();
        let mut i: usize = 0;
        while i < n
            invariant
                n == self.seats.len(),
                n == old(self).seats.len(),
                i <= n,
                self.game == old(self).game,
                forall|k: int| 0 <= k < i ==> #[trigger] self.seats[k]@ == record_seat(old(self).seats[k]@, to, text@, input),
                forall|k: int| i <= k < n ==> #[trigger] self.seats[k] == old(self).seats[k],
            decreases n - i,
        {
            let hit = match to {
                None => true,
                Some(t) => self.seats[i].turn == t,
            };
            if hit {
                self.seats[i].text.append(text);
                self.seats[i].input = input;
            }
            i = i + 1;
        }
        assert(self@.seats =~= record(old(self)@, to, text@, input).seats);
    }

    /// Sends an event of this game and writes it into the records of the players it reaches.
    pub fn announce(&mut self, out: &mut Vec<Event>, to: Option<i32>, text: String, input: bool)
        ensures
            step_of(final(self)@, final(out)@) == announce(step_of(old(self)@, old(out)@), to, text@, input),
            wf(old(self)@) ==> wf(final(self)@),
    {
        proof {
            if wf(self@) {
                record_keeps_wf(self@, to, text@, input);
            }
        }
        self.write(to, text.as_str(), input);
        let e = Event::new(self.game.id.clone(), to, text, input);
        out.push(e);
        assert(events_view(out@) =~= events_view(old(out)@).push(e@));
    }
}

} // verus!
