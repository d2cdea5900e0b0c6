//! A player's input: which card to play, whom to target, and what to guess.

use crate::events::{Event, events_view};
use crate::messages::{
    guess_prompt, guess_prompt_text, immune, immune_text, knight_lost, knight_lost_text, knight_tie,
    knight_tie_text, knight_won, knight_won_text, played_clown, played_clown_text, played_empty,
    played_empty_text, played_general, played_general_text, played_minister, played_minister_text,
    played_princess, played_princess_text, princess_discarded, princess_discarded_text, played_priestess, played_priestess_text, played_wizard,
    played_wizard_text, shown_cards, shown_cards_text, soldier, soldier_out, soldier_out_text,
    soldier_text, switched, switched_text, target_prompt, target_prompt_text,
};
use crate::table::{announce, hand_ok, record_keeps_wf, step_of, GameView, PlayerView, Step, Table, TableView, wf};
use crate::text::{parse_usize, parse_usize_spec};
use crate::turns::{eliminate, run_turn_spec, top_card, top_card_bound, top_card_of, with_deck, with_hand};
use vstd::prelude::*;

verus! {

/// Why the game refuses a player's input.
#[derive(Clone, Copy, Debug, PartialEq, Eq, Structural)]
pub enum InputError {
    /// No player of the game has the id given.
    PlayerMissing,
    /// There is no such game.
    GameMissing,
    /// It is another player's turn.
    NotYourTurn,
    /// The game is not waiting for this player's input.
    NotAsked,
    /// The input is not a number.
    InvalidInput,
    /// The number names neither card of the hand.
    InvalidCard,
    /// The number names no living player.
    InvalidPlayer,
    /// The number is no card that a soldier may guess.
    InvalidGuess,
}

/// What the server answers when it refuses an input.
pub open spec fn input_error_text(e: InputError) -> Seq<char> {
    match e {
        InputError::PlayerMissing => "Player Does not exist"@,
        InputError::GameMissing => "Game Does not exist"@,
        InputError::NotYourTurn => "It is not your turn"@,
        InputError::NotAsked => "You can't input right now"@,
        InputError::InvalidInput => "Invalid input"@,
        InputError::InvalidCard => "Invalid card picked"@,
        InputError::InvalidPlayer => "Invalid player picked"@,
        InputError::InvalidGuess => "Invalid guess"@,
    }
}

impl InputError {
    /// What the server answers when it refuses an input.
    pub fn message(&self) -> (s: String)
        ensures
            s@ == input_error_text(*self),
    {
        match self {
            InputError::PlayerMissing => String::from_str("Player Does not exist"),
            InputError::GameMissing => String::from_str("Game Does not exist"),
            InputError::NotYourTurn => String::from_str("It is not your turn"),
            InputError::NotAsked => String::from_str("You can't input right now"),
            InputError::InvalidInput => String::from_str("Invalid input"),
            InputError::InvalidCard => String::from_str("Invalid card picked"),
            InputError::InvalidPlayer => String::from_str("Invalid player picked"),
            InputError::InvalidGuess => String::from_str("Invalid guess"),
        }
    }
}

/// What the server answers when it accepts an input.
pub open spec fn accepted_text() -> Seq<char> {
    "Input received"@
}

/// What the server answers when it accepts an input.
pub fn accepted_reply() -> (s: String)
    ensures
        s@ == accepted_text(),
{
    String::from_str("Input received")
}

/// Whether the server's answer to an input says that it was accepted.
pub fn is_accepted(reply: &str) -> (r: bool)
    ensures
        r == (reply@ == accepted_text()),
{
    let expected = accepted_reply();
    let got = String::from_str(reply);
    got == expected
}

/// The index of the first seat whose player has the given id.
pub open spec fn seat_of(seats: Seq<PlayerView>, id: Seq<char>) -> Option<int> {
    if exists|i: int| 0 <= i < seats.len() && #[trigger] seats[i].id == id {
        Some(choose|i: int| 0 <= i < seats.len() && #[trigger] seats[i].id == id
            && forall|k: int| 0 <= k < i ==> #[trigger] seats[k].id != id)
    } else {
        None
    }
}

/// The seat found for an id is the first seat with that id.
pub proof fn seat_of_facts(seats: Seq<PlayerView>, id: Seq<char>)
    ensures
        seat_of(seats, id) matches Some(i) ==> 0 <= i < seats.len() && seats[i].id == id
            && forall|k: int| 0 <= k < i ==> #[trigger] seats[k].id != id,
        seat_of(seats, id) is None ==> forall|k: int| 0 <= k < seats.len() ==> #[trigger] seats[k].id != id,
{
    if exists|i: int| 0 <= i < seats.len() && #[trigger] seats[i].id == id {
        let i = choose|i: int| 0 <= i < seats.len() && #[trigger] seats[i].id == id;
        first_id_step(seats, id, i);
    }
}

proof fn first_id_step(seats: Seq<PlayerView>, id: Seq<char>, i: int)
    requires
        0 <= i < seats.len(),
        seats[i].id == id,
    ensures
        exists|j: int| 0 <= j < seats.len() && #[trigger] seats[j].id == id
            && forall|k: int| 0 <= k < j ==> #[trigger] seats[k].id != id,
    decreases i,
{
    if exists|k: int| 0 <= k < i && #[trigger] seats[k].id == id {
        let k = choose|k: int| 0 <= k < i && #[trigger] seats[k].id == id;
        first_id_step(seats, id, k);
    } else {
        assert(forall|k: int| 0 <= k < i ==> #[trigger] seats[k].id != id);
    }
}

/// The index of the living player, other than the player of seat index `me`, whose seat
/// number the input names; the number is read as a 32-bit seat number. The cards act on
/// another player, and the player is offered only the others as targets.
pub open spec fn target_of(seats: Seq<PlayerView>, n: usize, me: int) -> Option<int> {
    let k = #[verifier::truncate] (n as i32);
    if 1 <= k <= seats.len() && seats[k - 1].alive && k - 1 != me { Some(k - 1) } else { None }
}

/// A card is only ever played on another living player.
pub proof fn targets_are_other_living_players(seats: Seq<PlayerView>, n: usize, me: int)
    ensures
        target_of(seats, n, me) matches Some(o) ==> o != me && 0 <= o < seats.len() && seats[o].alive,
{
}

/// The table with slot `slot` of the hand of seat index `i` emptied.
pub open spec fn discard(t: TableView, i: int, slot: int) -> TableView {
    with_hand(t, i, t.seats[i].hand.update(slot, 0))
}

/// The end of a play: the played slot is emptied and the next turn runs.
pub open spec fn finish(s: Step, i: int, slot: int) -> Step {
    run_turn_spec(Step { table: discard(s.table, i, slot), out: s.out })
}

/// Playing the card in slot `slot` of the hand of seat index `i`. The empty card and the
/// minister have no effect; the priestess makes the player immune; the princess puts the
/// player out. Each is told to everyone, the slot is emptied and the next turn runs. Any other
/// card waits for a target, and the player is asked for one among the other living players.
pub open spec fn play_card_spec(s: Step, i: int, slot: int) -> Step {
    let t = s.table;
    let p = t.seats[i];
    let c = p.hand[slot];
    if c == 0 {
        finish(announce(s, None, played_empty_text(p.turn as int, p.name), false), i, slot)
    } else if c == 4 {
        let s1 = announce(s, None, played_priestess_text(p.turn as int, p.name), false);
        finish(Step { table: TableView { seats: s1.table.seats.update(i, PlayerView { immune: true, ..s1.table.seats[i] }), ..s1.table }, out: s1.out }, i, slot)
    } else if c == 7 {
        finish(announce(s, None, played_minister_text(p.turn as int, p.name), false), i, slot)
    } else if c == 8 {
        let s1 = announce(s, None, played_princess_text(p.turn as int, p.name), false);
        finish(Step { table: eliminate(s1.table, i), out: s1.out }, i, slot)
    } else {
        let t1 = TableView { game: GameView { played_card: slot as i32, ..t.game }, ..t };
        announce(Step { table: t1, out: s.out }, Some(p.turn), target_prompt_text(t.seats, p.turn), true)
    }
}

/// The knight: the player's card left after the knight and the target's highest card are
/// compared; the lower one's player is out, and nobody on a tie.
pub open spec fn knight_spec(s: Step, i: int, o: int) -> Step {
    let t = s.table;
    let p = t.seats[i];
    let q = t.seats[o];
    let slot = t.game.played_card as int;
    let rest = p.hand.update(slot, 0);
    let t1 = with_hand(t, i, rest);
    let mine = top_card(rest);
    let theirs = top_card(q.hand);
    let s2 = if mine < theirs {
        announce(Step { table: eliminate(t1, i), out: s.out }, None,
            knight_lost_text(p.turn as int, p.name, q.turn as int, q.name, mine), false)
    } else if mine == theirs {
        announce(Step { table: t1, out: s.out }, None,
            knight_tie_text(p.turn as int, p.name, q.turn as int, q.name), false)
    } else {
        announce(Step { table: eliminate(t1, o), out: s.out }, None,
            knight_won_text(p.turn as int, p.name, q.turn as int, q.name, theirs), false)
    };
    run_turn_spec(s2)
}

/// The wizard: the target's hand is thrown away and replaced by the top card of the deck. A
/// target who throws away the princess is out, as the princess says.
pub open spec fn wizard_spec(s: Step, i: int, o: int) -> Step {
    let t = s.table;
    let p = t.seats[i];
    let q = t.seats[o];
    let deck = t.game.deck;
    let t1 = with_deck(with_hand(t, o, seq![deck.last(), 0usize]), deck.drop_last());
    let s1 = announce(Step { table: t1, out: s.out }, None,
        played_wizard_text(p.turn as int, p.name, q.turn as int, q.name), false);
    let s2 = if q.hand.contains(8) {
        announce(Step { table: eliminate(s1.table, o), out: s1.out }, None,
            princess_discarded_text(q.turn as int, q.name), false)
    } else {
        s1
    };
    let rest = p.hand.update(t.game.played_card as int, 0);
    run_turn_spec(Step { table: with_hand(s2.table, i, rest), out: s2.out })
}

/// The general: the player's remaining cards and the target's hand change places, and each
/// of the two is told their new cards.
pub open spec fn general_spec(s: Step, i: int, o: int) -> Step {
    let t = s.table;
    let p = t.seats[i];
    let q = t.seats[o];
    let rest = p.hand.update(t.game.played_card as int, 0);
    let t1 = with_hand(with_hand(with_hand(t, i, rest), o, rest), i, q.hand);
    let s1 = announce(Step { table: t1, out: s.out }, None,
        played_general_text(p.turn as int, p.name, q.turn as int, q.name), false);
    let s2 = announce(s1, Some(p.turn), switched_text(q.hand), false);
    let s3 = announce(s2, Some(q.turn), switched_text(rest), false);
    run_turn_spec(s3)
}

/// Playing the pending card on the living player of seat index `o`, whose seat number was
/// given as `n`. An immune target is not affected: the player alone is told, the card is
/// spent and the next turn runs. The clown shows the player the target's cards; the soldier
/// asks the player for a guess; the other cards act as described above.
pub open spec fn resolve_spec(s: Step, i: int, o: int, n: usize) -> Step {
    let t = s.table;
    let p = t.seats[i];
    let q = t.seats[o];
    let slot = t.game.played_card as int;
    let c = p.hand[slot];
    if q.immune {
        finish(announce(s, Some(p.turn), immune_text(p.turn as int, p.name, slot, n as nat, q.name), false), i, slot)
    } else if c == 2 {
        let s1 = announce(s, Some(p.turn), shown_cards_text(q.turn as int, q.name, q.hand), false);
        finish(announce(s1, None, played_clown_text(p.turn as int, p.name, q.turn as int, q.name), false), i, slot)
    } else if c == 3 {
        knight_spec(s, i, o)
    } else if c == 5 {
        wizard_spec(s, i, o)
    } else if c == 6 {
        general_spec(s, i, o)
    } else {
        let t1 = TableView { game: GameView { player_pick: #[verifier::truncate] (n as i32), ..t.game }, ..t };
        announce(Step { table: t1, out: s.out }, Some(p.turn), guess_prompt_text(), true)
    }
}

/// The soldier's guess `g` about the target it was played on: the played slot is emptied;
/// a target holding the guessed card is out. Everyone is told, and the next turn runs.
pub open spec fn guess_spec(s: Step, i: int, g: usize) -> Step {
    let t = s.table;
    let p = t.seats[i];
    let t1 = discard(t, i, t.game.played_card as int);
    let o = t.game.player_pick - 1;
    let q = t1.seats[o];
    let right = q.hand.contains(g);
    let s1 = if right {
        let a = announce(Step { table: eliminate(t1, o), out: s.out }, None,
            soldier_text(p.turn as int, p.name, q.turn as int, q.name, g as nat, true), false);
        announce(a, None, soldier_out_text(q.turn as int, q.name), false)
    } else {
        announce(Step { table: t1, out: s.out }, None,
            soldier_text(p.turn as int, p.name, q.turn as int, q.name, g as nat, false), false)
    };
    run_turn_spec(s1)
}

/// A player's input `input`, sent with the player's secret id `id`. It is refused when no
/// player has that id, when it is not that player's turn, when the game does not wait for the
/// player, or when it is not a number. With no card pending, the number picks card 1 or 2 of
/// the hand; with a card waiting for a target, it names the seat of another living player; with a
/// soldier waiting for a guess, it is the guessed card, 2 to 8.
pub open spec fn input_spec(t: TableView, id: Seq<char>, input: Seq<char>) -> Result<Step, InputError> {
    match seat_of(t.seats, id) {
        None => Err(InputError::PlayerMissing),
        Some(i) => {
            let p = t.seats[i];
            let s = Step { table: t, out: Seq::empty() };
            if t.game.turn != p.turn {
                Err(InputError::NotYourTurn)
            } else if !p.input {
                Err(InputError::NotAsked)
            } else {
                match parse_usize_spec(input) {
                    None => Err(InputError::InvalidInput),
                    Some(n) => {
                        if t.game.played_card == -1 {
                            if n == 0 || n - 1 > 1 {
                                Err(InputError::InvalidCard)
                            } else {
                                Ok(play_card_spec(s, i, n - 1))
                            }
                        } else if t.game.player_pick == -1 {
                            match target_of(t.seats, n, i) {
                                None => Err(InputError::InvalidPlayer),
                                Some(o) => Ok(resolve_spec(s, i, o, n)),
                            }
                        } else if n <= 1 || n > 8 {
                            Err(InputError::InvalidGuess)
                        } else {
                            Ok(guess_spec(s, i, n))
                        }
                    },
                }
            }
        },
    }
}

/// Only the player whose turn it is, and whom the game is asking, can play: an accepted input
/// comes from the seat of the current turn, whose record had the input flag set.
pub proof fn only_the_asked_player_moves(t: TableView, id: Seq<char>, input: Seq<char>)
    ensures
        input_spec(t, id, input) is Ok ==> (seat_of(t.seats, id) matches Some(i) && t.seats[i].turn == t.game.turn
            && t.seats[i].input),
{
}

/// Whether the input would play a wizard on a target that is not immune while the deck is
/// empty: the target's new card cannot be drawn then.
pub open spec fn input_exhausts_deck(t: TableView, id: Seq<char>, input: Seq<char>) -> bool {
    match seat_of(t.seats, id) {
        None => false,
        Some(i) => {
            let p = t.seats[i];
            match parse_usize_spec(input) {
                None => false,
                Some(n) => match target_of(t.seats, n, i) {
                    None => false,
                    Some(o) => {
                        &&& t.game.turn == p.turn
                        &&& p.input
                        &&& t.game.played_card != -1
                        &&& t.game.player_pick == -1
                        &&& !t.seats[o].immune
                        &&& p.hand[t.game.played_card as int] == 5
                        &&& t.game.deck.len() == 0
                    },
                },
            }
        },
    }
}

/// Edits of a table that keep it a table of the game.
pub proof fn edits_keep_wf(t: TableView, i: int)
    requires
        wf(t),
        0 <= i < t.seats.len(),
    ensures
        forall|h: Seq<usize>| hand_ok(h) ==> #[trigger] wf(with_hand(t, i, h)),
        wf(eliminate(t, i)),
        forall|slot: int| 0 <= slot < 2 ==> #[trigger] wf(discard(t, i, slot)),
        forall|d: Seq<usize>| (forall|k: int| 0 <= k < d.len() ==> #[trigger] d[k] <= 8) ==> #[trigger] wf(with_deck(t, d)),
{
    assert forall|h: Seq<usize>| hand_ok(h) implies #[trigger] wf(with_hand(t, i, h)) by {
        let t1 = with_hand(t, i, h);
        assert forall|k: int| 0 <= k < t1.seats.len() implies hand_ok(#[trigger] t1.seats[k].hand) by {
            if k != i {
                assert(t1.seats[k] == t.seats[k]);
            }
        }
    }
    assert forall|slot: int| 0 <= slot < 2 implies #[trigger] wf(discard(t, i, slot)) by {
        assert(hand_ok(t.seats[i].hand.update(slot, 0)));
    }
}

/// What a table of the game says of one of its seats.
pub proof fn seat_facts(t: &Table, i: int)
    requires
        wf(t@),
        0 <= i < t.seats.len(),
    ensures
        t@.seats[i] == t.seats[i]@,
        hand_ok(t.seats[i].hand@),
        t.seats[i].turn == i + 1,
        forall|k: int| 0 <= k < t.seats[i].hand@.len() ==> t.seats[i].hand@[k] <= 8,
{
    assert(t@.seats[i] == t.seats[i]@);
    assert(hand_ok(t@.seats[i].hand));
    assert(t@.seats[i].turn == i + 1);
}

impl Table {
    /// The index of the first seat whose player has the given id.
    pub fn find_seat(&self, id: &String) -> (r: Option<usize>)
        ensures
            r matches Some(i) ==> seat_of(self@.seats, id@) == Some(i as int) && i < self.seats.len(),
            r is None ==> seat_of(self@.seats, id@) is None,
    {
        let ghost seats = self@.seats;
        let mut k: usize = 0;
        while k < self.seats.len()
            invariant
                k <= self.seats.len(),
                seats == self@.seats,
                forall|j: int| 0 <= j < k ==> #[trigger] seats[j].id != id@,
            decreases self.seats.len() - k,
        {
            assert(seats[k as int] == self.seats[k as int]@);
            if self.seats[k].id == *id {
                assert(seats[k as int].id == id@);
                assert forall|j: int| #![trigger seats[j]]
                    0 <= j < seats.len() && seats[j].id == id@ && (forall|m: int| 0 <= m < j ==> #[trigger] seats[m].id != id@)
                    implies j == k by {
                    if j > k {
                        assert(seats[k as int].id != id@);
                    }
                }
                return Some(k);
            }
            k = k + 1;
        }
        None
    }

    fn empty_slot(&mut self, i: usize, slot: usize)
        requires
            wf(old(self)@),
            i < old(self)@.seats.len(),
            slot < 2,
        ensures
            final(self)@ == discard(old(self)@, i as int, slot as int),
            wf(final(self)@),
    {
        let ghost t = self@;
        proof { edits_keep_wf(t, i as int); }
        assert(self.seats[i as int].hand@ == t.seats[i as int].hand);
        self.seats[i].hand.set(slot, 0);
        assert forall|k: int| 0 <= k < self.seats.len() implies #[trigger] self@.seats[k] == discard(t, i as int, slot as int).seats[k] by {
            if k == i {
                assert(self.seats[k].hand@ =~= t.seats[k].hand.update(slot as int, 0));
            }
        }
        assert(self@.seats =~= discard(t, i as int, slot as int).seats);
    }

    fn knock_out(&mut self, i: usize)
        requires
            wf(old(self)@),
            i < old(self)@.seats.len(),
        ensures
            final(self)@ == eliminate(old(self)@, i as int),
            wf(final(self)@),
    {
        let ghost t = self@;
        proof { edits_keep_wf(t, i as int); }
        self.seats[i].alive = false;
        assert(self@.seats =~= eliminate(t, i as int).seats);
    }

    fn give_hand(&mut self, i: usize, h: Vec<usize>)
        requires
            wf(old(self)@),
            i < old(self)@.seats.len(),
            hand_ok(h@),
        ensures
            final(self)@ == with_hand(old(self)@, i as int, h@),
            wf(final(self)@),
    {
        let ghost t = self@;
        proof { edits_keep_wf(t, i as int); }
        self.seats[i].hand = h;
        assert(self@.seats =~= with_hand(t, i as int, h@).seats);
    }

    fn finish_play(&mut self, out: &mut Vec<Event>, i: usize, slot: usize)
        requires
            wf(old(self)@),
            i < old(self)@.seats.len(),
            slot < 2,
        ensures
            step_of(final(self)@, final(out)@) == finish(step_of(old(self)@, old(out)@), i as int, slot as int),
            wf(final(self)@),
    {
        self.empty_slot(i, slot);
        self.run_turn(out);
    }

    fn play_card(&mut self, out: &mut Vec<Event>, i: usize, slot: usize)
        requires
            wf(old(self)@),
            i < old(self)@.seats.len(),
            slot < 2,
        ensures
            step_of(final(self)@, final(out)@) == play_card_spec(step_of(old(self)@, old(out)@), i as int, slot as int),
            wf(final(self)@),
    {
        let ghost s = step_of(self@, out@);
        proof { seat_facts(self, i as int); }
        let turn = self.seats[i].turn;
        let name = self.seats[i].name.clone();
        let c = self.seats[i].hand[slot];
        assert(self.seats[i as int].hand@ == s.table.seats[i as int].hand);
        if c == 0 {
            self.announce(out, None, played_empty(turn, &name), false);
            self.finish_play(out, i, slot);
        } else if c == 4 {
            self.announce(out, None, played_priestess(turn, &name), false);
            let ghost s1 = step_of(self@, out@);
            self.seats[i].immune = true;
            assert(self@.seats =~= s1.table.seats.update(i as int, PlayerView { immune: true, ..s1.table.seats[i as int] }));
            self.finish_play(out, i, slot);
        } else if c == 7 {
            self.announce(out, None, played_minister(turn, &name), false);
            self.finish_play(out, i, slot);
        } else if c == 8 {
            self.announce(out, None, played_princess(turn, &name), false);
            self.knock_out(i);
            self.finish_play(out, i, slot);
        } else {
            let text = target_prompt(&self.seats, turn);
            self.game.played_card = slot as i32;
            self.announce(out, Some(turn), text, true);
        }
    }

    fn knight(&mut self, out: &mut Vec<Event>, i: usize, o: usize)
        requires
            wf(old(self)@),
            i < old(self)@.seats.len(),
            o < old(self)@.seats.len(),
            old(self)@.game.played_card != -1,
        ensures
            step_of(final(self)@, final(out)@) == knight_spec(step_of(old(self)@, old(out)@), i as int, o as int),
            wf(final(self)@),
    {
        let ghost s = step_of(self@, out@);
        proof { seat_facts(self, i as int); }
        proof { seat_facts(self, o as int); }
        let turn = self.seats[i].turn;
        let name = self.seats[i].name.clone();
        let target_turn = self.seats[o].turn;
        let target = self.seats[o].name.clone();
        let slot = self.game.played_card as usize;
        let theirs = top_card_of(&self.seats[o].hand);
        proof {
            top_card_bound(s.table.seats[o as int].hand);
        }
        self.empty_slot(i, slot);
        let mine = top_card_of(&self.seats[i].hand);
        proof {
            top_card_bound(self@.seats[i as int].hand);
        }
        assert(self@ == with_hand(s.table, i as int, s.table.seats[i as int].hand.update(slot as int, 0)));
        if mine < theirs {
            self.knock_out(i);
            self.announce(out, None, knight_lost(turn, &name, target_turn, &target, mine), false);
        } else if mine == theirs {
            self.announce(out, None, knight_tie(turn, &name, target_turn, &target), false);
        } else {
            self.knock_out(o);
            self.announce(out, None, knight_won(turn, &name, target_turn, &target, theirs), false);
        }
        self.run_turn(out);
    }

    fn wizard(&mut self, out: &mut Vec<Event>, i: usize, o: usize)
        requires
            wf(old(self)@),
            i < old(self)@.seats.len(),
            o < old(self)@.seats.len(),
            old(self)@.game.played_card != -1,
            old(self)@.game.deck.len() > 0,
        ensures
            step_of(final(self)@, final(out)@) == wizard_spec(step_of(old(self)@, old(out)@), i as int, o as int),
            wf(final(self)@),
    {
        let ghost s = step_of(self@, out@);
        proof { seat_facts(self, i as int); }
        proof { seat_facts(self, o as int); }
        let turn = self.seats[i].turn;
        let name = self.seats[i].name.clone();
        let target_turn = self.seats[o].turn;
        let target = self.seats[o].name.clone();
        let slot = self.game.played_card as usize;
        let mut rest = self.seats[i].hand.clone();
        rest.set(slot, 0);
        assert(rest@ == s.table.seats[i as int].hand.update(slot as int, 0));
        let had_princess = self.seats[o].hand[0] == 8 || self.seats[o].hand[1] == 8;
        proof {
            let h = s.table.seats[o as int].hand;
            if h.contains(8) {
                let k = choose|k: int| 0 <= k < h.len() && h[k] == 8;
                assert(k == 0 || k == 1);
            }
            if had_princess {
                if h[0] == 8 {
                    assert(h.contains(8));
                } else {
                    assert(h[1] == 8);
                    assert(h.contains(8));
                }
            }
        }
        let top = self.game.deck.pop().unwrap();
        let mut fresh: Vec<usize> = Vec::new();
        fresh.push(top);
        fresh.push(0);
        assert(fresh@ =~= seq![s.table.game.deck.last(), 0usize]);
        assert(self.game.deck@ =~= s.table.game.deck.drop_last());
        let ghost t_mid = with_deck(s.table, s.table.game.deck.drop_last());
        assert(self@ == t_mid);
        proof {
            edits_keep_wf(s.table, o as int);
        }
        self.give_hand(o, fresh);
        assert(self@ == with_deck(with_hand(s.table, o as int, seq![s.table.game.deck.last(), 0usize]), s.table.game.deck.drop_last()));
        self.announce(out, None, played_wizard(turn, &name, target_turn, &target), false);
        if had_princess {
            self.knock_out(o);
            self.announce(out, None, princess_discarded(target_turn, &target), false);
        }
        self.give_hand(i, rest);
        self.run_turn(out);
    }

    fn general(&mut self, out: &mut Vec<Event>, i: usize, o: usize)
        requires
            wf(old(self)@),
            i < old(self)@.seats.len(),
            o < old(self)@.seats.len(),
            old(self)@.game.played_card != -1,
        ensures
            step_of(final(self)@, final(out)@) == general_spec(step_of(old(self)@, old(out)@), i as int, o as int),
            wf(final(self)@),
    {
        let ghost s = step_of(self@, out@);
        proof { seat_facts(self, i as int); }
        proof { seat_facts(self, o as int); }
        let turn = self.seats[i].turn;
        let name = self.seats[i].name.clone();
        let target_turn = self.seats[o].turn;
        let target = self.seats[o].name.clone();
        let slot = self.game.played_card as usize;
        let theirs = self.seats[o].hand.clone();
        let mut rest = self.seats[i].hand.clone();
        rest.set(slot, 0);
        let rest2 = rest.clone();
        let rest3 = rest.clone();
        let theirs2 = theirs.clone();
        assert(rest@ == s.table.seats[i as int].hand.update(slot as int, 0));
        assert(theirs@ == s.table.seats[o as int].hand);
        self.give_hand(i, rest);
        self.give_hand(o, rest2);
        self.give_hand(i, theirs);
        self.announce(out, None, played_general(turn, &name, target_turn, &target), false);
        self.announce(out, Some(turn), switched(&theirs2), false);
        self.announce(out, Some(target_turn), switched(&rest3), false);
        self.run_turn(out);
    }

    fn resolve(&mut self, out: &mut Vec<Event>, i: usize, o: usize, n: usize)
        requires
            wf(old(self)@),
            i < old(self)@.seats.len(),
            o < old(self)@.seats.len(),
            target_of(old(self)@.seats, n, i as int) == Some(o as int),
            old(self)@.game.played_card != -1,
            !(!old(self)@.seats[o as int].immune && old(self)@.seats[i as int].hand[old(self)@.game.played_card as int] == 5
                && old(self)@.game.deck.len() == 0),
        ensures
            step_of(final(self)@, final(out)@) == resolve_spec(step_of(old(self)@, old(out)@), i as int, o as int, n),
            wf(final(self)@),
    {
        let ghost s = step_of(self@, out@);
        proof { seat_facts(self, i as int); }
        proof { seat_facts(self, o as int); }
        let turn = self.seats[i].turn;
        let name = self.seats[i].name.clone();
        let target_turn = self.seats[o].turn;
        let target = self.seats[o].name.clone();
        let slot = self.game.played_card as usize;
        let c = self.seats[i].hand[slot];
        assert(self.seats[i as int].hand@ == s.table.seats[i as int].hand);
        if self.seats[o].immune {
            self.announce(out, Some(turn), immune(turn, &name, slot as i32, n, &target), false);
            self.finish_play(out, i, slot);
        } else if c == 2 {
            let text = shown_cards(target_turn, &target, &self.seats[o].hand);
            self.announce(out, Some(turn), text, false);
            self.announce(out, None, played_clown(turn, &name, target_turn, &target), false);
            self.finish_play(out, i, slot);
        } else if c == 3 {
            self.knight(out, i, o);
        } else if c == 5 {
            self.wizard(out, i, o);
        } else if c == 6 {
            self.general(out, i, o);
        } else {
            self.game.player_pick = #[verifier::truncate] (n as i32);
            self.announce(out, Some(turn), guess_prompt(), true);
        }
    }

    fn guess(&mut self, out: &mut Vec<Event>, i: usize, g: usize)
        requires
            wf(old(self)@),
            i < old(self)@.seats.len(),
            old(self)@.game.played_card != -1,
            old(self)@.game.player_pick != -1,
            2 <= g <= 8,
        ensures
            step_of(final(self)@, final(out)@) == guess_spec(step_of(old(self)@, old(out)@), i as int, g),
            wf(final(self)@),
    {
        let ghost s = step_of(self@, out@);
        let turn = self.seats[i].turn;
        let name = self.seats[i].name.clone();
        let slot = self.game.played_card as usize;
        self.empty_slot(i, slot);
        let o = (self.game.player_pick - 1) as usize;
        proof { seat_facts(self, o as int); }
        let target_turn = self.seats[o].turn;
        let target = self.seats[o].name.clone();
        let right = self.seats[o].hand[0] == g || self.seats[o].hand[1] == g;
        proof {
            let h = self@.seats[o as int].hand;
            if h.contains(g) {
                let k = choose|k: int| 0 <= k < h.len() && h[k] == g;
                assert(k == 0 || k == 1);
            }
            if right {
                if h[0] == g {
                    assert(h.contains(g));
                } else {
                    assert(h[1] == g);
                    assert(h.contains(g));
                }
            }
        }
        if right {
            self.knock_out(o);
            self.announce(out, None, soldier(turn, &name, target_turn, &target, g, true), false);
            self.announce(out, None, soldier_out(target_turn, &target), false);
        } else {
            self.announce(out, None, soldier(turn, &name, target_turn, &target, g, false), false);
        }
        self.run_turn(out);
    }

    /// Whether this input would play a wizard on a target that is not immune while the deck
    /// is empty, which the game cannot carry out.
    pub fn input_exhausts_deck(&self, player_id: &String, input: &str) -> (r: bool)
        requires
            wf(self@),
        ensures
            r == input_exhausts_deck(self@, player_id@, input@),
    {
        match self.find_seat(player_id) {
            None => false,
            Some(i) => match parse_usize(input) {
                None => false,
                Some(n) => {
                    let k: i32 = #[verifier::truncate] (n as i32);
                    if 1 <= k && (k as usize) <= self.seats.len() && self.seats[(k - 1) as usize].alive
                        && (k - 1) as usize != i {
                        let o = (k - 1) as usize;
                        let p = &self.seats[i];
                        proof { seat_facts(self, i as int); }
                        if self.game.played_card == -1 || self.game.played_card < 0 || self.game.played_card > 1 {
                            false
                        } else {
                            let slot = self.game.played_card as usize;
                            assert(p.hand@ == self@.seats[i as int].hand);
                            self.game.turn == p.turn && p.input && self.game.player_pick == -1
                                && !self.seats[o].immune && slot < p.hand.len() && p.hand[slot] == 5
                                && self.game.deck.len() == 0
                        }
                    } else {
                        false
                    }
                },
            },
        }
    }

    /// Takes a player's input. A refused input leaves the game as it was; an accepted one
    /// plays the card, the target or the guess as the rules say, and gives the events sent.
    pub fn receive_input(&mut self, player_id: &String, input: &str) -> (r: Result<Vec<Event>, InputError>)
        requires
            wf(old(self)@),
            !input_exhausts_deck(old(self)@, player_id@, input@),
        ensures
            wf(final(self)@),
            match (r, input_spec(old(self)@, player_id@, input@)) {
                (Ok(out), Ok(st)) => step_of(final(self)@, out@) == st,
                (Err(e), Err(e2)) => e == e2 && final(self)@ == old(self)@,
                _ => false,
            },
    {
        let i = match self.find_seat(player_id) {
            None => return Err(InputError::PlayerMissing),
            Some(i) => i,
        };
        if self.game.turn != self.seats[i].turn {
            return Err(InputError::NotYourTurn);
        }
        if !self.seats[i].input {
            return Err(InputError::NotAsked);
        }
        let n = match parse_usize(input) {
            None => return Err(InputError::InvalidInput),
            Some(n) => n,
        };
        let mut out: Vec<Event> = Vec::new();
        assert(events_view(out@) =~= Seq::<crate::events::EventView>::empty());
        if self.game.played_card == -1 {
            if n == 0 || n - 1 > 1 {
                return Err(InputError::InvalidCard);
            }
            self.play_card(&mut out, i, n - 1);
        } else if self.game.player_pick == -1 {
            let k: i32 = #[verifier::truncate] (n as i32);
            if 1 <= k && (k as usize) <= self.seats.len() && self.seats[(k - 1) as usize].alive
                && (k - 1) as usize != i {
                self.resolve(&mut out, i, (k - 1) as usize, n);
            } else {
                return Err(InputError::InvalidPlayer);
            }
        } else {
            if n <= 1 || n > 8 {
                return Err(InputError::InvalidGuess);
            }
            self.guess(&mut out, i, n);
        }
        Ok(out)
    }
}

} // verus!
