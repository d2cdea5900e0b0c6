//! Whose turn it is: passing the turn on to the next living player, and running a turn,
//! which ends the game, or deals the player their cards and asks which one to play.

use crate::events::{Event, events_view};
use crate::messages::{
    hand_prompt, hand_prompt_text, highest_card, highest_card_text, last_standing, last_standing_text,
    minister_out, minister_out_text, no_players, no_players_text, no_winner, no_winner_text,
    turn_notice, turn_text,
};
use crate::table::{announce, hand_ok, record_keeps_wf, step_of, GameView, PlayerView, Step, Table, TableView, wf};
use vstd::prelude::*;

verus! {

/// How many living players the seats hold.
pub open spec fn alive_count(seats: Seq<PlayerView>) -> nat
    decreases seats.len(),
{
    if seats.len() == 0 {
        0
    } else {
        alive_count(seats.drop_last()) + if seats.last().alive { 1nat } else { 0nat }
    }
}

/// With `n` seats, how many steps lead from seat `cur` (0 before the first turn) to seat `s`,
/// going round the table in seat order: between 1 and `n`.
pub open spec fn gap(cur: int, n: int, s: int) -> int {
    if s > cur { s - cur } else { s - cur + n }
}

/// With `n` seats, the seat `j` steps after seat `cur`, going round the table.
pub open spec fn pos(cur: int, n: int, j: int) -> int {
    if cur + j <= n { cur + j } else { cur + j - n }
}

/// Whether the player `j` steps after seat `cur` is alive.
pub open spec fn alive_at(seats: Seq<PlayerView>, cur: int, j: int) -> bool {
    seats[pos(cur, seats.len() as int, j) - 1].alive
}

/// Whether the first living player after seat `cur` sits `j` steps away.
pub open spec fn is_next_gap(seats: Seq<PlayerView>, cur: int, j: int) -> bool {
    &&& 1 <= j <= seats.len()
    &&& alive_at(seats, cur, j)
    &&& forall|k: int| 1 <= k < j ==> !#[trigger] alive_at(seats, cur, k)
}

/// How many steps lead from seat `cur` to the first living player after it.
pub open spec fn next_gap(seats: Seq<PlayerView>, cur: int) -> int {
    choose|j: int| is_next_gap(seats, cur, j)
}

/// The table after the turn has passed from the current seat to the next living player,
/// going round the table in seat order: every player passed over, dead or alive, and the
/// player whose turn it now is, loses their immunity.
pub open spec fn pass_turn(t: TableView) -> TableView {
    let n = t.seats.len() as int;
    let cur = t.game.turn as int;
    let j = next_gap(t.seats, cur);
    TableView {
        game: GameView { turn: pos(cur, n, j) as i32, ..t.game },
        seats: Seq::new(
            t.seats.len(),
            |i: int|
                if gap(cur, n, i + 1) <= j {
                    PlayerView { immune: false, ..t.seats[i] }
                } else {
                    t.seats[i]
                },
        ),
    }
}

/// Some seat holds a living player exactly when the count of living players is positive.
pub proof fn alive_count_positive(seats: Seq<PlayerView>)
    ensures
        alive_count(seats) > 0 <==> exists|i: int| 0 <= i < seats.len() && #[trigger] seats[i].alive,
        alive_count(seats) <= seats.len(),
    decreases seats.len(),
{
    if seats.len() > 0 {
        let rest = seats.drop_last();
        alive_count_positive(rest);
        if alive_count(rest) > 0 {
            let i = choose|i: int| 0 <= i < rest.len() && #[trigger] rest[i].alive;
            assert(seats[i].alive);
        }
        if exists|i: int| 0 <= i < seats.len() && #[trigger] seats[i].alive {
            let i = choose|i: int| 0 <= i < seats.len() && #[trigger] seats[i].alive;
            if i < seats.len() - 1 {
                assert(rest[i].alive);
            }
        }
    }
}

/// Seats that agree on who is alive hold as many living players.
pub proof fn alive_count_same(a: Seq<PlayerView>, b: Seq<PlayerView>)
    requires
        a.len() == b.len(),
        forall|i: int| 0 <= i < a.len() ==> #[trigger] a[i].alive == b[i].alive,
    ensures
        alive_count(a) == alive_count(b),
    decreases a.len(),
{
    if a.len() > 0 {
        alive_count_same(a.drop_last(), b.drop_last());
    }
}

/// Killing one living player leaves one living player fewer.
pub proof fn alive_count_kill(a: Seq<PlayerView>, b: Seq<PlayerView>, k: int)
    requires
        a.len() == b.len(),
        0 <= k < a.len(),
        a[k].alive,
        !b[k].alive,
        forall|i: int| 0 <= i < a.len() && i != k ==> #[trigger] a[i].alive == b[i].alive,
    ensures
        alive_count(b) + 1 == alive_count(a),
    decreases a.len(),
{
    if k < a.len() - 1 {
        alive_count_kill(a.drop_last(), b.drop_last(), k);
    } else {
        alive_count_same(a.drop_last(), b.drop_last());
    }
}

/// Going round the table: the seat `j` steps after `cur` is `j` steps away from it, each seat
/// is reached after its number of steps, and each step moves to the next seat, from the last
/// seat back to the first.
pub proof fn round_the_table(cur: int, n: int)
    requires
        0 <= cur <= n,
        1 <= n,
    ensures
        forall|j: int| 1 <= j <= n ==> 1 <= #[trigger] pos(cur, n, j) <= n && gap(cur, n, pos(cur, n, j)) == j,
        forall|s: int| 1 <= s <= n ==> 1 <= #[trigger] gap(cur, n, s) <= n && pos(cur, n, gap(cur, n, s)) == s,
        forall|j: int| 0 <= j < n ==> #[trigger] pos(cur, n, j + 1) == if pos(cur, n, j) >= n { 1 } else { pos(cur, n, j) + 1 },
        pos(cur, n, 0) == cur,
{
}

/// When some player lives, the first living player after any seat exists and is unique.
pub proof fn next_gap_exists(seats: Seq<PlayerView>, cur: int)
    requires
        0 <= cur <= seats.len(),
        alive_count(seats) > 0,
    ensures
        is_next_gap(seats, cur, next_gap(seats, cur)),
        forall|j: int| is_next_gap(seats, cur, j) ==> j == next_gap(seats, cur),
{
    let n = seats.len() as int;
    alive_count_positive(seats);
    round_the_table(cur, n);
    let a = choose|i: int| 0 <= i < seats.len() && #[trigger] seats[i].alive;
    let g = gap(cur, n, a + 1);
    assert(alive_at(seats, cur, g));
    first_alive_step(seats, cur, g);
    next_gap_unique(seats, cur);
}

proof fn first_alive_step(seats: Seq<PlayerView>, cur: int, g: int)
    requires
        0 <= cur <= seats.len(),
        1 <= g <= seats.len(),
        alive_at(seats, cur, g),
    ensures
        exists|j: int| is_next_gap(seats, cur, j),
    decreases g,
{
    if exists|k: int| 1 <= k < g && #[trigger] alive_at(seats, cur, k) {
        let k = choose|k: int| 1 <= k < g && #[trigger] alive_at(seats, cur, k);
        first_alive_step(seats, cur, k);
    } else {
        assert(is_next_gap(seats, cur, g));
    }
}

proof fn next_gap_unique(seats: Seq<PlayerView>, cur: int)
    ensures
        forall|a: int, b: int| is_next_gap(seats, cur, a) && is_next_gap(seats, cur, b) ==> a == b,
{
    assert forall|a: int, b: int| is_next_gap(seats, cur, a) && is_next_gap(seats, cur, b) implies a == b by {
        if a < b {
            assert(!alive_at(seats, cur, a));
        } else if b < a {
            assert(!alive_at(seats, cur, b));
        }
    }
}

/// What passing the turn leaves as it was, and what it establishes.
pub proof fn pass_turn_facts(t: TableView)
    requires
        wf(t),
        alive_count(t.seats) > 0,
    ensures
        wf(pass_turn(t)),
        pass_turn(t).seats.len() == t.seats.len(),
        1 <= pass_turn(t).game.turn <= t.seats.len(),
        pass_turn(t).seats[pass_turn(t).game.turn - 1].alive,
        forall|i: int| 0 <= i < t.seats.len() ==> {
            let p = #[trigger] pass_turn(t).seats[i];
            &&& p.alive == t.seats[i].alive
            &&& p.hand == t.seats[i].hand
            &&& p.turn == t.seats[i].turn
            &&& p.name == t.seats[i].name
            &&& p.id == t.seats[i].id
            &&& p.text == t.seats[i].text
            &&& p.input == t.seats[i].input
        },
        alive_count(pass_turn(t).seats) == alive_count(t.seats),
        pass_turn(t).game.deck == t.game.deck,
        pass_turn(t).game.id == t.game.id,
        pass_turn(t).game.played_card == t.game.played_card,
        pass_turn(t).game.player_pick == t.game.player_pick,
        pass_turn(t).game.players == t.game.players,
{
    let n = t.seats.len() as int;
    let cur = t.game.turn as int;
    next_gap_exists(t.seats, cur);
    round_the_table(cur, n);
    let j = next_gap(t.seats, cur);
    assert(alive_at(t.seats, cur, j));
    alive_count_same(t.seats, pass_turn(t).seats);
}

/// The index of the first living seat.
pub open spec fn first_alive(seats: Seq<PlayerView>) -> int {
    choose|i: int| 0 <= i < seats.len() && seats[i].alive && forall|k: int| 0 <= k < i ==> !#[trigger] seats[k].alive
}

/// The highest card of a hand; 0 for a hand without cards.
pub open spec fn top_card(h: Seq<usize>) -> nat
    decreases h.len(),
{
    if h.len() == 0 {
        0
    } else {
        let m = top_card(h.drop_last());
        if h.last() > m { h.last() as nat } else { m }
    }
}

/// The highest card of the hand of the seat `w` names; 0 for none.
pub open spec fn score(seats: Seq<PlayerView>, w: Option<int>) -> nat {
    match w {
        Some(i) => top_card(seats[i].hand),
        None => 0,
    }
}

/// Among the first `k` seats, the first living player whose highest card beats the highest
/// card of every living player before; none when no living player holds a card.
pub open spec fn leader(seats: Seq<PlayerView>, k: int) -> Option<int>
    decreases k,
{
    if k <= 0 {
        None
    } else {
        let prev = leader(seats, k - 1);
        if seats[k - 1].alive && top_card(seats[k - 1].hand) > score(seats, prev) {
            Some(k - 1)
        } else {
            prev
        }
    }
}

/// Filling a hand slot: an empty slot takes the top card of the deck, or a soldier when the
/// deck is empty; a filled slot keeps its card. Gives the card and the deck left.
pub open spec fn draw(slot: usize, deck: Seq<usize>) -> (usize, Seq<usize>) {
    if slot == 0 {
        if deck.len() > 0 { (deck.last(), deck.drop_last()) } else { (1usize, deck) }
    } else {
        (slot, deck)
    }
}

/// Whether a player holding these two cards is out because of the minister.
pub open spec fn minister_strikes(c1: usize, c2: usize) -> bool {
    (c1 == 7 || c2 == 7) && c2 >= 5 && c1 >= 5
}

/// The table with no card waiting for a target and no target waiting for a guess.
pub open spec fn clear_pending(t: TableView) -> TableView {
    TableView { game: GameView { played_card: -1i32, player_pick: -1i32, ..t.game }, ..t }
}

/// The table with the hand of seat index `i` replaced.
pub open spec fn with_hand(t: TableView, i: int, h: Seq<usize>) -> TableView {
    TableView { seats: t.seats.update(i, PlayerView { hand: h, ..t.seats[i] }), ..t }
}

/// The table with the deck replaced.
pub open spec fn with_deck(t: TableView, d: Seq<usize>) -> TableView {
    TableView { game: GameView { deck: d, ..t.game }, ..t }
}

/// The table with the player of seat index `i` out of the game.
pub open spec fn eliminate(t: TableView, i: int) -> TableView {
    TableView { seats: t.seats.update(i, PlayerView { alive: false, ..t.seats[i] }), ..t }
}

/// The step after the current player's minister check, before any further turn.
pub open spec fn dealt(s: Step) -> (Step, int, usize, usize) {
    let t1 = pass_turn(clear_pending(s.table));
    let i = t1.game.turn - 1;
    let p = t1.seats[i];
    let s2 = announce(Step { table: t1, out: s.out }, None, turn_text(p.turn as int, p.name), false);
    let d1 = draw(p.hand[0], t1.game.deck);
    let d2 = draw(p.hand[1], d1.1);
    let s3 = announce(s2, Some(p.turn), hand_prompt_text(d1.0 as nat, d2.0 as nat), true);
    let t4 = with_hand(with_deck(s3.table, d2.1), i, seq![d1.0, d2.0]);
    (Step { table: t4, out: s3.out }, i, d1.0, d2.0)
}

/// A turn. With no living player left, or only one, the game is over. Otherwise the turn
/// passes to the next living player; when the deck is empty the game ends and the living
/// player with the highest card wins, the first in seat order among equals. Otherwise the
/// player's empty slots are filled from the deck and the player is asked which card to play;
/// a player who now holds the minister with a hand total of 12 or more is out, and the turn
/// passes on again.
pub open spec fn run_turn_spec(s: Step) -> Step
    decreases alive_count(s.table.seats),
    when wf(s.table)
    via run_turn_spec_ends
{
    let t0 = clear_pending(s.table);
    let s0 = Step { table: t0, out: s.out };
    let n = alive_count(t0.seats);
    if n == 0 {
        announce(s0, None, no_players_text(), false)
    } else if n == 1 {
        let w = t0.seats[first_alive(t0.seats)];
        announce(s0, None, last_standing_text(w.turn as int, w.name), false)
    } else {
        let t1 = pass_turn(t0);
        if t1.game.deck.len() == 0 {
            let s1 = Step { table: t1, out: s.out };
            match leader(t1.seats, t1.seats.len() as int) {
                Some(w) => announce(
                    s1,
                    None,
                    highest_card_text(t1.seats[w].turn as int, t1.seats[w].name, top_card(t1.seats[w].hand)),
                    false,
                ),
                None => announce(s1, None, no_winner_text(), false),
            }
        } else {
            let (s4, i, c1, c2) = dealt(s);
            if minister_strikes(c1, c2) {
                let p = s4.table.seats[i];
                run_turn_spec(
                    announce(
                        Step { table: eliminate(s4.table, i), out: s4.out },
                        None,
                        minister_out_text(p.turn as int, p.name),
                        false,
                    ),
                )
            } else {
                s4
            }
        }
    }
}

/// What dealing the cards of a turn keeps: a table of the game, the living players, and
/// the current player alive.
pub proof fn dealt_facts(s: Step)
    requires
        wf(s.table),
        alive_count(s.table.seats) >= 2,
        s.table.game.deck.len() > 0,
    ensures
        wf(dealt(s).0.table),
        dealt(s).1 == dealt(s).0.table.game.turn - 1,
        0 <= dealt(s).1 < s.table.seats.len(),
        dealt(s).0.table.seats.len() == s.table.seats.len(),
        dealt(s).0.table.seats[dealt(s).1].alive,
        dealt(s).0.table.seats[dealt(s).1].hand == seq![dealt(s).2, dealt(s).3],
        forall|k: int| 0 <= k < s.table.seats.len() ==> (#[trigger] dealt(s).0.table.seats[k]).alive == s.table.seats[k].alive,
        alive_count(dealt(s).0.table.seats) == alive_count(s.table.seats),
{
    let t0 = clear_pending(s.table);
    let t1 = pass_turn(t0);
    pass_turn_facts(t0);
    alive_count_same(s.table.seats, t0.seats);
    let i = t1.game.turn - 1;
    let p = t1.seats[i];
    let s2 = announce(Step { table: t1, out: s.out }, None, turn_text(p.turn as int, p.name), false);
    record_keeps_wf(t1, None, turn_text(p.turn as int, p.name), false);
    let d1 = draw(p.hand[0], t1.game.deck);
    let d2 = draw(p.hand[1], d1.1);
    let s3 = announce(s2, Some(p.turn), hand_prompt_text(d1.0 as nat, d2.0 as nat), true);
    record_keeps_wf(s2.table, Some(p.turn), hand_prompt_text(d1.0 as nat, d2.0 as nat), true);
    let t4 = with_hand(with_deck(s3.table, d2.1), i, seq![d1.0, d2.0]);
    assert(hand_ok(seq![d1.0, d2.0]));
    assert(forall|k: int| 0 <= k < d2.1.len() ==> d2.1[k] == t1.game.deck[k]);
    assert(wf(t4));
    alive_count_same(s.table.seats, t4.seats);
}

#[via_fn]
proof fn run_turn_spec_ends(s: Step) {
    if wf(s.table) {
        let t0 = clear_pending(s.table);
        alive_count_same(s.table.seats, t0.seats);
        let n = alive_count(t0.seats);
        if n >= 2 {
            pass_turn_facts(t0);
            let t1 = pass_turn(t0);
            if t1.game.deck.len() > 0 {
                dealt_facts(s);
                let (s4, i, c1, c2) = dealt(s);
                let p = s4.table.seats[i];
                let e = eliminate(s4.table, i);
                alive_count_kill(s4.table.seats, e.seats, i);
                record_keeps_wf(e, None, minister_out_text(p.turn as int, p.name), false);
                let r = announce(Step { table: e, out: s4.out }, None, minister_out_text(p.turn as int, p.name), false);
                alive_count_same(e.seats, r.table.seats);
            }
        }
    }
}

/// A player is out because of the minister exactly when the hand holds the minister and its
/// two cards add up to 12 or more.
pub proof fn minister_rule(c1: usize, c2: usize)
    requires
        c1 <= 8,
        c2 <= 8,
    ensures
        minister_strikes(c1, c2) <==> ((c1 == 7 || c2 == 7) && c1 + c2 >= 12),
{
}

/// The turn passes to the first living player after the current seat, going round the table:
/// that player is alive and no longer immune, every seat passed over holds a player who is out,
/// and every player further on keeps their immunity.
pub proof fn turn_goes_to_next_living(t: TableView)
    requires
        wf(t),
        alive_count(t.seats) > 0,
    ensures
        ({
            let n = t.seats.len() as int;
            let cur = t.game.turn as int;
            let next = pass_turn(t).game.turn as int;
            &&& 1 <= next <= n
            &&& pass_turn(t).seats[next - 1].alive
            &&& !pass_turn(t).seats[next - 1].immune
            &&& forall|s: int| 1 <= s <= n && gap(cur, n, s) < gap(cur, n, next) ==> !t.seats[s - 1].alive
            &&& forall|s: int| 1 <= s <= n && gap(cur, n, s) > gap(cur, n, next) ==>
                pass_turn(t).seats[s - 1].immune == t.seats[s - 1].immune
        }),
{
    let n = t.seats.len() as int;
    let cur = t.game.turn as int;
    pass_turn_facts(t);
    next_gap_exists(t.seats, cur);
    round_the_table(cur, n);
    let j = next_gap(t.seats, cur);
    let next = pass_turn(t).game.turn as int;
    assert(next == pos(cur, n, j));
    assert(gap(cur, n, next) == j);
    assert forall|s: int| 1 <= s <= n && gap(cur, n, s) < gap(cur, n, next) implies !t.seats[s - 1].alive by {
        let g = gap(cur, n, s);
        assert(pos(cur, n, g) == s);
        assert(!alive_at(t.seats, cur, g));
    }
}

/// The winner when the deck runs out: a living player whose highest card is at least that of
/// every living player, and higher than that of every living player seated before; with no
/// winner, no living player holds a card.
pub proof fn deck_end_winner(seats: Seq<PlayerView>, k: int)
    requires
        0 <= k <= seats.len(),
    ensures
        leader(seats, k) matches Some(w) ==> {
            &&& 0 <= w < k
            &&& seats[w].alive
            &&& top_card(seats[w].hand) > 0
            &&& forall|i: int| 0 <= i < k && seats[i].alive ==> top_card(#[trigger] seats[i].hand) <= top_card(seats[w].hand)
            &&& forall|i: int| 0 <= i < w && seats[i].alive ==> top_card(#[trigger] seats[i].hand) < top_card(seats[w].hand)
        },
        leader(seats, k) is None ==> forall|i: int| 0 <= i < k && seats[i].alive ==> top_card(#[trigger] seats[i].hand) == 0,
    decreases k,
{
    if k > 0 {
        deck_end_winner(seats, k - 1);
    }
}

impl Table {
    /// Passes the turn to the next living player in seat order, wrapping round from the last
    /// seat to the first; everyone passed over, and the new current player, loses immunity.
    pub fn continue_turns(&mut self)
        requires
            wf(old(self)@),
            alive_count(old(self)@.seats) > 0,
        ensures
            final(self)@ == pass_turn(old(self)@),
            wf(final(self)@),
    {
        let ghost t = self@;
        let ghost cur = self.game.turn as int;
        let n = self.seats.len();
        proof {
            next_gap_exists(t.seats, cur);
            round_the_table(cur, n as int);
        }
        let ghost target = next_gap(t.seats, cur);
        let mut turn: i32 = self.game.turn;
        let ghost mut j: int = 0;
        loop
            invariant_except_break
                forall|k: int| 1 <= k <= j ==> !#[trigger] alive_at(t.seats, cur, k),
            invariant
                n == self.seats.len(),
                n == t.seats.len(),
                1 <= n < i32::MAX,
                0 <= cur <= n,
                wf(t),
                t == old(self)@,
                self.game == old(self).game,
                0 <= j <= target,
                target == next_gap(t.seats, cur),
                is_next_gap(t.seats, cur, target),
                turn as int == pos(cur, n as int, j),
                forall|jj: int| is_next_gap(t.seats, cur, jj) ==> jj == target,
                forall|i: int| 0 <= i < n ==> {
                    let p = #[trigger] self@.seats[i];
                    p == (if 1 <= gap(cur, n as int, i + 1) <= j { PlayerView { immune: false, ..t.seats[i] } } else { t.seats[i] })
                },
            ensures
                self.seats.len() == n,
                self.game == old(self).game,
                turn as int == pos(cur, n as int, target),
                forall|i: int| 0 <= i < n ==> {
                    let p = #[trigger] self@.seats[i];
                    p == (if gap(cur, n as int, i + 1) <= target { PlayerView { immune: false, ..t.seats[i] } } else { t.seats[i] })
                },
            decreases target - j,
        {
            proof {
                round_the_table(cur, n as int);
            }
            turn = if turn as usize >= n { 1 } else { turn + 1 };
            proof {
                j = j + 1;
            }
            assert(turn as int == pos(cur, n as int, j));
            let i = (turn - 1) as usize;
            assert(gap(cur, n as int, i + 1) == j);
            assert(self@.seats[i as int] == t.seats[i as int]);
            let ghost old_seats = self@.seats;
            self.seats[i].immune = false;
            assert(self@.seats[i as int] == PlayerView { immune: false, ..t.seats[i as int] });
            assert forall|k: int| 0 <= k < n implies {
                let p = #[trigger] self@.seats[k];
                p == (if 1 <= gap(cur, n as int, k + 1) <= j { PlayerView { immune: false, ..t.seats[k] } } else { t.seats[k] })
            } by {
                if k != i {
                    assert(self@.seats[k] == old_seats[k]);
                    if gap(cur, n as int, k + 1) == j {
                        assert(pos(cur, n as int, gap(cur, n as int, k + 1)) == k + 1);
                    }
                }
            }
            if self.seats[i].alive {
                assert(alive_at(t.seats, cur, j));
                assert(is_next_gap(t.seats, cur, j));
                break;
            }
            assert(!alive_at(t.seats, cur, j));
        }
        let ghost seats_now = self@.seats;
        assert forall|i: int| 0 <= i < n implies #[trigger] seats_now[i] == pass_turn(t).seats[i] by {
            assert(seats_now[i] == (if gap(cur, n as int, i + 1) <= target { PlayerView { immune: false, ..t.seats[i] } } else { t.seats[i] }));
        }
        assert(seats_now =~= pass_turn(t).seats);
        self.game.turn = turn;
        assert(self@.seats =~= pass_turn(t).seats);
    }
}

/// The highest card of a hand of cards of the game is a card of the game.
pub proof fn top_card_bound(h: Seq<usize>)
    requires
        forall|i: int| 0 <= i < h.len() ==> h[i] <= 8,
    ensures
        top_card(h) <= 8,
    decreases h.len(),
{
    if h.len() > 0 {
        top_card_bound(h.drop_last());
    }
}

/// The highest card of a hand of cards of the game, 0 for a hand without cards.
pub fn top_card_of(h: &Vec<usize>) -> (m: usize)
    ensures
        m == top_card(h@),
{
    let mut m: usize = 0;
    let mut k: usize = 0;
    while k < h.len()
        invariant
            k <= h.len(),
            m == top_card(h@.subrange(0, k as int)),
        decreases h.len() - k,
    {
        assert(h@.subrange(0, k + 1).drop_last() =~= h@.subrange(0, k as int));
        if h[k] > m {
            m = h[k];
        }
        k = k + 1;
    }
    assert(h@.subrange(0, k as int) =~= h@);
    m
}

impl Table {
    /// How many players are alive.
    pub fn count_alive(&self) -> (n: usize)
        ensures
            n == alive_count(self@.seats),
    {
        let ghost seats = self@.seats;
        let mut n: usize = 0;
        let mut k: usize = 0;
        proof {
            alive_count_positive(seats);
        }
        while k < self.seats.len()
            invariant
                k <= self.seats.len(),
                seats == self@.seats,
                n == alive_count(seats.subrange(0, k as int)),
                n <= k,
            decreases self.seats.len() - k,
        {
            assert(seats.subrange(0, k + 1).drop_last() =~= seats.subrange(0, k as int));
            assert(seats[k as int] == self.seats[k as int]@);
            if self.seats[k].alive {
                n = n + 1;
            }
            k = k + 1;
        }
        assert(seats.subrange(0, k as int) =~= seats);
        n
    }

    /// The index of the first living seat.
    pub fn first_alive_seat(&self) -> (i: usize)
        requires
            alive_count(self@.seats) > 0,
        ensures
            i == first_alive(self@.seats),
            i < self.seats.len(),
            self@.seats[i as int].alive,
    {
        let ghost seats = self@.seats;
        proof {
            alive_count_positive(seats);
        }
        let mut k: usize = 0;
        while k < self.seats.len()
            invariant
                k <= self.seats.len(),
                seats == self@.seats,
                exists|a: int| k <= a < seats.len() && #[trigger] seats[a].alive,
                forall|j: int| 0 <= j < k ==> !#[trigger] seats[j].alive,
            ensures
                k < self.seats.len(),
                seats[k as int].alive,
                forall|j: int| 0 <= j < k ==> !#[trigger] seats[j].alive,
            decreases self.seats.len() - k,
        {
            assert(seats[k as int] == self.seats[k as int]@);
            if self.seats[k].alive {
                break;
            }
            k = k + 1;
        }
        assert(k < self.seats.len());
        assert(seats[k as int].alive);
        assert forall|i: int| #![trigger seats[i]]
            0 <= i < seats.len() && seats[i].alive && (forall|j: int| 0 <= j < i ==> !#[trigger] seats[j].alive)
            implies i == k by {
            if i < k {
                assert(!seats[i].alive);
            } else if i > k {
                assert(!seats[k as int].alive);
            }
        }
        k
    }

    /// The living player with the highest card, the first in seat order among equals, and that
    /// card; none, and 0, when no living player holds a card.
    pub fn find_leader(&self) -> (r: (Option<usize>, usize))
        requires
            wf(self@),
        ensures
            r.0 matches Some(w) ==> leader(self@.seats, self@.seats.len() as int) == Some(w as int) && w < self.seats.len(),
            r.0 is None ==> leader(self@.seats, self@.seats.len() as int) is None,
            r.1 == score(self@.seats, leader(self@.seats, self@.seats.len() as int)),
            r.1 <= 8,
    {
        let ghost seats = self@.seats;
        let mut winner: Option<usize> = None;
        let mut best: usize = 0;
        let mut k: usize = 0;
        while k < self.seats.len()
            invariant
                k <= self.seats.len(),
                seats == self@.seats,
                wf(self@),
                winner matches Some(w) ==> leader(seats, k as int) == Some(w as int) && w < k,
                winner is None ==> leader(seats, k as int) is None,
                best == score(seats, leader(seats, k as int)),
                best <= 8,
            decreases self.seats.len() - k,
        {
            assert(seats[k as int] == self.seats[k as int]@);
            let top = top_card_of(&self.seats[k].hand);
            proof {
                top_card_bound(seats[k as int].hand);
            }
            if self.seats[k].alive && top > best {
                winner = Some(k);
                best = top;
            }
            k = k + 1;
        }
        (winner, best)
    }

    /// Runs a turn: ends the game when at most one player lives, or when the deck is empty
    /// (the living player with the highest card wins); otherwise passes the turn on, fills the
    /// new player's empty slots from the deck and asks which card to play. A player who then
    /// holds the minister with a total of 12 or more is out, and the turn passes on again.
    pub fn run_turn(&mut self, out: &mut Vec<Event>)
        requires
            wf(old(self)@),
        ensures
            wf(final(self)@),
            step_of(final(self)@, final(out)@) == run_turn_spec(step_of(old(self)@, old(out)@)),
        decreases alive_count(old(self)@.seats),
    {
        let ghost s = step_of(self@, out@);
        self.game.played_card = -1;
        self.game.player_pick = -1;
        assert(self@ == clear_pending(s.table));
        proof {
            alive_count_same(s.table.seats, self@.seats);
        }
        let living = self.count_alive();
        if living == 0 {
            let text = no_players();
            self.announce(out, None, text, false);
            proof { record_keeps_wf(clear_pending(s.table), None, no_players_text(), false); }
            return;
        }
        if living == 1 {
            let w = self.first_alive_seat();
            let text = last_standing(self.seats[w].turn, &self.seats[w].name);
            self.announce(out, None, text, false);
            proof {
                let p = clear_pending(s.table).seats[w as int];
                record_keeps_wf(clear_pending(s.table), None, last_standing_text(p.turn as int, p.name), false);
            }
            return;
        }
        proof {
            pass_turn_facts(clear_pending(s.table));
        }
        self.continue_turns();
        let ghost t1 = self@;
        if self.game.deck.len() == 0 {
            let (winner, best) = self.find_leader();
            match winner {
                Some(w) => {
                    let text = highest_card(self.seats[w].turn, &self.seats[w].name, best);
                    self.announce(out, None, text, false);
                    proof {
                        let p = t1.seats[w as int];
                        record_keeps_wf(t1, None, highest_card_text(p.turn as int, p.name, top_card(p.hand)), false);
                    }
                },
                None => {
                    let text = no_winner();
                    self.announce(out, None, text, false);
                    proof { record_keeps_wf(t1, None, no_winner_text(), false); }
                },
            }
            return;
        }
        proof {
            dealt_facts(s);
        }
        let i = (self.game.turn - 1) as usize;
        let turn = self.seats[i].turn;
        let name = self.seats[i].name.clone();
        let ghost p = t1.seats[i as int];
        assert(p.turn == turn && p.name == name@);
        let text = turn_notice(turn, &name);
        self.announce(out, None, text, false);
        let ghost s2 = step_of(self@, out@);
        assert(s2 == announce(Step { table: t1, out: s.out }, None, turn_text(p.turn as int, p.name), false));
        proof { record_keeps_wf(t1, None, turn_text(turn as int, name@), false); }
        assert(self.seats[i as int].hand@ == p.hand);
        let mut c1 = self.seats[i].hand[0];
        if c1 == 0 {
            c1 = match self.game.deck.pop() {
                Some(c) => c,
                None => 1,
            };
        }
        let ghost d1 = draw(p.hand[0], t1.game.deck);
        assert(c1 == d1.0 && self.game.deck@ == d1.1);
        let mut c2 = self.seats[i].hand[1];
        if c2 == 0 {
            c2 = match self.game.deck.pop() {
                Some(c) => c,
                None => 1,
            };
        }
        let ghost d2 = draw(p.hand[1], d1.1);
        assert(c2 == d2.0 && self.game.deck@ == d2.1);
        let text = hand_prompt(c1, c2);
        self.announce(out, Some(turn), text, true);
        let ghost s3 = announce(s2, Some(p.turn), hand_prompt_text(d1.0 as nat, d2.0 as nat), true);
        assert(self@.seats == s3.table.seats);
        assert(events_view(out@) == s3.out);
        let ghost before_hand = self@.seats;
        self.seats[i].hand.set(0, c1);
        self.seats[i].hand.set(1, c2);
        assert(self.seats[i as int].hand@ =~= seq![c1, c2]);
        let ghost dealt_step = dealt(s);
        assert forall|k: int| 0 <= k < self.seats.len() implies #[trigger] self@.seats[k] == dealt_step.0.table.seats[k] by {
            if k != i {
                assert(self@.seats[k] == before_hand[k]);
            }
        }
        assert(self@.seats =~= dealt_step.0.table.seats);
        assert(step_of(self@, out@) == dealt_step.0);
        if (c1 == 7 || c2 == 7) && c2 >= 5 && c1 >= 5 {
            let ghost before_kill = self@.seats;
            self.seats[i].alive = false;
            let ghost e = eliminate(dealt_step.0.table, i as int);
            proof {
                assert forall|k: int| 0 <= k < self.seats.len() implies #[trigger] self@.seats[k] == e.seats[k] by {
                    if k != i {
                        assert(self@.seats[k] == before_kill[k]);
                    }
                }
                assert(self@.seats =~= e.seats);
                assert(self@ == e);
                alive_count_kill(dealt_step.0.table.seats, e.seats, i as int);
                assert(wf(e));
                record_keeps_wf(e, None, minister_out_text(turn as int, name@), false);
            }
            let text = minister_out(turn, &name);
            self.announce(out, None, text, false);
            proof {
                alive_count_same(e.seats, self@.seats);
            }
            self.run_turn(out);
        }
    }
}

} // verus!
