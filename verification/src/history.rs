//! What each player was told: every text a player's record holds is the text of the events
//! that reached that player, in the order they were sent; nobody who was out comes back; and
//! only the player whose turn it is can be waiting for input.

use crate::events::{reaches_spec, EventView};
use crate::lobby::{is_full, join_spec, seated, start_spec};
use crate::messages::{
    immune_text, knight_lost_text, knight_tie_text, knight_won_text, minister_out_text, played_clown_text,
    played_empty_text, played_general_text, played_minister_text, played_princess_text,
    played_priestess_text, played_wizard_text, princess_discarded_text, shown_cards_text, soldier_out_text, soldier_text,
    switched_text, guess_prompt_text, target_prompt_text, joined_text, join_hint_text, starting_text,
};
use crate::play::{
    discard, edits_keep_wf, finish, general_spec, guess_spec, input_exhausts_deck, input_spec, knight_spec,
    play_card_spec, resolve_spec, seat_of, target_of, wizard_spec,
};
use crate::table::{announce, hand_ok, record_keeps_wf, GameView, PlayerView, Step, TableView, wf};
use crate::turns::{
    alive_count, alive_count_same, clear_pending, dealt, dealt_facts, eliminate, pass_turn, pass_turn_facts,
    run_turn_spec, top_card, with_deck, with_hand,
};
use vstd::prelude::*;

verus! {

/// The texts of the events among `out` that reach the player of seat `turn` of game `game`,
/// one after the other in the order they were sent.
pub open spec fn heard(out: Seq<EventView>, game: Seq<char>, turn: i32) -> Seq<char>
    decreases out.len(),
{
    if out.len() == 0 {
        Seq::empty()
    } else {
        let e = out.last();
        heard(out.drop_last(), game, turn) + if reaches_spec(e.game, e.player, game, turn) { e.text } else { Seq::empty() }
    }
}

/// Step `b` follows from step `a`: the events of `a` are the first events of `b`; the same
/// players sit in the same seats of the same game; nobody who was out in `a` is alive in `b`;
/// and each player's record in `b` holds the text it held in `a`, followed by the texts of
/// the events sent since that reach the player.
pub open spec fn grew(a: Step, b: Step) -> bool {
    &&& a.out.len() <= b.out.len()
    &&& b.out.subrange(0, a.out.len() as int) == a.out
    &&& b.table.game.id == a.table.game.id
    &&& b.table.seats.len() == a.table.seats.len()
    &&& forall|i: int| 0 <= i < a.table.seats.len() ==> {
        let p = a.table.seats[i];
        let q = #[trigger] b.table.seats[i];
        &&& q.id == p.id
        &&& q.turn == p.turn
        &&& q.name == p.name
        &&& (q.alive ==> p.alive)
        &&& q.text == p.text + heard(b.out.subrange(a.out.len() as int, b.out.len() as int), a.table.game.id, p.turn)
    }
}

/// Only the player whose turn it is can be waiting for input.
pub open spec fn asks_current(t: TableView) -> bool {
    forall|i: int| 0 <= i < t.seats.len() ==> #[trigger] t.seats[i].input ==> t.seats[i].turn == t.game.turn
}

/// The table `b` differs from `a` in nothing that `grew` looks at, but for players going out.
pub open spec fn quiet_edit(a: TableView, b: TableView) -> bool {
    &&& b.game.id == a.game.id
    &&& b.seats.len() == a.seats.len()
    &&& forall|i: int| 0 <= i < a.seats.len() ==> {
        let p = a.seats[i];
        let q = #[trigger] b.seats[i];
        &&& q.id == p.id
        &&& q.turn == p.turn
        &&& q.name == p.name
        &&& (q.alive ==> p.alive)
        &&& q.text == p.text
    }
}

proof fn heard_concat(x: Seq<EventView>, y: Seq<EventView>, game: Seq<char>, turn: i32)
    ensures
        heard(x + y, game, turn) == heard(x, game, turn) + heard(y, game, turn),
    decreases y.len(),
{
    if y.len() == 0 {
        assert(x + y =~= x);
        assert(heard(x, game, turn) + Seq::empty() =~= heard(x, game, turn));
    } else {
        heard_concat(x, y.drop_last(), game, turn);
        assert((x + y).drop_last() =~= x + y.drop_last());
        assert((x + y).last() == y.last());
        assert(heard(x + y, game, turn) =~= heard(x, game, turn) + heard(y, game, turn));
    }
}

/// Nothing sent, nothing heard: a step follows from itself.
pub proof fn grew_refl(a: Step)
    ensures
        grew(a, a),
{
    assert(a.out.subrange(0, a.out.len() as int) =~= a.out);
    assert forall|i: int| 0 <= i < a.table.seats.len() implies {
        let p = a.table.seats[i];
        let q = #[trigger] a.table.seats[i];
        q.text == p.text + heard(a.out.subrange(a.out.len() as int, a.out.len() as int), a.table.game.id, p.turn)
    } by {
        let p = a.table.seats[i];
        assert(a.out.subrange(a.out.len() as int, a.out.len() as int) =~= Seq::<EventView>::empty());
        assert(p.text + Seq::<char>::empty() =~= p.text);
    }
}

/// Following is transitive.
pub proof fn grew_trans(a: Step, b: Step, c: Step)
    requires
        grew(a, b),
        grew(b, c),
    ensures
        grew(a, c),
{
    let la = a.out.len() as int;
    let lb = b.out.len() as int;
    let lc = c.out.len() as int;
    assert(c.out.subrange(0, la) =~= b.out.subrange(0, la));
    assert(c.out.subrange(la, lc) =~= c.out.subrange(la, lb) + c.out.subrange(lb, lc));
    assert(c.out.subrange(la, lb) =~= b.out.subrange(la, lb));
    assert forall|i: int| 0 <= i < a.table.seats.len() implies {
        let p = a.table.seats[i];
        let q = #[trigger] c.table.seats[i];
        &&& q.id == p.id
        &&& q.turn == p.turn
        &&& q.name == p.name
        &&& (q.alive ==> p.alive)
        &&& q.text == p.text + heard(c.out.subrange(la, lc), a.table.game.id, p.turn)
    } by {
        let p = a.table.seats[i];
        let m = b.table.seats[i];
        let q = c.table.seats[i];
        heard_concat(c.out.subrange(la, lb), c.out.subrange(lb, lc), a.table.game.id, p.turn);
        assert(q.text =~= p.text + heard(c.out.subrange(la, lc), a.table.game.id, p.turn));
    }
}

/// An edit that touches nothing `grew` looks at, but for players going out, is followed.
pub proof fn quiet_edit_grows(s: Step, t: TableView)
    requires
        quiet_edit(s.table, t),
    ensures
        grew(s, Step { table: t, out: s.out }),
{
    grew_refl(s);
}

/// Sending an event is followed: exactly the players it reaches have its text added.
pub proof fn announce_grows(s: Step, to: Option<i32>, text: Seq<char>, input: bool)
    ensures
        grew(s, announce(s, to, text, input)),
{
    let b = announce(s, to, text, input);
    let la = s.out.len() as int;
    let e = EventView { game: s.table.game.id, player: to, text, input };
    assert(b.out.subrange(0, la) =~= s.out);
    assert(b.out.subrange(la, la + 1) =~= seq![e]);
    assert forall|i: int| 0 <= i < s.table.seats.len() implies {
        let p = s.table.seats[i];
        let q = #[trigger] b.table.seats[i];
        &&& q.id == p.id
        &&& q.turn == p.turn
        &&& q.name == p.name
        &&& (q.alive ==> p.alive)
        &&& q.text == p.text + heard(b.out.subrange(la, b.out.len() as int), s.table.game.id, p.turn)
    } by {
        let p = s.table.seats[i];
        assert(seq![e].drop_last() == Seq::<EventView>::empty());
        assert(seq![e].last() == e);
        assert(heard(seq![e].drop_last(), s.table.game.id, p.turn) == Seq::<char>::empty());
        if reaches_spec(e.game, e.player, s.table.game.id, p.turn) {
            assert(heard(seq![e], s.table.game.id, p.turn) =~= Seq::<char>::empty() + text);
        } else {
            assert(heard(seq![e], s.table.game.id, p.turn) =~= Seq::<char>::empty());
            assert(p.text + Seq::<char>::empty() =~= p.text);
        }
    }
}

proof fn announce_then(a: Step, s: Step, to: Option<i32>, text: Seq<char>, input: bool)
    requires
        grew(a, s),
    ensures
        grew(a, announce(s, to, text, input)),
{
    announce_grows(s, to, text, input);
    grew_trans(a, s, announce(s, to, text, input));
}

proof fn edit_then(a: Step, s: Step, t: TableView)
    requires
        grew(a, s),
        quiet_edit(s.table, t),
    ensures
        grew(a, Step { table: t, out: s.out }),
{
    quiet_edit_grows(s, t);
    grew_trans(a, s, Step { table: t, out: s.out });
}

proof fn edits_are_quiet(t: TableView, i: int)
    requires
        0 <= i < t.seats.len(),
    ensures
        forall|h: Seq<usize>| #[trigger] quiet_edit(t, with_hand(t, i, h)),
        quiet_edit(t, eliminate(t, i)),
        forall|d: Seq<usize>| #[trigger] quiet_edit(t, with_deck(t, d)),
        quiet_edit(t, clear_pending(t)),
{
    assert forall|h: Seq<usize>| #[trigger] quiet_edit(t, with_hand(t, i, h)) by {
        let b = with_hand(t, i, h);
        assert forall|k: int| 0 <= k < t.seats.len() implies #[trigger] b.seats[k].text == t.seats[k].text by {}
    }
}

/// Broadcasting an event that asks for nothing leaves nobody waiting for input.
proof fn broadcast_asks_nobody(s: Step, text: Seq<char>)
    ensures
        forall|k: int| 0 <= k < s.table.seats.len() ==> !(#[trigger] announce(s, None, text, false).table.seats[k]).input,
        asks_current(announce(s, None, text, false).table),
{
}

/// After a turn, only the player whose turn it is can be waiting for input.
pub proof fn run_turn_asks_current(s: Step)
    requires
        wf(s.table),
    ensures
        asks_current(run_turn_spec(s).table),
    decreases alive_count(s.table.seats),
{
    let t0 = clear_pending(s.table);
    let s0 = Step { table: t0, out: s.out };
    alive_count_same(s.table.seats, t0.seats);
    let n = alive_count(t0.seats);
    assert(wf(t0));
    if n == 0 {
        broadcast_asks_nobody(s0, crate::messages::no_players_text());
    } else if n == 1 {
        let w = t0.seats[crate::turns::first_alive(t0.seats)];
        broadcast_asks_nobody(s0, crate::messages::last_standing_text(w.turn as int, w.name));
    } else {
        pass_turn_facts(t0);
        let t1 = pass_turn(t0);
        let s1 = Step { table: t1, out: s.out };
        if t1.game.deck.len() == 0 {
            match crate::turns::leader(t1.seats, t1.seats.len() as int) {
                Some(w) => {
                    let text = crate::messages::highest_card_text(t1.seats[w].turn as int, t1.seats[w].name, top_card(t1.seats[w].hand));
                    broadcast_asks_nobody(s1, text);
                },
                None => {
                    broadcast_asks_nobody(s1, crate::messages::no_winner_text());
                },
            }
        } else {
            dealt_facts(s);
            let i = t1.game.turn - 1;
            let p = t1.seats[i];
            assert(p.turn == t1.game.turn);
            let text2 = crate::messages::turn_text(p.turn as int, p.name);
            let s2 = announce(s1, None, text2, false);
            broadcast_asks_nobody(s1, text2);
            let d1 = crate::turns::draw(p.hand[0], t1.game.deck);
            let d2 = crate::turns::draw(p.hand[1], d1.1);
            let text3 = crate::messages::hand_prompt_text(d1.0 as nat, d2.0 as nat);
            let s3 = announce(s2, Some(p.turn), text3, true);
            assert(asks_current(s3.table)) by {
                assert forall|k: int| 0 <= k < s3.table.seats.len() && #[trigger] s3.table.seats[k].input implies s3.table.seats[k].turn == s3.table.game.turn by {
                    assert(!s2.table.seats[k].input);
                }
            }
            let td = with_deck(s3.table, d2.1);
            let t4 = with_hand(td, i, seq![d1.0, d2.0]);
            assert(asks_current(t4)) by {
                assert forall|k: int| 0 <= k < t4.seats.len() && #[trigger] t4.seats[k].input implies t4.seats[k].turn == t4.game.turn by {
                    assert(t4.seats[k].input == s3.table.seats[k].input);
                    assert(t4.seats[k].turn == s3.table.seats[k].turn);
                }
            }
            let s4 = Step { table: t4, out: s3.out };
            assert(s4 == dealt(s).0);
            if crate::turns::minister_strikes(d1.0, d2.0) {
                let q = s4.table.seats[i];
                let e = eliminate(s4.table, i);
                let text = minister_out_text(q.turn as int, q.name);
                let s5 = announce(Step { table: e, out: s4.out }, None, text, false);
                edits_keep_wf(s4.table, i);
                record_keeps_wf(e, None, text, false);
                crate::turns::alive_count_kill(s4.table.seats, e.seats, i);
                alive_count_same(e.seats, s5.table.seats);
                run_turn_asks_current(s5);
            }
        }
    }
}

/// A turn is followed: the texts it adds are those of the events it sends, and nobody who was
/// out comes back.
pub proof fn run_turn_grows(s: Step)
    requires
        wf(s.table),
    ensures
        grew(s, run_turn_spec(s)),
        wf(run_turn_spec(s).table),
    decreases alive_count(s.table.seats),
{
    let t0 = clear_pending(s.table);
    let s0 = Step { table: t0, out: s.out };
    grew_refl(s);
    if s.table.seats.len() > 0 {
        edits_are_quiet(s.table, 0);
    } else {
        assert(quiet_edit(s.table, t0));
    }
    edit_then(s, s, t0);
    alive_count_same(s.table.seats, t0.seats);
    let n = alive_count(t0.seats);
    assert(wf(t0));
    if n == 0 {
        announce_then(s, s0, None, crate::messages::no_players_text(), false);
        record_keeps_wf(t0, None, crate::messages::no_players_text(), false);
    } else if n == 1 {
        let w = t0.seats[crate::turns::first_alive(t0.seats)];
        announce_then(s, s0, None, crate::messages::last_standing_text(w.turn as int, w.name), false);
        record_keeps_wf(t0, None, crate::messages::last_standing_text(w.turn as int, w.name), false);
    } else {
        pass_turn_facts(t0);
        let t1 = pass_turn(t0);
        assert(quiet_edit(t0, t1));
        edit_then(s, s0, t1);
        let s1 = Step { table: t1, out: s.out };
        if t1.game.deck.len() == 0 {
            match crate::turns::leader(t1.seats, t1.seats.len() as int) {
                Some(w) => {
                    let text = crate::messages::highest_card_text(t1.seats[w].turn as int, t1.seats[w].name, top_card(t1.seats[w].hand));
                    announce_then(s, s1, None, text, false);
                    record_keeps_wf(t1, None, text, false);
                },
                None => {
                    announce_then(s, s1, None, crate::messages::no_winner_text(), false);
                    record_keeps_wf(t1, None, crate::messages::no_winner_text(), false);
                },
            }
        } else {
            dealt_facts(s);
            let i = t1.game.turn - 1;
            let p = t1.seats[i];
            let s2 = announce(s1, None, crate::messages::turn_text(p.turn as int, p.name), false);
            announce_then(s, s1, None, crate::messages::turn_text(p.turn as int, p.name), false);
            let d1 = crate::turns::draw(p.hand[0], t1.game.deck);
            let d2 = crate::turns::draw(p.hand[1], d1.1);
            let text3 = crate::messages::hand_prompt_text(d1.0 as nat, d2.0 as nat);
            let s3 = announce(s2, Some(p.turn), text3, true);
            announce_then(s, s2, Some(p.turn), text3, true);
            let td = with_deck(s3.table, d2.1);
            edits_are_quiet(s3.table, i);
            edit_then(s, s3, td);
            let t4 = with_hand(td, i, seq![d1.0, d2.0]);
            edits_are_quiet(td, i);
            edit_then(s, Step { table: td, out: s3.out }, t4);
            let s4 = Step { table: t4, out: s3.out };
            assert(s4 == dealt(s).0);
            if crate::turns::minister_strikes(d1.0, d2.0) {
                let q = s4.table.seats[i];
                let e = eliminate(s4.table, i);
                edits_are_quiet(s4.table, i);
                edit_then(s, s4, e);
                let text = minister_out_text(q.turn as int, q.name);
                let s5 = announce(Step { table: e, out: s4.out }, None, text, false);
                announce_then(s, Step { table: e, out: s4.out }, None, text, false);
                edits_keep_wf(s4.table, i);
                record_keeps_wf(e, None, text, false);
                crate::turns::alive_count_kill(s4.table.seats, e.seats, i);
                alive_count_same(e.seats, s5.table.seats);
                run_turn_grows(s5);
                grew_trans(s, s5, run_turn_spec(s5));
            }
        }
    }
}

proof fn finish_grows(a: Step, s: Step, i: int, slot: int)
    requires
        grew(a, s),
        wf(s.table),
        0 <= i < s.table.seats.len(),
        0 <= slot < 2,
    ensures
        asks_current(finish(s, i, slot).table),
        grew(a, finish(s, i, slot)),
        wf(finish(s, i, slot).table),
{
    edits_keep_wf(s.table, i);
    edits_are_quiet(s.table, i);
    let d = discard(s.table, i, slot);
    edit_then(a, s, d);
    let s1 = Step { table: d, out: s.out };
    run_turn_grows(s1);
    run_turn_asks_current(s1);
    grew_trans(a, s1, run_turn_spec(s1));
}

proof fn announce_keeps(a: Step, s: Step, to: Option<i32>, text: Seq<char>, input: bool)
    requires
        grew(a, s),
        wf(s.table),
    ensures
        grew(a, announce(s, to, text, input)),
        wf(announce(s, to, text, input).table),
        announce(s, to, text, input).table.seats.len() == s.table.seats.len(),
        forall|k: int| 0 <= k < s.table.seats.len() ==> {
            let p = #[trigger] announce(s, to, text, input).table.seats[k];
            &&& p.hand == s.table.seats[k].hand
            &&& p.alive == s.table.seats[k].alive
            &&& p.immune == s.table.seats[k].immune
            &&& p.turn == s.table.seats[k].turn
            &&& p.name == s.table.seats[k].name
        },
        announce(s, to, text, input).table.game == s.table.game,
{
    announce_then(a, s, to, text, input);
    record_keeps_wf(s.table, to, text, input);
}

proof fn play_card_grows(s: Step, i: int, slot: int)
    requires
        wf(s.table),
        0 <= i < s.table.seats.len(),
        0 <= slot < 2,
    ensures
        asks_current(s.table) && s.table.seats[i].turn == s.table.game.turn ==> asks_current(play_card_spec(s, i, slot).table),
        grew(s, play_card_spec(s, i, slot)),
        wf(play_card_spec(s, i, slot).table),
{
    grew_refl(s);
    let t = s.table;
    let p = t.seats[i];
    let c = p.hand[slot];
    if c == 0 {
        let text = played_empty_text(p.turn as int, p.name);
        announce_keeps(s, s, None, text, false);
        finish_grows(s, announce(s, None, text, false), i, slot);
    } else if c == 4 {
        let text = played_priestess_text(p.turn as int, p.name);
        announce_keeps(s, s, None, text, false);
        let s1 = announce(s, None, text, false);
        let t2 = TableView { seats: s1.table.seats.update(i, PlayerView { immune: true, ..s1.table.seats[i] }), ..s1.table };
        assert(quiet_edit(s1.table, t2));
        edit_then(s, s1, t2);
        assert(wf(t2)) by {
            assert forall|k: int| 0 <= k < t2.seats.len() implies hand_ok(#[trigger] t2.seats[k].hand) by {
                assert(hand_ok(s1.table.seats[k].hand));
            }
        }
        finish_grows(s, Step { table: t2, out: s1.out }, i, slot);
    } else if c == 7 {
        let text = played_minister_text(p.turn as int, p.name);
        announce_keeps(s, s, None, text, false);
        finish_grows(s, announce(s, None, text, false), i, slot);
    } else if c == 8 {
        let text = played_princess_text(p.turn as int, p.name);
        announce_keeps(s, s, None, text, false);
        let s1 = announce(s, None, text, false);
        edits_are_quiet(s1.table, i);
        edits_keep_wf(s1.table, i);
        edit_then(s, s1, eliminate(s1.table, i));
        finish_grows(s, Step { table: eliminate(s1.table, i), out: s1.out }, i, slot);
    } else {
        let t1 = TableView { game: GameView { played_card: slot as i32, ..t.game }, ..t };
        assert(quiet_edit(t, t1));
        edit_then(s, s, t1);
        assert(wf(t1));
        announce_keeps(s, Step { table: t1, out: s.out }, Some(p.turn), target_prompt_text(t.seats, p.turn), true);
    }
}

proof fn knight_grows(s: Step, i: int, o: int)
    requires
        wf(s.table),
        0 <= i < s.table.seats.len(),
        0 <= o < s.table.seats.len(),
        s.table.game.played_card != -1,
    ensures
        asks_current(knight_spec(s, i, o).table),
        grew(s, knight_spec(s, i, o)),
        wf(knight_spec(s, i, o).table),
{
    grew_refl(s);
    let t = s.table;
    let p = t.seats[i];
    let q = t.seats[o];
    let slot = t.game.played_card as int;
    let rest = p.hand.update(slot, 0);
    let t1 = with_hand(t, i, rest);
    edits_are_quiet(t, i);
    edits_keep_wf(t, i);
    assert(hand_ok(rest));
    edit_then(s, s, t1);
    let s1 = Step { table: t1, out: s.out };
    let mine = top_card(rest);
    let theirs = top_card(q.hand);
    edits_are_quiet(t1, i);
    edits_are_quiet(t1, o);
    edits_keep_wf(t1, i);
    edits_keep_wf(t1, o);
    let s2 = if mine < theirs {
        edit_then(s, s1, eliminate(t1, i));
        let text = knight_lost_text(p.turn as int, p.name, q.turn as int, q.name, mine);
        announce_keeps(s, Step { table: eliminate(t1, i), out: s.out }, None, text, false);
        announce(Step { table: eliminate(t1, i), out: s.out }, None, text, false)
    } else if mine == theirs {
        let text = knight_tie_text(p.turn as int, p.name, q.turn as int, q.name);
        announce_keeps(s, s1, None, text, false);
        announce(s1, None, text, false)
    } else {
        edit_then(s, s1, eliminate(t1, o));
        let text = knight_won_text(p.turn as int, p.name, q.turn as int, q.name, theirs);
        announce_keeps(s, Step { table: eliminate(t1, o), out: s.out }, None, text, false);
        announce(Step { table: eliminate(t1, o), out: s.out }, None, text, false)
    };
    run_turn_grows(s2);
    run_turn_asks_current(s2);
    grew_trans(s, s2, run_turn_spec(s2));
}

proof fn wizard_grows(s: Step, i: int, o: int)
    requires
        wf(s.table),
        0 <= i < s.table.seats.len(),
        0 <= o < s.table.seats.len(),
        s.table.game.played_card != -1,
        s.table.game.deck.len() > 0,
    ensures
        asks_current(wizard_spec(s, i, o).table),
        grew(s, wizard_spec(s, i, o)),
        wf(wizard_spec(s, i, o).table),
{
    grew_refl(s);
    let t = s.table;
    let p = t.seats[i];
    let q = t.seats[o];
    let deck = t.game.deck;
    let h = seq![deck.last(), 0usize];
    let ta = with_hand(t, o, h);
    edits_are_quiet(t, o);
    edits_keep_wf(t, o);
    assert(hand_ok(h));
    edit_then(s, s, ta);
    let t1 = with_deck(ta, deck.drop_last());
    edits_are_quiet(ta, o);
    edits_keep_wf(ta, o);
    edit_then(s, Step { table: ta, out: s.out }, t1);
    let text = played_wizard_text(p.turn as int, p.name, q.turn as int, q.name);
    announce_keeps(s, Step { table: t1, out: s.out }, None, text, false);
    let s1 = announce(Step { table: t1, out: s.out }, None, text, false);
    let s2 = if q.hand.contains(8) {
        edits_are_quiet(s1.table, o);
        edits_keep_wf(s1.table, o);
        edit_then(s, s1, eliminate(s1.table, o));
        let text2 = princess_discarded_text(q.turn as int, q.name);
        announce_keeps(s, Step { table: eliminate(s1.table, o), out: s1.out }, None, text2, false);
        announce(Step { table: eliminate(s1.table, o), out: s1.out }, None, text2, false)
    } else {
        s1
    };
    let rest = p.hand.update(t.game.played_card as int, 0);
    assert(hand_ok(rest));
    edits_are_quiet(s2.table, i);
    edits_keep_wf(s2.table, i);
    edit_then(s, s2, with_hand(s2.table, i, rest));
    let s3 = Step { table: with_hand(s2.table, i, rest), out: s2.out };
    run_turn_grows(s3);
    run_turn_asks_current(s3);
    grew_trans(s, s3, run_turn_spec(s3));
}

proof fn general_grows(s: Step, i: int, o: int)
    requires
        wf(s.table),
        0 <= i < s.table.seats.len(),
        0 <= o < s.table.seats.len(),
        s.table.game.played_card != -1,
    ensures
        asks_current(general_spec(s, i, o).table),
        grew(s, general_spec(s, i, o)),
        wf(general_spec(s, i, o).table),
{
    grew_refl(s);
    let t = s.table;
    let p = t.seats[i];
    let q = t.seats[o];
    let rest = p.hand.update(t.game.played_card as int, 0);
    assert(hand_ok(rest));
    assert(hand_ok(q.hand));
    let ta = with_hand(t, i, rest);
    edits_are_quiet(t, i);
    edits_keep_wf(t, i);
    edit_then(s, s, ta);
    let tb = with_hand(ta, o, rest);
    edits_are_quiet(ta, o);
    edits_keep_wf(ta, o);
    edit_then(s, Step { table: ta, out: s.out }, tb);
    let t1 = with_hand(tb, i, q.hand);
    edits_are_quiet(tb, i);
    edits_keep_wf(tb, i);
    edit_then(s, Step { table: tb, out: s.out }, t1);
    let s0 = Step { table: t1, out: s.out };
    let text1 = played_general_text(p.turn as int, p.name, q.turn as int, q.name);
    announce_keeps(s, s0, None, text1, false);
    let s1 = announce(s0, None, text1, false);
    announce_keeps(s, s1, Some(p.turn), switched_text(q.hand), false);
    let s2 = announce(s1, Some(p.turn), switched_text(q.hand), false);
    announce_keeps(s, s2, Some(q.turn), switched_text(rest), false);
    let s3 = announce(s2, Some(q.turn), switched_text(rest), false);
    run_turn_grows(s3);
    run_turn_asks_current(s3);
    grew_trans(s, s3, run_turn_spec(s3));
}

proof fn resolve_grows(s: Step, i: int, o: int, n: usize)
    requires
        wf(s.table),
        0 <= i < s.table.seats.len(),
        target_of(s.table.seats, n, i) == Some(o),
        s.table.game.played_card != -1,
        !(!s.table.seats[o].immune && s.table.seats[i].hand[s.table.game.played_card as int] == 5
            && s.table.game.deck.len() == 0),
    ensures
        asks_current(s.table) && s.table.seats[i].turn == s.table.game.turn ==> asks_current(resolve_spec(s, i, o, n).table),
        grew(s, resolve_spec(s, i, o, n)),
        wf(resolve_spec(s, i, o, n).table),
{
    grew_refl(s);
    let t = s.table;
    let p = t.seats[i];
    let q = t.seats[o];
    let slot = t.game.played_card as int;
    let c = p.hand[slot];
    if q.immune {
        let text = immune_text(p.turn as int, p.name, slot, n as nat, q.name);
        announce_keeps(s, s, Some(p.turn), text, false);
        finish_grows(s, announce(s, Some(p.turn), text, false), i, slot);
    } else if c == 2 {
        let text1 = shown_cards_text(q.turn as int, q.name, q.hand);
        announce_keeps(s, s, Some(p.turn), text1, false);
        let s1 = announce(s, Some(p.turn), text1, false);
        let text2 = played_clown_text(p.turn as int, p.name, q.turn as int, q.name);
        announce_keeps(s, s1, None, text2, false);
        finish_grows(s, announce(s1, None, text2, false), i, slot);
    } else if c == 3 {
        knight_grows(s, i, o);
    } else if c == 5 {
        wizard_grows(s, i, o);
    } else if c == 6 {
        general_grows(s, i, o);
    } else {
        let t1 = TableView { game: GameView { player_pick: #[verifier::truncate] (n as i32), ..t.game }, ..t };
        assert(quiet_edit(t, t1));
        edit_then(s, s, t1);
        assert(wf(t1));
        announce_keeps(s, Step { table: t1, out: s.out }, Some(p.turn), guess_prompt_text(), true);
    }
}

proof fn guess_grows(s: Step, i: int, g: usize)
    requires
        wf(s.table),
        0 <= i < s.table.seats.len(),
        s.table.game.played_card != -1,
        s.table.game.player_pick != -1,
    ensures
        asks_current(guess_spec(s, i, g).table),
        grew(s, guess_spec(s, i, g)),
        wf(guess_spec(s, i, g).table),
{
    grew_refl(s);
    let t = s.table;
    let p = t.seats[i];
    let t1 = discard(t, i, t.game.played_card as int);
    edits_are_quiet(t, i);
    edits_keep_wf(t, i);
    edit_then(s, s, t1);
    let o = t.game.player_pick - 1;
    let q = t1.seats[o];
    edits_are_quiet(t1, o);
    edits_keep_wf(t1, o);
    let s1 = if q.hand.contains(g) {
        edit_then(s, Step { table: t1, out: s.out }, eliminate(t1, o));
        let text1 = soldier_text(p.turn as int, p.name, q.turn as int, q.name, g as nat, true);
        announce_keeps(s, Step { table: eliminate(t1, o), out: s.out }, None, text1, false);
        let a = announce(Step { table: eliminate(t1, o), out: s.out }, None, text1, false);
        let text2 = soldier_out_text(q.turn as int, q.name);
        announce_keeps(s, a, None, text2, false);
        announce(a, None, text2, false)
    } else {
        let text = soldier_text(p.turn as int, p.name, q.turn as int, q.name, g as nat, false);
        announce_keeps(s, Step { table: t1, out: s.out }, None, text, false);
        announce(Step { table: t1, out: s.out }, None, text, false)
    };
    run_turn_grows(s1);
    run_turn_asks_current(s1);
    grew_trans(s, s1, run_turn_spec(s1));
}

/// Whatever an accepted input does, each player's record afterwards holds the text it held
/// before followed by the texts of exactly the events sent to that player, in order; the same
/// players keep the same seats; and nobody who was out comes back.
pub proof fn input_is_heard(t: TableView, id: Seq<char>, input: Seq<char>)
    requires
        wf(t),
        !input_exhausts_deck(t, id, input),
    ensures
        input_spec(t, id, input) matches Ok(st) ==> grew(Step { table: t, out: Seq::empty() }, st) && wf(st.table)
            && (asks_current(t) ==> asks_current(st.table)),
{
    let s = Step { table: t, out: Seq::empty() };
    crate::play::seat_of_facts(t.seats, id);
    match seat_of(t.seats, id) {
        None => {},
        Some(i) => {
            let p = t.seats[i];
            if t.game.turn == p.turn && p.input {
                match crate::text::parse_usize_spec(input) {
                    None => {},
                    Some(n) => {
                        if t.game.played_card == -1 {
                            if !(n == 0 || n - 1 > 1) {
                                play_card_grows(s, i, n - 1);
                            }
                        } else if t.game.player_pick == -1 {
                            match target_of(t.seats, n, i) {
                                None => {},
                                Some(o) => resolve_grows(s, i, o, n),
                            }
                        } else if !(n <= 1 || n > 8) {
                            guess_grows(s, i, n);
                        }
                    },
                }
            }
        },
    }
}

/// A join: every player's record afterwards, the newcomer's included, holds the text it held
/// before (nothing, for the newcomer) followed by the texts of exactly the events sent to that
/// player, in order; and nobody who was out comes back.
pub proof fn join_is_heard(t: TableView, id: Seq<char>, name: Seq<char>)
    requires
        wf(t),
        t.seats.len() + 1 < i32::MAX,
        !is_full(t),
        t.game.deck.len() > 0,
    ensures
        asks_current(join_spec(t, id, name).table),
        grew(Step { table: seated(t, id, name), out: Seq::empty() }, join_spec(t, id, name)),
        wf(join_spec(t, id, name).table),
{
    let t1 = seated(t, id, name);
    assert(wf(t1)) by {
        assert forall|k: int| 0 <= k < t1.seats.len() implies hand_ok(#[trigger] t1.seats[k].hand) by {
            if k < t.seats.len() {
                assert(t1.seats[k] == t.seats[k]);
            }
        }
        assert forall|k: int| 0 <= k < t1.game.deck.len() implies #[trigger] t1.game.deck[k] <= 8 by {
            assert(t1.game.deck[k] == t.game.deck[k]);
        }
    }
    let s0 = Step { table: t1, out: Seq::empty() };
    grew_refl(s0);
    announce_keeps(s0, s0, None, joined_text(name), false);
    let s1 = announce(s0, None, joined_text(name), false);
    announce_keeps(s0, s1, None, join_hint_text(t.game.id), false);
    let s2 = announce(s1, None, join_hint_text(t.game.id), false);
    if t.game.players as int == t.seats.len() + 1 {
        announce_keeps(s0, s2, None, starting_text(), false);
        let s3 = announce(s2, None, starting_text(), false);
        run_turn_grows(s3);
        run_turn_asks_current(s3);
        grew_trans(s0, s3, run_turn_spec(s3));
        assert(start_spec(s2) == run_turn_spec(s3));
    }
}

} // verus!
