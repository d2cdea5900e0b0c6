//! What each play does to the players, stated over the table before it: who is out, whose
//! hand changes and how, and that the next turn then runs.

use crate::history::run_turn_grows;
use crate::messages::{
    immune_text, knight_lost_text, knight_tie_text, knight_won_text, minister_out_text, played_general_text,
    soldier_out_text, soldier_text, switched_text,
};
use crate::play::{
    discard, edits_keep_wf, general_spec, guess_spec, knight_spec, resolve_spec, target_of,
};
use crate::table::{announce, hand_ok, record_keeps_wf, Step, TableView, wf};
use crate::turns::{
    alive_count, alive_count_same, clear_pending, dealt, dealt_facts, eliminate, minister_rule, pass_turn,
    pass_turn_facts, run_turn_spec, top_card, with_hand,
};
use vstd::prelude::*;

verus! {

/// The higher card of a hand of two slots.
pub open spec fn higher(h: Seq<usize>) -> nat {
    if h[0] >= h[1] { h[0] as nat } else { h[1] as nat }
}

proof fn top_card_of_pair(h: Seq<usize>)
    requires
        h.len() == 2,
    ensures
        top_card(h) == higher(h),
{
    assert(h.drop_last().drop_last() =~= Seq::<usize>::empty());
    assert(top_card(h.drop_last().drop_last()) == 0);
    assert(h.drop_last().last() == h[0]);
    assert(top_card(h.drop_last()) == h[0]);
}

/// The knight's duel, settled on table `t` into table `u`: seat `i` played the knight from
/// its pending slot on seat `o`. The player keeps the hand without the knight; whoever holds
/// the lower highest card, the player's remaining cards against the target's hand, is out;
/// on a tie nobody is. Nothing else about the players or the game changes.
pub open spec fn knight_settled(t: TableView, i: int, o: int, u: TableView) -> bool {
    let rest = t.seats[i].hand.update(t.game.played_card as int, 0);
    let mine = higher(rest);
    let theirs = higher(t.seats[o].hand);
    &&& u.game == t.game
    &&& u.seats.len() == t.seats.len()
    &&& forall|k: int| 0 <= k < t.seats.len() ==> #[trigger] u.seats[k].alive
        == (t.seats[k].alive && !(k == i && mine < theirs) && !(k == o && theirs < mine))
    &&& forall|k: int| 0 <= k < t.seats.len() ==> #[trigger] u.seats[k].hand
        == if k == i { rest } else { t.seats[k].hand }
    &&& forall|k: int| 0 <= k < t.seats.len() ==> #[trigger] u.seats[k].immune == t.seats[k].immune
}

/// Playing the knight on another player settles the duel as the knight says, and then the
/// next turn runs.
pub proof fn knight_duel(s: Step, i: int, o: int)
    requires
        wf(s.table),
        0 <= i < s.table.seats.len(),
        0 <= o < s.table.seats.len(),
        i != o,
        s.table.game.played_card != -1,
    ensures
        exists|u: Step| #[trigger] knight_settled(s.table, i, o, u.table) && wf(u.table) && run_turn_spec(u) == knight_spec(s, i, o),
{
    let t = s.table;
    let p = t.seats[i];
    let q = t.seats[o];
    let slot = t.game.played_card as int;
    let rest = p.hand.update(slot, 0);
    let t1 = with_hand(t, i, rest);
    let mine = top_card(rest);
    let theirs = top_card(q.hand);
    top_card_of_pair(rest);
    top_card_of_pair(q.hand);
    assert(hand_ok(q.hand));
    let s2 = if mine < theirs {
        announce(Step { table: eliminate(t1, i), out: s.out }, None,
            knight_lost_text(p.turn as int, p.name, q.turn as int, q.name, mine), false)
    } else if mine == theirs {
        announce(Step { table: t1, out: s.out }, None,
            knight_tie_text(p.turn as int, p.name, q.turn as int, q.name), false)
    } else {
        announce(Step { table: eliminate(t1, o), out: s.out }, None,
            knight_won_text(p.turn as int, p.name, q.turn as int, q.name, theirs), false)
    };
    edits_keep_wf(t, i);
    assert(hand_ok(rest));
    edits_keep_wf(t1, i);
    edits_keep_wf(t1, o);
    if mine < theirs {
        record_keeps_wf(eliminate(t1, i), None, knight_lost_text(p.turn as int, p.name, q.turn as int, q.name, mine), false);
    } else if mine == theirs {
        record_keeps_wf(t1, None, knight_tie_text(p.turn as int, p.name, q.turn as int, q.name), false);
    } else {
        record_keeps_wf(eliminate(t1, o), None, knight_won_text(p.turn as int, p.name, q.turn as int, q.name, theirs), false);
    }
    assert(run_turn_spec(s2) == knight_spec(s, i, o));
    assert(knight_settled(t, i, o, s2.table));
}

/// A soldier's guess, settled on table `t` into table `u`: seat `i` guessed `g` about the
/// seat its soldier targets. That player is out exactly when either card of their hand is
/// `g`; the soldier's slot of the guesser's hand is emptied; nothing else about the players
/// or the game changes.
pub open spec fn guess_settled(t: TableView, i: int, g: usize, u: TableView) -> bool {
    let o = t.game.player_pick - 1;
    let h = t.seats[o].hand;
    let hit = h[0] == g || h[1] == g;
    &&& u.game == t.game
    &&& u.seats.len() == t.seats.len()
    &&& forall|k: int| 0 <= k < t.seats.len() ==> #[trigger] u.seats[k].alive
        == (t.seats[k].alive && !(k == o && hit))
    &&& forall|k: int| 0 <= k < t.seats.len() ==> #[trigger] u.seats[k].hand
        == if k == i { t.seats[i].hand.update(t.game.played_card as int, 0) } else { t.seats[k].hand }
    &&& forall|k: int| 0 <= k < t.seats.len() ==> #[trigger] u.seats[k].immune == t.seats[k].immune
}

/// A soldier's guess against another player knocks that player out exactly when they hold
/// the guessed card in either slot; then the next turn runs.
pub proof fn soldier_guess(s: Step, i: int, g: usize)
    requires
        wf(s.table),
        0 <= i < s.table.seats.len(),
        s.table.game.played_card != -1,
        s.table.game.player_pick != -1,
        s.table.game.player_pick - 1 != i,
    ensures
        exists|u: Step| #[trigger] guess_settled(s.table, i, g, u.table) && wf(u.table) && run_turn_spec(u) == guess_spec(s, i, g),
{
    let t = s.table;
    let p = t.seats[i];
    let t1 = discard(t, i, t.game.played_card as int);
    let o = t.game.player_pick - 1;
    let q = t1.seats[o];
    assert(q.hand == t.seats[o].hand);
    assert(hand_ok(q.hand));
    assert(q.hand.contains(g) <==> (q.hand[0] == g || q.hand[1] == g)) by {
        if q.hand.contains(g) {
            let k = choose|k: int| 0 <= k < q.hand.len() && q.hand[k] == g;
            assert(k == 0 || k == 1);
        }
        if q.hand[0] == g {
            assert(q.hand.contains(g));
        }
        if q.hand[1] == g {
            assert(q.hand.contains(g));
        }
    }
    let s1 = if q.hand.contains(g) {
        let a = announce(Step { table: eliminate(t1, o), out: s.out }, None,
            soldier_text(p.turn as int, p.name, q.turn as int, q.name, g as nat, true), false);
        announce(a, None, soldier_out_text(q.turn as int, q.name), false)
    } else {
        announce(Step { table: t1, out: s.out }, None,
            soldier_text(p.turn as int, p.name, q.turn as int, q.name, g as nat, false), false)
    };
    edits_keep_wf(t, i);
    edits_keep_wf(t1, o);
    if q.hand.contains(g) {
        let text1 = soldier_text(p.turn as int, p.name, q.turn as int, q.name, g as nat, true);
        record_keeps_wf(eliminate(t1, o), None, text1, false);
        let a = announce(Step { table: eliminate(t1, o), out: s.out }, None, text1, false);
        record_keeps_wf(a.table, None, soldier_out_text(q.turn as int, q.name), false);
    } else {
        record_keeps_wf(t1, None, soldier_text(p.turn as int, p.name, q.turn as int, q.name, g as nat, false), false);
    }
    assert(run_turn_spec(s1) == guess_spec(s, i, g));
    assert(guess_settled(t, i, g, s1.table));
}

/// A card played on an immune target, settled on table `t` into table `u`: the card's slot of
/// the player's hand is emptied, and nothing else about the players or the game changes: no
/// one goes out, no other hand changes, no target is kept for a guess.
pub open spec fn immune_settled(t: TableView, i: int, u: TableView) -> bool {
    &&& u.game == t.game
    &&& u.seats.len() == t.seats.len()
    &&& forall|k: int| 0 <= k < t.seats.len() ==> #[trigger] u.seats[k].alive == t.seats[k].alive
    &&& forall|k: int| 0 <= k < t.seats.len() ==> #[trigger] u.seats[k].hand
        == if k == i { t.seats[i].hand.update(t.game.played_card as int, 0) } else { t.seats[k].hand }
    &&& forall|k: int| 0 <= k < t.seats.len() ==> #[trigger] u.seats[k].immune == t.seats[k].immune
}

/// Whatever card is played on an immune target, it only spends the player's card and
/// tells the player so; then the next turn runs.
pub proof fn immune_target_unaffected(s: Step, i: int, o: int, n: usize)
    requires
        wf(s.table),
        0 <= i < s.table.seats.len(),
        target_of(s.table.seats, n, i) == Some(o),
        s.table.game.played_card != -1,
        s.table.seats[o].immune,
    ensures
        exists|u: Step| #[trigger] immune_settled(s.table, i, u.table) && wf(u.table) && run_turn_spec(u) == resolve_spec(s, i, o, n),
{
    let t = s.table;
    let p = t.seats[i];
    let q = t.seats[o];
    let slot = t.game.played_card as int;
    let a = announce(s, Some(p.turn), immune_text(p.turn as int, p.name, slot, n as nat, q.name), false);
    let u = Step { table: discard(a.table, i, slot), out: a.out };
    record_keeps_wf(t, Some(p.turn), immune_text(p.turn as int, p.name, slot, n as nat, q.name), false);
    edits_keep_wf(a.table, i);
    assert(run_turn_spec(u) == resolve_spec(s, i, o, n));
    assert(immune_settled(t, i, u.table));
}

/// The general, settled on table `t` into table `u`: seat `i` played it from its pending slot
/// on seat `o`. The target gets the player's hand without the general, and the player gets
/// the target's hand; nothing else about the players or the game changes.
pub open spec fn general_settled(t: TableView, i: int, o: int, u: TableView) -> bool {
    &&& u.game == t.game
    &&& u.seats.len() == t.seats.len()
    &&& forall|k: int| 0 <= k < t.seats.len() ==> #[trigger] u.seats[k].alive == t.seats[k].alive
    &&& forall|k: int| 0 <= k < t.seats.len() ==> #[trigger] u.seats[k].hand
        == if k == i {
            t.seats[o].hand
        } else if k == o {
            t.seats[i].hand.update(t.game.played_card as int, 0)
        } else {
            t.seats[k].hand
        }
    &&& forall|k: int| 0 <= k < t.seats.len() ==> #[trigger] u.seats[k].immune == t.seats[k].immune
}

/// Playing the general on another player swaps the player's remaining card with the target's
/// hand, and then the next turn runs.
pub proof fn general_swap(s: Step, i: int, o: int)
    requires
        wf(s.table),
        0 <= i < s.table.seats.len(),
        0 <= o < s.table.seats.len(),
        i != o,
        s.table.game.played_card != -1,
    ensures
        exists|u: Step| #[trigger] general_settled(s.table, i, o, u.table) && wf(u.table) && run_turn_spec(u) == general_spec(s, i, o),
{
    let t = s.table;
    let p = t.seats[i];
    let q = t.seats[o];
    let rest = p.hand.update(t.game.played_card as int, 0);
    let t1 = with_hand(with_hand(with_hand(t, i, rest), o, rest), i, q.hand);
    let s1 = announce(Step { table: t1, out: s.out }, None,
        played_general_text(p.turn as int, p.name, q.turn as int, q.name), false);
    let s2 = announce(s1, Some(p.turn), switched_text(q.hand), false);
    let s3 = announce(s2, Some(q.turn), switched_text(rest), false);
    assert(hand_ok(rest));
    assert(hand_ok(q.hand));
    edits_keep_wf(t, i);
    let ta = with_hand(t, i, rest);
    edits_keep_wf(ta, o);
    let tb = with_hand(ta, o, rest);
    edits_keep_wf(tb, i);
    record_keeps_wf(t1, None, played_general_text(p.turn as int, p.name, q.turn as int, q.name), false);
    record_keeps_wf(s1.table, Some(p.turn), switched_text(q.hand), false);
    record_keeps_wf(s2.table, Some(q.turn), switched_text(rest), false);
    assert(run_turn_spec(s3) == general_spec(s, i, o));
    assert(general_settled(t, i, o, s3.table));
}

/// A turn that deals cards to the next living player knocks that player out exactly when
/// the two cards dealt include the minister and add up to 12 or more.
pub proof fn minister_knocks_out(s: Step)
    requires
        wf(s.table),
        alive_count(s.table.seats) >= 2,
        s.table.game.deck.len() > 0,
    ensures
        ({
            let i = pass_turn(clear_pending(s.table)).game.turn - 1;
            let h = dealt(s).0.table.seats[i].hand;
            &&& dealt(s).1 == i
            &&& (run_turn_spec(s).table.seats[i].alive <==> !((h[0] == 7 || h[1] == 7) && h[0] + h[1] >= 12))
        }),
{
    let t0 = clear_pending(s.table);
    alive_count_same(s.table.seats, t0.seats);
    pass_turn_facts(t0);
    dealt_facts(s);
    let (s4, i, c1, c2) = dealt(s);
    assert(hand_ok(s4.table.seats[i].hand));
    minister_rule(c1, c2);
    if crate::turns::minister_strikes(c1, c2) {
        let p = s4.table.seats[i];
        let e = eliminate(s4.table, i);
        let s5 = announce(Step { table: e, out: s4.out }, None, minister_out_text(p.turn as int, p.name), false);
        edits_keep_wf(s4.table, i);
        record_keeps_wf(e, None, minister_out_text(p.turn as int, p.name), false);
        run_turn_grows(s5);
        assert(run_turn_spec(s) == run_turn_spec(s5));
        assert(!s5.table.seats[i].alive);
    } else {
        assert(run_turn_spec(s) == s4);
    }
}

} // verus!
