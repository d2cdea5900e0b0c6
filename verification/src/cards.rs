//! The cards of the game: how many of each there are, their names and what they do,
//! and the shuffled deck that a new game starts from.

use rand::seq::SliceRandom;
use vstd::prelude::*;

verus! {

/// The highest card number.
pub const PRINCESS: usize = 8;

/// How many copies of each card number the deck holds. Number 0 is the empty card,
/// which marks a played slot in a hand and never stands in the deck.
pub open spec fn card_count(card: int) -> nat {
    if card == 1 { 5 }
    else if 2 <= card <= 5 { 2 }
    else if 6 <= card <= 8 { 1 }
    else { 0 }
}

fn card_count_exec(card: usize) -> (n: usize)
    ensures
        n == card_count(card as int),
{
    if card == 1 { 5 }
    else if 2 <= card && card <= 5 { 2 }
    else if 6 <= card && card <= 8 { 1 }
    else { 0 }
}

/// The name of each card number.
pub open spec fn card_name_spec(card: int) -> Seq<char> {
    if card == 0 { "Empty Card"@ }
    else if card == 1 { "Soldier"@ }
    else if card == 2 { "Clown"@ }
    else if card == 3 { "Knight"@ }
    else if card == 4 { "Priestess"@ }
    else if card == 5 { "Wizard"@ }
    else if card == 6 { "General"@ }
    else if card == 7 { "Minister"@ }
    else { "Princess"@ }
}

/// What each card number does when it is played.
pub open spec fn card_description_spec(card: int) -> Seq<char> {
    if card == 0 { "You should never have seen this card. If you did something went really badly wrong."@ }
    else if card == 1 { "Guess another players card. If you are right they are eliminated. You may not guess Soldier."@ }
    else if card == 2 { "Look at another players card."@ }
    else if card == 3 { "Compare your card with another players card. The player with the lower card is eleminated."@ }
    else if card == 4 { "Ignore all attacks from other players."@ }
    else if card == 5 { "Target another player to discard a card"@ }
    else if card == 6 { "Swap your hand with another players hand."@ }
    else if card == 7 { "If your hand has a total of 12 or more you are eliminated."@ }
    else { "If you discard this card you are eliminated."@ }
}

/// The name of a card.
pub fn card_name(card: usize) -> (name: &'static str)
    requires
        card <= PRINCESS,
    ensures
        name@ == card_name_spec(card as int),
{
    if card == 0 { "Empty Card" }
    else if card == 1 { "Soldier" }
    else if card == 2 { "Clown" }
    else if card == 3 { "Knight" }
    else if card == 4 { "Priestess" }
    else if card == 5 { "Wizard" }
    else if card == 6 { "General" }
    else if card == 7 { "Minister" }
    else { "Princess" }
}

/// What a card does.
pub fn card_description(card: usize) -> (text: &'static str)
    requires
        card <= PRINCESS,
    ensures
        text@ == card_description_spec(card as int),
{
    if card == 0 { "You should never have seen this card. If you did something went really badly wrong." }
    else if card == 1 { "Guess another players card. If you are right they are eliminated. You may not guess Soldier." }
    else if card == 2 { "Look at another players card." }
    else if card == 3 { "Compare your card with another players card. The player with the lower card is eleminated." }
    else if card == 4 { "Ignore all attacks from other players." }
    else if card == 5 { "Target another player to discard a card" }
    else if card == 6 { "Swap your hand with another players hand." }
    else if card == 7 { "If your hand has a total of 12 or more you are eliminated." }
    else { "If you discard this card you are eliminated." }
}

/// The cards numbered below `upto`, each as often as the deck holds it, in increasing order.
pub open spec fn deck_upto(upto: nat) -> Seq<usize>
    decreases upto,
{
    if upto == 0 {
        Seq::empty()
    } else {
        deck_upto((upto - 1) as nat) + Seq::new(card_count(upto - 1), |_j: int| (upto - 1) as usize)
    }
}

/// The full deck in increasing order.
pub open spec fn full_deck() -> Seq<usize> {
    deck_upto(9)
}

/// Every card of the full deck, in order.
pub proof fn full_deck_cards()
    ensures
        full_deck() =~= seq![1usize, 1, 1, 1, 1, 2, 2, 3, 3, 4, 4, 5, 5, 6, 7, 8],
        full_deck().len() == 16,
{
    reveal_with_fuel(deck_upto, 10);
    assert(deck_upto(1) =~= Seq::<usize>::empty());
    assert(deck_upto(2) =~= seq![1usize, 1, 1, 1, 1]);
    assert(deck_upto(3) =~= seq![1usize, 1, 1, 1, 1, 2, 2]);
    assert(deck_upto(4) =~= seq![1usize, 1, 1, 1, 1, 2, 2, 3, 3]);
    assert(deck_upto(5) =~= seq![1usize, 1, 1, 1, 1, 2, 2, 3, 3, 4, 4]);
    assert(deck_upto(6) =~= seq![1usize, 1, 1, 1, 1, 2, 2, 3, 3, 4, 4, 5, 5]);
    assert(deck_upto(7) =~= seq![1usize, 1, 1, 1, 1, 2, 2, 3, 3, 4, 4, 5, 5, 6]);
    assert(deck_upto(8) =~= seq![1usize, 1, 1, 1, 1, 2, 2, 3, 3, 4, 4, 5, 5, 6, 7]);
}

/// The full deck holds five soldiers; two each of the clown, the knight, the priestess and
/// the wizard; and one each of the general, the minister and the princess.
pub proof fn full_deck_counts(c: usize)
    ensures
        full_deck().to_multiset().count(c) == card_count(c as int),
{
    deck_upto_counts(9, c);
}

proof fn deck_upto_counts(k: nat, c: usize)
    requires
        k <= 9,
    ensures
        deck_upto(k).to_multiset().count(c) == if (c as int) < k { card_count(c as int) } else { 0 },
    decreases k,
{
    broadcast use vstd::seq_lib::group_to_multiset_ensures;
    broadcast use vstd::multiset::group_multiset_axioms;
    if k > 0 {
        deck_upto_counts((k - 1) as nat, c);
        let run = Seq::new(card_count(k - 1), |_j: int| (k - 1) as usize);
        vstd::seq_lib::lemma_multiset_commutative(deck_upto((k - 1) as nat), run);
        run_counts(card_count(k - 1), (k - 1) as usize, c);
    } else {
        assert(deck_upto(0) =~= Seq::<usize>::empty());
    }
}

proof fn run_counts(m: nat, card: usize, c: usize)
    ensures
        Seq::new(m, |_j: int| card).to_multiset().count(c) == if c == card { m } else { 0 },
    decreases m,
{
    broadcast use vstd::seq_lib::group_to_multiset_ensures;
    broadcast use vstd::multiset::group_multiset_axioms;
    let run = Seq::new(m, |_j: int| card);
    if m == 0 {
        assert(run =~= Seq::<usize>::empty());
    } else {
        run_counts((m - 1) as nat, card, c);
        assert(run =~= Seq::new((m - 1) as nat, |_j: int| card).push(card));
    }
}

/// Lays out the full deck in increasing order.
pub fn ordered_deck() -> (deck: Vec<usize>)
    ensures
        deck@ == full_deck(),
{
    let mut deck: Vec<usize> = Vec::new();
    let mut card: usize = 0;
    while card < 9
        invariant
            card <= 9,
            deck@ == deck_upto(card as nat),
        decreases 9 - card,
    {
        let n = card_count_exec(card);
        let ghost before = deck@;
        let mut k: usize = 0;
        while k < n
            invariant
                k <= n,
                n == card_count(card as int),
                card < 9,
                deck@ =~= before + Seq::new(k as nat, |_j: int| card),
            decreases n - k,
        {
            deck.push(card);
            k = k + 1;
        }
        card = card + 1;
        assert(deck@ =~= deck_upto(card as nat));
    }
    deck
}

/// `SliceRandom::shuffle` of `rand` reorders the cards at random: the same cards, each as
/// often as before, come back in an order that nothing here can foresee.
#[verifier::external_body]
fn shuffle_cards(deck: &mut Vec<usize>)
    ensures
        final(deck)@.to_multiset() == old(deck)@.to_multiset(),
        final(deck)@.len() == old(deck)@.len(),
{
    deck.shuffle(&mut rand::thread_rng());
}

/// Lays out the full deck and shuffles it: the deck of a new game.
pub fn create_deck() -> (deck: Vec<usize>)
    ensures
        deck@.to_multiset() == full_deck().to_multiset(),
        deck@.len() == 16,
        forall|i: int| 0 <= i < deck@.len() ==> 1 <= #[trigger] deck@[i] <= PRINCESS,
{
    let mut deck = ordered_deck();
    proof { full_deck_cards(); }
    shuffle_cards(&mut deck);
    proof {
        broadcast use vstd::seq_lib::group_to_multiset_ensures;
        let full = seq![1usize, 1, 1, 1, 1, 2, 2, 3, 3, 4, 4, 5, 5, 6, 7, 8];
        assert forall|i: int| 0 <= i < deck@.len() implies 1 <= #[trigger] deck@[i] <= PRINCESS by {
            let c = deck@[i];
            assert(deck@.contains(c));
            assert(deck@.to_multiset().count(c) > 0);
            assert(full.contains(c));
        }
    }
    deck
}

/// Deals the hand of a player who joins: the top card of the deck, and an empty slot.
pub fn create_hand(deck: &mut Vec<usize>) -> (hand: Vec<usize>)
    requires
        old(deck)@.len() > 0,
    ensures
        hand@ == seq![old(deck)@.last(), 0usize],
        final(deck)@ == old(deck)@.drop_last(),
{
    let top = deck.pop().unwrap();
    let mut hand: Vec<usize> = Vec::new();
    hand.push(top);
    hand.push(0);
    assert(hand@ =~= seq![old(deck)@.last(), 0usize]);
    assert(deck@ =~= old(deck)@.drop_last());
    hand
}

} // verus!
