use loveletter::cards::{card_description, card_name, create_deck, create_hand, ordered_deck};

#[test]
fn ordered_deck_lists_every_card() {
    assert_eq!(ordered_deck(), vec![1, 1, 1, 1, 1, 2, 2, 3, 3, 4, 4, 5, 5, 6, 7, 8]);
}

#[test]
fn new_deck_is_a_shuffle_of_the_full_deck() {
    let mut deck = create_deck();
    assert_eq!(deck.len(), 16);
    deck.sort();
    assert_eq!(deck, ordered_deck());
}

#[test]
fn full_deck_counts_per_card() {
    let deck = create_deck();
    let count = |c: usize| deck.iter().filter(|&&x| x == c).count();
    assert_eq!(count(0), 0);
    assert_eq!(count(1), 5);
    for c in 2..=5 {
        assert_eq!(count(c), 2);
    }
    for c in 6..=8 {
        assert_eq!(count(c), 1);
    }
}

#[test]
fn card_names_and_descriptions() {
    let names = ["Empty Card", "Soldier", "Clown", "Knight", "Priestess", "Wizard", "General", "Minister", "Princess"];
    for (c, name) in names.iter().enumerate() {
        assert_eq!(card_name(c), *name);
    }
    assert_eq!(card_description(1), "Guess another players card. If you are right they are eliminated. You may not guess Soldier.");
    assert_eq!(card_description(7), "If your hand has a total of 12 or more you are eliminated.");
    assert_eq!(card_description(8), "If you discard this card you are eliminated.");
}

#[test]
fn hand_takes_the_top_of_the_deck() {
    let mut deck = vec![3, 1, 6];
    let hand = create_hand(&mut deck);
    assert_eq!(hand, vec![6, 0]);
    assert_eq!(deck, vec![3, 1]);
}

#[test]
fn new_decks_are_shuffled() {
    let ordered = ordered_deck();
    let differs = (0..20).any(|_| create_deck() != ordered);
    assert!(differs);
}
