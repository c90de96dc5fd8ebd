use napoleon::deck::{Card, Deck, Number, Suit};

const SUIT_CHARS: [char; 4] = ['H', 'D', 'S', 'C'];
const NUMBER_CHARS: [char; 13] = [
    '2', '3', '4', '5', '6', '7', '8', '9', 'T', 'J', 'Q', 'K', 'A',
];

fn all_cards() -> Vec<Card> {
    let mut cards = Vec::new();
    for s in SUIT_CHARS {
        for n in NUMBER_CHARS {
            cards.push(Card::from_chars(s, n).unwrap());
        }
    }
    cards
}

fn count_card(deck_cards: &[Card], card: &Card) -> usize {
    deck_cards.iter().filter(|c| *c == card).count()
}

#[test]
fn full_pack_has_every_card_once() {
    let deck = Deck::new(1);
    assert_eq!(deck.len(), 52);
    let cards = deck.into_iter();
    for card in all_cards() {
        assert_eq!(count_card(&cards, &card), 1);
    }
}

#[test]
fn multi_pack_deck_has_every_card_n_times() {
    for n in [2usize, 3] {
        let deck = Deck::new(n);
        assert_eq!(deck.len(), 52 * n);
        let cards = deck.into_iter();
        for card in all_cards() {
            assert_eq!(count_card(&cards, &card), n);
        }
    }
}

#[test]
fn shuffle_keeps_the_same_cards() {
    let mut deck = Deck::new(2);
    deck.shuffle();
    assert_eq!(deck.len(), 104);
    let cards = deck.into_iter();
    for card in all_cards() {
        assert_eq!(count_card(&cards, &card), 2);
    }
}

#[test]
fn card_chars_round_trip() {
    for s in SUIT_CHARS {
        for n in NUMBER_CHARS {
            let card = Card::from_chars(s, n).unwrap();
            assert_eq!(card.suit.to_char(), s);
            assert_eq!(card.number.to_char(), n);
        }
    }
}

#[test]
fn invalid_chars_never_make_a_card() {
    assert_eq!(Suit::from_char('x'), Err(()));
    assert_eq!(Suit::from_char('h'), Err(()));
    assert_eq!(Number::from_char('1'), Err(()));
    assert_eq!(Number::from_char('0'), Err(()));
    assert_eq!(Card::from_chars('X', '2'), Err(()));
    assert_eq!(Card::from_chars('H', 'z'), Err(()));
    assert_eq!(Card::from_chars('!', '?'), Err(()));
}

#[test]
fn number_values_are_ordered() {
    assert_eq!(Number::Two.value(), 2);
    assert_eq!(Number::Ten.value(), 10);
    assert_eq!(Number::Jack.value(), 11);
    assert_eq!(Number::Queen.value(), 12);
    assert_eq!(Number::King.value(), 13);
    assert_eq!(Number::Ace.value(), 14);
}

#[test]
fn deck_push_pop_contains_remove() {
    let mut deck = Deck::new_empty();
    assert_eq!(deck.len(), 0);
    assert_eq!(deck.pop(), None);

    let c1 = Card::from_chars('H', '2').unwrap();
    let c2 = Card::from_chars('S', 'A').unwrap();
    deck.push(c1);
    deck.push(c2);
    assert!(deck.contains(&c1));
    assert!(deck.contains(&c2));
    assert!(deck.contains_suit(&Suit::Hearts));
    assert!(!deck.contains_suit(&Suit::Diamonds));

    assert_eq!(deck.remove(&c1), Some(c1));
    assert_eq!(deck.remove(&c1), None);
    assert!(!deck.contains(&c1));
    assert_eq!(deck.pop(), Some(c2));
    assert_eq!(deck.len(), 0);
}

#[test]
fn pop_into_hands_deals_from_the_end() {
    let mut deck = Deck::new_empty();
    for n in ['2', '3', '4', '5'] {
        deck.push(Card::from_chars('H', n).unwrap());
    }
    let hands = deck.pop_into_hands(2, 2).unwrap();
    assert_eq!(deck.len(), 0);
    assert_eq!(hands.len(), 2);
    let first = hands[0].clone().into_iter();
    let second = hands[1].clone().into_iter();
    assert_eq!(first[0], Card::from_chars('H', '5').unwrap());
    assert_eq!(first[1], Card::from_chars('H', '4').unwrap());
    assert_eq!(second[0], Card::from_chars('H', '3').unwrap());
    assert_eq!(second[1], Card::from_chars('H', '2').unwrap());
}

#[test]
fn pop_into_hands_drains_on_shortage() {
    let mut deck = Deck::new_empty();
    for n in ['2', '3', '4'] {
        deck.push(Card::from_chars('D', n).unwrap());
    }
    assert!(deck.pop_into_hands(2, 2).is_none());
    assert_eq!(deck.len(), 0);
}
