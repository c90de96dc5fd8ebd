//! Cards, suits, ranks and decks.
//!
//! A deck is an ordered sequence of cards viewed as a `Seq<Card>`; a full
//! pack is the 52-card product of the four suits and thirteen ranks in
//! canonical order.

use vstd::prelude::*;

verus! {

broadcast use vstd::multiset::group_multiset_axioms;

/// One of the four French suits.
#[derive(Clone, Copy, Debug, PartialEq, Eq, Structural)]
pub enum Suit {
    Hearts,
    Diamonds,
    Spades,
    Clubs,
}

/// The single character that identifies a suit on the wire.
pub open spec fn suit_char(s: Suit) -> char {
    match s {
        Suit::Hearts => 'H',
        Suit::Diamonds => 'D',
        Suit::Spades => 'S',
        Suit::Clubs => 'C',
    }
}

/// The suit a character identifies; characters outside the alphabet fail.
pub open spec fn suit_from_char(c: char) -> Result<Suit, ()> {
    if c == 'H' {
        Ok(Suit::Hearts)
    } else if c == 'D' {
        Ok(Suit::Diamonds)
    } else if c == 'S' {
        Ok(Suit::Spades)
    } else if c == 'C' {
        Ok(Suit::Clubs)
    } else {
        Err(())
    }
}

impl Suit {
    pub fn to_char(&self) -> (c: char)
        ensures
            c == suit_char(*self),
    {
        match self {
            Suit::Hearts => 'H',
            Suit::Diamonds => 'D',
            Suit::Spades => 'S',
            Suit::Clubs => 'C',
        }
    }

    pub fn from_char(c: char) -> (r: Result<Suit, ()>)
        ensures
            r == suit_from_char(c),
    {
        if c == 'H' {
            Ok(Suit::Hearts)
        } else if c == 'D' {
            Ok(Suit::Diamonds)
        } else if c == 'S' {
            Ok(Suit::Spades)
        } else if c == 'C' {
            Ok(Suit::Clubs)
        } else {
            Err(())
        }
    }
}

/// A card's rank, Two up to Ace.
#[derive(Clone, Copy, Debug, PartialEq, Eq, Structural)]
pub enum Number {
    Two,
    Three,
    Four,
    Five,
    Six,
    Seven,
    Eight,
    Nine,
    Ten,
    Jack,
    Queen,
    King,
    Ace,
}

/// The numeric strength of a rank: Two is 2, Ace is 14.
pub open spec fn number_value(n: Number) -> int {
    match n {
        Number::Two => 2,
        Number::Three => 3,
        Number::Four => 4,
        Number::Five => 5,
        Number::Six => 6,
        Number::Seven => 7,
        Number::Eight => 8,
        Number::Nine => 9,
        Number::Ten => 10,
        Number::Jack => 11,
        Number::Queen => 12,
        Number::King => 13,
        Number::Ace => 14,
    }
}

/// The single character that identifies a rank on the wire.
pub open spec fn number_char(n: Number) -> char {
    match n {
        Number::Two => '2',
        Number::Three => '3',
        Number::Four => '4',
        Number::Five => '5',
        Number::Six => '6',
        Number::Seven => '7',
        Number::Eight => '8',
        Number::Nine => '9',
        Number::Ten => 'T',
        Number::Jack => 'J',
        Number::Queen => 'Q',
        Number::King => 'K',
        Number::Ace => 'A',
    }
}

/// The rank a character identifies; characters outside the alphabet fail.
pub open spec fn number_from_char(c: char) -> Result<Number, ()> {
    if c == '2' {
        Ok(Number::Two)
    } else if c == '3' {
        Ok(Number::Three)
    } else if c == '4' {
        Ok(Number::Four)
    } else if c == '5' {
        Ok(Number::Five)
    } else if c == '6' {
        Ok(Number::Six)
    } else if c == '7' {
        Ok(Number::Seven)
    } else if c == '8' {
        Ok(Number::Eight)
    } else if c == '9' {
        Ok(Number::Nine)
    } else if c == 'T' {
        Ok(Number::Ten)
    } else if c == 'J' {
        Ok(Number::Jack)
    } else if c == 'Q' {
        Ok(Number::Queen)
    } else if c == 'K' {
        Ok(Number::King)
    } else if c == 'A' {
        Ok(Number::Ace)
    } else {
        Err(())
    }
}

impl Number {
    /// The numeric strength of this rank.
    pub fn value(&self) -> (v: u8)
        ensures
            v as int == number_value(*self),
    {
        match self {
            Number::Two => 2,
            Number::Three => 3,
            Number::Four => 4,
            Number::Five => 5,
            Number::Six => 6,
            Number::Seven => 7,
            Number::Eight => 8,
            Number::Nine => 9,
            Number::Ten => 10,
            Number::Jack => 11,
            Number::Queen => 12,
            Number::King => 13,
            Number::Ace => 14,
        }
    }

    /// The wire character of this rank.
    pub fn to_char(&self) -> (c: char)
        ensures
            c == number_char(*self),
    {
        match self {
            Number::Two => '2',
            Number::Three => '3',
            Number::Four => '4',
            Number::Five => '5',
            Number::Six => '6',
            Number::Seven => '7',
            Number::Eight => '8',
            Number::Nine => '9',
            Number::Ten => 'T',
            Number::Jack => 'J',
            Number::Queen => 'Q',
            Number::King => 'K',
            Number::Ace => 'A',
        }
    }

    pub fn from_char(c: char) -> (r: Result<Number, ()>)
        ensures
            r == number_from_char(c),
    {
        if c == '2' {
            Ok(Number::Two)
        } else if c == '3' {
            Ok(Number::Three)
        } else if c == '4' {
            Ok(Number::Four)
        } else if c == '5' {
            Ok(Number::Five)
        } else if c == '6' {
            Ok(Number::Six)
        } else if c == '7' {
            Ok(Number::Seven)
        } else if c == '8' {
            Ok(Number::Eight)
        } else if c == '9' {
            Ok(Number::Nine)
        } else if c == 'T' {
            Ok(Number::Ten)
        } else if c == 'J' {
            Ok(Number::Jack)
        } else if c == 'Q' {
            Ok(Number::Queen)
        } else if c == 'K' {
            Ok(Number::King)
        } else if c == 'A' {
            Ok(Number::Ace)
        } else {
            Err(())
        }
    }
}

/// A playing card: a suit paired with a rank. Equality is structural.
#[derive(Clone, Copy, Debug, PartialEq, Eq, Structural)]
pub struct Card {
    pub suit: Suit,
    pub number: Number,
}

/// The card a pair of suit and rank characters identifies, if both are valid.
pub open spec fn card_from_chars(s: char, n: char) -> Result<Card, ()> {
    match suit_from_char(s) {
        Ok(suit) => match number_from_char(n) {
            Ok(number) => Ok(Card { suit, number }),
            Err(_) => Err(()),
        },
        Err(_) => Err(()),
    }
}

impl Card {
    pub fn new(suit: Suit, number: Number) -> (c: Card)
        ensures
            c == (Card { suit, number }),
    {
        Card { suit, number }
    }

    /// Parses a card from its suit and rank characters; fails on any
    /// character outside the canonical alphabet.
    pub fn from_chars(s: char, n: char) -> (r: Result<Card, ()>)
        ensures
            r == card_from_chars(s, n),
    {
        let suit = match Suit::from_char(s) {
            Ok(suit) => suit,
            Err(_) => {
                return Err(());
            },
        };
        let number = match Number::from_char(n) {
            Ok(number) => number,
            Err(_) => {
                return Err(());
            },
        };
        Ok(Card { suit, number })
    }
}

/// The suit that sits at position `i` of the canonical suit order.
pub open spec fn suit_at(i: int) -> Suit {
    if i == 0 {
        Suit::Hearts
    } else if i == 1 {
        Suit::Diamonds
    } else if i == 2 {
        Suit::Spades
    } else {
        Suit::Clubs
    }
}

/// The rank that sits at position `i` of the canonical rank order.
pub open spec fn number_at(i: int) -> Number {
    if i == 0 {
        Number::Two
    } else if i == 1 {
        Number::Three
    } else if i == 2 {
        Number::Four
    } else if i == 3 {
        Number::Five
    } else if i == 4 {
        Number::Six
    } else if i == 5 {
        Number::Seven
    } else if i == 6 {
        Number::Eight
    } else if i == 7 {
        Number::Nine
    } else if i == 8 {
        Number::Ten
    } else if i == 9 {
        Number::Jack
    } else if i == 10 {
        Number::Queen
    } else if i == 11 {
        Number::King
    } else {
        Number::Ace
    }
}

/// Position of a suit in the canonical suit order.
pub open spec fn suit_pos(s: Suit) -> int {
    match s {
        Suit::Hearts => 0,
        Suit::Diamonds => 1,
        Suit::Spades => 2,
        Suit::Clubs => 3,
    }
}

/// Position of a rank in the canonical rank order.
pub open spec fn number_pos(n: Number) -> int {
    number_value(n) - 2
}

/// The 52 cards of one full pack, suits in canonical order, ranks ascending
/// within a suit.
pub open spec fn full_pack() -> Seq<Card> {
    Seq::new(52, |i: int| Card { suit: suit_at(i / 13), number: number_at(i % 13) })
}

/// `n` full packs laid end to end.
pub open spec fn packs(n: int) -> Seq<Card>
    decreases n,
{
    if n <= 0 {
        Seq::empty()
    } else {
        packs(n - 1) + full_pack()
    }
}

/// Whether some card of `s` has suit `suit`.
pub open spec fn deck_has_suit(s: Seq<Card>, suit: Suit) -> bool {
    exists|i: int| 0 <= i < s.len() && s[i].suit == suit
}

/// The suit at position `i` of the canonical suit order.
fn suit_of_index(i: usize) -> (s: Suit)
    requires
        i < 4,
    ensures
        s == suit_at(i as int),
{
    if i == 0 {
        Suit::Hearts
    } else if i == 1 {
        Suit::Diamonds
    } else if i == 2 {
        Suit::Spades
    } else {
        Suit::Clubs
    }
}

/// The rank at position `i` of the canonical rank order.
fn number_of_index(i: usize) -> (n: Number)
    requires
        i < 13,
    ensures
        n == number_at(i as int),
{
    if i == 0 {
        Number::Two
    } else if i == 1 {
        Number::Three
    } else if i == 2 {
        Number::Four
    } else if i == 3 {
        Number::Five
    } else if i == 4 {
        Number::Six
    } else if i == 5 {
        Number::Seven
    } else if i == 6 {
        Number::Eight
    } else if i == 7 {
        Number::Nine
    } else if i == 8 {
        Number::Ten
    } else if i == 9 {
        Number::Jack
    } else if i == 10 {
        Number::Queen
    } else if i == 11 {
        Number::King
    } else {
        Number::Ace
    }
}

/// An ordered sequence of cards.
#[derive(Debug, PartialEq, Eq)]
pub struct Deck {
    cards: Vec<Card>,
}

impl View for Deck {
    type V = Seq<Card>;

    closed spec fn view(&self) -> Seq<Card> {
        self.cards@
    }
}

impl Clone for Deck {
    fn clone(&self) -> (r: Self)
        ensures
            r@ == self@,
    {
        let mut cards: Vec<Card> = Vec::new();
        let mut i: usize = 0;
        while i < self.cards.len()
            invariant
                i <= self.cards.len(),
                cards@ == self.cards@.take(i as int),
            decreases self.cards.len() - i,
        {
            cards.push(self.cards[i]);
            i = i + 1;
            proof {
                assert(cards@ =~= self.cards@.take(i as int));
            }
        }
        proof {
            assert(cards@ =~= self.cards@);
        }
        Deck { cards }
    }
}

impl Deck {
    /// A deck with no cards.
    pub fn new_empty() -> (d: Deck)
        ensures
            d@ == Seq::<Card>::empty(),
    {
        Deck { cards: Vec::new() }
    }

    /// One full 52-card pack in canonical order.
    pub fn new_full() -> (d: Deck)
        ensures
            d@ == full_pack(),
    {
        let mut cards: Vec<Card> = Vec::new();
        let mut k: usize = 0;
        while k < 52
            invariant
                k <= 52,
                cards@ == full_pack().take(k as int),
            decreases 52 - k,
        {
            let suit = suit_of_index(k / 13);
            let number = number_of_index(k % 13);
            cards.push(Card { suit, number });
            k = k + 1;
            proof {
                assert(cards@ =~= full_pack().take(k as int));
            }
        }
        proof {
            assert(cards@ =~= full_pack());
        }
        Deck { cards }
    }

    /// `pack_count` full packs laid end to end.
    pub fn new(pack_count: usize) -> (d: Deck)
        ensures
            d@ == packs(pack_count as int),
    {
        let mut deck = Self::new_empty();
        let mut i: usize = 0;
        while i < pack_count
            invariant
                i <= pack_count,
                deck@ == packs(i as int),
            decreases pack_count - i,
        {
            let mut pack = Self::new_full();
            deck.join(&mut pack);
            i = i + 1;
        }
        deck
    }

    pub fn len(&self) -> (n: usize)
        ensures
            n == self@.len(),
    {
        self.cards.len()
    }

    /// Moves every card of `other` onto the end of `self`.
    fn join(&mut self, other: &mut Deck)
        ensures
            final(self)@ == old(self)@ + old(other)@,
            final(other)@ == Seq::<Card>::empty(),
    {
        self.cards.append(&mut other.cards);
    }

    /// Appends one card.
    pub fn push(&mut self, card: Card)
        ensures
            final(self)@ == old(self)@.push(card),
    {
        self.cards.push(card);
    }

    /// Removes and returns the last card, if any.
    pub fn pop(&mut self) -> (r: Option<Card>)
        ensures
            old(self)@.len() > 0 ==> r == Some(old(self)@.last()) && final(self)@
                == old(self)@.drop_last(),
            old(self)@.len() == 0 ==> r == None::<Card> && final(self)@ == old(self)@,
    {
        let r = self.cards.pop();
        proof {
            if old(self)@.len() > 0 {
                assert(final(self)@ =~= old(self)@.drop_last());
            }
        }
        r
    }

    /// Whether the deck holds `card`.
    pub fn contains(&self, card: &Card) -> (r: bool)
        ensures
            r == self@.contains(*card),
    {
        let mut i: usize = 0;
        while i < self.cards.len()
            invariant
                i <= self.cards.len(),
                forall|j: int| 0 <= j < i ==> self.cards@[j] != *card,
            decreases self.cards.len() - i,
        {
            if self.cards[i] == *card {
                return true;
            }
            i = i + 1;
        }
        false
    }

    /// Whether the deck holds any card of suit `suit`.
    pub fn contains_suit(&self, suit: &Suit) -> (r: bool)
        ensures
            r == deck_has_suit(self@, *suit),
    {
        let mut i: usize = 0;
        while i < self.cards.len()
            invariant
                i <= self.cards.len(),
                forall|j: int| 0 <= j < i ==> self.cards@[j].suit != *suit,
            decreases self.cards.len() - i,
        {
            if self.cards[i].suit == *suit {
                return true;
            }
            i = i + 1;
        }
        false
    }

    /// Removes the first card equal to `card`, returning it; `None` and no
    /// change when the deck does not hold the card.
    pub fn remove(&mut self, card: &Card) -> (r: Option<Card>)
        ensures
            match old(self)@.index_of_first(*card) {
                Some(i) => r == Some(*card) && final(self)@ == old(self)@.remove(i),
                None => r == None::<Card> && final(self)@ == old(self)@,
            },
    {
        let mut i: usize = 0;
        while i < self.cards.len()
            invariant
                i <= self.cards.len(),
                self.cards@ == old(self)@,
                forall|j: int| 0 <= j < i ==> self.cards@[j] != *card,
            decreases self.cards.len() - i,
        {
            if self.cards[i] == *card {
                proof {
                    old(self)@.index_of_first_ensures(*card);
                    assert(old(self)@.contains(*card));
                    assert(old(self)@.index_of_first(*card) == Some(i as int));
                }
                let removed = self.cards.remove(i);
                return Some(removed);
            }
            i = i + 1;
        }
        proof {
            old(self)@.index_of_first_ensures(*card);
            if old(self)@.index_of_first(*card) is Some {
                let k = old(self)@.index_of_first(*card).unwrap();
                assert(old(self)@[k] != *card);
            }
        }
        None
    }

    /// Reorders the deck at random, keeping exactly the same cards.
    ///
    /// Relies on rand's `SliceRandom::shuffle`: it permutes the slice in
    /// place, so the multiset of cards is unchanged.
    #[verifier::external_body]
    pub fn shuffle(&mut self)
        ensures
            final(self)@.to_multiset() == old(self)@.to_multiset(),
            final(self)@.len() == old(self)@.len(),
    {
        rand::seq::SliceRandom::shuffle(self.cards.as_mut_slice(), &mut rand::thread_rng());
    }

    /// Deals `number_of_hands` hands of `cards_per_hand` cards each by
    /// repeatedly popping from the end of the deck. When the deck runs out
    /// part way, the result is `None` and the deck is left fully drained.
    pub fn pop_into_hands(&mut self, number_of_hands: usize, cards_per_hand: usize) -> (r: Option<
        Vec<Deck>,
    >)
        ensures
            old(self)@.len() >= number_of_hands * cards_per_hand ==> {
                &&& r matches Some(hands)
                &&& hands@.len() == number_of_hands
                &&& forall|i: int|
                    0 <= i < number_of_hands ==> (#[trigger] hands@[i])@ == Seq::new(
                        cards_per_hand as nat,
                        |j: int| old(self)@[old(self)@.len() - 1 - (i * cards_per_hand + j)],
                    )
                &&& final(self)@ == old(self)@.take(
                    old(self)@.len() - number_of_hands * cards_per_hand,
                )
            },
            old(self)@.len() < number_of_hands * cards_per_hand ==> r is None
                && final(self)@.len() == 0,
    {
        let ghost start = self@;
        let ghost l = self@.len() as int;
        let ghost n = number_of_hands as int;
        let ghost k = cards_per_hand as int;
        let mut hands: Vec<Deck> = Vec::new();
        let mut i: usize = 0;
        while i < number_of_hands
            invariant
                i <= number_of_hands,
                start == old(self)@,
                l == start.len(),
                n == number_of_hands as int,
                k == cards_per_hand as int,
                l >= i * k,
                self@ == start.take(l - i * k),
                hands@.len() == i,
                forall|ii: int|
                    0 <= ii < i ==> (#[trigger] hands@[ii])@ == Seq::new(
                        k as nat,
                        |j: int| start[l - 1 - (ii * k + j)],
                    ),
            decreases number_of_hands - i,
        {
            let mut hand = Deck::new_empty();
            let mut j: usize = 0;
            while j < cards_per_hand
                invariant
                    j <= cards_per_hand,
                    i < number_of_hands,
                    start == old(self)@,
                    l == start.len(),
                    n == number_of_hands as int,
                    k == cards_per_hand as int,
                    l >= i * k + j,
                    self@ == start.take(l - (i * k + j)),
                    hand@ == Seq::new(j as nat, |jj: int| start[l - 1 - (i * k + jj)]),
                decreases cards_per_hand - j,
            {
                match self.pop() {
                    Some(card) => {
                        hand.push(card);
                    },
                    None => {
                        proof {
                            assert(l == i * k + j);
                            assert(i * k + j < n * k) by (nonlinear_arith)
                                requires
                                    0 <= i < n,
                                    0 <= j < k,
                            ;
                        }
                        return None;
                    },
                }
                j = j + 1;
                proof {
                    assert(self@ =~= start.take(l - (i * k + j)));
                    assert(hand@ =~= Seq::new(j as nat, |jj: int| start[l - 1 - (i * k + jj)]));
                }
            }
            hands.push(hand);
            i = i + 1;
            proof {
                assert((i - 1) * k + k == i * k) by (nonlinear_arith);
                assert(l >= i * k);
                assert(self@ =~= start.take(l - i * k));
            }
        }
        proof {
            if l < n * k {
                assert(l >= n * k);
            }
        }
        Some(hands)
    }

    /// Consumes the deck, yielding its cards in order.
    pub fn into_iter(self) -> (r: Vec<Card>)
        ensures
            r@ == self@,
    {
        self.cards
    }
}

/// Each card of a full pack sits at exactly one index: thirteen times the
/// suit's position plus the rank's position.
proof fn lemma_full_pack_index(c: Card)
    ensures
        0 <= suit_pos(c.suit) * 13 + number_pos(c.number) < 52,
        forall|i: int|
            0 <= i < 52 ==> (#[trigger] full_pack()[i] == c <==> i == suit_pos(c.suit) * 13
                + number_pos(c.number)),
{
    let pos = suit_pos(c.suit) * 13 + number_pos(c.number);
    assert forall|i: int| 0 <= i < 52 implies (#[trigger] full_pack()[i] == c <==> i == pos) by {
        vstd::arithmetic::div_mod::lemma_fundamental_div_mod(i, 13);
        vstd::arithmetic::div_mod::lemma_fundamental_div_mod(pos, 13);
        assert(pos / 13 == suit_pos(c.suit) && pos % 13 == number_pos(c.number)) by (nonlinear_arith)
            requires
                0 <= suit_pos(c.suit) < 4,
                0 <= number_pos(c.number) < 13,
                pos == suit_pos(c.suit) * 13 + number_pos(c.number),
        ;
    }
}

/// Counting occurrences over a growing prefix of a sequence whose only
/// occurrence of `c` can be at index `pos`.
proof fn lemma_count_prefix(s: Seq<Card>, c: Card, pos: int, k: int)
    requires
        forall|i: int| 0 <= i < s.len() ==> (#[trigger] s[i] == c <==> i == pos),
        0 <= k <= s.len(),
    ensures
        s.take(k).to_multiset().count(c) == if 0 <= pos < k {
            1int
        } else {
            0int
        },
    decreases k,
{
    if k == 0 {
        assert(s.take(0) =~= Seq::<Card>::empty());
        s.take(0).to_multiset_ensures();
        assert(!s.take(0).contains(c));
    } else {
        lemma_count_prefix(s, c, pos, k - 1);
        assert(s.take(k) =~= s.take(k - 1).push(s[k - 1]));
        vstd::seq_lib::to_multiset_build(s.take(k - 1), s[k - 1]);
    }
}

/// One full pack holds every suit-rank pair exactly once.
proof fn lemma_full_pack_count(c: Card)
    ensures
        full_pack().to_multiset().count(c) == 1,
{
    lemma_full_pack_index(c);
    let pos = suit_pos(c.suit) * 13 + number_pos(c.number);
    lemma_count_prefix(full_pack(), c, pos, 52);
    assert(full_pack().take(52) =~= full_pack());
}

/// A deck of `n` packs holds `52 * n` cards, among them every suit-rank
/// pair exactly `n` times.
pub proof fn lemma_packs_counts(n: int, c: Card)
    requires
        0 <= n,
    ensures
        packs(n).len() == 52 * n,
        packs(n).to_multiset().count(c) == n,
    decreases n,
{
    if n == 0 {
        packs(0).to_multiset_ensures();
        assert(!packs(0).contains(c));
    } else {
        lemma_packs_counts(n - 1, c);
        lemma_full_pack_count(c);
        vstd::seq_lib::lemma_multiset_commutative(packs(n - 1), full_pack());
    }
}

/// Round trip: rendering a card's suit and rank characters and parsing them
/// back yields the same card; and whenever parsing succeeds, rendering the
/// parsed card gives back exactly the characters that were parsed.
pub proof fn lemma_card_chars_round_trip(s: char, n: char, card: Card)
    ensures
        card_from_chars(suit_char(card.suit), number_char(card.number)) == Ok::<Card, ()>(card),
        card_from_chars(s, n) matches Ok(c) ==> suit_char(c.suit) == s && number_char(c.number)
            == n,
{
}

} // verus!
