//! The game state machine: bidding, ally selection, trick play, scoring.
//!
//! A `Game` owns the players' hands, the per-player trick tally and exactly
//! one `GameState`. Each operation validates a player action, advances the
//! state only on success, and reports either an event or a typed error.
//! The `*_post` spec functions pin down, case by case, the exact outcome of
//! each operation.

use crate::deck::{deck_has_suit, number_value, Card, Deck, Suit};
use vstd::prelude::*;

verus! {

/// The declared highest bidder: player index and trick bid.
#[derive(Clone, Copy, Debug, PartialEq, Eq, Structural)]
pub struct Napoleon {
    pub bid: u32,
    pub player_id: usize,
}

/// Configuration fixed when a game is created.
#[derive(Clone, Copy, Debug, PartialEq, Eq, Structural)]
pub struct GameSettings {
    /// How many ally cards the bid winner must name.
    pub ally_count: usize,
    /// How many cards each player is dealt.
    pub hand_size: u32,
}

/// The phase of a game, carrying exactly the fields meaningful in that phase.
#[derive(Debug)]
pub enum GameState {
    Bidding { current_player: usize, current_napoleon: Option<Napoleon> },
    PostBidding { napoleon: Napoleon },
    Playing {
        napoleon: Napoleon,
        allies: Vec<usize>,
        trump_suit: Suit,
        current_player: usize,
        played_cards: Vec<Card>,
        required_suit: Option<Suit>,
    },
}

#[derive(Clone, Debug, PartialEq, Eq)]
pub enum BiddingEvent {
    NextBidder { player_id: usize },
    BiddingFinished { napoleon: Napoleon },
}

#[derive(Clone, Debug, PartialEq, Eq)]
pub enum BiddingError {
    BidTooLow { min: u32 },
    BidTooHigh { max: u32 },
    NotCurrentPlayer { current_player: usize },
    InvalidGameState,
    NoBids,
}

#[derive(Clone, Debug, PartialEq, Eq)]
pub enum PostBiddingEvent {
    AlliesChosen { allies: Vec<usize> },
}

#[derive(Clone, Debug, PartialEq, Eq)]
pub enum PostBiddingError {
    NotCurrentPlayer { current_player: usize },
    IncorrectAllyCount { expected: usize, received: usize },
    InvalidGameState,
}

#[derive(Clone, Debug, PartialEq, Eq)]
pub enum PlayingEvent {
    NextPlayer { player_id: usize, required_suit: Suit },
    RoundEnded { winner: usize, next_player: usize },
    GameEnded {
        combined_napoleon_score: u32,
        napoleon: Napoleon,
        allies: Vec<usize>,
        final_winner: usize,
    },
}

#[derive(Clone, Debug, PartialEq, Eq)]
pub enum PlayingError {
    NotCurrentPlayer { current_player: usize },
    InvalidGameState,
    InvalidSuit,
    CardNotInHand,
}

/// The authoritative state machine instance of one game.
pub struct Game {
    pub players: usize,
    pub hands: Vec<Deck>,
    pub score: Vec<u32>,
    pub state: GameState,
    pub settings: GameSettings,
}

/// Sum of a score vector.
pub open spec fn score_sum(s: Seq<u32>) -> int
    decreases s.len(),
{
    if s.len() == 0 {
        0
    } else {
        score_sum(s.drop_last()) + s.last()
    }
}

/// Sum of the scores of the players below `upto` that `allies` names.
pub open spec fn allied_score(score: Seq<u32>, allies: Seq<usize>, upto: int) -> int
    decreases upto,
{
    if upto <= 0 {
        0
    } else {
        allied_score(score, allies, upto - 1) + if allies.contains((upto - 1) as usize) {
            score[upto - 1] as int
        } else {
            0int
        }
    }
}

/// Total number of cards still held across all hands.
pub open spec fn total_hand_len(hands: Seq<Deck>) -> int
    decreases hands.len(),
{
    if hands.len() == 0 {
        0
    } else {
        total_hand_len(hands.drop_last()) + hands.last()@.len()
    }
}

/// Number of cards lying in the current trick.
pub open spec fn played_len(state: GameState) -> int {
    match state {
        GameState::Playing { played_cards, .. } => played_cards@.len() as int,
        _ => 0,
    }
}

/// The player index after `pid` in table order.
pub open spec fn next_player_idx(pid: usize, players: usize) -> usize {
    if pid + 1 == players {
        0usize
    } else {
        (pid + 1) as usize
    }
}

/// `leader + offset` wrapped around the table of `players` seats.
pub open spec fn wrap_seat(leader: int, offset: int, players: int) -> int {
    if leader + offset < players {
        leader + offset
    } else {
        leader + offset - players
    }
}

impl Game {
    /// The shape every operation preserves: index fields point at real
    /// players, a napoleon never bids above the hand size, and the score
    /// tallies stay small enough that scoring arithmetic cannot overflow.
    pub open spec fn wf(&self) -> bool {
        &&& self.players >= 1
        &&& self.hands@.len() == self.players
        &&& self.score@.len() == self.players
        &&& self.settings.hand_size < u32::MAX
        &&& self.players * score_sum(self.score@) + total_hand_len(self.hands@) + played_len(
            self.state,
        ) <= 0x7fff_ffff
        &&& match self.state {
            GameState::Bidding { current_player, current_napoleon } => {
                &&& current_player < self.players
                &&& match current_napoleon {
                    Some(n) => n.player_id < self.players && n.bid <= self.settings.hand_size,
                    None => true,
                }
            },
            GameState::PostBidding { napoleon } => napoleon.player_id < self.players
                && napoleon.bid <= self.settings.hand_size,
            GameState::Playing { napoleon, allies, current_player, played_cards, .. } => {
                &&& napoleon.player_id < self.players
                &&& napoleon.bid <= self.settings.hand_size
                &&& current_player < self.players
                &&& played_cards@.len() < self.players
                &&& forall|i: int| 0 <= i < allies@.len() ==> (#[trigger] allies@[i]) < self.players
            },
        }
    }
}

/// Exact outcome of `Game::bid` once the caller's bid, if any, has been
/// accepted as `napoleon2`: the last player index closes the bidding.
pub open spec fn bid_accept(
    pre: Game,
    post: Game,
    player_id: usize,
    napoleon2: Option<Napoleon>,
    r: Result<BiddingEvent, BiddingError>,
) -> bool {
    if player_id == pre.players - 1 {
        match napoleon2 {
            Some(n) => r == Ok::<_, BiddingError>(BiddingEvent::BiddingFinished { napoleon: n })
                && post.state == (GameState::PostBidding { napoleon: n }),
            None => r == Err::<BiddingEvent, _>(BiddingError::NoBids) && post.state == pre.state,
        }
    } else {
        r == Ok::<_, BiddingError>(
            BiddingEvent::NextBidder { player_id: (player_id + 1) as usize },
        ) && post.state == (GameState::Bidding {
            current_player: (player_id + 1) as usize,
            current_napoleon: napoleon2,
        })
    }
}

/// The event or error `Game::bid` returns once the caller's bid, if any,
/// has been accepted as `napoleon2`.
pub open spec fn bid_accept_result(pre: Game, player_id: usize, napoleon2: Option<Napoleon>) -> Result<
    BiddingEvent,
    BiddingError,
> {
    if player_id == pre.players - 1 {
        match napoleon2 {
            Some(n) => Ok(BiddingEvent::BiddingFinished { napoleon: n }),
            None => Err(BiddingError::NoBids),
        }
    } else {
        Ok(BiddingEvent::NextBidder { player_id: (player_id + 1) as usize })
    }
}

/// The event or error `Game::bid` returns, as a function of the state it
/// was called in.
pub open spec fn bid_result(pre: Game, player_id: usize, bid: Option<u32>) -> Result<
    BiddingEvent,
    BiddingError,
> {
    match pre.state {
        GameState::Bidding { current_player, current_napoleon } => {
            if player_id != current_player {
                Err(BiddingError::NotCurrentPlayer { current_player })
            } else {
                match bid {
                    Some(b) => {
                        if b > pre.settings.hand_size {
                            Err(BiddingError::BidTooHigh { max: pre.settings.hand_size })
                        } else if match current_napoleon {
                            Some(nap) => b <= nap.bid,
                            None => false,
                        } {
                            match current_napoleon {
                                Some(nap) => Err(
                                    BiddingError::BidTooLow { min: (nap.bid + 1) as u32 },
                                ),
                                None => Err(BiddingError::InvalidGameState),
                            }
                        } else {
                            bid_accept_result(pre, player_id, Some(Napoleon { bid: b, player_id }))
                        }
                    },
                    None => bid_accept_result(pre, player_id, current_napoleon),
                }
            }
        },
        _ => Err(BiddingError::InvalidGameState),
    }
}

/// Exact outcome of `Game::bid`. Rules, in order: the caller must be the
/// current bidder; a bid above the hand size is too high; a bid not above
/// the standing one is too low; passing keeps the standing napoleon. The
/// bid of the last player either closes the bidding or fails it entirely.
pub open spec fn bid_post(
    pre: Game,
    post: Game,
    player_id: usize,
    bid: Option<u32>,
    r: Result<BiddingEvent, BiddingError>,
) -> bool {
    match pre.state {
        GameState::Bidding { current_player, current_napoleon } => {
            if player_id != current_player {
                r == Err::<BiddingEvent, _>(BiddingError::NotCurrentPlayer { current_player })
                    && post.state == pre.state
            } else {
                match bid {
                    Some(b) => {
                        if b > pre.settings.hand_size {
                            r == Err::<BiddingEvent, _>(
                                BiddingError::BidTooHigh { max: pre.settings.hand_size },
                            ) && post.state == pre.state
                        } else if match current_napoleon {
                            Some(nap) => b <= nap.bid,
                            None => false,
                        } {
                            match current_napoleon {
                                Some(nap) => r == Err::<BiddingEvent, _>(
                                    BiddingError::BidTooLow { min: (nap.bid + 1) as u32 },
                                ) && post.state == pre.state,
                                None => false,
                            }
                        } else {
                            bid_accept(pre, post, player_id, Some(Napoleon { bid: b, player_id }), r)
                        }
                    },
                    None => bid_accept(pre, post, player_id, current_napoleon, r),
                }
            }
        },
        _ => r == Err::<BiddingEvent, _>(BiddingError::InvalidGameState) && post.state == pre.state,
    }
}

impl Game {
    /// Builds a game over one shuffled pack: deals `hand_size` cards to each
    /// of `players` players and opens the bidding at player 0.
    pub fn new(players: usize, settings: GameSettings) -> (g: Game)
        requires
            1 <= players,
            players * settings.hand_size <= 52,
        ensures
            g.wf(),
            g.players == players,
            g.settings == settings,
            g.score@ == Seq::new(players as nat, |i: int| 0u32),
            g.state == (GameState::Bidding { current_player: 0, current_napoleon: None }),
            g.hands@.len() == players,
            forall|i: int| 0 <= i < players ==> (#[trigger] g.hands@[i])@.len()
                == settings.hand_size,
            forall|i: int, a: int, j: int, b: int|
                0 <= i < players && 0 <= j < players && 0 <= a < settings.hand_size && 0 <= b
                    < settings.hand_size && (i != j || a != b) ==> #[trigger] g.hands@[i]@[a]
                    != #[trigger] g.hands@[j]@[b],
    {
        let mut deck = Deck::new(1);
        proof {
            // one pack holds 52 cards (the card argument is immaterial here)
            crate::deck::lemma_packs_counts(
                1,
                Card { suit: Suit::Hearts, number: crate::deck::Number::Two },
            );
        }
        deck.shuffle();
        let ghost shuf = deck@;
        proof {
            assert forall|c: Card| shuf.to_multiset().contains(c) implies shuf.to_multiset().count(
                c,
            ) == 1 by {
                crate::deck::lemma_packs_counts(1, c);
            }
            shuf.lemma_multiset_has_no_duplicates_conv();
        }
        let hands = match deck.pop_into_hands(players, settings.hand_size as usize) {
            Some(hands) => hands,
            None => {
                proof {
                    assert(false);
                }
                Vec::new()
            },
        };
        let mut score: Vec<u32> = Vec::new();
        let mut i: usize = 0;
        while i < players
            invariant
                i <= players,
                score@ == Seq::new(i as nat, |j: int| 0u32),
            decreases players - i,
        {
            score.push(0);
            i = i + 1;
            proof {
                assert(score@ =~= Seq::new(i as nat, |j: int| 0u32));
            }
        }
        let g = Game {
            players,
            hands,
            score,
            state: GameState::Bidding { current_player: 0, current_napoleon: None },
            settings,
        };
        proof {
            lemma_score_sum_zeros(g.score@);
            assert forall|i: int| 0 <= i < players implies (#[trigger] g.hands@[i])@.len()
                == settings.hand_size as int by {
                assert(g.hands@[i]@.len() == (settings.hand_size as usize) as nat);
            }
            lemma_total_hand_len_uniform(g.hands@, settings.hand_size as int);
            assert(settings.hand_size <= 52) by (nonlinear_arith)
                requires
                    1 <= players,
                    players * settings.hand_size <= 52,
            ;
            assert(g.players * score_sum(g.score@) == 0) by (nonlinear_arith)
                requires
                    score_sum(g.score@) == 0,
            ;
            let k = settings.hand_size as int;
            assert forall|i: int, a: int, j: int, b: int|
                0 <= i < players && 0 <= j < players && 0 <= a < k && 0 <= b < k && (i != j || a
                    != b) implies #[trigger] g.hands@[i]@[a] != #[trigger] g.hands@[j]@[b] by {
                assert(i * k + a != j * k + b) by (nonlinear_arith)
                    requires
                        0 <= a < k,
                        0 <= b < k,
                        0 <= i,
                        0 <= j,
                        i != j || a != b,
                ;
                assert(i * k + a < players * k && j * k + b < players * k) by (nonlinear_arith)
                    requires
                        0 <= a < k,
                        0 <= b < k,
                        0 <= i < players,
                        0 <= j < players,
                ;
                let p = 52 - 1 - (i * k + a);
                let q = 52 - 1 - (j * k + b);
                assert(g.hands@[i]@[a] == shuf[p] && g.hands@[j]@[b] == shuf[q]);
                assert(shuf[p] != shuf[q]);
            }
        }
        g
    }

    /// Builds a game over the given pre-dealt hands, for callers that
    /// control the deal themselves.
    pub fn new_with_hands(players: usize, settings: GameSettings, hands: Vec<Deck>) -> (g: Game)
        requires
            1 <= players,
            hands@.len() == players,
            settings.hand_size < u32::MAX,
            total_hand_len(hands@) <= 0x7fff_ffff,
        ensures
            g.wf(),
            g.players == players,
            g.settings == settings,
            g.hands@ == hands@,
            g.score@ == Seq::new(players as nat, |i: int| 0u32),
            g.state == (GameState::Bidding { current_player: 0, current_napoleon: None }),
    {
        let mut score: Vec<u32> = Vec::new();
        let mut i: usize = 0;
        while i < players
            invariant
                i <= players,
                score@ == Seq::new(i as nat, |j: int| 0u32),
            decreases players - i,
        {
            score.push(0);
            i = i + 1;
            proof {
                assert(score@ =~= Seq::new(i as nat, |j: int| 0u32));
            }
        }
        let g = Game {
            players,
            hands,
            score,
            state: GameState::Bidding { current_player: 0, current_napoleon: None },
            settings,
        };
        proof {
            lemma_score_sum_zeros(g.score@);
        }
        g
    }

    pub fn get_settings(&self) -> (r: &GameSettings)
        ensures
            *r == self.settings,
    {
        &self.settings
    }

    pub fn get_hands(&self) -> (r: &[Deck])
        ensures
            r@ == self.hands@,
    {
        self.hands.as_slice()
    }

    pub fn get_score(&self) -> (r: &[u32])
        ensures
            r@ == self.score@,
    {
        self.score.as_slice()
    }

    /// Places a bid (or passes, on `None`) for `player_id`; valid only in
    /// the bidding phase. See `bid_post` for the exact outcome.
    pub fn bid(&mut self, player_id: usize, bid: Option<u32>) -> (r: Result<
        BiddingEvent,
        BiddingError,
    >)
        requires
            old(self).wf(),
        ensures
            final(self).wf(),
            final(self).players == old(self).players,
            final(self).settings == old(self).settings,
            final(self).hands@ == old(self).hands@,
            final(self).score@ == old(self).score@,
            bid_post(*old(self), *final(self), player_id, bid, r),
            r == bid_result(*old(self), player_id, bid),
    {
        let (current_player, current_napoleon): (usize, Option<Napoleon>) = match &self.state {
            GameState::Bidding { current_player, current_napoleon } => (
                *current_player,
                *current_napoleon,
            ),
            _ => {
                return Err(BiddingError::InvalidGameState);
            },
        };
        if player_id != current_player {
            return Err(BiddingError::NotCurrentPlayer { current_player });
        }
        let napoleon2: Option<Napoleon> = match bid {
            Some(b) => {
                if b > self.settings.hand_size {
                    return Err(BiddingError::BidTooHigh { max: self.settings.hand_size });
                }
                match current_napoleon {
                    Some(nap) => {
                        if b <= nap.bid {
                            return Err(BiddingError::BidTooLow { min: nap.bid + 1 });
                        }
                    },
                    None => {},
                }
                Some(Napoleon { bid: b, player_id })
            },
            None => current_napoleon,
        };
        if player_id == self.players - 1 {
            match napoleon2 {
                Some(n) => {
                    self.state = GameState::PostBidding { napoleon: n };
                    Ok(BiddingEvent::BiddingFinished { napoleon: n })
                },
                None => Err(BiddingError::NoBids),
            }
        } else {
            self.state = GameState::Bidding {
                current_player: player_id + 1,
                current_napoleon: napoleon2,
            };
            Ok(BiddingEvent::NextBidder { player_id: player_id + 1 })
        }
    }
}

/// Whether player `id` holds at least one of the named ally cards and is
/// not the napoleon themselves.
pub open spec fn is_ally(hands: Seq<Deck>, nap: usize, ally_cards: Seq<Card>, id: int) -> bool {
    id != nap && exists|c: int| 0 <= c < ally_cards.len() && hands[id]@.contains(ally_cards[c])
}

/// The allies among the players below `n`, in ascending player order.
pub open spec fn allies_upto(hands: Seq<Deck>, nap: usize, ally_cards: Seq<Card>, n: int) -> Seq<
    usize,
>
    decreases n,
{
    if n <= 0 {
        Seq::empty()
    } else if is_ally(hands, nap, ally_cards, n - 1) {
        allies_upto(hands, nap, ally_cards, n - 1).push((n - 1) as usize)
    } else {
        allies_upto(hands, nap, ally_cards, n - 1)
    }
}

/// Exact outcome of `Game::pick_allies`: only the napoleon may pick, the
/// named card count must match the settings, and on success every other
/// player holding a named card becomes an ally and trick play opens with
/// the napoleon forced to lead trump.
pub open spec fn pick_allies_post(
    pre: Game,
    post: Game,
    player_id: usize,
    ally_cards: Seq<Card>,
    trump_suit: Suit,
    r: Result<PostBiddingEvent, PostBiddingError>,
) -> bool {
    match pre.state {
        GameState::PostBidding { napoleon } => {
            if player_id != napoleon.player_id {
                r == Err::<PostBiddingEvent, _>(
                    PostBiddingError::NotCurrentPlayer { current_player: napoleon.player_id },
                ) && post.state == pre.state
            } else if ally_cards.len() != pre.settings.ally_count {
                r == Err::<PostBiddingEvent, _>(
                    PostBiddingError::IncorrectAllyCount {
                        expected: pre.settings.ally_count,
                        received: ally_cards.len() as usize,
                    },
                ) && post.state == pre.state
            } else {
                let chosen = allies_upto(pre.hands@, napoleon.player_id, ally_cards, pre.players as int);
                &&& r matches Ok(PostBiddingEvent::AlliesChosen { allies }) && allies@ == chosen
                &&& post.state matches GameState::Playing {
                    napoleon: n2,
                    allies: a2,
                    trump_suit: t2,
                    current_player: cp2,
                    played_cards: pc2,
                    required_suit: rs2,
                } && n2 == napoleon && a2@ == chosen && t2 == trump_suit && cp2
                    == napoleon.player_id && pc2@ == Seq::<Card>::empty() && rs2 == Some(trump_suit)
            }
        },
        _ => r == Err::<PostBiddingEvent, _>(PostBiddingError::InvalidGameState) && post.state
            == pre.state,
    }
}

impl Game {
    /// Declares the trump suit and names the ally cards; valid only right
    /// after the bidding has finished and only for the napoleon. See
    /// `pick_allies_post` for the exact outcome.
    pub fn pick_allies(&mut self, player_id: usize, ally_cards: Vec<Card>, trump_suit: Suit) -> (r:
        Result<PostBiddingEvent, PostBiddingError>)
        requires
            old(self).wf(),
        ensures
            final(self).wf(),
            final(self).players == old(self).players,
            final(self).settings == old(self).settings,
            final(self).hands@ == old(self).hands@,
            final(self).score@ == old(self).score@,
            pick_allies_post(*old(self), *final(self), player_id, ally_cards@, trump_suit, r),
    {
        let napoleon: Napoleon = match &self.state {
            GameState::PostBidding { napoleon } => *napoleon,
            _ => {
                return Err(PostBiddingError::InvalidGameState);
            },
        };
        if napoleon.player_id != player_id {
            return Err(PostBiddingError::NotCurrentPlayer { current_player: napoleon.player_id });
        }
        if ally_cards.len() != self.settings.ally_count {
            return Err(PostBiddingError::IncorrectAllyCount {
                expected: self.settings.ally_count,
                received: ally_cards.len(),
            });
        }
        let mut allies: Vec<usize> = Vec::new();
        let mut id: usize = 0;
        while id < self.players
            invariant
                id <= self.players,
                allies@ == allies_upto(self.hands@, napoleon.player_id, ally_cards@, id as int),
                self.hands@.len() == self.players,
                forall|i: int| 0 <= i < allies@.len() ==> (#[trigger] allies@[i]) < self.players,
            decreases self.players - id,
        {
            if id != napoleon.player_id {
                let mut found = false;
                let mut c: usize = 0;
                while c < ally_cards.len()
                    invariant
                        c <= ally_cards.len(),
                        id < self.hands@.len(),
                        found == exists|cc: int|
                            0 <= cc < c && self.hands@[id as int]@.contains(ally_cards@[cc]),
                    decreases ally_cards.len() - c,
                {
                    if self.hands[id].contains(&ally_cards[c]) {
                        found = true;
                    }
                    c = c + 1;
                }
                if found {
                    allies.push(id);
                }
            }
            id = id + 1;
        }
        let allies_for_event = allies.clone();
        proof {
            assert(allies_for_event@ =~= allies@);
        }
        self.state = GameState::Playing {
            napoleon,
            allies,
            trump_suit,
            current_player: napoleon.player_id,
            played_cards: Vec::new(),
            required_suit: Some(trump_suit),
        };
        Ok(PostBiddingEvent::AlliesChosen { allies: allies_for_event })
    }
}

/// Position of the strongest card of `suit` among the first `n` cards of
/// the trick, ties going to the later card; `None` when no card matches.
pub open spec fn winner_pos_upto(trick: Seq<Card>, suit: Suit, n: int) -> Option<int>
    decreases n,
{
    if n <= 0 {
        None
    } else {
        let rest = winner_pos_upto(trick, suit, n - 1);
        if trick[n - 1].suit == suit {
            match rest {
                None => Some(n - 1),
                Some(b) => if number_value(trick[n - 1].number) >= number_value(trick[b].number) {
                    Some(n - 1)
                } else {
                    Some(b)
                },
            }
        } else {
            rest
        }
    }
}

/// Position of the trick's winning card: the strongest trump when any trump
/// was played, else the strongest card of the suit that led the trick.
pub open spec fn trick_winner_pos(trick: Seq<Card>, trump: Suit) -> int {
    match winner_pos_upto(trick, trump, trick.len() as int) {
        Some(p) => p,
        None => match winner_pos_upto(trick, trick.first().suit, trick.len() as int) {
            Some(p) => p,
            None => 0,
        },
    }
}

/// A winner position among the first `n` cards lies below `n`.
proof fn lemma_winner_pos_upto_bound(trick: Seq<Card>, suit: Suit, n: int)
    requires
        0 <= n,
    ensures
        winner_pos_upto(trick, suit, n) matches Some(b) ==> 0 <= b < n,
    decreases n,
{
    if n > 0 {
        lemma_winner_pos_upto_bound(trick, suit, n - 1);
    }
}

/// A winner position among the first `n` cards is a strongest card of its
/// suit there, and `None` means no card there has the suit.
proof fn lemma_winner_pos_upto_max(trick: Seq<Card>, suit: Suit, n: int)
    requires
        0 <= n <= trick.len(),
    ensures
        match winner_pos_upto(trick, suit, n) {
            Some(b) => 0 <= b < n && trick[b].suit == suit && forall|i: int|
                0 <= i < n && (#[trigger] trick[i]).suit == suit ==> number_value(trick[i].number)
                    <= number_value(trick[b].number),
            None => forall|i: int| 0 <= i < n ==> trick[i].suit != suit,
        },
    decreases n,
{
    if n > 0 {
        lemma_winner_pos_upto_max(trick, suit, n - 1);
    }
}

/// The trick is resolved as the rules say: when any trump was played the
/// winning card is a trump that no other trump outranks; otherwise it
/// follows the suit that led the trick and no card of that suit outranks it.
pub proof fn lemma_trick_winner_rule(trick: Seq<Card>, trump: Suit)
    requires
        trick.len() > 0,
    ensures
        0 <= trick_winner_pos(trick, trump) < trick.len(),
        deck_has_suit(trick, trump) ==> trick[trick_winner_pos(trick, trump)].suit == trump && (
        forall|i: int|
            0 <= i < trick.len() && (#[trigger] trick[i]).suit == trump ==> number_value(
                trick[i].number,
            ) <= number_value(trick[trick_winner_pos(trick, trump)].number)),
        !deck_has_suit(trick, trump) ==> trick[trick_winner_pos(trick, trump)].suit
            == trick[0].suit && (forall|i: int|
            0 <= i < trick.len() && (#[trigger] trick[i]).suit == trick[0].suit ==> number_value(
                trick[i].number,
            ) <= number_value(trick[trick_winner_pos(trick, trump)].number)),
{
    lemma_winner_pos_upto_max(trick, trump, trick.len() as int);
    lemma_winner_pos_upto_max(trick, trick.first().suit, trick.len() as int);
}

/// The trick's winning position always lies inside the trick.
pub proof fn lemma_trick_winner_pos_bound(trick: Seq<Card>, trump: Suit)
    requires
        trick.len() > 0,
    ensures
        0 <= trick_winner_pos(trick, trump) < trick.len(),
{
    lemma_winner_pos_upto_bound(trick, trump, trick.len() as int);
    lemma_winner_pos_upto_bound(trick, trick.first().suit, trick.len() as int);
}

/// Position in the trick of the card that wins it.
fn trick_winner(trick: &Vec<Card>, trump: &Suit) -> (w: usize)
    requires
        trick@.len() > 0,
    ensures
        w as int == trick_winner_pos(trick@, *trump),
        w < trick@.len(),
{
    let mut best: Option<usize> = None;
    let mut i: usize = 0;
    while i < trick.len()
        invariant
            i <= trick@.len(),
            match best {
                Some(b) => b < i && winner_pos_upto(trick@, *trump, i as int) == Some(b as int),
                None => winner_pos_upto(trick@, *trump, i as int) is None,
            },
        decreases trick@.len() - i,
    {
        if trick[i].suit == *trump {
            best = match best {
                Some(b) => {
                    if trick[i].number.value() >= trick[b].number.value() {
                        Some(i)
                    } else {
                        Some(b)
                    }
                },
                None => Some(i),
            };
        }
        i = i + 1;
    }
    match best {
        Some(p) => p,
        None => {
            let lead = trick[0].suit;
            let mut best2: usize = 0;
            let mut k: usize = 1;
            proof {
                assert(winner_pos_upto(trick@, lead, 0) is None);
                assert(winner_pos_upto(trick@, lead, 1) == Some(0int));
            }
            while k < trick.len()
                invariant
                    1 <= k <= trick@.len(),
                    best2 < k,
                    trick@.len() > 0,
                    lead == trick@[0].suit,
                    winner_pos_upto(trick@, lead, k as int) == Some(best2 as int),
                decreases trick@.len() - k,
            {
                if trick[k].suit == lead {
                    if trick[k].number.value() >= trick[best2].number.value() {
                        best2 = k;
                    }
                }
                k = k + 1;
            }
            best2
        },
    }
}

/// Frame of a rejected play: nothing moves.
pub open spec fn play_unchanged(pre: Game, post: Game) -> bool {
    post.state == pre.state && post.hands@ == pre.hands@ && post.score@ == pre.score@
}

/// Exact outcome of `Game::play_card`. Checks, in order: the caller must be
/// the current player; the card must be in their hand; a required suit must
/// be followed when the hand can follow it. A legal play removes the card
/// from the hand and lays it on the trick. The play that completes the
/// trick scores its winner and either ends the game (some hand is empty) or
/// opens the next trick with the winner to lead any suit.
pub open spec fn play_card_post(
    pre: Game,
    post: Game,
    player_id: usize,
    card: Card,
    r: Result<PlayingEvent, PlayingError>,
) -> bool {
    match pre.state {
        GameState::Playing {
            napoleon,
            allies,
            trump_suit,
            current_player,
            played_cards,
            required_suit,
        } => {
            if player_id != current_player {
                r == Err::<PlayingEvent, _>(PlayingError::NotCurrentPlayer { current_player })
                    && play_unchanged(pre, post)
            } else if !pre.hands@[player_id as int]@.contains(card) {
                r == Err::<PlayingEvent, _>(PlayingError::CardNotInHand) && play_unchanged(pre, post)
            } else if match required_suit {
                Some(rs) => card.suit != rs && deck_has_suit(pre.hands@[player_id as int]@, rs),
                None => false,
            } {
                r == Err::<PlayingEvent, _>(PlayingError::InvalidSuit) && play_unchanged(pre, post)
            } else {
                let hand_pre = pre.hands@[player_id as int]@;
                let hand2 = hand_pre.remove(hand_pre.index_of_first(card).unwrap());
                let lead_suit = match required_suit {
                    Some(s) => s,
                    None => card.suit,
                };
                let played2 = played_cards@.push(card);
                &&& post.hands@.len() == pre.hands@.len()
                &&& post.hands@[player_id as int]@ == hand2
                &&& forall|i: int|
                    0 <= i < pre.hands@.len() && i != player_id ==> post.hands@[i] == #[trigger] pre.hands@[i]
                &&& if played2.len() < pre.players {
                    &&& post.score@ == pre.score@
                    &&& r == Ok::<_, PlayingError>(
                        PlayingEvent::NextPlayer {
                            player_id: next_player_idx(player_id, pre.players),
                            required_suit: lead_suit,
                        },
                    )
                    &&& post.state matches GameState::Playing {
                        napoleon: n2,
                        allies: a2,
                        trump_suit: t2,
                        current_player: cp2,
                        played_cards: pc2,
                        required_suit: rs2,
                    } && n2 == napoleon && a2@ == allies@ && t2 == trump_suit && cp2
                        == next_player_idx(player_id, pre.players) && pc2@ == played2 && rs2
                        == Some(lead_suit)
                } else {
                    let leader = next_player_idx(player_id, pre.players);
                    let wpos = trick_winner_pos(played2, trump_suit);
                    let winner = wrap_seat(leader as int, wpos, pre.players as int);
                    let score2 = pre.score@.update(winner, (pre.score@[winner] + 1) as u32);
                    let game_over = exists|i: int|
                        0 <= i < post.hands@.len() && (#[trigger] post.hands@[i])@.len() == 0;
                    &&& post.score@ == score2
                    &&& if game_over {
                        &&& r matches Ok(
                            PlayingEvent::GameEnded {
                                combined_napoleon_score,
                                napoleon: n2,
                                allies: a2,
                                final_winner,
                            },
                        ) && n2 == napoleon && a2@ == allies@ && final_winner as int == winner
                            && combined_napoleon_score as int == score2[napoleon.player_id as int]
                            + allied_score(score2, allies@, pre.players as int)
                        &&& post.state matches GameState::Playing {
                            napoleon: n3,
                            allies: a3,
                            trump_suit: t3,
                            current_player: cp3,
                            played_cards: pc3,
                            required_suit: rs3,
                        } && n3 == napoleon && a3@ == allies@ && t3 == trump_suit && cp3 == player_id
                            && pc3@ == Seq::<Card>::empty() && rs3 == Some(lead_suit)
                    } else {
                        &&& r matches Ok(PlayingEvent::RoundEnded { winner: w2, next_player })
                            && w2 as int == winner && next_player as int == winner
                        &&& post.state matches GameState::Playing {
                            napoleon: n3,
                            allies: a3,
                            trump_suit: t3,
                            current_player: cp3,
                            played_cards: pc3,
                            required_suit: rs3,
                        } && n3 == napoleon && a3@ == allies@ && t3 == trump_suit && cp3 as int
                            == winner && pc3@ == Seq::<Card>::empty() && rs3 == None::<Suit>
                    }
                }
            }
        },
        _ => r == Err::<PlayingEvent, _>(PlayingError::InvalidGameState) && play_unchanged(
            pre,
            post,
        ),
    }
}

/// Whether a pick-allies call passes all its checks: right phase, the
/// napoleon calling, the right number of named cards.
pub open spec fn pick_allies_accepted(pre: Game, player_id: usize, ally_cards: Seq<Card>) -> bool {
    match pre.state {
        GameState::PostBidding { napoleon } => player_id == napoleon.player_id
            && ally_cards.len() == pre.settings.ally_count,
        _ => false,
    }
}

/// The suit the rest of the trick must follow: the required suit, or the
/// played card's own suit when that card leads.
pub open spec fn lead_suit_of(required_suit: Option<Suit>, card: Card) -> Suit {
    match required_suit {
        Some(s) => s,
        None => card.suit,
    }
}

/// Whether a play passes all its checks: right phase, the current player
/// calling, the card held, and the required suit followed when it can be.
pub open spec fn play_accepted(pre: Game, player_id: usize, card: Card) -> bool {
    match pre.state {
        GameState::Playing { current_player, required_suit, .. } => {
            &&& player_id == current_player
            &&& player_id < pre.hands@.len()
            &&& pre.hands@[player_id as int]@.contains(card)
            &&& !(match required_suit {
                Some(rs) => card.suit != rs && deck_has_suit(pre.hands@[player_id as int]@, rs),
                None => false,
            })
        },
        _ => false,
    }
}

/// Whether this play lays the last card of the trick.
pub open spec fn play_completes_trick(pre: Game) -> bool {
    match pre.state {
        GameState::Playing { played_cards, .. } => played_cards@.len() + 1 == pre.players,
        _ => false,
    }
}

/// The caller's hand after a legal play removed the card.
pub open spec fn play_hand2(pre: Game, player_id: usize, card: Card) -> Seq<Card> {
    let h = pre.hands@[player_id as int]@;
    h.remove(h.index_of_first(card).unwrap())
}

/// Whether the hands are exhausted once this play's trick is resolved.
pub open spec fn play_game_over(pre: Game, player_id: usize, card: Card) -> bool {
    exists|i: int|
        0 <= i < pre.hands@.len() && (if i == player_id {
            play_hand2(pre, player_id, card)
        } else {
            (#[trigger] pre.hands@[i])@
        }).len() == 0
}

/// The player index that wins the trick this play completes.
pub open spec fn play_winner(pre: Game, player_id: usize, card: Card) -> int {
    match pre.state {
        GameState::Playing { trump_suit, played_cards, .. } => wrap_seat(
            next_player_idx(player_id, pre.players) as int,
            trick_winner_pos(played_cards@.push(card), trump_suit),
            pre.players as int,
        ),
        _ => 0,
    }
}

/// The score vector once this play's trick is scored.
pub open spec fn play_score2(pre: Game, player_id: usize, card: Card) -> Seq<u32> {
    let w = play_winner(pre, player_id, card);
    pre.score@.update(w, (pre.score@[w] + 1) as u32)
}

/// The napoleon's and their allies' combined tally at game end.
pub open spec fn play_combined(pre: Game, player_id: usize, card: Card) -> int {
    match pre.state {
        GameState::Playing { napoleon, allies, .. } => {
            let score2 = play_score2(pre, player_id, card);
            score2[napoleon.player_id as int] + allied_score(score2, allies@, pre.players as int)
        },
        _ => 0,
    }
}

/// Whether `v` lists the id `x`.
fn ids_contains(v: &Vec<usize>, x: usize) -> (r: bool)
    ensures
        r == v@.contains(x),
{
    let mut i: usize = 0;
    while i < v.len()
        invariant
            i <= v@.len(),
            forall|j: int| 0 <= j < i ==> v@[j] != x,
        decreases v@.len() - i,
    {
        if v[i] == x {
            return true;
        }
        i = i + 1;
    }
    false
}

/// Score sums are never negative.
proof fn lemma_sum_nonneg(s: Seq<u32>)
    ensures
        score_sum(s) >= 0,
    decreases s.len(),
{
    if s.len() > 0 {
        lemma_sum_nonneg(s.drop_last());
    }
}

/// Every tally is at most the sum of all tallies.
proof fn lemma_element_le_sum(s: Seq<u32>, i: int)
    requires
        0 <= i < s.len(),
    ensures
        s[i] <= score_sum(s),
    decreases s.len(),
{
    if i == s.len() - 1 {
        lemma_sum_nonneg(s.drop_last());
    } else {
        lemma_element_le_sum(s.drop_last(), i);
        assert(s.drop_last()[i] == s[i]);
    }
}

/// A prefix never sums to more than the whole.
proof fn lemma_take_le_sum(s: Seq<u32>, k: int)
    requires
        0 <= k <= s.len(),
    ensures
        score_sum(s.take(k)) <= score_sum(s),
    decreases s.len(),
{
    if k == s.len() {
        assert(s.take(k) =~= s);
    } else {
        assert(s.drop_last().take(k) =~= s.take(k));
        lemma_take_le_sum(s.drop_last(), k);
    }
}

/// The allied share of the tallies never exceeds their total.
proof fn lemma_allied_le_sum(score: Seq<u32>, allies: Seq<usize>, k: int)
    requires
        0 <= k <= score.len(),
    ensures
        0 <= allied_score(score, allies, k),
        allied_score(score, allies, k) <= score_sum(score.take(k)),
        allied_score(score, allies, k) <= score_sum(score),
    decreases k,
{
    lemma_take_le_sum(score, k);
    if k == 0 {
        lemma_sum_nonneg(score.take(0));
    } else {
        lemma_allied_le_sum(score, allies, k - 1);
        assert(score.take(k).drop_last() =~= score.take(k - 1));
        assert(score.take(k).last() == score[k - 1]);
    }
}

/// Updating one tally moves the sum by exactly the difference.
proof fn lemma_score_sum_update(s: Seq<u32>, i: int, v: u32)
    requires
        0 <= i < s.len(),
    ensures
        score_sum(s.update(i, v)) == score_sum(s) - s[i] + v,
    decreases s.len(),
{
    if i == s.len() - 1 {
        assert(s.update(i, v).drop_last() =~= s.drop_last());
        assert(s.update(i, v).last() == v);
    } else {
        assert(s.update(i, v).drop_last() =~= s.drop_last().update(i, v));
        assert(s.update(i, v).last() == s.last());
        lemma_score_sum_update(s.drop_last(), i, v);
    }
}

/// Hand totals are never negative.
proof fn lemma_total_hand_len_nonneg(hands: Seq<Deck>)
    ensures
        total_hand_len(hands) >= 0,
    decreases hands.len(),
{
    if hands.len() > 0 {
        lemma_total_hand_len_nonneg(hands.drop_last());
    }
}

/// No single hand holds more cards than all hands together.
proof fn lemma_hand_le_total(hands: Seq<Deck>, i: int)
    requires
        0 <= i < hands.len(),
    ensures
        hands[i]@.len() <= total_hand_len(hands),
    decreases hands.len(),
{
    if i == hands.len() - 1 {
        lemma_total_hand_len_nonneg(hands.drop_last());
    } else {
        lemma_hand_le_total(hands.drop_last(), i);
        assert(hands.drop_last()[i] == hands[i]);
    }
}

/// Replacing one hand moves the total card count by exactly the difference.
proof fn lemma_total_hand_len_update(hands: Seq<Deck>, i: int, d: Deck)
    requires
        0 <= i < hands.len(),
    ensures
        total_hand_len(hands.update(i, d)) == total_hand_len(hands) - hands[i]@.len() + d@.len(),
    decreases hands.len(),
{
    if i == hands.len() - 1 {
        assert(hands.update(i, d).drop_last() =~= hands.drop_last());
        assert(hands.update(i, d).last() == d);
    } else {
        assert(hands.update(i, d).drop_last() =~= hands.drop_last().update(i, d));
        assert(hands.update(i, d).last() == hands.last());
        lemma_total_hand_len_update(hands.drop_last(), i, d);
    }
}

impl Game {
    /// Plays `card` for `player_id`; valid only during trick play. See
    /// `play_card_post` for the exact outcome.
    pub fn play_card(&mut self, player_id: usize, card: Card) -> (r: Result<
        PlayingEvent,
        PlayingError,
    >)
        requires
            old(self).wf(),
        ensures
            final(self).wf(),
            final(self).players == old(self).players,
            final(self).settings == old(self).settings,
            play_card_post(*old(self), *final(self), player_id, card, r),
    {
        let (napoleon, trump_suit, current_player, required_suit): (
            Napoleon,
            Suit,
            usize,
            Option<Suit>,
        ) = match &self.state {
            GameState::Playing { napoleon, trump_suit, current_player, required_suit, .. } => (
                *napoleon,
                *trump_suit,
                *current_player,
                *required_suit,
            ),
            _ => {
                return Err(PlayingError::InvalidGameState);
            },
        };
        if player_id != current_player {
            return Err(PlayingError::NotCurrentPlayer { current_player });
        }
        if !self.hands[player_id].contains(&card) {
            return Err(PlayingError::CardNotInHand);
        }
        match &required_suit {
            Some(rs) => {
                if card.suit != *rs && self.hands[player_id].contains_suit(rs) {
                    return Err(PlayingError::InvalidSuit);
                }
            },
            None => {},
        }
        let (allies, mut played_cards): (Vec<usize>, Vec<Card>) = match &self.state {
            GameState::Playing { allies, played_cards, .. } => (
                crate::util::copy_vec(allies),
                crate::util::copy_vec(played_cards),
            ),
            _ => {
                proof {
                    assert(false);
                }
                (Vec::new(), Vec::new())
            },
        };
        let _removed = self.hands[player_id].remove(&card);
        played_cards.push(card);
        let lead_suit = match required_suit {
            Some(s) => s,
            None => card.suit,
        };
        proof {
            old(self).hands@[player_id as int]@.index_of_first_ensures(card);
            lemma_total_hand_len_update(
                old(self).hands@,
                player_id as int,
                self.hands@[player_id as int],
            );
            assert(old(self).hands@.update(player_id as int, self.hands@[player_id as int])
                =~= self.hands@);
            assert(total_hand_len(self.hands@) == total_hand_len(old(self).hands@) - 1);
        }
        if played_cards.len() < self.players {
            let next = if player_id + 1 == self.players {
                0
            } else {
                player_id + 1
            };
            self.state = GameState::Playing {
                napoleon,
                allies,
                trump_suit,
                current_player: next,
                played_cards,
                required_suit: Some(lead_suit),
            };
            Ok(PlayingEvent::NextPlayer { player_id: next, required_suit: lead_suit })
        } else {
            let leader = if player_id + 1 == self.players {
                0
            } else {
                player_id + 1
            };
            let wpos = trick_winner(&played_cards, &trump_suit);
            let winner = if wpos < self.players - leader {
                leader + wpos
            } else {
                wpos - (self.players - leader)
            };
            let cur = self.score[winner];
            proof {
                lemma_element_le_sum(self.score@, winner as int);
                lemma_sum_nonneg(self.score@);
                lemma_total_hand_len_nonneg(old(self).hands@);
                assert(score_sum(self.score@) <= self.players * score_sum(self.score@))
                    by (nonlinear_arith)
                    requires
                        self.players >= 1,
                        score_sum(self.score@) >= 0,
                ;
            }
            self.score[winner] = cur + 1;
            proof {
                lemma_score_sum_update(old(self).score@, winner as int, (cur + 1) as u32);
                let n = self.players as int;
                let s_new = score_sum(self.score@);
                let s_old = score_sum(old(self).score@);
                assert(n * s_new == n * s_old + n) by (nonlinear_arith)
                    requires
                        s_new == s_old + 1,
                ;
                lemma_hand_le_total(old(self).hands@, player_id as int);
                lemma_sum_nonneg(self.score@);
                assert(s_new <= n * s_new) by (nonlinear_arith)
                    requires
                        n >= 1,
                        s_new >= 0,
                ;
                assert(n * s_new + total_hand_len(self.hands@) <= 0x7fff_ffff);
            }
            let mut any_empty = false;
            let mut i: usize = 0;
            while i < self.hands.len()
                invariant
                    i <= self.hands@.len(),
                    any_empty == exists|j: int|
                        0 <= j < i && (#[trigger] self.hands@[j])@.len() == 0,
                decreases self.hands@.len() - i,
            {
                if self.hands[i].len() == 0 {
                    any_empty = true;
                }
                i = i + 1;
            }
            if any_empty {
                let mut combined = self.score[napoleon.player_id];
                let mut p: usize = 0;
                proof {
                    lemma_element_le_sum(self.score@, napoleon.player_id as int);
                    lemma_sum_nonneg(self.score@);
                }
                while p < self.players
                    invariant
                        p <= self.players,
                        self.players == self.score@.len(),
                        napoleon.player_id < self.players,
                        score_sum(self.score@) <= 0x7fff_ffff,
                        combined as int == self.score@[napoleon.player_id as int] + allied_score(
                            self.score@,
                            allies@,
                            p as int,
                        ),
                        self.score@[napoleon.player_id as int] <= score_sum(self.score@),
                    decreases self.players - p,
                {
                    if ids_contains(&allies, p) {
                        proof {
                            lemma_allied_le_sum(self.score@, allies@, p as int);
                            lemma_allied_le_sum(self.score@, allies@, p + 1);
                            lemma_element_le_sum(self.score@, p as int);
                        }
                        combined = combined + self.score[p];
                    }
                    p = p + 1;
                }
                let allies_for_event = crate::util::copy_vec(&allies);
                self.state = GameState::Playing {
                    napoleon,
                    allies,
                    trump_suit,
                    current_player: player_id,
                    played_cards: Vec::new(),
                    required_suit: Some(lead_suit),
                };
                Ok(PlayingEvent::GameEnded {
                    combined_napoleon_score: combined,
                    napoleon,
                    allies: allies_for_event,
                    final_winner: winner,
                })
            } else {
                self.state = GameState::Playing {
                    napoleon,
                    allies,
                    trump_suit,
                    current_player: winner,
                    played_cards: Vec::new(),
                    required_suit: None,
                };
                Ok(PlayingEvent::RoundEnded { winner, next_player: winner })
            }
        }
    }
}

/// With no allies declared, the combined napoleon score is exactly the
/// napoleon's own trick tally: the allied share is zero.
pub proof fn lemma_combined_without_allies(score: Seq<u32>, upto: int)
    ensures
        allied_score(score, Seq::<usize>::empty(), upto) == 0,
    decreases upto,
{
    if upto > 0 {
        lemma_combined_without_allies(score, upto - 1);
        if Seq::<usize>::empty().contains((upto - 1) as usize) {
            assert(false);
        }
    }
}

/// The napoleon is never listed among their own allies, whatever cards were
/// named and whatever the hands hold.
pub proof fn lemma_napoleon_never_own_ally(
    hands: Seq<Deck>,
    nap: usize,
    ally_cards: Seq<Card>,
    n: int,
)
    requires
        n <= usize::MAX,
    ensures
        !allies_upto(hands, nap, ally_cards, n).contains(nap),
    decreases n,
{
    if n > 0 {
        lemma_napoleon_never_own_ally(hands, nap, ally_cards, n - 1);
        if is_ally(hands, nap, ally_cards, n - 1) {
            let prev = allies_upto(hands, nap, ally_cards, n - 1);
            let cur = prev.push((n - 1) as usize);
            assert forall|i: int| 0 <= i < cur.len() implies #[trigger] cur[i] != nap by {
                if i < prev.len() {
                    assert(prev.contains(prev[i]));
                }
            }
        }
    }
}

/// A zero-filled score vector sums to zero.
proof fn lemma_score_sum_zeros(s: Seq<u32>)
    requires
        forall|i: int| 0 <= i < s.len() ==> s[i] == 0u32,
    ensures
        score_sum(s) == 0,
    decreases s.len(),
{
    if s.len() > 0 {
        lemma_score_sum_zeros(s.drop_last());
    }
}

/// When every hand holds `k` cards, the total is the number of hands times `k`.
proof fn lemma_total_hand_len_uniform(hands: Seq<Deck>, k: int)
    requires
        forall|i: int| 0 <= i < hands.len() ==> (#[trigger] hands[i])@.len() == k,
    ensures
        total_hand_len(hands) == hands.len() * k,
    decreases hands.len(),
{
    if hands.len() > 0 {
        lemma_total_hand_len_uniform(hands.drop_last(), k);
        assert(hands.len() * k == (hands.len() - 1) * k + k) by (nonlinear_arith);
    }
}

/// Bidding out of turn is always rejected with `NotCurrentPlayer`, and the
/// state does not move.
pub proof fn lemma_bid_wrong_player(
    pre: Game,
    post: Game,
    player_id: usize,
    bid: Option<u32>,
    r: Result<BiddingEvent, BiddingError>,
    current_player: usize,
    current_napoleon: Option<Napoleon>,
)
    requires
        bid_post(pre, post, player_id, bid, r),
        pre.state == (GameState::Bidding { current_player, current_napoleon }),
        player_id != current_player,
    ensures
        r == Err::<BiddingEvent, _>(BiddingError::NotCurrentPlayer { current_player }),
        post.state == pre.state,
{
}

/// A bid that does not exceed the standing napoleon's bid is always
/// rejected with `BidTooLow`, and the state does not move.
pub proof fn lemma_bid_too_low(
    pre: Game,
    post: Game,
    player_id: usize,
    b: u32,
    r: Result<BiddingEvent, BiddingError>,
    nap: Napoleon,
)
    requires
        bid_post(pre, post, player_id, Some(b), r),
        pre.state == (GameState::Bidding {
            current_player: player_id,
            current_napoleon: Some(nap),
        }),
        b <= pre.settings.hand_size,
        b <= nap.bid,
    ensures
        r == Err::<BiddingEvent, _>(BiddingError::BidTooLow { min: (nap.bid + 1) as u32 }),
        post.state == pre.state,
{
}

/// A pass by any player but the last keeps the standing napoleon (if any)
/// and only advances the turn.
pub proof fn lemma_pass_keeps_napoleon(
    pre: Game,
    post: Game,
    player_id: usize,
    r: Result<BiddingEvent, BiddingError>,
    current_napoleon: Option<Napoleon>,
)
    requires
        bid_post(pre, post, player_id, None, r),
        pre.state == (GameState::Bidding { current_player: player_id, current_napoleon }),
        player_id != pre.players - 1,
    ensures
        post.state == (GameState::Bidding {
            current_player: (player_id + 1) as usize,
            current_napoleon,
        }),
        r == Ok::<_, BiddingError>(
            BiddingEvent::NextBidder { player_id: (player_id + 1) as usize },
        ),
{
}

/// When every player has passed, the final pass fails with `NoBids` and no
/// napoleon is set: the state is left exactly as it was.
pub proof fn lemma_all_pass_no_bids(
    pre: Game,
    post: Game,
    player_id: usize,
    r: Result<BiddingEvent, BiddingError>,
)
    requires
        bid_post(pre, post, player_id, None, r),
        pre.state == (GameState::Bidding {
            current_player: player_id,
            current_napoleon: None::<Napoleon>,
        }),
        player_id == pre.players - 1,
    ensures
        r == Err::<BiddingEvent, _>(BiddingError::NoBids),
        post.state == pre.state,
{
}

} // verus!
