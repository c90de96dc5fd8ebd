//! The room orchestrator.
//!
//! A room owns one game, the list of occupants (session id and display
//! name), and the host's session id. Each operation takes one player
//! command, already tagged with the session id that sent it, and returns
//! the list of `Directive`s the surrounding runtime must perform: send one
//! event, send one event to every occupant, or broadcast one event after a
//! fixed delay. Rejected commands return no directives and leave the room
//! unchanged; the runtime is free to log them.

use crate::deck::{Card, Deck, Suit};
use crate::game::{
    bid_post, pick_allies_accepted, BiddingError, BiddingEvent, Game, GameSettings, Napoleon,
    PlayingEvent, PostBiddingEvent,
};
use crate::util::copy_vec;
use vstd::prelude::*;

verus! {

/// An event addressed to occupants of a room. Names and room keys are
/// carried as character vectors; the transport renders them as text.
#[derive(Clone, Debug, PartialEq, Eq)]
pub enum RoomEvent {
    /// Sent to a player who has just joined: the room key, the host and the
    /// full occupant list as (name, session id) pairs.
    JoinedRoom { key: Vec<char>, host: usize, players: Vec<(Vec<char>, usize)> },
    /// A new player joined the room.
    PlayerJoined { player_id: usize, username: Vec<char> },
    GameStarted { player_order: Vec<usize>, game_settings: GameSettings },
    /// One player's dealt hand; never broadcast.
    PlayerHand { hand: Deck },
    PlayerBid { player_id: usize, bid: Option<u32> },
    NextBidder { player_id: usize },
    BiddingOver { napoleon_id: usize, bid: u32 },
    NoBids,
    BecomeAlly,
    AlliesChosen { allies: Vec<Card>, trump_suit: Suit },
    CardPlayed { player_id: usize, card: Card },
    NextPlayer { player_id: usize, required_suit: Option<Suit> },
    RoundOver { winner: usize },
    GameOver {
        allies: Vec<usize>,
        napoleon_score_delta: i32,
        player_score_delta: i32,
        napoleon_bet: u32,
        combined_napoleon_score: u32,
    },
}

/// One thing the runtime around a room must do. All player ids here are
/// session ids, never game-internal indices.
#[derive(Clone, Debug, PartialEq, Eq)]
pub enum Directive {
    /// Deliver the event to one occupant.
    Send { session_id: usize, event: RoomEvent },
    /// Deliver the event to every occupant.
    Broadcast { event: RoomEvent },
    /// Deliver the event to every occupant after `delay_secs` seconds; a
    /// no-op if the room is gone by then.
    DelayedBroadcast { delay_secs: u64, event: RoomEvent },
}

/// Seconds between a trick's resolution and the follow-up announcement.
pub const ROUND_PAUSE_SECS: u64 = 5;

/// Whether a room is waiting in the lobby or running a game.
pub enum RoomState {
    Lobby,
    /// `id_map[i]` is the session id of game player `i`.
    InGame { game: Game, id_map: Vec<usize> },
}

/// A game room: its occupants, its host and at most one running game.
pub struct Room {
    /// Occupants in join order: session id and display name.
    pub occupants: Vec<(usize, Vec<char>)>,
    pub host: usize,
    pub state: RoomState,
}

/// The session ids of an occupant list, in order.
pub open spec fn occ_ids(occs: Seq<(usize, Vec<char>)>) -> Seq<usize> {
    occs.map_values(|p: (usize, Vec<char>)| p.0)
}

/// The display names of an occupant list, in order.
pub open spec fn occ_names(occs: Seq<(usize, Vec<char>)>) -> Seq<Seq<char>> {
    occs.map_values(|p: (usize, Vec<char>)| p.1@)
}

/// What `Game::bid`, `Game::pick_allies` and `Game::play_card` never touch.
pub open spec fn game_frame(g1: Game, g2: Game) -> bool {
    g2.players == g1.players && g2.settings == g1.settings
}

impl Room {
    /// The shape every operation preserves: occupant session ids are
    /// distinct, and a running game is well formed, has one id-map entry
    /// per player, and was dealt from a deck that could supply it.
    pub open spec fn wf(&self) -> bool {
        &&& forall|i: int, j: int|
            0 <= i < j < self.occupants@.len() ==> occ_ids(self.occupants@)[i] != occ_ids(
                self.occupants@,
            )[j]
        &&& match self.state {
            RoomState::Lobby => true,
            RoomState::InGame { game, id_map } => game.wf() && id_map@.len() == game.players
                && game.players * game.settings.hand_size <= 52,
        }
    }

    /// A new room in the lobby, seeded with its creator as host.
    pub fn new(session_id: usize, username: Vec<char>) -> (r: Room)
        ensures
            r.wf(),
            r.host == session_id,
            r.state is Lobby,
            occ_ids(r.occupants@) == seq![session_id],
            occ_names(r.occupants@) == seq![username@],
    {
        let mut occupants: Vec<(usize, Vec<char>)> = Vec::new();
        occupants.push((session_id, username));
        let r = Room { occupants, host: session_id, state: RoomState::Lobby };
        proof {
            assert(occ_ids(r.occupants@) =~= seq![session_id]);
            assert(occ_names(r.occupants@) =~= seq![r.occupants@[0].1@]);
        }
        r
    }

    /// Admits (or re-admits) a player. Every occupant from before the join
    /// is told `PlayerJoined`; the joiner is then sent the room key, the
    /// host and the full occupant list. A join for a session id already in
    /// the room only refreshes that occupant's name: the occupant list
    /// never gains a duplicate.
    pub fn join(&mut self, session_id: usize, username: Vec<char>, room_key: Vec<char>) -> (r: Vec<
        Directive,
    >)
        requires
            old(self).wf(),
        ensures
            final(self).wf(),
            final(self).host == old(self).host,
            final(self).state == old(self).state,
            occ_ids(final(self).occupants@) == if occ_ids(old(self).occupants@).contains(session_id) {
                occ_ids(old(self).occupants@)
            } else {
                occ_ids(old(self).occupants@).push(session_id)
            },
            occ_names(final(self).occupants@) == match occ_ids(old(self).occupants@).index_of_first(
                session_id,
            ) {
                Some(i) => occ_names(old(self).occupants@).update(i, username@),
                None => occ_names(old(self).occupants@).push(username@),
            },
            r@.len() == old(self).occupants@.len() + 1,
            forall|i: int|
                0 <= i < old(self).occupants@.len() ==> (#[trigger] r@[i] matches Directive::Send {
                    session_id: sid,
                    event: RoomEvent::PlayerJoined { player_id, username: name },
                } && sid == occ_ids(old(self).occupants@)[i] && player_id == session_id && name@
                    == username@),
            r@.last() matches Directive::Send {
                session_id: sid,
                event: RoomEvent::JoinedRoom { key, host, players },
            } && sid == session_id && key@ == room_key@ && host == old(self).host && players@.len()
                == final(self).occupants@.len() && (forall|i: int|
                0 <= i < final(self).occupants@.len() ==> (#[trigger] players@[i]).1 == occ_ids(
                    final(self).occupants@,
                )[i] && players@[i].0@ == occ_names(final(self).occupants@)[i]),
    {
        let ghost old_occs = self.occupants@;
        let mut dirs: Vec<Directive> = Vec::new();
        let mut i: usize = 0;
        while i < self.occupants.len()
            invariant
                i <= self.occupants@.len(),
                self.occupants@ == old_occs,
                dirs@.len() == i,
                forall|j: int|
                    0 <= j < i ==> (#[trigger] dirs@[j] matches Directive::Send {
                        session_id: sid,
                        event: RoomEvent::PlayerJoined { player_id, username: name },
                    } && sid == occ_ids(old_occs)[j] && player_id == session_id && name@
                        == username@),
            decreases self.occupants@.len() - i,
        {
            let target = self.occupants[i].0;
            dirs.push(
                Directive::Send {
                    session_id: target,
                    event: RoomEvent::PlayerJoined {
                        player_id: session_id,
                        username: copy_vec(&username),
                    },
                },
            );
            i = i + 1;
        }
        // insert or refresh the occupant
        let mut pos: usize = 0;
        let mut found = false;
        while pos < self.occupants.len() && !found
            invariant
                pos <= self.occupants@.len(),
                self.occupants@ == old_occs,
                found ==> pos < old_occs.len() && occ_ids(old_occs)[pos as int] == session_id,
                !found ==> forall|j: int| 0 <= j < pos ==> occ_ids(old_occs)[j] != session_id,
            decreases self.occupants@.len() - pos + if found {
                0int
            } else {
                1int
            },
        {
            if self.occupants[pos].0 == session_id {
                found = true;
            } else {
                pos = pos + 1;
            }
        }
        proof {
            occ_ids(old_occs).index_of_first_ensures(session_id);
            if found {
                assert(occ_ids(old_occs)[pos as int] == session_id);
                assert(occ_ids(old_occs).contains(session_id));
                assert(forall|j: int| 0 <= j < old_occs.len() && j != pos ==> occ_ids(old_occs)[j]
                    != session_id);
                assert(occ_ids(old_occs).index_of_first(session_id) == Some(pos as int));
            } else {
                assert(forall|j: int| 0 <= j < old_occs.len() ==> occ_ids(old_occs)[j]
                    != session_id);
                if occ_ids(old_occs).contains(session_id) {
                    let w = choose|w: int|
                        0 <= w < occ_ids(old_occs).len() && occ_ids(old_occs)[w] == session_id;
                    assert(occ_ids(old_occs)[w] != session_id);
                }
                assert(!occ_ids(old_occs).contains(session_id));
            }
        }
        if found {
            self.occupants[pos] = (session_id, username);
            proof {
                assert(occ_ids(self.occupants@) =~= occ_ids(old_occs));
                assert(occ_names(self.occupants@) =~= occ_names(old_occs).update(
                    pos as int,
                    username@,
                ));
            }
        } else {
            self.occupants.push((session_id, username));
            proof {
                assert(occ_ids(self.occupants@) =~= occ_ids(old_occs).push(session_id));
                assert(occ_names(self.occupants@) =~= occ_names(old_occs).push(username@));
                assert forall|i: int, j: int|
                    0 <= i < j < self.occupants@.len() implies occ_ids(self.occupants@)[i]
                    != occ_ids(self.occupants@)[j] by {
                    if j == self.occupants@.len() - 1 {
                        assert(occ_ids(self.occupants@)[i] == occ_ids(old_occs)[i]);
                    }
                }
            }
        }
        // the joiner gets the key, the host and the occupant list
        let mut players: Vec<(Vec<char>, usize)> = Vec::new();
        let mut k: usize = 0;
        while k < self.occupants.len()
            invariant
                k <= self.occupants@.len(),
                self.occupants@ == final(self).occupants@,
                players@.len() == k,
                forall|j: int|
                    0 <= j < k ==> (#[trigger] players@[j]).1 == occ_ids(self.occupants@)[j]
                        && players@[j].0@ == occ_names(self.occupants@)[j],
            decreases self.occupants@.len() - k,
        {
            let name = copy_vec(&self.occupants[k].1);
            let id = self.occupants[k].0;
            players.push((name, id));
            k = k + 1;
        }
        dirs.push(
            Directive::Send {
                session_id,
                event: RoomEvent::JoinedRoom { key: room_key, host: self.host, players },
            },
        );
        dirs
    }
}

/// What a fresh deal establishes: the room runs a new well-formed game over
/// exactly the seats `ids`, and the directives announce the start, hand
/// each player their cards privately, and call the first bidder.
pub open spec fn new_game_post(
    post: Room,
    settings: GameSettings,
    ids: Seq<usize>,
    dirs: Seq<Directive>,
) -> bool {
    &&& post.state matches RoomState::InGame { game, id_map } && id_map@ == ids && game.wf()
        && game.players == ids.len() && game.settings == settings && game.state
        == (crate::game::GameState::Bidding { current_player: 0, current_napoleon: None })
        && game.score@ == Seq::new(ids.len(), |i: int| 0u32) && (forall|i: int|
        0 <= i < ids.len() ==> (#[trigger] game.hands@[i])@.len() == settings.hand_size) && dirs.len()
        == ids.len() + 2 && (dirs[0] matches Directive::Broadcast {
        event: RoomEvent::GameStarted { player_order, game_settings },
    } && player_order@ == ids && game_settings == settings) && (forall|i: int|
        0 <= i < ids.len() ==> (#[trigger] dirs[1 + i] matches Directive::Send {
            session_id,
            event: RoomEvent::PlayerHand { hand },
        } && session_id == ids[i] && hand@ == game.hands@[i]@)) && (dirs.last()
        matches Directive::Broadcast { event: RoomEvent::NextBidder { player_id } } && player_id
        == ids[0])
}

/// Exact outcome of `Room::start_game`: only the host, only from the lobby,
/// only with someone seated and only when one pack can supply every seat;
/// otherwise nothing happens.
pub open spec fn start_game_post(
    pre: Room,
    post: Room,
    session_id: usize,
    settings: GameSettings,
    dirs: Seq<Directive>,
) -> bool {
    if pre.state is Lobby && session_id == pre.host && 1 <= pre.occupants@.len()
        && pre.occupants@.len() * settings.hand_size <= 52 {
        new_game_post(post, settings, occ_ids(pre.occupants@), dirs)
    } else {
        post.state == pre.state && dirs.len() == 0
    }
}

/// Exact outcome of `Room::bid`: outside a game or from a session that is
/// not seated, nothing happens. Otherwise the seat's bid goes to the game;
/// on success the raw bid is broadcast, then the derived event; `NoBids`
/// broadcasts and redeals; any other rejection is dropped.
pub open spec fn room_bid_post(
    pre: Room,
    post: Room,
    session_id: usize,
    bid: Option<u32>,
    dirs: Seq<Directive>,
) -> bool {
    match pre.state {
        RoomState::Lobby => post.state is Lobby && dirs.len() == 0,
        RoomState::InGame { game, id_map } => match id_map@.index_of_first(session_id) {
            None => post.state == pre.state && dirs.len() == 0,
            Some(pos) => {
                let res = crate::game::bid_result(game, pos as usize, bid);
                match res {
                    Ok(BiddingEvent::NextBidder { player_id }) => {
                        &&& player_id < id_map@.len()
                        &&& post.state matches RoomState::InGame { game: g3, id_map: m3 } && m3@
                            == id_map@ && bid_post(game, g3, pos as usize, bid, res) && game_frame(
                            game,
                            g3,
                        ) && g3.wf() && g3.hands@ == game.hands@ && g3.score@ == game.score@
                        &&& dirs.len() == 2
                        &&& bid_announce(dirs[0], session_id, bid)
                        &&& dirs[1] matches Directive::Broadcast {
                            event: RoomEvent::NextBidder { player_id: q },
                        } && q == id_map@[player_id as int]
                    },
                    Ok(BiddingEvent::BiddingFinished { napoleon }) => {
                        &&& napoleon.player_id < id_map@.len()
                        &&& post.state matches RoomState::InGame { game: g3, id_map: m3 } && m3@
                            == id_map@ && bid_post(game, g3, pos as usize, bid, res) && game_frame(
                            game,
                            g3,
                        ) && g3.wf() && g3.hands@ == game.hands@ && g3.score@ == game.score@
                        &&& dirs.len() == 2
                        &&& bid_announce(dirs[0], session_id, bid)
                        &&& dirs[1] matches Directive::Broadcast {
                            event: RoomEvent::BiddingOver { napoleon_id, bid: b },
                        } && napoleon_id == id_map@[napoleon.player_id as int] && b == napoleon.bid
                    },
                    Err(BiddingError::NoBids) => {
                        &&& dirs.len() >= 1
                        &&& dirs[0] matches Directive::Broadcast { event: RoomEvent::NoBids }
                        &&& new_game_post(post, game.settings, id_map@, dirs.skip(1))
                    },
                    Err(_) => {
                        &&& post.state matches RoomState::InGame { game: g3, id_map: m3 } && m3@
                            == id_map@ && bid_post(game, g3, pos as usize, bid, res) && game_frame(
                            game,
                            g3,
                        ) && g3.wf() && g3.hands@ == game.hands@ && g3.score@ == game.score@
                        &&& dirs.len() == 0
                    },
                }
            },
        },
    }
}

/// The broadcast that repeats a player's raw bid to the room.
pub open spec fn bid_announce(d: Directive, session_id: usize, bid: Option<u32>) -> bool {
    d matches Directive::Broadcast { event: RoomEvent::PlayerBid { player_id, bid: b } }
        && player_id == session_id && b == bid
}

/// The broadcast that repeats a player's raw card play to the room.
pub open spec fn card_announce(d: Directive, session_id: usize, card: Card) -> bool {
    d matches Directive::Broadcast { event: RoomEvent::CardPlayed { player_id, card: c } }
        && player_id == session_id && c == card
}

/// A game left untouched by a rejected command, up to its views.
pub open spec fn game_untouched(pre: RoomState, post: RoomState, game: Game, id_map: Seq<usize>) -> bool {
    post matches RoomState::InGame { game: g3, id_map: m3 } && m3@ == id_map && game_frame(game, g3)
        && g3.wf() && g3.hands@ == game.hands@ && g3.score@ == game.score@ && g3.state == game.state
}

/// Exact outcome of `Room::pick_allies`: outside a game or from a session
/// that is not seated, nothing happens. A rejected pick is dropped. An
/// accepted pick broadcasts the named cards and the trump, tells each ally
/// privately, and calls the napoleon to lead trump.
pub open spec fn room_pick_allies_post(
    pre: Room,
    post: Room,
    session_id: usize,
    ally_cards: Seq<Card>,
    trump: Suit,
    dirs: Seq<Directive>,
) -> bool {
    match pre.state {
        RoomState::Lobby => post.state is Lobby && dirs.len() == 0,
        RoomState::InGame { game, id_map } => match id_map@.index_of_first(session_id) {
            None => post.state == pre.state && dirs.len() == 0,
            Some(pos) => {
                if pick_allies_accepted(game, pos as usize, ally_cards) {
                    match game.state {
                        crate::game::GameState::PostBidding { napoleon } => {
                            let chosen = crate::game::allies_upto(
                                game.hands@,
                                napoleon.player_id,
                                ally_cards,
                                game.players as int,
                            );
                            &&& post.state matches RoomState::InGame { game: g3, id_map: m3 } && m3@
                                == id_map@ && game_frame(game, g3) && g3.wf() && g3.hands@
                                == game.hands@ && g3.score@ == game.score@ && (g3.state
                                matches crate::game::GameState::Playing {
                                napoleon: n2,
                                allies: a2,
                                trump_suit: t2,
                                current_player: cp2,
                                played_cards: pc2,
                                required_suit: rs2,
                            } && n2 == napoleon && a2@ == chosen && t2 == trump && cp2
                                == napoleon.player_id && pc2@ == Seq::<Card>::empty() && rs2
                                == Some(trump))
                            &&& dirs.len() == 2 + chosen.len()
                            &&& dirs[0] matches Directive::Broadcast {
                                event: RoomEvent::AlliesChosen { allies, trump_suit },
                            } && allies@ == ally_cards && trump_suit == trump
                            &&& forall|k: int|
                                0 <= k < chosen.len() ==> (#[trigger] dirs[1 + k]
                                    matches Directive::Send {
                                    session_id: s,
                                    event: RoomEvent::BecomeAlly,
                                } && chosen[k] < id_map@.len() && s == id_map@[chosen[k] as int])
                            &&& dirs.last() matches Directive::Broadcast {
                                event: RoomEvent::NextPlayer { player_id, required_suit },
                            } && player_id == session_id && required_suit == Some(trump)
                        },
                        _ => false,
                    }
                } else {
                    game_untouched(pre.state, post.state, game, id_map@) && dirs.len() == 0
                }
            },
        },
    }
}

/// Exact outcome of `Room::play_card`: a rejected play is dropped. A legal
/// play is broadcast; mid-trick the next player is called at once, while a
/// resolved trick announces its winner immediately and schedules the
/// follow-up (next leader, or the final score) after `ROUND_PAUSE_SECS`.
pub open spec fn room_play_card_post(
    pre: Room,
    post: Room,
    session_id: usize,
    card: Card,
    dirs: Seq<Directive>,
) -> bool {
    match pre.state {
        RoomState::Lobby => post.state is Lobby && dirs.len() == 0,
        RoomState::InGame { game, id_map } => match id_map@.index_of_first(session_id) {
            None => post.state == pre.state && dirs.len() == 0,
            Some(pos) => {
                if crate::game::play_accepted(game, pos as usize, card) {
                    match game.state {
                        crate::game::GameState::Playing {
                            napoleon,
                            allies,
                            trump_suit,
                            current_player,
                            played_cards,
                            required_suit,
                        } => {
                            let lead = crate::game::lead_suit_of(required_suit, card);
                            let hand2 = crate::game::play_hand2(game, pos as usize, card);
                            &&& post.state matches RoomState::InGame { game: g3, id_map: m3 } && m3@
                                == id_map@ && game_frame(game, g3) && g3.wf() && g3.hands@.len()
                                == game.hands@.len() && g3.hands@[pos]@ == hand2 && (forall|i: int|
                                0 <= i < game.hands@.len() && i != pos ==> g3.hands@[i] == #[trigger] game.hands@[i])
                                && play_card_dirs(g3, game, id_map@, pos, session_id, card, napoleon, allies@, trump_suit, lead, dirs)
                        },
                        _ => false,
                    }
                } else {
                    game_untouched(pre.state, post.state, game, id_map@) && dirs.len() == 0
                }
            },
        },
    }
}

/// The state change and directives of an accepted play; `g3` is the game
/// after the play.
pub open spec fn play_card_dirs(
    g3: Game,
    game: Game,
    id_map: Seq<usize>,
    pos: int,
    session_id: usize,
    card: Card,
    napoleon: Napoleon,
    allies: Seq<usize>,
    trump_suit: Suit,
    lead: Suit,
    dirs: Seq<Directive>,
) -> bool {
    if !crate::game::play_completes_trick(game) {
        let next = crate::game::next_player_idx(pos as usize, game.players);
        &&& g3.score@ == game.score@
        &&& g3.state matches crate::game::GameState::Playing {
            napoleon: n3,
            allies: a3,
            trump_suit: t3,
            current_player: cp3,
            played_cards: pc3,
            required_suit: rs3,
        } && n3 == napoleon && a3@ == allies && t3 == trump_suit && cp3 == next && rs3 == Some(lead)
        &&& next < id_map.len()
        &&& dirs.len() == 2
        &&& card_announce(dirs[0], session_id, card)
        &&& dirs[1] matches Directive::Broadcast {
            event: RoomEvent::NextPlayer { player_id: q, required_suit: s },
        } && q == id_map[next as int] && s == Some(lead)
    } else {
        let w = crate::game::play_winner(game, pos as usize, card);
        &&& 0 <= w < id_map.len()
        &&& g3.score@ == crate::game::play_score2(game, pos as usize, card)
        &&& dirs.len() == 3
        &&& card_announce(dirs[0], session_id, card)
        &&& dirs[1] matches Directive::Broadcast { event: RoomEvent::RoundOver { winner } }
            && winner == id_map[w]
        &&& if crate::game::play_game_over(game, pos as usize, card) {
            let comb = crate::game::play_combined(game, pos as usize, card);
            &&& g3.state matches crate::game::GameState::Playing {
                napoleon: n3,
                allies: a3,
                trump_suit: t3,
                current_player: cp3,
                played_cards: pc3,
                required_suit: rs3,
            } && n3 == napoleon && a3@ == allies && t3 == trump_suit && cp3 == pos && pc3@
                == Seq::<Card>::empty() && rs3 == Some(lead)
            &&& dirs[2] matches Directive::DelayedBroadcast {
                delay_secs,
                event: RoomEvent::GameOver {
                    allies: mapped,
                    napoleon_score_delta,
                    player_score_delta,
                    napoleon_bet,
                    combined_napoleon_score,
                },
            } && delay_secs == ROUND_PAUSE_SECS && napoleon_bet == napoleon.bid
                && combined_napoleon_score as int == comb && (if napoleon.bid as int == comb {
                napoleon_score_delta == 15 && player_score_delta == -10
            } else {
                napoleon_score_delta == -10 && player_score_delta == 15
            }) && mapped@.len() == allies.len() && (forall|k: int|
                0 <= k < allies.len() ==> allies[k] < id_map.len() && #[trigger] mapped@[k]
                    == id_map[allies[k] as int])
        } else {
            &&& g3.state matches crate::game::GameState::Playing {
                napoleon: n3,
                allies: a3,
                trump_suit: t3,
                current_player: cp3,
                played_cards: pc3,
                required_suit: rs3,
            } && n3 == napoleon && a3@ == allies && t3 == trump_suit && cp3 as int == w && pc3@
                == Seq::<Card>::empty() && rs3 == None::<Suit>
            &&& dirs[2] matches Directive::DelayedBroadcast {
                delay_secs,
                event: RoomEvent::NextPlayer { player_id: q, required_suit },
            } && delay_secs == ROUND_PAUSE_SECS && q == id_map[w] && required_suit == None::<Suit>
        }
    }
}

impl Room {
    /// Replaces the room's game with a freshly dealt one over the seats
    /// `id_map` and announces it. See `new_game_post`.
    fn new_game(&mut self, game_settings: GameSettings, id_map: Vec<usize>) -> (r: Vec<Directive>)
        requires
            old(self).wf(),
            1 <= id_map@.len(),
            id_map@.len() * game_settings.hand_size <= 52,
        ensures
            final(self).wf(),
            final(self).occupants@ == old(self).occupants@,
            final(self).host == old(self).host,
            new_game_post(*final(self), game_settings, id_map@, r@),
    {
        let ghost ids = id_map@;
        let game = Game::new(id_map.len(), game_settings);
        let mut dirs: Vec<Directive> = Vec::new();
        dirs.push(
            Directive::Broadcast {
                event: RoomEvent::GameStarted {
                    player_order: copy_vec(&id_map),
                    game_settings,
                },
            },
        );
        let ghost dir0 = dirs@[0];
        let mut i: usize = 0;
        while i < id_map.len()
            invariant
                i <= ids.len(),
                id_map@ == ids,
                game.hands@.len() == ids.len(),
                dirs@.len() == 1 + i,
                dirs@[0] == dir0,
                forall|j: int|
                    0 <= j < i ==> (#[trigger] dirs@[1 + j] matches Directive::Send {
                        session_id,
                        event: RoomEvent::PlayerHand { hand },
                    } && session_id == ids[j] && hand@ == game.hands@[j]@),
            decreases ids.len() - i,
        {
            let hand = game.hands[i].clone();
            dirs.push(Directive::Send { session_id: id_map[i], event: RoomEvent::PlayerHand { hand } });
            i = i + 1;
        }
        dirs.push(Directive::Broadcast { event: RoomEvent::NextBidder { player_id: id_map[0] } });
        self.state = RoomState::InGame { game, id_map };
        dirs
    }

    /// Starts a game over the current occupants, host only. See
    /// `start_game_post`.
    pub fn start_game(&mut self, session_id: usize, settings: GameSettings) -> (r: Vec<Directive>)
        requires
            old(self).wf(),
        ensures
            final(self).wf(),
            final(self).occupants@ == old(self).occupants@,
            final(self).host == old(self).host,
            start_game_post(*old(self), *final(self), session_id, settings, r@),
    {
        match &self.state {
            RoomState::Lobby => {},
            _ => {
                return Vec::new();
            },
        }
        if session_id != self.host {
            return Vec::new();
        }
        let mut ids: Vec<usize> = Vec::new();
        let mut i: usize = 0;
        while i < self.occupants.len()
            invariant
                i <= self.occupants@.len(),
                ids@ == occ_ids(self.occupants@).take(i as int),
            decreases self.occupants@.len() - i,
        {
            ids.push(self.occupants[i].0);
            i = i + 1;
            proof {
                assert(ids@ =~= occ_ids(self.occupants@).take(i as int));
            }
        }
        proof {
            assert(ids@ =~= occ_ids(self.occupants@));
        }
        if ids.len() == 0 {
            return Vec::new();
        }
        let fits = if settings.hand_size == 0 {
            true
        } else {
            (ids.len() as u64) <= 52u64 / (settings.hand_size as u64)
        };
        proof {
            if settings.hand_size > 0 {
                let n = ids@.len() as int;
                let h = settings.hand_size as int;
                let q = 52int / h;
                vstd::arithmetic::div_mod::lemma_fundamental_div_mod(52int, h);
                if n <= q {
                    assert(n * h <= 52) by (nonlinear_arith)
                        requires
                            n <= q,
                            h >= 1,
                            52 == q * h + 52int % h,
                            0 <= 52int % h < h,
                            n >= 1,
                    ;
                } else {
                    assert(n * h > 52) by (nonlinear_arith)
                        requires
                            n >= q + 1,
                            h >= 1,
                            52 == q * h + 52int % h,
                            0 <= 52int % h < h,
                    ;
                }
            }
        }
        if !fits {
            return Vec::new();
        }
        self.new_game(settings, ids)
    }

    /// Handles a bid command from a session. See `room_bid_post`.
    pub fn bid(&mut self, session_id: usize, bid: Option<u32>) -> (r: Vec<Directive>)
        requires
            old(self).wf(),
        ensures
            final(self).wf(),
            final(self).occupants@ == old(self).occupants@,
            final(self).host == old(self).host,
            room_bid_post(*old(self), *final(self), session_id, bid, r@),
    {
        let mut dirs: Vec<Directive> = Vec::new();
        let mut restart: Option<(GameSettings, Vec<usize>)> = None;
        match &mut self.state {
            RoomState::Lobby => {
                return Vec::new();
            },
            RoomState::InGame { game, id_map } => {
                let pos = match crate::util::find_pos(id_map, session_id) {
                    Some(p) => p,
                    None => {
                        return Vec::new();
                    },
                };
                let res = game.bid(pos, bid);
                match res {
                    Ok(BiddingEvent::NextBidder { player_id }) => {
                        dirs.push(
                            Directive::Broadcast {
                                event: RoomEvent::PlayerBid { player_id: session_id, bid },
                            },
                        );
                        dirs.push(
                            Directive::Broadcast {
                                event: RoomEvent::NextBidder { player_id: id_map[player_id] },
                            },
                        );
                    },
                    Ok(BiddingEvent::BiddingFinished { napoleon }) => {
                        dirs.push(
                            Directive::Broadcast {
                                event: RoomEvent::PlayerBid { player_id: session_id, bid },
                            },
                        );
                        dirs.push(
                            Directive::Broadcast {
                                event: RoomEvent::BiddingOver {
                                    napoleon_id: id_map[napoleon.player_id],
                                    bid: napoleon.bid,
                                },
                            },
                        );
                    },
                    Err(BiddingError::NoBids) => {
                        dirs.push(Directive::Broadcast { event: RoomEvent::NoBids });
                        restart = Some((*game.get_settings(), copy_vec(id_map)));
                    },
                    Err(_) => {
                        return Vec::new();
                    },
                }
            },
        }
        match restart {
            Some((settings, ids)) => {
                let mut rest = self.new_game(settings, ids);
                dirs.append(&mut rest);
                proof {
                    assert(dirs@.skip(1) =~= dirs@.subrange(1, dirs@.len() as int));
                }
            },
            None => {},
        }
        dirs
    }

    /// Handles an ally-selection command from a session. See
    /// `room_pick_allies_post`.
    pub fn pick_allies(&mut self, session_id: usize, ally_cards: Vec<Card>, trump_suit: Suit) -> (r:
        Vec<Directive>)
        requires
            old(self).wf(),
        ensures
            final(self).wf(),
            final(self).occupants@ == old(self).occupants@,
            final(self).host == old(self).host,
            room_pick_allies_post(
                *old(self),
                *final(self),
                session_id,
                ally_cards@,
                trump_suit,
                r@,
            ),
    {
        match &mut self.state {
            RoomState::Lobby => {
                return Vec::new();
            },
            RoomState::InGame { game, id_map } => {
                let pos = match crate::util::find_pos(id_map, session_id) {
                    Some(p) => p,
                    None => {
                        return Vec::new();
                    },
                };
                let res = game.pick_allies(pos, copy_vec(&ally_cards), trump_suit);
                match res {
                    Ok(PostBiddingEvent::AlliesChosen { allies }) => {
                        let mut dirs: Vec<Directive> = Vec::new();
                        dirs.push(
                            Directive::Broadcast {
                                event: RoomEvent::AlliesChosen { allies: ally_cards, trump_suit },
                            },
                        );
                        let ghost dir0 = dirs@[0];
                        let mut k: usize = 0;
                        while k < allies.len()
                            invariant
                                k <= allies@.len(),
                                dirs@.len() == 1 + k,
                                dirs@[0] == dir0,
                                game.wf(),
                                game.players == id_map@.len(),
                                forall|i: int|
                                    0 <= i < allies@.len() ==> (#[trigger] allies@[i])
                                        < game.players,
                                forall|j: int|
                                    0 <= j < k ==> (#[trigger] dirs@[1 + j]
                                        matches Directive::Send {
                                        session_id: s,
                                        event: RoomEvent::BecomeAlly,
                                    } && s == id_map@[allies@[j] as int]),
                            decreases allies@.len() - k,
                        {
                            let ally = allies[k];
                            dirs.push(
                                Directive::Send {
                                    session_id: id_map[ally],
                                    event: RoomEvent::BecomeAlly,
                                },
                            );
                            k = k + 1;
                        }
                        dirs.push(
                            Directive::Broadcast {
                                event: RoomEvent::NextPlayer {
                                    player_id: session_id,
                                    required_suit: Some(trump_suit),
                                },
                            },
                        );
                        return dirs;
                    },
                    Err(_) => {
                        return Vec::new();
                    },
                }
            },
        }
    }

    /// Handles a card play from a session. See `room_play_card_post`.
    pub fn play_card(&mut self, session_id: usize, card: Card) -> (r: Vec<Directive>)
        requires
            old(self).wf(),
        ensures
            final(self).wf(),
            final(self).occupants@ == old(self).occupants@,
            final(self).host == old(self).host,
            room_play_card_post(*old(self), *final(self), session_id, card, r@),
    {
        match &mut self.state {
            RoomState::Lobby => {
                return Vec::new();
            },
            RoomState::InGame { game, id_map } => {
                let pos = match crate::util::find_pos(id_map, session_id) {
                    Some(p) => p,
                    None => {
                        return Vec::new();
                    },
                };
                let ghost g_pre = *game;
                let res = game.play_card(pos, card);
                let ghost g3 = *game;
                match res {
                    Ok(PlayingEvent::NextPlayer { player_id, required_suit }) => {
                        let mut dirs: Vec<Directive> = Vec::new();
                        dirs.push(
                            Directive::Broadcast {
                                event: RoomEvent::CardPlayed { player_id: session_id, card },
                            },
                        );
                        dirs.push(
                            Directive::Broadcast {
                                event: RoomEvent::NextPlayer {
                                    player_id: id_map[player_id],
                                    required_suit: Some(required_suit),
                                },
                            },
                        );
                        return dirs;
                    },
                    Ok(PlayingEvent::RoundEnded { winner, next_player }) => {
                        proof {
                            let trick = (match g_pre.state {
                                crate::game::GameState::Playing { played_cards, .. } => played_cards@,
                                _ => vstd::pervasive::arbitrary(),
                            }).push(card);
                            let trump = match g_pre.state {
                                crate::game::GameState::Playing { trump_suit, .. } => trump_suit,
                                _ => vstd::pervasive::arbitrary(),
                            };
                            crate::game::lemma_trick_winner_pos_bound(trick, trump);
                            lemma_play_game_over_agrees(g_pre, g3, pos as usize, card, false);
                        }
                        let mut dirs: Vec<Directive> = Vec::new();
                        dirs.push(
                            Directive::Broadcast {
                                event: RoomEvent::CardPlayed { player_id: session_id, card },
                            },
                        );
                        dirs.push(
                            Directive::Broadcast {
                                event: RoomEvent::RoundOver { winner: id_map[winner] },
                            },
                        );
                        dirs.push(
                            Directive::DelayedBroadcast {
                                delay_secs: ROUND_PAUSE_SECS,
                                event: RoomEvent::NextPlayer {
                                    player_id: id_map[next_player],
                                    required_suit: None,
                                },
                            },
                        );
                        return dirs;
                    },
                    Ok(
                        PlayingEvent::GameEnded {
                            combined_napoleon_score,
                            napoleon,
                            allies,
                            final_winner,
                        },
                    ) => {
                        proof {
                            let trick = (match g_pre.state {
                                crate::game::GameState::Playing { played_cards, .. } => played_cards@,
                                _ => vstd::pervasive::arbitrary(),
                            }).push(card);
                            let trump = match g_pre.state {
                                crate::game::GameState::Playing { trump_suit, .. } => trump_suit,
                                _ => vstd::pervasive::arbitrary(),
                            };
                            crate::game::lemma_trick_winner_pos_bound(trick, trump);
                            lemma_play_game_over_agrees(g_pre, g3, pos as usize, card, true);
                        }
                        let (napoleon_score_delta, player_score_delta): (i32, i32) = if napoleon.bid
                            == combined_napoleon_score {
                            (15, -10)
                        } else {
                            (-10, 15)
                        };
                        let mut mapped: Vec<usize> = Vec::new();
                        let mut k: usize = 0;
                        while k < allies.len()
                            invariant
                                k <= allies@.len(),
                                game.wf(),
                                game.players == id_map@.len(),
                                forall|i: int|
                                    0 <= i < allies@.len() ==> (#[trigger] allies@[i])
                                        < game.players,
                                mapped@.len() == k,
                                forall|j: int|
                                    0 <= j < k ==> #[trigger] mapped@[j] == id_map@[allies@[j] as int],
                            decreases allies@.len() - k,
                        {
                            let ally = allies[k];
                            mapped.push(id_map[ally]);
                            k = k + 1;
                        }
                        let mut dirs: Vec<Directive> = Vec::new();
                        dirs.push(
                            Directive::Broadcast {
                                event: RoomEvent::CardPlayed { player_id: session_id, card },
                            },
                        );
                        dirs.push(
                            Directive::Broadcast {
                                event: RoomEvent::RoundOver { winner: id_map[final_winner] },
                            },
                        );
                        dirs.push(
                            Directive::DelayedBroadcast {
                                delay_secs: ROUND_PAUSE_SECS,
                                event: RoomEvent::GameOver {
                                    allies: mapped,
                                    napoleon_score_delta,
                                    player_score_delta,
                                    napoleon_bet: napoleon.bid,
                                    combined_napoleon_score,
                                },
                            },
                        );
                        return dirs;
                    },
                    Err(_) => {
                        return Vec::new();
                    },
                }
            },
        }
    }
}

impl Room {
    /// Routes one line of text from a session to the matching operation;
    /// malformed text is dropped. Games started over the wire always use
    /// one named ally and five cards per hand.
    pub fn handle_message(&mut self, session_id: usize, content: &Vec<char>) -> (r: Vec<Directive>)
        requires
            old(self).wf(),
        ensures
            final(self).wf(),
            final(self).occupants@ == old(self).occupants@,
            final(self).host == old(self).host,
            match crate::wire::parse_room_command(content@) {
                None => final(self).state == old(self).state && r@.len() == 0,
                Some(crate::wire::RoomCommandModel::Start) => start_game_post(
                    *old(self),
                    *final(self),
                    session_id,
                    GameSettings { ally_count: 1, hand_size: 5 },
                    r@,
                ),
                Some(crate::wire::RoomCommandModel::Bid(b)) => room_bid_post(
                    *old(self),
                    *final(self),
                    session_id,
                    b,
                    r@,
                ),
                Some(crate::wire::RoomCommandModel::PickAllies(cards, trump)) => room_pick_allies_post(
                    *old(self),
                    *final(self),
                    session_id,
                    cards,
                    trump,
                    r@,
                ),
                Some(crate::wire::RoomCommandModel::Play(c)) => room_play_card_post(
                    *old(self),
                    *final(self),
                    session_id,
                    c,
                    r@,
                ),
            },
    {
        match crate::wire::parse_room_message(content) {
            None => Vec::new(),
            Some(crate::wire::RoomCommand::Start) => self.start_game(
                session_id,
                GameSettings { ally_count: 1, hand_size: 5 },
            ),
            Some(crate::wire::RoomCommand::Bid(b)) => self.bid(session_id, b),
            Some(crate::wire::RoomCommand::PickAllies(cards, trump)) => self.pick_allies(
                session_id,
                cards,
                trump,
            ),
            Some(crate::wire::RoomCommand::Play(c)) => self.play_card(session_id, c),
        }
    }
}

/// Ties the game-over test that `Game::play_card` makes on the hands after
/// the play to the pre-state predicate `play_game_over`.
proof fn lemma_play_game_over_agrees(
    g_pre: Game,
    g3: Game,
    player_id: usize,
    card: Card,
    over: bool,
)
    requires
        crate::game::play_accepted(g_pre, player_id, card),
        g3.hands@.len() == g_pre.hands@.len(),
        g3.hands@[player_id as int]@ == crate::game::play_hand2(g_pre, player_id, card),
        forall|i: int|
            0 <= i < g_pre.hands@.len() && i != player_id ==> g3.hands@[i] == #[trigger] g_pre.hands@[i],
        over == exists|i: int|
            0 <= i < g3.hands@.len() && (#[trigger] g3.hands@[i])@.len() == 0,
    ensures
        over == crate::game::play_game_over(g_pre, player_id, card),
{
    if over {
        let i = choose|i: int| 0 <= i < g3.hands@.len() && (#[trigger] g3.hands@[i])@.len() == 0;
        assert((if i == player_id {
            crate::game::play_hand2(g_pre, player_id, card)
        } else {
            g_pre.hands@[i]@
        }).len() == 0);
    }
    if crate::game::play_game_over(g_pre, player_id, card) {
        let i = choose|i: int|
            0 <= i < g_pre.hands@.len() && (if i == player_id {
                crate::game::play_hand2(g_pre, player_id, card)
            } else {
                (#[trigger] g_pre.hands@[i])@
            }).len() == 0;
        assert(g3.hands@[i]@.len() == 0);
    }
}

} // verus!
