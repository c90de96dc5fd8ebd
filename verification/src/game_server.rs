//! The registry: session ids and live rooms.
//!
//! The registry allocates a nonzero, unused session id per connection,
//! creates rooms under fresh five-character alphanumeric keys, and routes
//! join requests by key. The runtime around it keeps, under the same ids
//! and keys, each session's transport and each room's actor; the registry
//! itself holds only the plain values the decisions need.

use crate::room::{occ_ids, occ_names, Room, RoomEvent, RoomState};
use crate::util::{chars_eq, copy_vec, find_pos};
use crate::wire::{parse_server_command, ServerCommand, ServerCommandModel};
use vstd::prelude::*;

verus! {

/// How many random draws id or key generation makes before giving up.
pub const MAX_RANDOM_TRIES: usize = 16;

/// Relies on rand::random: a machine random number; nothing is promised of
/// its value.
#[verifier::external_body]
fn random_usize() -> usize {
    rand::random()
}

/// Whether `c` is one of the 62 alphanumeric ASCII characters.
pub open spec fn is_alphanumeric_char(c: char) -> bool {
    ('0' <= c <= '9') || ('a' <= c <= 'z') || ('A' <= c <= 'Z')
}

/// Relies on rand's `Alphanumeric` distribution: it yields a byte drawn
/// from the digits and the upper- and lower-case ASCII letters.
#[verifier::external_body]
fn random_alphanumeric() -> (c: char)
    ensures
        is_alphanumeric_char(c),
{
    rand::Rng::sample(&mut rand::thread_rng(), rand::distributions::Alphanumeric) as char
}

/// The registry's own state: the session ids handed out and the keys of
/// the live rooms.
pub struct GameServer {
    pub sessions: Vec<usize>,
    pub room_keys: Vec<Vec<char>>,
}

/// What the runtime must do for the registry.
pub enum ServerDirective {
    /// Run `room` as a new actor under `key`, and deliver `reply` (the
    /// joined-room event) to the creator.
    RoomCreated { key: Vec<char>, room: Room, reply: RoomEvent },
    /// Hand the join request on to the room actor that holds `key`.
    ForwardJoin { key: Vec<char>, session_id: usize, username: Vec<char> },
}

/// Whether some live room holds exactly the key text `key`.
pub open spec fn has_key(keys: Seq<Vec<char>>, key: Seq<char>) -> bool {
    exists|i: int| 0 <= i < keys.len() && (#[trigger] keys[i])@ == key
}

/// Exact outcome of `GameServer::create_room`: a known session either gets
/// a new room under a fresh 5-character alphanumeric key, or nothing when
/// every random key collided; an unknown session is always dropped.
pub open spec fn create_room_post(
    pre: GameServer,
    post: GameServer,
    session_id: usize,
    username: Seq<char>,
    r: Option<ServerDirective>,
) -> bool {
    &&& post.sessions@ == pre.sessions@
    &&& match r {
        Some(d) => {
            &&& pre.sessions@.contains(session_id)
            &&& d matches ServerDirective::RoomCreated { key, room, reply } && key@.len() == 5 && (
            forall|i: int| 0 <= i < 5 ==> is_alphanumeric_char(#[trigger] key@[i])) && !has_key(
                pre.room_keys@,
                key@,
            ) && post.room_keys@.len() == pre.room_keys@.len() + 1 && (forall|i: int|
                0 <= i < pre.room_keys@.len() ==> post.room_keys@[i] == #[trigger] pre.room_keys@[i])
                && post.room_keys@.last()@ == key@ && room.wf() && room.host == session_id
                && room.state is Lobby && occ_ids(room.occupants@)
                == seq![session_id] && occ_names(room.occupants@) == seq![username] && (reply
                matches RoomEvent::JoinedRoom { key: k2, host, players } && k2@ == key@ && host
                == session_id && players@.len() == 1 && players@[0].1 == session_id
                && players@[0].0@ == username)
        },
        None => post.room_keys@ == pre.room_keys@,
    }
}

/// Exact outcome of `GameServer::join_room`: a known session joining a
/// known key is forwarded to that room; everything else is silently
/// dropped.
pub open spec fn join_room_post(
    server: GameServer,
    session_id: usize,
    username: Seq<char>,
    key: Seq<char>,
    r: Option<ServerDirective>,
) -> bool {
    if server.sessions@.contains(session_id) && has_key(server.room_keys@, key) {
        r matches Some(ServerDirective::ForwardJoin { key: k2, session_id: s2, username: u2 })
            && k2@ == key && s2 == session_id && u2@ == username
    } else {
        r is None
    }
}

impl GameServer {
    /// A registry with no sessions and no rooms.
    pub fn new() -> (r: GameServer)
        ensures
            r.sessions@ == Seq::<usize>::empty(),
            r.room_keys@ == Seq::<Vec<char>>::empty(),
    {
        GameServer { sessions: Vec::new(), room_keys: Vec::new() }
    }

    /// Whether some live room holds exactly this key.
    fn holds_key(&self, key: &Vec<char>) -> (r: bool)
        ensures
            r == has_key(self.room_keys@, key@),
    {
        let mut i: usize = 0;
        while i < self.room_keys.len()
            invariant
                i <= self.room_keys@.len(),
                forall|j: int| 0 <= j < i ==> (#[trigger] self.room_keys@[j])@ != key@,
            decreases self.room_keys@.len() - i,
        {
            if chars_eq(&self.room_keys[i], key) {
                return true;
            }
            i = i + 1;
        }
        false
    }

    /// Admits `candidate` as a session id exactly when it is nonzero and
    /// not yet in use.
    pub fn register_candidate(&mut self, candidate: usize) -> (r: bool)
        ensures
            r == (candidate != 0 && !old(self).sessions@.contains(candidate)),
            r ==> final(self).sessions@ == old(self).sessions@.push(candidate),
            !r ==> final(self).sessions@ == old(self).sessions@,
            final(self).room_keys@ == old(self).room_keys@,
    {
        proof {
            self.sessions@.index_of_first_ensures(candidate);
        }
        if candidate == 0 {
            return false;
        }
        match find_pos(&self.sessions, candidate) {
            Some(_) => {
                proof {
                    assert(self.sessions@.contains(candidate));
                }
                false
            },
            None => {
                proof {
                    if self.sessions@.contains(candidate) {
                        assert(self.sessions@.index_of_first(candidate) is Some);
                    }
                }
                self.sessions.push(candidate);
                true
            },
        }
    }

    /// Hands a new connection a session id: nonzero and not in use. `None`
    /// only when `MAX_RANDOM_TRIES` random draws all collided.
    pub fn connect(&mut self) -> (r: Option<usize>)
        ensures
            final(self).room_keys@ == old(self).room_keys@,
            match r {
                Some(id) => id != 0 && !old(self).sessions@.contains(id) && final(self).sessions@
                    == old(self).sessions@.push(id),
                None => final(self).sessions@ == old(self).sessions@,
            },
    {
        let mut tries: usize = 0;
        while tries < MAX_RANDOM_TRIES
            invariant
                self.sessions@ == old(self).sessions@,
                self.room_keys@ == old(self).room_keys@,
            decreases MAX_RANDOM_TRIES - tries,
        {
            let id = random_usize();
            if self.register_candidate(id) {
                return Some(id);
            }
            tries = tries + 1;
        }
        None
    }

    /// Claims `key` for a new room exactly when no live room holds it.
    pub fn admit_room_key(&mut self, key: Vec<char>) -> (r: bool)
        ensures
            r == !has_key(old(self).room_keys@, key@),
            final(self).sessions@ == old(self).sessions@,
            r ==> final(self).room_keys@.len() == old(self).room_keys@.len() + 1 && (forall|i: int|
                0 <= i < old(self).room_keys@.len() ==> final(self).room_keys@[i]
                    == #[trigger] old(self).room_keys@[i]) && final(self).room_keys@.last()@
                == key@,
            !r ==> final(self).room_keys@ == old(self).room_keys@,
    {
        if self.holds_key(&key) {
            false
        } else {
            self.room_keys.push(key);
            true
        }
    }

    /// Creates a room for a known session under a fresh random key. See
    /// `create_room_post`.
    pub fn create_room(&mut self, session_id: usize, username: Vec<char>) -> (r: Option<
        ServerDirective,
    >)
        ensures
            create_room_post(*old(self), *final(self), session_id, username@, r),
    {
        match find_pos(&self.sessions, session_id) {
            Some(_) => {
                proof {
                    self.sessions@.index_of_first_ensures(session_id);
                }
            },
            None => {
                return None;
            },
        }
        let mut tries: usize = 0;
        while tries < MAX_RANDOM_TRIES
            invariant
                self.sessions@ == old(self).sessions@,
                self.room_keys@ == old(self).room_keys@,
                old(self).sessions@.contains(session_id),
            decreases MAX_RANDOM_TRIES - tries,
        {
            let mut key: Vec<char> = Vec::new();
            let mut k: usize = 0;
            while k < 5
                invariant
                    k <= 5,
                    key@.len() == k,
                    forall|i: int| 0 <= i < k ==> is_alphanumeric_char(#[trigger] key@[i]),
                decreases 5 - k,
            {
                key.push(random_alphanumeric());
                k = k + 1;
            }
            if self.admit_room_key(copy_vec(&key)) {
                let key_for_reply = copy_vec(&key);
                let room = Room::new(session_id, copy_vec(&username));
                let mut players: Vec<(Vec<char>, usize)> = Vec::new();
                players.push((username, session_id));
                let reply = RoomEvent::JoinedRoom {
                    key: key_for_reply,
                    host: session_id,
                    players,
                };
                return Some(ServerDirective::RoomCreated { key, room, reply });
            }
            tries = tries + 1;
        }
        None
    }

    /// Routes a join request to the room holding `key`. See
    /// `join_room_post`.
    pub fn join_room(&self, session_id: usize, username: Vec<char>, key: Vec<char>) -> (r: Option<
        ServerDirective,
    >)
        ensures
            join_room_post(*self, session_id, username@, key@, r),
    {
        match find_pos(&self.sessions, session_id) {
            Some(_) => {
                proof {
                    self.sessions@.index_of_first_ensures(session_id);
                }
            },
            None => {
                proof {
                    self.sessions@.index_of_first_ensures(session_id);
                }
                return None;
            },
        }
        if !self.holds_key(&key) {
            return None;
        }
        Some(ServerDirective::ForwardJoin { key, session_id, username })
    }

    /// Routes one line of pre-join text from a session: `c` creates a
    /// room, `j` joins one by key; malformed text is dropped.
    pub fn handle_message(&mut self, session_id: usize, content: &Vec<char>) -> (r: Option<
        ServerDirective,
    >)
        ensures
            final(self).sessions@ == old(self).sessions@,
            match parse_server_command(content@) {
                None => r is None && final(self).room_keys@ == old(self).room_keys@,
                Some(ServerCommandModel::Create(name)) => create_room_post(
                    *old(self),
                    *final(self),
                    session_id,
                    name,
                    r,
                ),
                Some(ServerCommandModel::Join(name, key)) => final(self).room_keys@ == old(
                    self,
                ).room_keys@ && join_room_post(*old(self), session_id, name, key, r),
            },
    {
        match crate::wire::parse_server_message(content) {
            None => None,
            Some(ServerCommand::Create(name)) => self.create_room(session_id, name),
            Some(ServerCommand::Join(name, key)) => self.join_room(session_id, name, key),
        }
    }
}

} // verus!
