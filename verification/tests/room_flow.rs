use napoleon::game_server::{GameServer, ServerDirective};
use napoleon::room::{Directive, Room, RoomEvent, RoomState, ROUND_PAUSE_SECS};

fn chars(s: &str) -> Vec<char> {
    s.chars().collect()
}

fn occupant_ids(room: &Room) -> Vec<usize> {
    room.occupants.iter().map(|p| p.0).collect()
}

#[test]
fn join_tells_old_occupants_and_greets_the_joiner() {
    let mut room = Room::new(7, chars("ann"));
    let dirs = room.join(9, chars("bob"), chars("Ab3xZ"));
    assert_eq!(occupant_ids(&room), vec![7, 9]);
    assert_eq!(dirs.len(), 2);
    assert_eq!(
        dirs[0],
        Directive::Send {
            session_id: 7,
            event: RoomEvent::PlayerJoined { player_id: 9, username: chars("bob") },
        }
    );
    assert_eq!(
        dirs[1],
        Directive::Send {
            session_id: 9,
            event: RoomEvent::JoinedRoom {
                key: chars("Ab3xZ"),
                host: 7,
                players: vec![(chars("ann"), 7), (chars("bob"), 9)],
            },
        }
    );
}

#[test]
fn repeated_join_never_duplicates_an_occupant() {
    let mut room = Room::new(7, chars("ann"));
    room.join(9, chars("bob"), chars("Ab3xZ"));
    room.join(9, chars("bobby"), chars("Ab3xZ"));
    assert_eq!(occupant_ids(&room), vec![7, 9]);
    assert_eq!(room.occupants[1].1, chars("bobby"));
}

#[test]
fn only_the_host_starts_a_game_and_only_from_the_lobby() {
    let mut room = Room::new(7, chars("ann"));
    room.join(9, chars("bob"), chars("Ab3xZ"));
    assert!(room.handle_message(9, &chars("s")).is_empty());
    assert!(matches!(room.state, RoomState::Lobby));

    let dirs = room.handle_message(7, &chars("s"));
    // announcement, one hand per player, first bidder
    assert_eq!(dirs.len(), 4);
    assert!(matches!(
        &dirs[0],
        Directive::Broadcast { event: RoomEvent::GameStarted { .. } }
    ));
    assert!(
        matches!(&dirs[1], Directive::Send { session_id: 7, event: RoomEvent::PlayerHand { hand } } if hand.len() == 5)
    );
    assert!(
        matches!(&dirs[2], Directive::Send { session_id: 9, event: RoomEvent::PlayerHand { hand } } if hand.len() == 5)
    );
    assert_eq!(
        dirs[3],
        Directive::Broadcast { event: RoomEvent::NextBidder { player_id: 7 } }
    );

    // a second start is ignored: the room is no longer in the lobby
    assert!(room.handle_message(7, &chars("s")).is_empty());
}

#[test]
fn bids_are_translated_and_spectators_are_dropped() {
    let mut room = Room::new(7, chars("ann"));
    room.join(9, chars("bob"), chars("Ab3xZ"));
    room.handle_message(7, &chars("s"));

    // a session that is not seated in the game is a spectator
    assert!(room.handle_message(42, &chars("b3")).is_empty());

    let dirs = room.handle_message(7, &chars("b3"));
    assert_eq!(dirs.len(), 2);
    assert_eq!(
        dirs[0],
        Directive::Broadcast {
            event: RoomEvent::PlayerBid { player_id: 7, bid: Some(3) }
        }
    );
    assert_eq!(
        dirs[1],
        Directive::Broadcast { event: RoomEvent::NextBidder { player_id: 9 } }
    );

    let dirs = room.handle_message(9, &chars("b4"));
    assert_eq!(dirs.len(), 2);
    assert_eq!(
        dirs[1],
        Directive::Broadcast { event: RoomEvent::BiddingOver { napoleon_id: 9, bid: 4 } }
    );

    // an illegal bid afterwards is dropped without directives
    assert!(room.handle_message(7, &chars("b5")).is_empty());
}

#[test]
fn all_passing_redeals_the_same_seats() {
    let mut room = Room::new(7, chars("ann"));
    room.join(9, chars("bob"), chars("Ab3xZ"));
    room.handle_message(7, &chars("s"));
    assert_eq!(room.handle_message(7, &chars("b")).len(), 2);
    let dirs = room.handle_message(9, &chars("b"));
    // no-bids, then a full redeal: announcement, two hands, next bidder
    assert_eq!(dirs.len(), 5);
    assert_eq!(dirs[0], Directive::Broadcast { event: RoomEvent::NoBids });
    assert!(matches!(
        &dirs[1],
        Directive::Broadcast { event: RoomEvent::GameStarted { .. } }
    ));
    assert_eq!(
        dirs[4],
        Directive::Broadcast { event: RoomEvent::NextBidder { player_id: 7 } }
    );
    match &room.state {
        RoomState::InGame { id_map, .. } => assert_eq!(id_map, &vec![7, 9]),
        _ => panic!("the room should be in a fresh game"),
    }
}

#[test]
fn trick_resolution_schedules_the_followup() {
    let mut room = Room::new(7, chars("ann"));
    room.join(9, chars("bob"), chars("Ab3xZ"));
    room.handle_message(7, &chars("s"));
    room.handle_message(7, &chars("b"));
    let dirs = room.handle_message(9, &chars("b1"));
    assert_eq!(dirs.len(), 2);

    // the napoleon names one ally card and hearts as trump
    let dirs = room.handle_message(9, &chars("aH,2,S"));
    assert!(!dirs.is_empty());
    assert!(matches!(
        &dirs[0],
        Directive::Broadcast { event: RoomEvent::AlliesChosen { .. } }
    ));
    assert_eq!(
        dirs[dirs.len() - 1],
        Directive::Broadcast {
            event: RoomEvent::NextPlayer { player_id: 9, required_suit: Some(napoleon::deck::Suit::Hearts) }
        }
    );

    // play whole tricks until the game ends, following the room's own calls
    let mut next: usize = 9;
    for _round in 0..5 {
        let mut dirs = Vec::new();
        for _turn in 0..2 {
            // find a card the current player may legally play by trying each
            let hand: Vec<napoleon::deck::Card> = match &room.state {
                RoomState::InGame { game, id_map } => {
                    let seat = id_map.iter().position(|id| *id == next).unwrap();
                    game.get_hands()[seat].clone().into_iter()
                },
                _ => panic!("game should be running"),
            };
            let mut played = None;
            for c in hand {
                let msg: Vec<char> =
                    format!("p{}{}", c.number.to_char(), c.suit.to_char()).chars().collect();
                dirs = room.handle_message(next, &msg);
                if !dirs.is_empty() {
                    played = Some(c);
                    break;
                }
            }
            assert!(played.is_some(), "some card must be playable");
            match &dirs[1] {
                Directive::Broadcast { event: RoomEvent::NextPlayer { player_id, .. } } => {
                    next = *player_id;
                },
                Directive::Broadcast { event: RoomEvent::RoundOver { .. } } => {
                    match &dirs[2] {
                        Directive::DelayedBroadcast { delay_secs, event } => {
                            assert_eq!(*delay_secs, ROUND_PAUSE_SECS);
                            match event {
                                RoomEvent::NextPlayer { player_id, required_suit } => {
                                    assert!(required_suit.is_none());
                                    next = *player_id;
                                },
                                RoomEvent::GameOver { combined_napoleon_score, .. } => {
                                    // the ledger agrees with the game's tally
                                    match &room.state {
                                        RoomState::InGame { game, .. } => {
                                            let total: u32 = game.get_score().iter().sum();
                                            assert_eq!(total, 5);
                                            assert!(*combined_napoleon_score <= total);
                                        },
                                        _ => panic!("room should hold the finished game"),
                                    }
                                    return;
                                },
                                _ => panic!("the delayed event follows the round"),
                            }
                        },
                        _ => panic!("round end schedules a delayed broadcast"),
                    }
                },
                other => panic!("unexpected directive {:?}", other),
            }
        }
    }
    panic!("the game should have ended within five tricks");
}

#[test]
fn registry_assigns_fresh_nonzero_ids() {
    let mut server = GameServer::new();
    let a = server.connect().unwrap();
    let b = server.connect().unwrap();
    assert_ne!(a, 0);
    assert_ne!(b, 0);
    assert_ne!(a, b);
    assert_eq!(server.sessions, vec![a, b]);
}

#[test]
fn registry_admission_rules() {
    let mut server = GameServer::new();
    assert!(!server.register_candidate(0));
    assert!(server.register_candidate(7));
    assert!(!server.register_candidate(7));
    assert_eq!(server.sessions, vec![7]);

    assert!(server.admit_room_key(chars("Ab3xZ")));
    assert!(!server.admit_room_key(chars("Ab3xZ")));
    assert!(server.admit_room_key(chars("Ab3xY")));
    assert_eq!(server.room_keys, vec![chars("Ab3xZ"), chars("Ab3xY")]);
}

#[test]
fn registry_creates_rooms_under_fresh_keys() {
    let mut server = GameServer::new();
    let a = server.connect().unwrap();
    let d = server.create_room(a, chars("ann")).unwrap();
    match d {
        ServerDirective::RoomCreated { key, room, reply } => {
            assert_eq!(key.len(), 5);
            assert!(key.iter().all(|c| c.is_ascii_alphanumeric()));
            assert_eq!(room.host, a);
            assert_eq!(room.occupants, vec![(a, chars("ann"))]);
            assert_eq!(
                reply,
                RoomEvent::JoinedRoom { key: key.clone(), host: a, players: vec![(chars("ann"), a)] }
            );
            assert_eq!(server.room_keys, vec![key]);
        },
        _ => panic!("create makes a room"),
    }
}

#[test]
fn registry_drops_unknown_sessions_and_keys() {
    let mut server = GameServer::new();
    assert!(server.create_room(99, chars("ann")).is_none());
    let a = server.connect().unwrap();
    assert!(server.join_room(a, chars("ann"), chars("nope!")).is_none());
    let created = server.create_room(a, chars("ann")).unwrap();
    let key = match created {
        ServerDirective::RoomCreated { key, .. } => key,
        _ => panic!("create makes a room"),
    };
    match server.join_room(a, chars("bob"), key.clone()) {
        Some(ServerDirective::ForwardJoin { key: k, session_id, username }) => {
            assert_eq!(k, key);
            assert_eq!(session_id, a);
            assert_eq!(username, chars("bob"));
        },
        _ => panic!("known key forwards the join"),
    }
}

#[test]
fn registry_routes_wire_commands() {
    let mut server = GameServer::new();
    let a = server.connect().unwrap();
    assert!(server.handle_message(a, &chars("x")).is_none());
    let created = server.handle_message(a, &chars("cann")).unwrap();
    let key = match created {
        ServerDirective::RoomCreated { key, .. } => key,
        _ => panic!("create makes a room"),
    };
    let join_line: Vec<char> = format!("jbob,{}", key.iter().collect::<String>()).chars().collect();
    assert!(matches!(
        server.handle_message(a, &join_line),
        Some(ServerDirective::ForwardJoin { .. })
    ));
}
