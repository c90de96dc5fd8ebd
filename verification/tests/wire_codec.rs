use napoleon::deck::{Card, Suit};
use napoleon::game::GameSettings;
use napoleon::room::RoomEvent;
use napoleon::wire::{
    parse_room_message, parse_server_message, render_usize, serialize_event, session_greeting,
    RoomCommand, ServerCommand,
};

fn card(s: &str) -> Card {
    let mut chars = s.chars();
    let n = chars.next().unwrap();
    let s = chars.next().unwrap();
    Card::from_chars(s, n).unwrap()
}

fn chars(s: &str) -> Vec<char> {
    s.chars().collect()
}

fn text(v: Vec<char>) -> String {
    v.into_iter().collect()
}

#[test]
fn decimal_rendering_is_exact() {
    assert_eq!(text(render_usize(0)), "0");
    assert_eq!(text(render_usize(7)), "7");
    assert_eq!(text(render_usize(10)), "10");
    assert_eq!(text(render_usize(90210)), "90210");
    assert_eq!(text(session_greeting(345)), "c345");
}

#[test]
fn events_render_to_their_wire_lines() {
    assert_eq!(
        text(serialize_event(&RoomEvent::JoinedRoom {
            key: chars("Ab3xZ"),
            host: 7,
            players: vec![(chars("ann"), 7), (chars("bob"), 9)],
        })),
        "eAb3xZ,7,ann,7,bob,9"
    );
    assert_eq!(
        text(serialize_event(&RoomEvent::PlayerJoined { player_id: 9, username: chars("bob") })),
        "jbob,9"
    );
    assert_eq!(
        text(serialize_event(&RoomEvent::GameStarted {
            player_order: vec![7, 9],
            game_settings: GameSettings { ally_count: 1, hand_size: 5 },
        })),
        "s7,9\n{\"ally_count\":1,\"hand_size\":5}"
    );
    let mut hand = napoleon::deck::Deck::new_empty();
    hand.push(card("8C"));
    hand.push(card("AS"));
    assert_eq!(text(serialize_event(&RoomEvent::PlayerHand { hand })), "h8C,AS");
    assert_eq!(
        text(serialize_event(&RoomEvent::PlayerBid { player_id: 7, bid: Some(3) })),
        "bp7,3"
    );
    assert_eq!(
        text(serialize_event(&RoomEvent::PlayerBid { player_id: 7, bid: None })),
        "bp7"
    );
    assert_eq!(text(serialize_event(&RoomEvent::NextBidder { player_id: 9 })), "bn9");
    assert_eq!(
        text(serialize_event(&RoomEvent::BiddingOver { napoleon_id: 9, bid: 3 })),
        "bo3,9"
    );
    assert_eq!(text(serialize_event(&RoomEvent::NoBids)), "nb");
    assert_eq!(text(serialize_event(&RoomEvent::BecomeAlly)), "ab");
    assert_eq!(
        text(serialize_event(&RoomEvent::AlliesChosen {
            allies: vec![card("AC"), card("TH")],
            trump_suit: Suit::Diamonds,
        })),
        "acD,A,C,T,H"
    );
    assert_eq!(
        text(serialize_event(&RoomEvent::CardPlayed { player_id: 9, card: card("TH") })),
        "p9,TH"
    );
    assert_eq!(
        text(serialize_event(&RoomEvent::NextPlayer {
            player_id: 9,
            required_suit: Some(Suit::Spades),
        })),
        "n9,S"
    );
    assert_eq!(
        text(serialize_event(&RoomEvent::NextPlayer { player_id: 9, required_suit: None })),
        "n9"
    );
    assert_eq!(text(serialize_event(&RoomEvent::RoundOver { winner: 7 })), "r7");
    assert_eq!(
        text(serialize_event(&RoomEvent::GameOver {
            allies: vec![9, 12],
            napoleon_score_delta: 15,
            player_score_delta: -10,
            napoleon_bet: 3,
            combined_napoleon_score: 4,
        })),
        "g15,-10,3,4,9,12"
    );
}

#[test]
fn room_commands_parse() {
    assert!(matches!(parse_room_message(&chars("s")), Some(RoomCommand::Start)));
    assert!(matches!(parse_room_message(&chars("b")), Some(RoomCommand::Bid(None))));
    assert!(matches!(parse_room_message(&chars("b12")), Some(RoomCommand::Bid(Some(12)))));
    assert!(matches!(
        parse_room_message(&chars("b4294967295")),
        Some(RoomCommand::Bid(Some(4294967295)))
    ));
    match parse_room_message(&chars("aC,A,C,T,H")) {
        Some(RoomCommand::PickAllies(cards, trump)) => {
            assert_eq!(trump, Suit::Clubs);
            assert_eq!(cards, vec![card("AC"), card("TH")]);
        },
        other => panic!("unexpected parse: {:?}", other.is_some()),
    }
    match parse_room_message(&chars("aH")) {
        Some(RoomCommand::PickAllies(cards, trump)) => {
            assert_eq!(trump, Suit::Hearts);
            assert!(cards.is_empty());
        },
        _ => panic!("a bare trump names no allies"),
    }
    match parse_room_message(&chars("pTH")) {
        Some(RoomCommand::Play(c)) => assert_eq!(c, card("TH")),
        _ => panic!("play command should parse"),
    }
}

#[test]
fn malformed_room_commands_are_dropped() {
    assert!(parse_room_message(&chars("")).is_none());
    assert!(parse_room_message(&chars("q")).is_none());
    assert!(parse_room_message(&chars("bx")).is_none());
    assert!(parse_room_message(&chars("b12x")).is_none());
    // one past u32::MAX overflows and is rejected
    assert!(parse_room_message(&chars("b4294967296")).is_none());
    assert!(parse_room_message(&chars("a")).is_none());
    assert!(parse_room_message(&chars("aX")).is_none());
    assert!(parse_room_message(&chars("aC,A")).is_none());
    assert!(parse_room_message(&chars("aC,AC")).is_none());
    assert!(parse_room_message(&chars("aC,A,X")).is_none());
    assert!(parse_room_message(&chars("p")).is_none());
    assert!(parse_room_message(&chars("pT")).is_none());
    assert!(parse_room_message(&chars("pXX")).is_none());
}

#[test]
fn server_commands_parse() {
    match parse_server_message(&chars("cann")) {
        Some(ServerCommand::Create(name)) => assert_eq!(name, chars("ann")),
        _ => panic!("create should parse"),
    }
    match parse_server_message(&chars("jbob,Ab3xZ")) {
        Some(ServerCommand::Join(name, key)) => {
            assert_eq!(name, chars("bob"));
            assert_eq!(key, chars("Ab3xZ"));
        },
        _ => panic!("join should parse"),
    }
    // the key keeps any later commas
    match parse_server_message(&chars("jbob,a,b")) {
        Some(ServerCommand::Join(name, key)) => {
            assert_eq!(name, chars("bob"));
            assert_eq!(key, chars("a,b"));
        },
        _ => panic!("join should parse"),
    }
    assert!(parse_server_message(&chars("jnocomma")).is_none());
    assert!(parse_server_message(&chars("")).is_none());
    assert!(parse_server_message(&chars("x")).is_none());
}
