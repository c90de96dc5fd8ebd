use napoleon::deck::{Card, Deck, Suit};
use napoleon::game::{
    BiddingError, BiddingEvent, Game, GameSettings, GameState, Napoleon, PlayingError,
    PlayingEvent, PostBiddingError, PostBiddingEvent,
};

fn card(s: &str) -> Card {
    let mut chars = s.chars();
    let n = chars.next().unwrap();
    let s = chars.next().unwrap();
    Card::from_chars(s, n).unwrap()
}

fn hand_of(cards: &[&str]) -> Deck {
    let mut deck = Deck::new_empty();
    for c in cards {
        deck.push(card(c));
    }
    deck
}

fn two_player_game(h0: &[&str], h1: &[&str], ally_count: usize) -> Game {
    Game::new_with_hands(
        2,
        GameSettings { ally_count, hand_size: 5 },
        vec![hand_of(h0), hand_of(h1)],
    )
}

#[test]
fn bidding_out_of_turn_is_rejected() {
    let mut game = two_player_game(&["2H"], &["3H"], 0);
    assert_eq!(
        game.bid(1, Some(1)),
        Err(BiddingError::NotCurrentPlayer { current_player: 0 })
    );
    // the failed bid moved nothing: player 0 still bids first
    assert_eq!(game.bid(0, None), Ok(BiddingEvent::NextBidder { player_id: 1 }));
}

#[test]
fn bid_not_above_the_standing_bid_is_too_low() {
    let mut game = two_player_game(&["2H"], &["3H"], 0);
    assert_eq!(game.bid(0, Some(3)), Ok(BiddingEvent::NextBidder { player_id: 1 }));
    assert_eq!(game.bid(1, Some(3)), Err(BiddingError::BidTooLow { min: 4 }));
    assert_eq!(game.bid(1, Some(2)), Err(BiddingError::BidTooLow { min: 4 }));
}

#[test]
fn bid_above_hand_size_is_too_high() {
    let mut game = two_player_game(&["2H"], &["3H"], 0);
    assert_eq!(game.bid(0, Some(6)), Err(BiddingError::BidTooHigh { max: 5 }));
}

#[test]
fn all_passing_fails_with_no_bids_and_no_napoleon() {
    let mut game = two_player_game(&["2H"], &["3H"], 0);
    assert_eq!(game.bid(0, None), Ok(BiddingEvent::NextBidder { player_id: 1 }));
    assert_eq!(game.bid(1, None), Err(BiddingError::NoBids));
    match &game.state {
        GameState::Bidding { current_napoleon, .. } => assert!(current_napoleon.is_none()),
        _ => panic!("bidding should still be open"),
    }
}

#[test]
fn wrong_phase_is_a_protocol_error() {
    let mut game = two_player_game(&["2H"], &["3H"], 0);
    assert_eq!(
        game.pick_allies(0, Vec::new(), Suit::Hearts),
        Err(PostBiddingError::InvalidGameState)
    );
    assert_eq!(
        game.play_card(0, card("2H")),
        Err(PlayingError::InvalidGameState)
    );
}

#[test]
fn napoleon_is_never_their_own_ally() {
    // the napoleon (player 1) physically holds the named card AC
    let mut game = two_player_game(&["4C", "2H"], &["AC", "3H"], 1);
    assert_eq!(game.bid(0, None), Ok(BiddingEvent::NextBidder { player_id: 1 }));
    assert_eq!(
        game.bid(1, Some(2)),
        Ok(BiddingEvent::BiddingFinished {
            napoleon: Napoleon { player_id: 1, bid: 2 }
        })
    );
    assert_eq!(
        game.pick_allies(1, vec![card("AC")], Suit::Clubs),
        Ok(PostBiddingEvent::AlliesChosen { allies: Vec::new() })
    );
}

#[test]
fn ally_holding_a_named_card_is_recorded() {
    let mut game = two_player_game(&["4C", "2H"], &["AC", "3H"], 1);
    assert_eq!(game.bid(0, Some(2)), Ok(BiddingEvent::NextBidder { player_id: 1 }));
    assert_eq!(
        game.bid(1, None),
        Ok(BiddingEvent::BiddingFinished {
            napoleon: Napoleon { player_id: 0, bid: 2 }
        })
    );
    // player 0 (napoleon) names 3H; player 1 holds exactly that card
    assert_eq!(
        game.pick_allies(0, vec![card("3H")], Suit::Hearts),
        Ok(PostBiddingEvent::AlliesChosen { allies: vec![1] })
    );
}

#[test]
fn wrong_ally_count_is_rejected() {
    let mut game = two_player_game(&["4C"], &["AC"], 1);
    game.bid(0, None).unwrap();
    game.bid(1, Some(1)).unwrap();
    assert_eq!(
        game.pick_allies(1, Vec::new(), Suit::Clubs),
        Err(PostBiddingError::IncorrectAllyCount { expected: 1, received: 0 })
    );
    assert_eq!(
        game.pick_allies(0, vec![card("4C")], Suit::Clubs),
        Err(PostBiddingError::NotCurrentPlayer { current_player: 1 })
    );
}

#[test]
fn low_trump_beats_high_off_suit() {
    // trump is diamonds; P1 leads AS, P0 answers 2D (holds no spade):
    // the lone low trump wins the trick
    let mut game = two_player_game(&["2D", "3H"], &["AS", "4H"], 0);
    game.bid(0, None).unwrap();
    game.bid(1, Some(1)).unwrap();
    game.pick_allies(1, Vec::new(), Suit::Diamonds).unwrap();
    // the napoleon must open with trump, but holds none except... P1's hand
    // has no diamond, so any card may open
    assert_eq!(
        game.play_card(1, card("AS")),
        Ok(PlayingEvent::NextPlayer { player_id: 0, required_suit: Suit::Diamonds })
    );
    assert_eq!(
        game.play_card(0, card("2D")),
        Ok(PlayingEvent::RoundEnded { winner: 0, next_player: 0 })
    );
    assert_eq!(game.get_score(), &[1, 0]);
}

#[test]
fn highest_of_led_suit_wins_without_trump() {
    // trump is diamonds and none is played; hearts are led, the higher
    // heart wins even against an off-suit ace
    let mut game = two_player_game(&["KH", "2S"], &["3H", "AS"], 0);
    game.bid(0, None).unwrap();
    game.bid(1, Some(1)).unwrap();
    game.pick_allies(1, Vec::new(), Suit::Diamonds).unwrap();
    assert_eq!(
        game.play_card(1, card("3H")),
        Ok(PlayingEvent::NextPlayer { player_id: 0, required_suit: Suit::Diamonds })
    );
    assert_eq!(
        game.play_card(0, card("KH")),
        Ok(PlayingEvent::RoundEnded { winner: 0, next_player: 0 })
    );
    // second trick: spades led, the ace of spades wins
    assert_eq!(
        game.play_card(0, card("2S")),
        Ok(PlayingEvent::NextPlayer { player_id: 1, required_suit: Suit::Spades })
    );
    assert_eq!(
        game.play_card(1, card("AS")),
        Ok(PlayingEvent::GameEnded {
            combined_napoleon_score: 1,
            napoleon: Napoleon { player_id: 1, bid: 1 },
            allies: Vec::new(),
            final_winner: 1,
        })
    );
    assert_eq!(game.get_score(), &[1, 1]);
}

#[test]
fn suit_must_be_followed_when_possible() {
    let mut game = two_player_game(&["2C", "3H"], &["4C", "5C"], 0);
    game.bid(0, None).unwrap();
    game.bid(1, Some(1)).unwrap();
    game.pick_allies(1, Vec::new(), Suit::Clubs).unwrap();
    game.play_card(1, card("4C")).unwrap();
    // player 0 holds a club, so the heart is an illegal answer
    assert_eq!(game.play_card(0, card("3H")), Err(PlayingError::InvalidSuit));
    // and the hand is untouched by the rejected play
    assert!(game.get_hands()[0].contains(&card("3H")));
    assert_eq!(
        game.play_card(0, card("2C")),
        Ok(PlayingEvent::RoundEnded { winner: 1, next_player: 1 })
    );
}

#[test]
fn unheld_cards_and_wrong_turns_are_rejected_in_play() {
    let mut game = two_player_game(&["2C", "3H"], &["4C", "5C"], 0);
    game.bid(0, None).unwrap();
    game.bid(1, Some(1)).unwrap();
    game.pick_allies(1, Vec::new(), Suit::Clubs).unwrap();
    assert_eq!(
        game.play_card(0, card("2C")),
        Err(PlayingError::NotCurrentPlayer { current_player: 1 })
    );
    assert_eq!(game.play_card(1, card("AD")), Err(PlayingError::CardNotInHand));
}

#[test]
fn dealt_game_has_full_hands_and_open_bidding() {
    let game = Game::new(4, GameSettings { ally_count: 1, hand_size: 5 });
    assert_eq!(game.get_hands().len(), 4);
    for hand in game.get_hands() {
        assert_eq!(hand.len(), 5);
    }
    assert_eq!(game.get_score(), &[0, 0, 0, 0]);
    assert_eq!(game.get_settings().hand_size, 5);
    assert_eq!(game.get_settings().ally_count, 1);
    match &game.state {
        GameState::Bidding { current_player, current_napoleon } => {
            assert_eq!(*current_player, 0);
            assert!(current_napoleon.is_none());
        },
        _ => panic!("a fresh game opens with bidding"),
    }
}
