//! The wire protocol: one line of text per command or event.
//!
//! Commands select their meaning by their first character; events are
//! rendered to a single line whose exact text the `*_text` spec functions
//! give. Numbers travel in decimal, suits and ranks as their single
//! identifying characters.

use crate::deck::{card_from_chars, number_char, suit_char, suit_from_char, Card, Suit};
use crate::game::GameSettings;
use crate::room::RoomEvent;
use crate::util::copy_vec;
use vstd::prelude::*;

verus! {

/// The decimal digit character for `d`.
pub open spec fn digit_char(d: int) -> char {
    if d == 0 {
        '0'
    } else if d == 1 {
        '1'
    } else if d == 2 {
        '2'
    } else if d == 3 {
        '3'
    } else if d == 4 {
        '4'
    } else if d == 5 {
        '5'
    } else if d == 6 {
        '6'
    } else if d == 7 {
        '7'
    } else if d == 8 {
        '8'
    } else {
        '9'
    }
}

/// The decimal text of a nonnegative number, most significant digit first.
pub open spec fn dec_digits(n: int) -> Seq<char>
    decreases n,
{
    if n < 10 {
        seq![digit_char(n)]
    } else {
        dec_digits(n / 10).push(digit_char(n % 10))
    }
}

/// The decimal text of an integer, with a minus sign when negative.
pub open spec fn int_digits(n: int) -> Seq<char> {
    if n < 0 {
        seq!['-'] + dec_digits(-n)
    } else {
        dec_digits(n)
    }
}

/// The digit character for `d`.
fn digit_of(d: usize) -> (c: char)
    requires
        d < 10,
    ensures
        c == digit_char(d as int),
{
    if d == 0 {
        '0'
    } else if d == 1 {
        '1'
    } else if d == 2 {
        '2'
    } else if d == 3 {
        '3'
    } else if d == 4 {
        '4'
    } else if d == 5 {
        '5'
    } else if d == 6 {
        '6'
    } else if d == 7 {
        '7'
    } else if d == 8 {
        '8'
    } else {
        '9'
    }
}

/// Renders `n` in decimal.
pub fn render_usize(n: usize) -> (r: Vec<char>)
    ensures
        r@ == dec_digits(n as int),
    decreases n,
{
    if n < 10 {
        let mut v: Vec<char> = Vec::new();
        v.push(digit_of(n));
        proof {
            assert(v@ =~= seq![digit_char(n as int)]);
        }
        v
    } else {
        let mut v = render_usize(n / 10);
        v.push(digit_of(n % 10));
        v
    }
}

/// Appends the decimal text of `n`.
fn push_dec(out: &mut Vec<char>, n: usize)
    ensures
        final(out)@ == old(out)@ + dec_digits(n as int),
{
    let mut d = render_usize(n);
    out.append(&mut d);
}

/// Appends the decimal text of `n`, minus sign included when negative.
fn push_int(out: &mut Vec<char>, n: i32)
    ensures
        final(out)@ == old(out)@ + int_digits(n as int),
{
    if n >= 0 {
        push_dec(out, n as usize);
    } else {
        out.push('-');
        let m = (-(n as i64)) as usize;
        proof {
            assert(m as int == -(n as int));
        }
        push_dec(out, m);
        proof {
            assert(final(out)@ =~= old(out)@ + int_digits(n as int));
        }
    }
}

/// Appends a copy of `other`.
fn push_all(out: &mut Vec<char>, other: &Vec<char>)
    ensures
        final(out)@ == old(out)@ + other@,
{
    let mut c = copy_vec(other);
    out.append(&mut c);
}

/// The two characters that name a card on the wire: rank, then suit.
pub open spec fn card_chars(c: Card) -> Seq<char> {
    seq![number_char(c.number), suit_char(c.suit)]
}

/// Appends a card's rank and suit characters.
fn push_card(out: &mut Vec<char>, c: &Card)
    ensures
        final(out)@ == old(out)@ + card_chars(*c),
{
    out.push(c.number.to_char());
    out.push(c.suit.to_char());
    proof {
        assert(final(out)@ =~= old(out)@ + card_chars(*c));
    }
}

/// A hand as comma-separated two-character cards.
pub open spec fn hand_text(cards: Seq<Card>) -> Seq<char>
    decreases cards.len(),
{
    if cards.len() == 0 {
        Seq::empty()
    } else if cards.len() == 1 {
        card_chars(cards[0])
    } else {
        hand_text(cards.drop_last()) + seq![','] + card_chars(cards.last())
    }
}

/// Player ids as comma-separated decimals.
pub open spec fn ids_text(ids: Seq<usize>) -> Seq<char>
    decreases ids.len(),
{
    if ids.len() == 0 {
        Seq::empty()
    } else if ids.len() == 1 {
        dec_digits(ids[0] as int)
    } else {
        ids_text(ids.drop_last()) + seq![','] + dec_digits(ids.last() as int)
    }
}

/// Named ally cards, each as `,rank,suit`.
pub open spec fn ally_cards_text(cards: Seq<Card>) -> Seq<char>
    decreases cards.len(),
{
    if cards.len() == 0 {
        Seq::empty()
    } else {
        ally_cards_text(cards.drop_last()) + seq![
            ',',
            number_char(cards.last().number),
            ',',
            suit_char(cards.last().suit),
        ]
    }
}

/// Room occupants, each as `,name,id`.
pub open spec fn players_text(players: Seq<(Vec<char>, usize)>) -> Seq<char>
    decreases players.len(),
{
    if players.len() == 0 {
        Seq::empty()
    } else {
        players_text(players.drop_last()) + seq![','] + players.last().0@ + seq![','] + dec_digits(
            players.last().1 as int,
        )
    }
}

/// Ally session ids, each as `,id`.
pub open spec fn over_allies_text(ids: Seq<usize>) -> Seq<char>
    decreases ids.len(),
{
    if ids.len() == 0 {
        Seq::empty()
    } else {
        over_allies_text(ids.drop_last()) + seq![','] + dec_digits(ids.last() as int)
    }
}

/// The game settings as the JSON object `{"ally_count":A,"hand_size":H}`.
pub open spec fn settings_json(s: GameSettings) -> Seq<char> {
    seq!['{', '"', 'a', 'l', 'l', 'y', '_', 'c', 'o', 'u', 'n', 't', '"', ':'] + dec_digits(
        s.ally_count as int,
    ) + seq![',', '"', 'h', 'a', 'n', 'd', '_', 's', 'i', 'z', 'e', '"', ':'] + dec_digits(
        s.hand_size as int,
    ) + seq!['}']
}

/// Appends the JSON rendering of the settings.
fn push_settings_json(out: &mut Vec<char>, s: &GameSettings)
    ensures
        final(out)@ == old(out)@ + settings_json(*s),
{
    out.push('{');
    out.push('"');
    out.push('a');
    out.push('l');
    out.push('l');
    out.push('y');
    out.push('_');
    out.push('c');
    out.push('o');
    out.push('u');
    out.push('n');
    out.push('t');
    out.push('"');
    out.push(':');
    push_dec(out, s.ally_count);
    out.push(',');
    out.push('"');
    out.push('h');
    out.push('a');
    out.push('n');
    out.push('d');
    out.push('_');
    out.push('s');
    out.push('i');
    out.push('z');
    out.push('e');
    out.push('"');
    out.push(':');
    let hs = s.hand_size as usize;
    proof {
        assert(hs as int == s.hand_size as int);
    }
    push_dec(out, hs);
    out.push('}');
    proof {
        assert(final(out)@ =~= old(out)@ + settings_json(*s));
    }
}

/// Whether `c` is a decimal digit.
pub open spec fn is_digit(c: char) -> bool {
    '0' <= c <= '9'
}

/// The value of a digit character.
pub open spec fn digit_val(c: char) -> int {
    c as int - '0' as int
}

/// The number a string of digits denotes, most significant digit first.
pub open spec fn digits_val(s: Seq<char>) -> int
    decreases s.len(),
{
    if s.len() == 0 {
        0
    } else {
        digits_val(s.drop_last()) * 10 + digit_val(s.last())
    }
}

/// The number a piece of text denotes: at least one character, digits only,
/// and a value that fits in 32 bits; anything else fails.
pub open spec fn parse_u32(s: Seq<char>) -> Option<u32> {
    if s.len() >= 1 && (forall|i: int| 0 <= i < s.len() ==> is_digit(#[trigger] s[i]))
        && digits_val(s) <= u32::MAX {
        Some(digits_val(s) as u32)
    } else {
        None
    }
}

/// A digit string's value never shrinks as the string grows.
proof fn lemma_digits_val_grows(s: Seq<char>, k: int)
    requires
        0 <= k <= s.len(),
        forall|i: int| 0 <= i < s.len() ==> is_digit(#[trigger] s[i]),
    ensures
        0 <= digits_val(s.take(k)) <= digits_val(s),
    decreases s.len(),
{
    if s.len() == 0 {
        assert(s.take(0) =~= s);
    } else if k == s.len() {
        assert(s.take(k) =~= s);
        lemma_digits_val_grows(s.drop_last(), k - 1);
        assert(s.drop_last().take(k - 1) =~= s.drop_last());
    } else {
        assert(s.take(k) =~= s.drop_last().take(k));
        lemma_digits_val_grows(s.drop_last(), k);
    }
}

/// Parses the digits of `s` from position `from` to the end as a `u32`.
fn parse_u32_from(s: &Vec<char>, from: usize) -> (r: Option<u32>)
    requires
        from <= s@.len(),
    ensures
        r == parse_u32(s@.skip(from as int)),
{
    let ghost text = s@.skip(from as int);
    if from == s.len() {
        return None;
    }
    let mut acc: u32 = 0;
    let mut i: usize = from;
    while i < s.len()
        invariant
            from <= i <= s@.len(),
            text == s@.skip(from as int),
            forall|j: int| 0 <= j < i - from ==> is_digit(#[trigger] text[j]),
            acc as int == digits_val(text.take(i - from)),
        decreases s@.len() - i,
    {
        let c = s[i];
        if !(c >= '0' && c <= '9') {
            proof {
                assert(!is_digit(text[i - from]));
            }
            return None;
        }
        let d = (c as u32) - ('0' as u32);
        if acc > (u32::MAX - d) / 10 {
            proof {
                assert(text.take(i + 1 - from).drop_last() =~= text.take(i - from));
                assert(digits_val(text.take(i + 1 - from)) == acc * 10 + d);
                assert(digits_val(text.take(i + 1 - from)) > u32::MAX) by (nonlinear_arith)
                    requires
                        digits_val(text.take(i + 1 - from)) == acc * 10 + d,
                        acc > (u32::MAX - d) / 10,
                        0 <= d <= 9,
                        u32::MAX == 0xffff_ffff,
                ;
                if forall|j: int| 0 <= j < text.len() ==> is_digit(#[trigger] text[j]) {
                    lemma_digits_val_grows(text, i + 1 - from);
                }
            }
            return None;
        }
        acc = acc * 10 + d;
        i = i + 1;
        proof {
            assert(text.take(i - from).drop_last() =~= text.take(i - 1 - from));
            assert(text.take(i - from).last() == text[i - 1 - from]);
        }
    }
    proof {
        assert(text.take(text.len() as int) =~= text);
    }
    Some(acc)
}

/// A room-level command, already parsed: start the game, bid or pass, name
/// the allies and the trump, or play a card.
pub enum RoomCommand {
    Start,
    Bid(Option<u32>),
    PickAllies(Vec<Card>, Suit),
    Play(Card),
}

/// The spec-level shape of a parsed room command.
pub enum RoomCommandModel {
    Start,
    Bid(Option<u32>),
    PickAllies(Seq<Card>, Suit),
    Play(Card),
}

impl View for RoomCommand {
    type V = RoomCommandModel;

    open spec fn view(&self) -> RoomCommandModel {
        match self {
            RoomCommand::Start => RoomCommandModel::Start,
            RoomCommand::Bid(b) => RoomCommandModel::Bid(*b),
            RoomCommand::PickAllies(cards, trump) => RoomCommandModel::PickAllies(cards@, *trump),
            RoomCommand::Play(c) => RoomCommandModel::Play(*c),
        }
    }
}

/// The repeated `,rank,suit` groups that name the ally cards; the whole
/// text must be made of such groups.
pub open spec fn parse_ally_groups(s: Seq<char>) -> Option<Seq<Card>>
    decreases s.len(),
{
    if s.len() == 0 {
        Some(Seq::empty())
    } else if s.len() >= 4 && s[0] == ',' && s[2] == ',' {
        match card_from_chars(s[3], s[1]) {
            Ok(c) => match parse_ally_groups(s.skip(4)) {
                Some(rest) => Some(seq![c] + rest),
                None => None,
            },
            Err(_) => None,
        }
    } else {
        None
    }
}

/// Parses the ally-card groups of `s` from position `from` to the end.
fn parse_ally_cards(s: &Vec<char>, from: usize) -> (r: Option<Vec<Card>>)
    requires
        from <= s@.len(),
    ensures
        match parse_ally_groups(s@.skip(from as int)) {
            Some(cards) => r matches Some(v) && v@ == cards,
            None => r is None,
        },
    decreases s@.len() - from,
{
    if from == s.len() {
        let r: Vec<Card> = Vec::new();
        proof {
            assert(s@.skip(from as int) =~= Seq::<char>::empty());
        }
        return Some(r);
    }
    if s.len() - from >= 4 && s[from] == ',' && s[from + 2] == ',' {
        let card = match Card::from_chars(s[from + 3], s[from + 1]) {
            Ok(c) => c,
            Err(_) => {
                return None;
            },
        };
        proof {
            assert(s@.skip(from as int).skip(4) =~= s@.skip(from as int + 4));
        }
        let mut rest = match parse_ally_cards(s, from + 4) {
            Some(v) => v,
            None => {
                return None;
            },
        };
        let ghost rest_cards = rest@;
        let mut out: Vec<Card> = Vec::new();
        out.push(card);
        out.append(&mut rest);
        proof {
            assert(out@ =~= seq![card] + rest_cards);
        }
        return Some(out);
    }
    None
}

/// The room command a line of text denotes, if any: `s` starts the game,
/// `b` bids (or passes when bare), `a` names the trump and the allies, `p`
/// plays a card.
pub open spec fn parse_room_command(s: Seq<char>) -> Option<RoomCommandModel> {
    if s.len() == 0 {
        None
    } else if s[0] == 's' {
        Some(RoomCommandModel::Start)
    } else if s[0] == 'b' {
        if s.len() == 1 {
            Some(RoomCommandModel::Bid(None))
        } else {
            match parse_u32(s.skip(1)) {
                Some(v) => Some(RoomCommandModel::Bid(Some(v))),
                None => None,
            }
        }
    } else if s[0] == 'a' {
        if s.len() < 2 {
            None
        } else {
            match suit_from_char(s[1]) {
                Ok(trump) => match parse_ally_groups(s.skip(2)) {
                    Some(cards) => Some(RoomCommandModel::PickAllies(cards, trump)),
                    None => None,
                },
                Err(_) => None,
            }
        }
    } else if s[0] == 'p' {
        if s.len() < 3 {
            None
        } else {
            match card_from_chars(s[2], s[1]) {
                Ok(c) => Some(RoomCommandModel::Play(c)),
                Err(_) => None,
            }
        }
    } else {
        None
    }
}

/// Parses one line of text into a room command.
pub fn parse_room_message(s: &Vec<char>) -> (r: Option<RoomCommand>)
    ensures
        match parse_room_command(s@) {
            Some(cmd) => r matches Some(c) && c@ == cmd,
            None => r is None,
        },
{
    if s.len() == 0 {
        return None;
    }
    let first = s[0];
    if first == 's' {
        Some(RoomCommand::Start)
    } else if first == 'b' {
        if s.len() == 1 {
            Some(RoomCommand::Bid(None))
        } else {
            match parse_u32_from(s, 1) {
                Some(v) => Some(RoomCommand::Bid(Some(v))),
                None => None,
            }
        }
    } else if first == 'a' {
        if s.len() < 2 {
            return None;
        }
        let trump = match Suit::from_char(s[1]) {
            Ok(t) => t,
            Err(_) => {
                return None;
            },
        };
        match parse_ally_cards(s, 2) {
            Some(cards) => Some(RoomCommand::PickAllies(cards, trump)),
            None => None,
        }
    } else if first == 'p' {
        if s.len() < 3 {
            return None;
        }
        match Card::from_chars(s[2], s[1]) {
            Ok(c) => Some(RoomCommand::Play(c)),
            Err(_) => None,
        }
    } else {
        None
    }
}

/// A registry-level command: create a room, or join one by key.
pub enum ServerCommand {
    Create(Vec<char>),
    Join(Vec<char>, Vec<char>),
}

/// The spec-level shape of a parsed registry command.
pub enum ServerCommandModel {
    Create(Seq<char>),
    Join(Seq<char>, Seq<char>),
}

impl View for ServerCommand {
    type V = ServerCommandModel;

    open spec fn view(&self) -> ServerCommandModel {
        match self {
            ServerCommand::Create(name) => ServerCommandModel::Create(name@),
            ServerCommand::Join(name, key) => ServerCommandModel::Join(name@, key@),
        }
    }
}

/// The registry command a line of text denotes, if any: `c` with a name
/// creates a room; `j` with a name, a comma and a key joins one.
pub open spec fn parse_server_command(s: Seq<char>) -> Option<ServerCommandModel> {
    if s.len() == 0 {
        None
    } else if s[0] == 'c' {
        Some(ServerCommandModel::Create(s.skip(1)))
    } else if s[0] == 'j' {
        match s.index_of_first(',') {
            Some(i) => Some(ServerCommandModel::Join(s.subrange(1, i), s.skip(i + 1))),
            None => None,
        }
    } else {
        None
    }
}

/// Copies `s[from..to]` into a fresh vector.
fn slice_chars(s: &Vec<char>, from: usize, to: usize) -> (r: Vec<char>)
    requires
        from <= to <= s@.len(),
    ensures
        r@ == s@.subrange(from as int, to as int),
{
    let mut out: Vec<char> = Vec::new();
    let mut i: usize = from;
    while i < to
        invariant
            from <= i <= to <= s@.len(),
            out@ == s@.subrange(from as int, i as int),
        decreases to - i,
    {
        out.push(s[i]);
        i = i + 1;
        proof {
            assert(out@ =~= s@.subrange(from as int, i as int));
        }
    }
    out
}

/// Parses one line of text into a registry command.
pub fn parse_server_message(s: &Vec<char>) -> (r: Option<ServerCommand>)
    ensures
        match parse_server_command(s@) {
            Some(cmd) => r matches Some(c) && c@ == cmd,
            None => r is None,
        },
{
    if s.len() == 0 {
        return None;
    }
    let first = s[0];
    if first == 'c' {
        let name = slice_chars(s, 1, s.len());
        proof {
            assert(name@ =~= s@.skip(1));
        }
        Some(ServerCommand::Create(name))
    } else if first == 'j' {
        let mut i: usize = 0;
        while i < s.len() && s[i] != ','
            invariant
                i <= s@.len(),
                forall|j: int| 0 <= j < i ==> s@[j] != ',',
            decreases s@.len() - i,
        {
            i = i + 1;
        }
        if i == s.len() {
            proof {
                s@.index_of_first_ensures(',');
                if s@.index_of_first(',') is Some {
                    let k = s@.index_of_first(',').unwrap();
                    assert(s@[k] != ',');
                }
            }
            return None;
        }
        proof {
            s@.index_of_first_ensures(',');
            assert(s@.contains(','));
            assert(s@.index_of_first(',') == Some(i as int));
        }
        let name = slice_chars(s, 1, i);
        let key = slice_chars(s, i + 1, s.len());
        proof {
            assert(key@ =~= s@.skip(i + 1));
        }
        Some(ServerCommand::Join(name, key))
    } else {
        None
    }
}

/// The line of text that announces an event to a connection.
pub open spec fn event_text(e: RoomEvent) -> Seq<char> {
    match e {
        RoomEvent::JoinedRoom { key, host, players } => seq!['e'] + key@ + seq![','] + dec_digits(
            host as int,
        ) + players_text(players@),
        RoomEvent::PlayerJoined { player_id, username } => seq!['j'] + username@ + seq![',']
            + dec_digits(player_id as int),
        RoomEvent::GameStarted { player_order, game_settings } => seq!['s'] + ids_text(
            player_order@,
        ) + seq!['\n'] + settings_json(game_settings),
        RoomEvent::PlayerHand { hand } => seq!['h'] + hand_text(hand@),
        RoomEvent::PlayerBid { player_id, bid } => seq!['b', 'p'] + dec_digits(player_id as int) + (
        match bid {
            Some(b) => seq![','] + dec_digits(b as int),
            None => Seq::empty(),
        }),
        RoomEvent::NextBidder { player_id } => seq!['b', 'n'] + dec_digits(player_id as int),
        RoomEvent::BiddingOver { napoleon_id, bid } => seq!['b', 'o'] + dec_digits(bid as int)
            + seq![','] + dec_digits(napoleon_id as int),
        RoomEvent::NoBids => seq!['n', 'b'],
        RoomEvent::BecomeAlly => seq!['a', 'b'],
        RoomEvent::AlliesChosen { allies, trump_suit } => seq!['a', 'c', suit_char(trump_suit)]
            + ally_cards_text(allies@),
        RoomEvent::CardPlayed { player_id, card } => seq!['p'] + dec_digits(player_id as int)
            + seq![','] + card_chars(card),
        RoomEvent::NextPlayer { player_id, required_suit } => seq!['n'] + dec_digits(
            player_id as int,
        ) + (match required_suit {
            Some(s) => seq![',', suit_char(s)],
            None => Seq::empty(),
        }),
        RoomEvent::RoundOver { winner } => seq!['r'] + dec_digits(winner as int),
        RoomEvent::GameOver {
            allies,
            napoleon_score_delta,
            player_score_delta,
            napoleon_bet,
            combined_napoleon_score,
        } => seq!['g'] + int_digits(napoleon_score_delta as int) + seq![','] + int_digits(
            player_score_delta as int,
        ) + seq![','] + dec_digits(napoleon_bet as int) + seq![','] + dec_digits(
            combined_napoleon_score as int,
        ) + over_allies_text(allies@),
    }
}

/// The greeting that hands a fresh connection its session id.
pub open spec fn session_greeting_text(id: usize) -> Seq<char> {
    seq!['c'] + dec_digits(id as int)
}

/// Renders the greeting that hands a fresh connection its session id.
pub fn session_greeting(id: usize) -> (r: Vec<char>)
    ensures
        r@ == session_greeting_text(id),
{
    let mut out: Vec<char> = Vec::new();
    out.push('c');
    push_dec(&mut out, id);
    proof {
        assert(out@ =~= session_greeting_text(id));
    }
    out
}

/// Renders an event as its single line of wire text.
pub fn serialize_event(e: &RoomEvent) -> (r: Vec<char>)
    ensures
        r@ == event_text(*e),
{
    let mut out: Vec<char> = Vec::new();
    match e {
        RoomEvent::JoinedRoom { key, host, players } => {
            out.push('e');
            push_all(&mut out, key);
            out.push(',');
            push_dec(&mut out, *host);
            let ghost prefix = out@;
            let mut i: usize = 0;
            while i < players.len()
                invariant
                    i <= players@.len(),
                    out@ == prefix + players_text(players@.take(i as int)),
                decreases players@.len() - i,
            {
                out.push(',');
                push_all(&mut out, &players[i].0);
                out.push(',');
                push_dec(&mut out, players[i].1);
                i = i + 1;
                proof {
                    assert(players@.take(i as int).drop_last() =~= players@.take(i - 1));
                    assert(out@ =~= prefix + players_text(players@.take(i as int)));
                }
            }
            proof {
                assert(players@.take(players@.len() as int) =~= players@);
            }
        },
        RoomEvent::PlayerJoined { player_id, username } => {
            out.push('j');
            push_all(&mut out, username);
            out.push(',');
            push_dec(&mut out, *player_id);
        },
        RoomEvent::GameStarted { player_order, game_settings } => {
            out.push('s');
            let ghost prefix = out@;
            let mut i: usize = 0;
            while i < player_order.len()
                invariant
                    i <= player_order@.len(),
                    out@ == prefix + ids_text(player_order@.take(i as int)),
                decreases player_order@.len() - i,
            {
                if i > 0 {
                    out.push(',');
                }
                push_dec(&mut out, player_order[i]);
                i = i + 1;
                proof {
                    assert(player_order@.take(i as int).drop_last() =~= player_order@.take(i - 1));
                    assert(out@ =~= prefix + ids_text(player_order@.take(i as int)));
                }
            }
            proof {
                assert(player_order@.take(player_order@.len() as int) =~= player_order@);
            }
            out.push('\n');
            push_settings_json(&mut out, game_settings);
        },
        RoomEvent::PlayerHand { hand } => {
            out.push('h');
            let cards = hand.clone().into_iter();
            let ghost prefix = out@;
            let mut i: usize = 0;
            while i < cards.len()
                invariant
                    i <= cards@.len(),
                    out@ == prefix + hand_text(cards@.take(i as int)),
                decreases cards@.len() - i,
            {
                if i > 0 {
                    out.push(',');
                }
                push_card(&mut out, &cards[i]);
                i = i + 1;
                proof {
                    assert(cards@.take(i as int).drop_last() =~= cards@.take(i - 1));
                    assert(out@ =~= prefix + hand_text(cards@.take(i as int)));
                }
            }
            proof {
                assert(cards@.take(cards@.len() as int) =~= cards@);
            }
        },
        RoomEvent::PlayerBid { player_id, bid } => {
            out.push('b');
            out.push('p');
            push_dec(&mut out, *player_id);
            match bid {
                Some(b) => {
                    out.push(',');
                    let bu = *b as usize;
                    proof {
                        assert(bu as int == *b as int);
                    }
                    push_dec(&mut out, bu);
                },
                None => {},
            }
        },
        RoomEvent::NextBidder { player_id } => {
            out.push('b');
            out.push('n');
            push_dec(&mut out, *player_id);
        },
        RoomEvent::BiddingOver { napoleon_id, bid } => {
            out.push('b');
            out.push('o');
            let bu = *bid as usize;
            proof {
                assert(bu as int == *bid as int);
            }
            push_dec(&mut out, bu);
            out.push(',');
            push_dec(&mut out, *napoleon_id);
        },
        RoomEvent::NoBids => {
            out.push('n');
            out.push('b');
        },
        RoomEvent::BecomeAlly => {
            out.push('a');
            out.push('b');
        },
        RoomEvent::AlliesChosen { allies, trump_suit } => {
            out.push('a');
            out.push('c');
            out.push(trump_suit.to_char());
            let ghost prefix = out@;
            let mut i: usize = 0;
            while i < allies.len()
                invariant
                    i <= allies@.len(),
                    out@ == prefix + ally_cards_text(allies@.take(i as int)),
                decreases allies@.len() - i,
            {
                out.push(',');
                out.push(allies[i].number.to_char());
                out.push(',');
                out.push(allies[i].suit.to_char());
                i = i + 1;
                proof {
                    assert(allies@.take(i as int).drop_last() =~= allies@.take(i - 1));
                    assert(out@ =~= prefix + ally_cards_text(allies@.take(i as int)));
                }
            }
            proof {
                assert(allies@.take(allies@.len() as int) =~= allies@);
            }
        },
        RoomEvent::CardPlayed { player_id, card } => {
            out.push('p');
            push_dec(&mut out, *player_id);
            out.push(',');
            push_card(&mut out, card);
        },
        RoomEvent::NextPlayer { player_id, required_suit } => {
            out.push('n');
            push_dec(&mut out, *player_id);
            match required_suit {
                Some(s) => {
                    out.push(',');
                    out.push(s.to_char());
                },
                None => {},
            }
        },
        RoomEvent::RoundOver { winner } => {
            out.push('r');
            push_dec(&mut out, *winner);
        },
        RoomEvent::GameOver {
            allies,
            napoleon_score_delta,
            player_score_delta,
            napoleon_bet,
            combined_napoleon_score,
        } => {
            out.push('g');
            push_int(&mut out, *napoleon_score_delta);
            out.push(',');
            push_int(&mut out, *player_score_delta);
            out.push(',');
            let bu = *napoleon_bet as usize;
            let cu = *combined_napoleon_score as usize;
            proof {
                assert(bu as int == *napoleon_bet as int);
                assert(cu as int == *combined_napoleon_score as int);
            }
            push_dec(&mut out, bu);
            out.push(',');
            push_dec(&mut out, cu);
            let ghost prefix = out@;
            let mut i: usize = 0;
            while i < allies.len()
                invariant
                    i <= allies@.len(),
                    out@ == prefix + over_allies_text(allies@.take(i as int)),
                decreases allies@.len() - i,
            {
                out.push(',');
                push_dec(&mut out, allies[i]);
                i = i + 1;
                proof {
                    assert(allies@.take(i as int).drop_last() =~= allies@.take(i - 1));
                    assert(out@ =~= prefix + over_allies_text(allies@.take(i as int)));
                }
            }
            proof {
                assert(allies@.take(allies@.len() as int) =~= allies@);
            }
        },
    }
    proof {
        assert(out@ =~= event_text(*e));
    }
    out
}

} // verus!
