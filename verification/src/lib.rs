//! Verified core of a Napoleon card-game server.
//!
//! The library holds everything that can be reasoned about as pure logic:
//! the card and deck model, the game state machine, the room orchestrator
//! (as a state-plus-command to state-plus-directives machine), the session
//! registry, and the wire-protocol codec. The surrounding process (actor
//! scheduling, websockets, logging) lives outside and only moves plain
//! values in and out of these types.

pub mod deck;
pub mod game;
pub mod game_server;
pub mod room;
pub mod util;
pub mod wire;
