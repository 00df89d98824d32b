//! Round engine for a shared "guess the scrambled word" game.
//!
//! The library holds the verified core: the round state machine
//! ([`anagram::Anagram`]) that admits at most one active round at a time,
//! the score ledger ([`score::ScoreLedger`]), the word scrambler, the
//! command parsing, and the encoding of the events that are fanned out to
//! every connected observer ([`server_message::ServerMessage`]).
//!
//! Transport, timers and the notification bus itself live outside the
//! library: they call `start`, `guess` and `timeout` under exclusive
//! access, publish the returned messages, and arm or cancel the deadline
//! task that the returned value asks for.

pub mod anagram;
pub mod commands;
pub mod score;
pub mod server_message;
pub mod text;
