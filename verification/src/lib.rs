//! Core of a real-time two-player hex capture game: one player walls cells
//! off, the other steers a mouse toward the board's rim. The crate holds the
//! geometry, the rules engine, the bot's move chooser, the seeded board
//! generator, the wire codec, and the room state machines; transport and
//! scheduling live outside it.
pub mod board;
pub mod bot;
pub mod bridge;
pub mod codec;
pub mod directory;
pub mod hex;
pub mod net;
pub mod rng;
pub mod room;
pub mod rules;
pub mod types;
