//! Rules engine and session bookkeeping for a turn-based shedding card game.

pub mod assets;
pub mod card;
pub mod connection;
pub mod conservation;
pub mod deck;
pub mod fetch;
pub mod game;
pub mod ids;
pub mod library;
pub mod msg;
pub mod pile;
pub mod player;
pub mod registry;
pub mod rules;
pub mod session;
pub mod table;
