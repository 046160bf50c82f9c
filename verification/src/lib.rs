//! Verified client logic for a turn-based elevator-control simulation game.
//!
//! The library holds the game's data model, the two decision policies
//! (random and up/down sweep), the session bookkeeping, and the driver
//! state machine. Network transport and JSON encoding live outside the
//! library; they exchange plain values with it.

pub mod driver;
pub mod policy;
pub mod session;
pub mod state;
