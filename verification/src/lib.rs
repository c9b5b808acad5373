//! Game rules of a monster-racing betting game, kept as an event log:
//! commands validate requests against the log and emit events, projections
//! read state back out of the log, and processors decide when the game moves on.

pub mod cards;
pub mod commands;
pub mod clock;
pub mod collections;
pub mod events;
pub mod game_id;
pub mod laws;
pub mod monsters;
pub mod process_managers;
pub mod processors;
pub mod projections;
pub mod random;
pub mod rounding;
