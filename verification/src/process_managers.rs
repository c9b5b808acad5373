//! The betting timer as a process manager: it follows the betting phase
//! rather than the positions of round and race starts.

pub mod start_race;
