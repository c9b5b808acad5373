use vstd::prelude::*;

use crate::commands::Command;
use crate::events::{log, log_at, log_len, Event};
use crate::projections::players::{all_players_ready, spec_all_players_ready};

verus! {

/// Starts the game once the last player gets ready.
#[derive(Debug, Clone, Copy, Default)]
pub struct StartGame;

/// The game starts when the latest event readied a player and every player is ready.
pub open spec fn start_game_fires(s: Seq<Event>) -> bool {
    s.len() > 0 && s.last() is PlayerReady && spec_all_players_ready(s)
}

impl StartGame {
    pub fn process(&self, events: &im::Vector<Event>) -> (command: Option<Command>)
        ensures
            command is Some <==> start_game_fires(log(*events)),
            command matches Some(c) ==> c is StartGame,
    {
        let n = log_len(events);
        if n == 0 {
            return None;
        }
        if let Event::PlayerReady { .. } = log_at(events, n - 1) {
            if all_players_ready(events) {
                return Some(Command::StartGame(()));
            }
        }
        None
    }
}

} // verus!
