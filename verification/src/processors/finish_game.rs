use vstd::prelude::*;

use crate::commands::Command;
use crate::events::{log, log_at, log_len, Event};
use crate::projections::{game_finished, spec_game_finished};

verus! {

/// Declares the game over once it is.
#[derive(Debug, Clone, Copy, Default)]
pub struct FinishGame;

/// A game that is over is declared so, unless the latest event already did.
pub open spec fn finish_game_fires(s: Seq<Event>) -> bool {
    !(s.len() > 0 && s.last() is GameFinished) && spec_game_finished(s)
}

impl FinishGame {
    pub fn process(&self, events: &im::Vector<Event>) -> (command: Option<Command>)
        ensures
            command is Some <==> finish_game_fires(log(*events)),
            command matches Some(c) ==> c is FinishGame,
    {
        let n = log_len(events);
        if n > 0 {
            if let Event::GameFinished = log_at(events, n - 1) {
                return None;
            }
        }
        if game_finished(events) {
            return Some(Command::FinishGame(()));
        }
        None
    }
}

} // verus!
