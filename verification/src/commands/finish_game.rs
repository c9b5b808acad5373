use vstd::prelude::*;

use crate::commands::{view_result, CommandError, SERVER_SESSION};
use crate::events::{log, log_at, log_len, Event};
use crate::projections::{game_finished, spec_game_finished};

verus! {

pub type Input = ();

/// Declares a game over.
#[derive(Debug, Clone, Copy, Default)]
pub struct FinishGame;

/// Only the server may finish a game, and only one that is over; declaring it
/// over twice in a row records nothing.
pub open spec fn spec_finish_game(session_id: u128, s: Seq<Event>) -> Result<Seq<Event>, CommandError> {
    if session_id != SERVER_SESSION {
        Err(CommandError::PlayersMayNotFinishGame)
    } else if !spec_game_finished(s) {
        Err(CommandError::GameNotFinished)
    } else if s.len() > 0 && s.last() is GameFinished {
        Ok(Seq::empty())
    } else {
        Ok(seq![Event::GameFinished])
    }
}

impl FinishGame {
    pub fn handle(session_id: u128, events: &im::Vector<Event>, input: Input) -> (r: Result<Vec<Event>, CommandError>)
        ensures
            view_result(r) == spec_finish_game(session_id, log(*events)),
    {
        if session_id != SERVER_SESSION {
            return Err(CommandError::PlayersMayNotFinishGame);
        }
        if !game_finished(events) {
            return Err(CommandError::GameNotFinished);
        }
        let n = log_len(events);
        if n > 0 {
            if let Event::GameFinished = log_at(events, n - 1) {
                let v: Vec<Event> = Vec::new();
                proof {
                    assert(v@ =~= Seq::<Event>::empty());
                }
                return Ok(v);
            }
        }
        let v = vec![Event::GameFinished];
        proof {
            assert(v@ =~= seq![Event::GameFinished]);
        }
        Ok(v)
    }
}

} // verus!
