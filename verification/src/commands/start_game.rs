use vstd::prelude::*;

use crate::commands::{refused, view_result, CommandError, SERVER_SESSION};
use crate::events::{log, Event, Odds};
use crate::projections::players::{all_players_ready, spec_all_players_ready};

verus! {

pub type Input = ();

/// Starts the game with its first round.
#[derive(Debug, Clone, Copy, Default)]
pub struct StartGame;

/// Only the server may start the game, and only when every player is ready;
/// the first round starts at `now` (seconds since 1970) with `odds`.
pub open spec fn spec_start_game(session_id: u128, s: Seq<Event>, odds: Odds, now: u32) -> Result<Seq<Event>, CommandError> {
    if session_id != SERVER_SESSION {
        Err(CommandError::PlayersMayNotStartRace)
    } else if !spec_all_players_ready(s) {
        Err(CommandError::GameStartNeedsReady)
    } else {
        Ok(seq![Event::RoundStarted { time: now, odds: Some(odds) }])
    }
}

impl StartGame {
    /// Starts the game at the time `now` with the odds of the first race.
    pub fn handle_at(session_id: u128, events: &im::Vector<Event>, input: Input, odds: Odds, now: u32) -> (r: Result<Vec<Event>, CommandError>)
        ensures
            view_result(r) == spec_start_game(session_id, log(*events), odds, now),
    {
        if session_id != SERVER_SESSION {
            return Err(CommandError::PlayersMayNotStartRace);
        }
        if !all_players_ready(events) {
            return Err(CommandError::GameStartNeedsReady);
        }
        let v = vec![Event::RoundStarted { time: now, odds: Some(odds) }];
        proof {
            assert(v@ =~= seq![Event::RoundStarted { time: now, odds: Some(odds) }]);
        }
        Ok(v)
    }

    /// Starts the game at the system clock's time with the odds of the first race.
    pub fn handle(session_id: u128, events: &im::Vector<Event>, input: Input, odds: Odds) -> (r: Result<Vec<Event>, CommandError>)
        ensures
            session_id != SERVER_SESSION ==> refused(r, CommandError::PlayersMayNotStartRace),
            session_id == SERVER_SESSION && !spec_all_players_ready(log(*events)) ==> refused(
                r,
                CommandError::GameStartNeedsReady,
            ),
            session_id == SERVER_SESSION && spec_all_players_ready(log(*events)) ==> (r matches Ok(v) && v@.len()
                == 1 && v@[0] is RoundStarted && v@[0]->RoundStarted_odds == Some(odds)),
    {
        StartGame::handle_at(session_id, events, input, odds, Event::now())
    }
}

} // verus!
