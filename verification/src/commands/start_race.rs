use vstd::prelude::*;

use crate::commands::{refused, view_result, CommandError, SERVER_SESSION};
use crate::events::Event;

verus! {

pub type Input = ();

/// Ends the betting and starts the race.
#[derive(Debug, Clone, Copy, Default)]
pub struct StartRace;

/// Only the server may start a race; it starts at `now` (seconds since 1970).
pub open spec fn spec_start_race(session_id: u128, now: u32) -> Result<Seq<Event>, CommandError> {
    if session_id != SERVER_SESSION {
        Err(CommandError::PlayersMayNotStartRace)
    } else {
        Ok(seq![Event::RaceStarted { time: now }])
    }
}

impl StartRace {
    /// Starts the race at the time `now`.
    pub fn handle_at(session_id: u128, events: &im::Vector<Event>, input: Input, now: u32) -> (r: Result<Vec<Event>, CommandError>)
        ensures
            view_result(r) == spec_start_race(session_id, now),
    {
        if session_id != SERVER_SESSION {
            return Err(CommandError::PlayersMayNotStartRace);
        }
        let v = vec![Event::RaceStarted { time: now }];
        proof {
            assert(v@ =~= seq![Event::RaceStarted { time: now }]);
        }
        Ok(v)
    }

    /// Starts the race at the system clock's time.
    pub fn handle(session_id: u128, events: &im::Vector<Event>, input: Input) -> (r: Result<Vec<Event>, CommandError>)
        ensures
            session_id != SERVER_SESSION ==> refused(r, CommandError::PlayersMayNotStartRace),
            session_id == SERVER_SESSION ==> (r matches Ok(v) && v@.len() == 1 && v@[0] is RaceStarted),
    {
        StartRace::handle_at(session_id, events, input, Event::now())
    }
}

} // verus!
