use vstd::prelude::*;

use crate::commands::{refused, view_result, CommandError, SERVER_SESSION};
use crate::events::{log, Event, RaceResults};
use crate::projections::{currently_racing, spec_currently_racing};

verus! {

pub type Input = ();

/// Ends the race in progress with its results.
#[derive(Debug, Clone, Copy, Default)]
pub struct FinishRace;

/// Only the server may finish a race, and only one in progress; it finishes
/// at `now` (seconds since 1970) with the simulated `results`.
pub open spec fn spec_finish_race(session_id: u128, s: Seq<Event>, results: RaceResults, now: u32) -> Result<Seq<Event>, CommandError> {
    if session_id != SERVER_SESSION {
        Err(CommandError::PlayersMayNotFinishRace)
    } else if spec_currently_racing(s) is None {
        Err(CommandError::RaceNotInProgress)
    } else {
        Ok(seq![Event::RaceFinished { time: now, results }])
    }
}

impl FinishRace {
    /// Finishes the race at the time `now` with its results.
    pub fn handle_at(session_id: u128, events: &im::Vector<Event>, input: Input, results: RaceResults, now: u32) -> (r: Result<Vec<Event>, CommandError>)
        ensures
            view_result(r) == spec_finish_race(session_id, log(*events), results, now),
    {
        if session_id != SERVER_SESSION {
            return Err(CommandError::PlayersMayNotFinishRace);
        }
        if currently_racing(events).is_none() {
            return Err(CommandError::RaceNotInProgress);
        }
        let v = vec![Event::RaceFinished { time: now, results }];
        proof {
            assert(v@ =~= seq![Event::RaceFinished { time: now, results }]);
        }
        Ok(v)
    }

    /// Finishes the race at the system clock's time with its results.
    pub fn handle(session_id: u128, events: &im::Vector<Event>, input: Input, results: RaceResults) -> (r: Result<Vec<Event>, CommandError>)
        ensures
            session_id != SERVER_SESSION ==> refused(r, CommandError::PlayersMayNotFinishRace),
            session_id == SERVER_SESSION && spec_currently_racing(log(*events)) is None ==> refused(
                r,
                CommandError::RaceNotInProgress,
            ),
            session_id == SERVER_SESSION && spec_currently_racing(log(*events)) is Some ==> (r matches Ok(v)
                && v@.len() == 1 && v@[0] is RaceFinished && v@[0]->RaceFinished_results == results),
    {
        FinishRace::handle_at(session_id, events, input, results, Event::now())
    }
}

} // verus!
