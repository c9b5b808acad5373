use vstd::prelude::*;

use crate::commands::{refused, view_result, CommandError, SERVER_SESSION};
use crate::events::{log, Event, Odds};
use crate::monsters::Monster;
use crate::projections::monsters::{monsters, spec_monsters};
use crate::projections::players::{all_players_ready, spec_all_players_ready};
use crate::projections::{
    race_seed_for_round, round, spec_race_seed_for_round, spec_round, starts_with_creation,
};

verus! {

pub type Input = ();

/// Starts the next round of bets.
#[derive(Debug, Clone, Copy, Default)]
pub struct StartRound;

/// Only the server may start a round, and only when every player is ready; the
/// round starts at `now` (seconds since 1970) with `odds` for its race.
pub open spec fn spec_start_round(session_id: u128, s: Seq<Event>, odds: Odds, now: u32) -> Result<Seq<Event>, CommandError> {
    if session_id != SERVER_SESSION {
        Err(CommandError::PlayersMayNotStartRound)
    } else if !spec_all_players_ready(s) {
        Err(CommandError::RoundStartNeedsReady)
    } else {
        Ok(seq![Event::RoundStarted { time: now, odds: Some(odds) }])
    }
}

/// The race seed and the monsters of the round after the current one, from
/// which that round's odds are simulated.
pub fn next_round_monsters(events: &im::Vector<Event>) -> (next: ([Monster; 3], u32))
    requires
        starts_with_creation(log(*events)),
        spec_round(log(*events)) < u32::MAX,
    ensures
        log(*events).len() > 0 ==> next.1 == spec_race_seed_for_round(
            log(*events)[0]->game_id,
            (spec_round(log(*events)) + 1) as u32,
        ),
        next.0@ == spec_monsters(log(*events), next.1),
{
    let seed = race_seed_for_round(events, round(events) + 1);
    (monsters(events, seed), seed)
}

impl StartRound {
    /// Starts the round at the time `now` with the odds of its race.
    pub fn handle_at(session_id: u128, events: &im::Vector<Event>, input: Input, odds: Odds, now: u32) -> (r: Result<Vec<Event>, CommandError>)
        ensures
            view_result(r) == spec_start_round(session_id, log(*events), odds, now),
    {
        if session_id != SERVER_SESSION {
            return Err(CommandError::PlayersMayNotStartRound);
        }
        if !all_players_ready(events) {
            return Err(CommandError::RoundStartNeedsReady);
        }
        let v = vec![Event::RoundStarted { time: now, odds: Some(odds) }];
        proof {
            assert(v@ =~= seq![Event::RoundStarted { time: now, odds: Some(odds) }]);
        }
        Ok(v)
    }

    /// Starts the round at the system clock's time with the odds of its race.
    pub fn handle(session_id: u128, events: &im::Vector<Event>, input: Input, odds: Odds) -> (r: Result<Vec<Event>, CommandError>)
        ensures
            session_id != SERVER_SESSION ==> refused(r, CommandError::PlayersMayNotStartRound),
            session_id == SERVER_SESSION && !spec_all_players_ready(log(*events)) ==> refused(
                r,
                CommandError::RoundStartNeedsReady,
            ),
            session_id == SERVER_SESSION && spec_all_players_ready(log(*events)) ==> (r matches Ok(v) && v@.len()
                == 1 && v@[0] is RoundStarted && v@[0]->RoundStarted_odds == Some(odds)),
    {
        StartRound::handle_at(session_id, events, input, odds, Event::now())
    }
}

} // verus!
