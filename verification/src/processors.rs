//! Decisions that move a game on without a player's request: each processor
//! reads the log (and the clock) and may issue a command; alarms tell the
//! server when to look again.

use vstd::prelude::*;

use crate::commands::{finish_race::spec_finish_race, start_game::spec_start_game, start_race::spec_start_race};
use crate::commands::{Command, CommandError, Environment, SERVER_SESSION};
use crate::events::{log, Event, Odds, RaceResults};

pub mod finish_game;
pub mod finish_race;
pub mod race_timeout;
pub mod start_game;
pub mod start_race;
pub mod start_round;

use race_timeout::{race_alarm, race_timeout_fires};
use start_game::start_game_fires;
use start_race::{betting_alarm, start_race_fires};

verus! {

pub const NANOS_PER_SEC: u128 = 1_000_000_000;

/// How long the players have to bet after the first round, in nanoseconds.
pub const BETTING_NANOS: u64 = 90_000_000_000;

/// How long the summary after a race lasts, in nanoseconds.
pub const SUMMARY_NANOS: u64 = 15_000_000_000;

/// A request to be woken after this many nanoseconds.
#[derive(Debug, Clone, Copy, PartialEq, Eq, Structural)]
pub struct Alarm(pub u64);

/// What the processors learn from outside the log: the clock's reading
/// (nanoseconds since 1970), the simulated length of the current race in
/// nanoseconds, the simulated odds of the next race and the results of the
/// current one.
#[derive(Debug, Clone, Copy, PartialEq, Eq)]
pub struct Outside {
    pub now: u128,
    pub race_nanos: u64,
    pub odds: Odds,
    pub results: RaceResults,
}

/// One pass of the processors: the events that a command appended, or, when
/// no processor fired, the alarm to set.
#[derive(Debug)]
pub enum Step {
    Emitted(Vec<Event>),
    Settled(Option<Alarm>),
}

/// A pass as values: what was appended, the alarm, or the refusal of a command.
pub enum StepOutcome {
    Emitted(Seq<Event>),
    Settled(Option<Alarm>),
    Refused(CommandError),
}

pub open spec fn view_step(r: Result<Step, CommandError>) -> StepOutcome {
    match r {
        Ok(Step::Emitted(v)) => StepOutcome::Emitted(v@),
        Ok(Step::Settled(a)) => StepOutcome::Settled(a),
        Err(e) => StepOutcome::Refused(e),
    }
}

pub open spec fn outcome_of(r: Result<Seq<Event>, CommandError>) -> StepOutcome {
    match r {
        Ok(v) => StepOutcome::Emitted(v),
        Err(e) => StepOutcome::Refused(e),
    }
}

/// The clock's reading in whole seconds, cut to 32 bits.
pub open spec fn seconds_of(now: u128) -> u32 {
    (now / NANOS_PER_SEC) as u32
}

/// The commands' view of the outside.
pub open spec fn environment_of(o: Outside) -> Environment {
    Environment { now: seconds_of(o.now), odds: o.odds, results: o.results }
}

/// When no processor fires, the race's alarm if it set one, else the betting alarm.
pub open spec fn settled_alarm(s: Seq<Event>, race_nanos: u64) -> Option<Alarm> {
    match race_alarm(s, race_nanos) {
        Some(a) => Some(a),
        None => betting_alarm(s),
    }
}

/// The processors in turn: starting the game, starting the race, ending the
/// race; the first that fires has its command handled by the server.
pub open spec fn spec_processor_step(s: Seq<Event>, o: Outside) -> StepOutcome {
    if start_game_fires(s) {
        outcome_of(spec_start_game(SERVER_SESSION, s, o.odds, seconds_of(o.now)))
    } else if start_race_fires(s, o.now) {
        outcome_of(spec_start_race(SERVER_SESSION, seconds_of(o.now)))
    } else if race_timeout_fires(s, o.race_nanos, o.now) {
        outcome_of(spec_finish_race(SERVER_SESSION, s, o.results, seconds_of(o.now)))
    } else {
        StepOutcome::Settled(settled_alarm(s, o.race_nanos))
    }
}

/// Runs the processors once over the log. The server repeats this, appending
/// what was emitted, until the processors settle.
pub fn run_processors_step(events: &im::Vector<Event>, outside: &Outside) -> (r: Result<Step, CommandError>)
    ensures
        view_step(r) == spec_processor_step(log(*events), *outside),
{
    let env = Environment { now: (outside.now / NANOS_PER_SEC) as u32, odds: outside.odds, results: outside.results };
    let command = match start_game::StartGame.process(events) {
        Some(c) => Some(c),
        None => match start_race::StartRace.process_at(events, outside.now) {
            Some(c) => Some(c),
            None => race_timeout::FinishRace.process_at(events, outside.race_nanos, outside.now),
        },
    };
    match command {
        Some(c) => {
            let r = Command::handle(SERVER_SESSION, events, c, &env);
            match r {
                Ok(v) => Ok(Step::Emitted(v)),
                Err(e) => Err(e),
            }
        },
        None => {
            let mut alarm: Option<Alarm> = None;
            if let Some(a) = start_race::StartRace.alarm(events) {
                alarm = Some(a);
            }
            if let Some(a) = race_timeout::FinishRace.alarm(events, outside.race_nanos) {
                alarm = Some(a);
            }
            Ok(Step::Settled(alarm))
        },
    }
}

} // verus!
