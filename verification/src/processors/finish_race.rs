use vstd::prelude::*;

use crate::clock::now_nanos;
use crate::commands::Command;
use crate::events::{log, log_at, log_len, Event};
use crate::processors::{Alarm, NANOS_PER_SEC};
use crate::projections::{currently_racing, pre_race_duration, spec_currently_racing, spec_pre_race_duration};

verus! {

/// Ends a race once its intro and the race itself have run.
#[derive(Debug, Clone, Copy, Default)]
pub struct FinishRace;

/// A race that just started wakes the server after its intro and `race_nanos`.
pub open spec fn intro_and_race_alarm(s: Seq<Event>, race_nanos: u64) -> Option<Alarm> {
    if s.len() > 0 && s.last() is RaceStarted {
        Some(Alarm((spec_pre_race_duration(s) * NANOS_PER_SEC + race_nanos) as u64))
    } else {
        None
    }
}

/// The race in progress ends once `now` (nanoseconds since 1970) is its intro
/// and `race_nanos` less one second past its start.
pub open spec fn finish_race_fires(s: Seq<Event>, race_nanos: u64, now: u128) -> bool {
    match spec_currently_racing(s) {
        Some(start) => now >= start * NANOS_PER_SEC + spec_pre_race_duration(s) * NANOS_PER_SEC + (race_nanos
            - NANOS_PER_SEC),
        None => false,
    }
}

/// The intro's length must fit the clock's arithmetic.
pub open spec fn intro_fits(s: Seq<Event>) -> bool {
    spec_pre_race_duration(s) * NANOS_PER_SEC <= u64::MAX / 2
}

impl FinishRace {
    /// The alarm for a race of `race_nanos` nanoseconds after its intro.
    pub fn alarm(&self, events: &im::Vector<Event>, race_nanos: u64) -> (alarm: Option<Alarm>)
        requires
            intro_fits(log(*events)),
            race_nanos <= u64::MAX / 2,
        ensures
            alarm == intro_and_race_alarm(log(*events), race_nanos),
    {
        let n = log_len(events);
        if n == 0 {
            return None;
        }
        if let Event::RaceStarted { .. } = log_at(events, n - 1) {
            let intro = pre_race_duration(events);
            return Some(Alarm(intro * 1_000_000_000 + race_nanos));
        }
        None
    }

    /// Whether the race in progress, `race_nanos` nanoseconds long, is over at `now`.
    pub fn process_at(&self, events: &im::Vector<Event>, race_nanos: u64, now: u128) -> (command: Option<Command>)
        requires
            intro_fits(log(*events)),
            spec_currently_racing(log(*events)) is Some ==> race_nanos >= 1_000_000_000,
        ensures
            command is Some <==> finish_race_fires(log(*events), race_nanos, now),
            command matches Some(c) ==> c is FinishRace,
    {
        let start = match currently_racing(events) {
            Some(start) => start,
            None => {
                return None;
            },
        };
        let intro = pre_race_duration(events);
        if now >= start as u128 * NANOS_PER_SEC + intro as u128 * NANOS_PER_SEC + (race_nanos - 1_000_000_000) as u128 {
            Some(Command::FinishRace(()))
        } else {
            None
        }
    }

    /// Whether the race in progress is over now, by the system clock.
    pub fn process(&self, events: &im::Vector<Event>, race_nanos: u64) -> (command: Option<Command>)
        requires
            intro_fits(log(*events)),
            spec_currently_racing(log(*events)) is Some ==> race_nanos >= 1_000_000_000,
        ensures
            command is Some ==> spec_currently_racing(log(*events)) is Some,
            command matches Some(c) ==> c is FinishRace,
    {
        self.process_at(events, race_nanos, now_nanos())
    }
}

} // verus!
