use vstd::prelude::*;

use crate::clock::now_nanos;
use crate::commands::Command;
use crate::events::{log, log_at, log_len, Event};
use crate::processors::{Alarm, NANOS_PER_SEC};

verus! {

/// Ends a race once it has run for its length.
#[derive(Debug, Clone, Copy, Default)]
pub struct FinishRace;

/// A race that just started wakes the server after `race_nanos`.
pub open spec fn race_alarm(s: Seq<Event>, race_nanos: u64) -> Option<Alarm> {
    if s.len() > 0 && s.last() is RaceStarted {
        Some(Alarm(race_nanos))
    } else {
        None
    }
}

/// The race that the latest event started ends once `now` (nanoseconds since
/// 1970) is `race_nanos` past its start.
pub open spec fn race_timeout_fires(s: Seq<Event>, race_nanos: u64, now: u128) -> bool {
    s.len() > 0 && s.last() is RaceStarted && now >= s.last()->RaceStarted_time * NANOS_PER_SEC + race_nanos
}

impl FinishRace {
    /// The alarm for a race of `race_nanos` nanoseconds.
    pub fn alarm(&self, events: &im::Vector<Event>, race_nanos: u64) -> (alarm: Option<Alarm>)
        ensures
            alarm == race_alarm(log(*events), race_nanos),
    {
        let n = log_len(events);
        if n == 0 {
            return None;
        }
        if let Event::RaceStarted { .. } = log_at(events, n - 1) {
            return Some(Alarm(race_nanos));
        }
        None
    }

    /// Whether a race of `race_nanos` nanoseconds is over at `now`.
    pub fn process_at(&self, events: &im::Vector<Event>, race_nanos: u64, now: u128) -> (command: Option<Command>)
        ensures
            command is Some <==> race_timeout_fires(log(*events), race_nanos, now),
            command matches Some(c) ==> c is FinishRace,
    {
        let n = log_len(events);
        if n == 0 {
            return None;
        }
        if let Event::RaceStarted { time } = log_at(events, n - 1) {
            if now >= *time as u128 * NANOS_PER_SEC + race_nanos as u128 {
                return Some(Command::FinishRace(()));
            }
        }
        None
    }

    /// Whether a race of `race_nanos` nanoseconds is over now, by the system
    /// clock. A race whose end is at the clock's origin is over whatever the
    /// clock reads; otherwise the reading decides.
    pub fn process(&self, events: &im::Vector<Event>, race_nanos: u64) -> (command: Option<Command>)
        ensures
            command is Some ==> log(*events).len() > 0 && log(*events).last() is RaceStarted,
            race_timeout_fires(log(*events), race_nanos, 0) ==> command is Some,
            command matches Some(c) ==> c is FinishRace,
    {
        self.process_at(events, race_nanos, now_nanos())
    }
}

} // verus!
