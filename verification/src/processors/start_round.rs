use vstd::prelude::*;

use crate::clock::now_nanos;
use crate::commands::Command;
use crate::events::{log, log_at, log_len, Event};
use crate::processors::{Alarm, NANOS_PER_SEC, SUMMARY_NANOS};
use crate::projections::{game_finished, spec_game_finished};

verus! {

/// Starts the next round after the summary of a race.
#[derive(Debug, Clone, Copy, Default)]
pub struct StartRound;

/// A race that just finished, in a game that goes on, wakes the server when
/// the summary is over.
pub open spec fn summary_alarm(s: Seq<Event>) -> Option<Alarm> {
    if s.len() > 0 && s.last() is RaceFinished && !spec_game_finished(s) {
        Some(Alarm(SUMMARY_NANOS))
    } else {
        None
    }
}

/// The next round starts one second before the summary of the race that the
/// latest event finished is over, at `now` (nanoseconds since 1970), unless the game is over.
pub open spec fn start_round_fires(s: Seq<Event>, now: u128) -> bool {
    s.len() > 0 && s.last() is RaceFinished && !spec_game_finished(s) && now >= s.last()->RaceFinished_time
        * NANOS_PER_SEC + 14 * NANOS_PER_SEC
}

impl StartRound {
    pub fn alarm(&self, events: &im::Vector<Event>) -> (alarm: Option<Alarm>)
        ensures
            alarm == summary_alarm(log(*events)),
    {
        let n = log_len(events);
        if n == 0 {
            return None;
        }
        if let Event::RaceFinished { .. } = log_at(events, n - 1) {
            if !game_finished(events) {
                return Some(Alarm(SUMMARY_NANOS));
            }
        }
        None
    }

    /// Whether the next round starts at `now`.
    pub fn process_at(&self, events: &im::Vector<Event>, now: u128) -> (command: Option<Command>)
        ensures
            command is Some <==> start_round_fires(log(*events), now),
            command matches Some(c) ==> c is StartRound,
    {
        let n = log_len(events);
        if n == 0 {
            return None;
        }
        if let Event::RaceFinished { time, .. } = log_at(events, n - 1) {
            if game_finished(events) {
                return None;
            }
            if now >= *time as u128 * NANOS_PER_SEC + 14 * NANOS_PER_SEC {
                return Some(Command::StartRound(()));
            }
        }
        None
    }

    /// Whether the next round starts now, by the system clock.
    pub fn process(&self, events: &im::Vector<Event>) -> (command: Option<Command>)
        ensures
            command is Some ==> log(*events).len() > 0 && log(*events).last() is RaceFinished && !spec_game_finished(
                log(*events),
            ),
            command matches Some(c) ==> c is StartRound,
    {
        self.process_at(events, now_nanos())
    }
}

} // verus!
