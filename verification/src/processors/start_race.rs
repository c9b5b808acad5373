use vstd::prelude::*;

use crate::clock::now_nanos;
use crate::commands::Command;
use crate::events::{log, log_at, log_len, Event};
use crate::processors::{Alarm, BETTING_NANOS, NANOS_PER_SEC};
use crate::projections::players::{all_players_have_bet, spec_all_players_have_bet};
use crate::projections::{
    count_kind, kind_predicate, position_from_end, position_from_end_of, spec_last_round_start,
    spec_round, PRE_GAME_TIMEOUT,
};

verus! {

/// Ends the betting when every player has bet or the betting time ran out.
#[derive(Debug, Clone, Copy, Default)]
pub struct StartRace;

/// After the first round, a round that just started wakes the server when its
/// betting time runs out.
pub open spec fn betting_alarm(s: Seq<Event>) -> Option<Alarm> {
    if s.len() > 0 && s.last() is RoundStarted && spec_round(s) > 1 {
        Some(Alarm(BETTING_NANOS))
    } else {
        None
    }
}

/// Whether a race started after the latest round started.
pub open spec fn race_already_started(s: Seq<Event>) -> bool {
    match (position_from_end(s, kind_predicate(4)), position_from_end(s, kind_predicate(1))) {
        (Some(race), Some(round)) => race < round,
        (Some(race), None) => true,
        _ => false,
    }
}

/// The race starts, unless it already did, when every player has bet, or after
/// the first round once `now` (nanoseconds since 1970) is past the betting time.
pub open spec fn start_race_fires(s: Seq<Event>, now: u128) -> bool {
    if race_already_started(s) {
        false
    } else if spec_all_players_have_bet(s) {
        true
    } else if spec_round(s) <= 1 {
        false
    } else {
        match spec_last_round_start(s) {
            Some(start) => now >= (start + PRE_GAME_TIMEOUT) * NANOS_PER_SEC,
            None => false,
        }
    }
}

/// The start time of the latest round, in seconds since 1970.
fn last_round_start(events: &im::Vector<Event>) -> (start: Option<u32>)
    ensures
        start == spec_last_round_start(log(*events)),
{
    let ghost s = log(*events);
    let mut i: usize = log_len(events);
    proof {
        assert(s.take(i as int) =~= s);
    }
    while i > 0
        invariant
            i <= s.len(),
            s == log(*events),
            spec_last_round_start(s) == spec_last_round_start(s.take(i as int)),
        decreases i,
    {
        proof {
            crate::projections::lemma_take_step(s, i - 1);
        }
        if let Event::RoundStarted { time, .. } = log_at(events, i - 1) {
            return Some(*time);
        }
        i = i - 1;
    }
    None
}

impl StartRace {
    pub fn alarm(&self, events: &im::Vector<Event>) -> (alarm: Option<Alarm>)
        ensures
            alarm == betting_alarm(log(*events)),
    {
        let n = log_len(events);
        if n == 0 {
            return None;
        }
        if let Event::RoundStarted { .. } = log_at(events, n - 1) {
            if count_kind(events, 1) > 1 {
                return Some(Alarm(BETTING_NANOS));
            }
        }
        None
    }

    /// Whether the race starts at the time `now` (nanoseconds since 1970).
    pub fn process_at(&self, events: &im::Vector<Event>, now: u128) -> (command: Option<Command>)
        ensures
            command is Some <==> start_race_fires(log(*events), now),
            command matches Some(c) ==> c is StartRace,
    {
        let race = position_from_end_of(events, 4);
        let round = position_from_end_of(events, 1);
        let started = match (race, round) {
            (Some(a), Some(b)) => a < b,
            (Some(_), None) => true,
            _ => false,
        };
        if started {
            return None;
        }
        if all_players_have_bet(events) {
            return Some(Command::StartRace(()));
        }
        if count_kind(events, 1) <= 1 {
            return None;
        }
        match last_round_start(events) {
            Some(start) => {
                if now >= (start as u128 + PRE_GAME_TIMEOUT as u128) * NANOS_PER_SEC {
                    Some(Command::StartRace(()))
                } else {
                    None
                }
            },
            None => None,
        }
    }

    /// Whether the race starts now, by the system clock.
    pub fn process(&self, events: &im::Vector<Event>) -> (command: Option<Command>)
        ensures
            race_already_started(log(*events)) ==> command is None,
            !race_already_started(log(*events)) && spec_all_players_have_bet(log(*events)) ==> command is Some,
            !race_already_started(log(*events)) && !spec_all_players_have_bet(log(*events)) && spec_round(
                log(*events),
            ) <= 1 ==> command is None,
            command matches Some(c) ==> c is StartRace,
    {
        self.process_at(events, now_nanos())
    }
}

} // verus!
