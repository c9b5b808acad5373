use vstd::prelude::*;

use crate::clock::now_nanos;
use crate::commands::Command;
use crate::events::{log, log_at, log_len, Event};
use crate::processors::start_race::betting_alarm;
use crate::processors::{Alarm, BETTING_NANOS, NANOS_PER_SEC};
use crate::projections::players::{all_players_have_bet, spec_all_players_have_bet};
use crate::projections::{count_kind, currently_betting, spec_currently_betting, spec_round, PRE_GAME_TIMEOUT};

verus! {

/// Ends the betting when every player has bet or the betting time ran out.
#[derive(Debug, Clone, Copy, Default)]
pub struct StartRace;

/// While bets are open, the race starts when every player has bet, or after
/// the first round once `now` (nanoseconds since 1970) is past the betting time.
pub open spec fn betting_over(s: Seq<Event>, now: u128) -> bool {
    match spec_currently_betting(s) {
        None => false,
        Some(start) => spec_all_players_have_bet(s) || (spec_round(s) > 1 && now >= (start + PRE_GAME_TIMEOUT)
            * NANOS_PER_SEC),
    }
}

impl StartRace {
    pub fn alarm(&self, events: &im::Vector<Event>) -> (alarm: Option<Alarm>)
        ensures
            alarm == betting_alarm(log(*events)),
    {
        let n = log_len(events);
        if n == 0 {
            return None;
        }
        if let Event::RoundStarted { .. } = log_at(events, n - 1) {
            if count_kind(events, 1) > 1 {
                return Some(Alarm(BETTING_NANOS));
            }
        }
        None
    }

    /// Whether the betting is over at the time `now`.
    pub fn process_at(&self, events: &im::Vector<Event>, now: u128) -> (command: Option<Command>)
        ensures
            command is Some <==> betting_over(log(*events), now),
            command matches Some(c) ==> c is StartRace,
    {
        let start = match currently_betting(events) {
            Some(start) => start,
            None => {
                return None;
            },
        };
        if all_players_have_bet(events) {
            return Some(Command::StartRace(()));
        }
        if count_kind(events, 1) <= 1 {
            return None;
        }
        if now >= (start as u128 + PRE_GAME_TIMEOUT as u128) * NANOS_PER_SEC {
            Some(Command::StartRace(()))
        } else {
            None
        }
    }

    /// Whether the betting is over now, by the system clock.
    pub fn process(&self, events: &im::Vector<Event>) -> (command: Option<Command>)
        ensures
            spec_currently_betting(log(*events)) is None ==> command is None,
            spec_currently_betting(log(*events)) is Some && spec_all_players_have_bet(log(*events)) ==> command is Some,
            spec_round(log(*events)) <= 1 && !spec_all_players_have_bet(log(*events)) ==> command is None,
            command matches Some(c) ==> c is StartRace,
    {
        self.process_at(events, now_nanos())
    }
}

} // verus!
