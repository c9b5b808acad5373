use vstd::prelude::*;

pub mod accounts;
pub mod hand;
pub mod monsters;
pub mod odds;
pub mod players;

use crate::events::{log, log_at, log_len, log_slice, Event, RaceResults, Settings};
use crate::clock::now_nanos;
use crate::game_id::{generate_game_code, GameID};
use crate::projections::monsters::{spec_played_monster_cards, unique_played_monster_cards, card_before, PlayedMonsterCard};

verus! {

/// The number of events of `s` for which `p` holds.
pub open spec fn count_where(s: Seq<Event>, p: spec_fn(Event) -> bool) -> nat
    decreases s.len(),
{
    if s.len() == 0 {
        0
    } else {
        count_where(s.drop_last(), p) + if p(s.last()) {
            1nat
        } else {
            0nat
        }
    }
}

pub open spec fn is_player_joined(e: Event) -> bool {
    e is PlayerJoined
}

pub open spec fn is_round_started(e: Event) -> bool {
    e is RoundStarted
}

pub open spec fn is_race_finished(e: Event) -> bool {
    e is RaceFinished
}

pub open spec fn is_bought_card(e: Event) -> bool {
    e is BoughtCard
}

pub open spec fn is_race_started(e: Event) -> bool {
    e is RaceStarted
}

pub proof fn lemma_count_where_bound(s: Seq<Event>, p: spec_fn(Event) -> bool)
    ensures
        count_where(s, p) <= s.len(),
    decreases s.len(),
{
    if s.len() > 0 {
        lemma_count_where_bound(s.drop_last(), p);
    }
}

pub proof fn lemma_take_step(s: Seq<Event>, i: int)
    requires
        0 <= i < s.len(),
    ensures
        s.take(i + 1).drop_last() == s.take(i),
        s.take(i + 1).last() == s[i],
{
    assert(s.take(i + 1).drop_last() =~= s.take(i));
}

/// Counts the events of `events` that satisfy `p`, where `p` is one of the
/// event kinds counted by the projections below.
pub(crate) fn count_kind(events: &im::Vector<Event>, kind: u8) -> (count: usize)
    requires
        kind < 5,
    ensures
        count == count_where(log(*events), kind_predicate(kind)),
{
    let ghost s = log(*events);
    let ghost p = kind_predicate(kind);
    let n = log_len(events);
    let mut count: usize = 0;
    let mut i: usize = 0;
    while i < n
        invariant
            n == s.len(),
            s == log(*events),
            p == kind_predicate(kind),
            kind < 5,
            i <= n,
            count == count_where(s.take(i as int), p),
        decreases n - i,
    {
        let e = log_at(events, i);
        proof {
            lemma_take_step(s, i as int);
            lemma_count_where_bound(s.take(i as int), p);
        }
        let hit = match e {
            Event::PlayerJoined { .. } => kind == 0,
            Event::RoundStarted { .. } => kind == 1,
            Event::RaceFinished { .. } => kind == 2,
            Event::BoughtCard { .. } => kind == 3,
            Event::RaceStarted { .. } => kind == 4,
            _ => false,
        };
        if hit {
            count = count + 1;
        }
        i = i + 1;
    }
    proof {
        assert(s.take(n as int) =~= s);
    }
    count
}

pub open spec fn kind_predicate(kind: u8) -> spec_fn(Event) -> bool {
    if kind == 0 {
        |e: Event| is_player_joined(e)
    } else if kind == 1 {
        |e: Event| is_round_started(e)
    } else if kind == 2 {
        |e: Event| is_race_finished(e)
    } else if kind == 3 {
        |e: Event| is_bought_card(e)
    } else {
        |e: Event| is_race_started(e)
    }
}

pub open spec fn spec_player_count(s: Seq<Event>) -> nat {
    count_where(s, |e: Event| is_player_joined(e))
}

pub open spec fn spec_round(s: Seq<Event>) -> nat {
    count_where(s, |e: Event| is_round_started(e))
}

pub open spec fn spec_races_finished(s: Seq<Event>) -> nat {
    count_where(s, |e: Event| is_race_finished(e))
}

pub open spec fn spec_bought_cards(s: Seq<Event>) -> nat {
    count_where(s, |e: Event| is_bought_card(e))
}

/// The number of players that have joined.
pub fn player_count(events: &im::Vector<Event>) -> (count: usize)
    ensures
        count == spec_player_count(log(*events)),
{
    count_kind(events, 0)
}

/// The number of rounds that have started.
pub fn round(events: &im::Vector<Event>) -> (round: u32)
    requires
        spec_round(log(*events)) <= u32::MAX,
    ensures
        round == spec_round(log(*events)),
{
    count_kind(events, 1) as u32
}

/// The number of cards bought so far.
pub fn bought_cards(events: &im::Vector<Event>) -> (count: u32)
    requires
        spec_bought_cards(log(*events)) <= u32::MAX,
    ensures
        count == spec_bought_cards(log(*events)),
{
    count_kind(events, 3) as u32
}

/// The smallest bet: 100 crystals, plus 100 for every race that has finished.
pub fn minimum_bet(events: &im::Vector<Event>) -> (bet: i32)
    requires
        100 + 100 * spec_races_finished(log(*events)) <= i32::MAX,
    ensures
        bet == 100 + 100 * spec_races_finished(log(*events)),
{
    let finished = count_kind(events, 2);
    100 + 100 * (finished as i32)
}

/// The most a player may owe: 300 crystals, plus 200 for every round that has started.
pub fn maximum_debt(events: &im::Vector<Event>) -> (debt: i32)
    requires
        300 + 200 * spec_round(log(*events)) <= i32::MAX,
    ensures
        debt == 300 + 200 * spec_round(log(*events)),
{
    let rounds = count_kind(events, 1);
    300 + 200 * (rounds as i32)
}

pub open spec fn spec_game_has_started(s: Seq<Event>) -> bool {
    exists|j: int| 0 <= j < s.len() && is_round_started(#[trigger] s[j])
}

/// Whether a round has ever started.
pub fn game_has_started(events: &im::Vector<Event>) -> (started: bool)
    ensures
        started == spec_game_has_started(log(*events)),
{
    let ghost s = log(*events);
    let n = log_len(events);
    let mut i: usize = 0;
    while i < n
        invariant
            n == s.len(),
            s == log(*events),
            i <= n,
            forall|j: int| 0 <= j < i ==> !is_round_started(#[trigger] s[j]),
        decreases n - i,
    {
        if let Event::RoundStarted { .. } = log_at(events, i) {
            return true;
        }
        i = i + 1;
    }
    false
}

pub open spec fn joined_as(e: Event, session_id: u128) -> bool {
    e matches Event::PlayerJoined { session_id: id, .. } && id == session_id
}

pub open spec fn spec_player_exists(s: Seq<Event>, session_id: u128) -> bool {
    exists|j: int| 0 <= j < s.len() && joined_as(#[trigger] s[j], session_id)
}

/// Whether a player with this session has joined.
pub fn player_exists(events: &im::Vector<Event>, session_id: u128) -> (exists: bool)
    ensures
        exists == spec_player_exists(log(*events), session_id),
{
    let ghost s = log(*events);
    let n = log_len(events);
    let mut i: usize = 0;
    while i < n
        invariant
            n == s.len(),
            s == log(*events),
            i <= n,
            forall|j: int| 0 <= j < i ==> !joined_as(#[trigger] s[j], session_id),
        decreases n - i,
    {
        if let Event::PlayerJoined { session_id: inner, .. } = log_at(events, i) {
            if *inner == session_id {
                return true;
            }
        }
        i = i + 1;
    }
    false
}

pub open spec fn spec_game_finished(s: Seq<Event>) -> bool {
    (exists|j: int| 0 <= j < s.len() && #[trigger] s[j] is GameFinished)
    || spec_races_finished(s) >= 10
}

/// A game is over once it was declared finished or ten races have finished.
pub fn game_finished(events: &im::Vector<Event>) -> (finished: bool)
    ensures
        finished == spec_game_finished(log(*events)),
{
    let ghost s = log(*events);
    let ghost p = kind_predicate(2);
    let n = log_len(events);
    let mut rounds: usize = 0;
    let mut i: usize = 0;
    while i < n
        invariant
            n == s.len(),
            s == log(*events),
            p == kind_predicate(2),
            i <= n,
            rounds == count_where(s.take(i as int), p),
            forall|j: int| 0 <= j < i ==> !(#[trigger] s[j] is GameFinished),
        decreases n - i,
    {
        proof {
            lemma_take_step(s, i as int);
            lemma_count_where_bound(s.take(i as int), p);
        }
        match log_at(events, i) {
            Event::RaceFinished { .. } => {
                rounds = rounds + 1;
            },
            Event::GameFinished => {
                return true;
            },
            _ => {},
        }
        i = i + 1;
    }
    proof {
        assert(s.take(n as int) =~= s);
    }
    rounds >= 10
}

pub open spec fn spec_results(s: Seq<Event>) -> Option<RaceResults>
    decreases s.len(),
{
    if s.len() == 0 {
        None
    } else if let Event::RaceFinished { results, .. } = s.last() {
        Some(results)
    } else {
        spec_results(s.drop_last())
    }
}

/// The results of the latest race that finished.
pub fn results(events: &im::Vector<Event>) -> (results: Option<RaceResults>)
    ensures
        results == spec_results(log(*events)),
{
    let ghost s = log(*events);
    let mut i: usize = log_len(events);
    proof {
        assert(s.take(i as int) =~= s);
    }
    while i > 0
        invariant
            i <= s.len(),
            s == log(*events),
            spec_results(s) == spec_results(s.take(i as int)),
        decreases i,
    {
        proof {
            lemma_take_step(s, i - 1);
        }
        if let Event::RaceFinished { results, .. } = log_at(events, i - 1) {
            return Some(*results);
        }
        i = i - 1;
    }
    None
}

pub open spec fn spec_currently_racing(s: Seq<Event>) -> Option<u32>
    decreases s.len(),
{
    if s.len() == 0 {
        None
    } else {
        match s.last() {
            Event::RaceStarted { time } => Some(time),
            Event::RaceFinished { .. } => None,
            _ => spec_currently_racing(s.drop_last()),
        }
    }
}

/// The start time of the race in progress, if a race started and has not finished.
pub fn currently_racing(events: &im::Vector<Event>) -> (start: Option<u32>)
    ensures
        start == spec_currently_racing(log(*events)),
{
    let ghost s = log(*events);
    let mut i: usize = log_len(events);
    proof {
        assert(s.take(i as int) =~= s);
    }
    while i > 0
        invariant
            i <= s.len(),
            s == log(*events),
            spec_currently_racing(s) == spec_currently_racing(s.take(i as int)),
        decreases i,
    {
        proof {
            lemma_take_step(s, i - 1);
        }
        match log_at(events, i - 1) {
            Event::RaceStarted { time } => {
                return Some(*time);
            },
            Event::RaceFinished { .. } => {
                return None;
            },
            _ => {},
        }
        i = i - 1;
    }
    None
}

pub open spec fn spec_currently_betting(s: Seq<Event>) -> Option<u32>
    decreases s.len(),
{
    if s.len() == 0 {
        None
    } else {
        match s.last() {
            Event::RoundStarted { time, .. } => Some(time),
            Event::RaceStarted { .. } => None,
            _ => spec_currently_betting(s.drop_last()),
        }
    }
}

/// The start time of the betting round in progress, if a round started and its race has not.
pub fn currently_betting(events: &im::Vector<Event>) -> (start: Option<u32>)
    ensures
        start == spec_currently_betting(log(*events)),
{
    let ghost s = log(*events);
    let mut i: usize = log_len(events);
    proof {
        assert(s.take(i as int) =~= s);
    }
    while i > 0
        invariant
            i <= s.len(),
            s == log(*events),
            spec_currently_betting(s) == spec_currently_betting(s.take(i as int)),
        decreases i,
    {
        proof {
            lemma_take_step(s, i - 1);
        }
        match log_at(events, i - 1) {
            Event::RoundStarted { time, .. } => {
                return Some(*time);
            },
            Event::RaceStarted { .. } => {
                return None;
            },
            _ => {},
        }
        i = i - 1;
    }
    None
}

pub open spec fn spec_player_has_bet(s: Seq<Event>, player: u128) -> bool
    decreases s.len(),
{
    if s.len() == 0 {
        false
    } else {
        match s.last() {
            Event::PlacedBet(bet) => bet.session_id == player || spec_player_has_bet(s.drop_last(), player),
            Event::RaceFinished { .. } => false,
            _ => spec_player_has_bet(s.drop_last(), player),
        }
    }
}

/// Whether the player has placed a bet since the latest race finished.
pub fn player_has_bet(events: &im::Vector<Event>, player_id: u128) -> (has_bet: bool)
    ensures
        has_bet == spec_player_has_bet(log(*events), player_id),
{
    let ghost s = log(*events);
    let n = log_len(events);
    let mut has_bet = false;
    let mut i: usize = 0;
    while i < n
        invariant
            n == s.len(),
            s == log(*events),
            i <= n,
            has_bet == spec_player_has_bet(s.take(i as int), player_id),
        decreases n - i,
    {
        proof {
            lemma_take_step(s, i as int);
        }
        match log_at(events, i) {
            Event::PlacedBet(bet) => {
                if player_id == bet.session_id {
                    has_bet = true;
                }
            },
            Event::RaceFinished { .. } => {
                has_bet = false;
            },
            _ => {},
        }
        i = i + 1;
    }
    proof {
        assert(s.take(n as int) =~= s);
    }
    has_bet
}

pub open spec fn spec_settings(s: Seq<Event>) -> Settings {
    match s[0] {
        Event::GameCreated { settings, .. } => settings,
        _ => Settings::spec_default(),
    }
}

/// The settings the game was created with (the defaults when the first event
/// is not the game's creation).
pub fn settings(events: &im::Vector<Event>) -> (settings: Settings)
    requires
        log(*events).len() > 0,
    ensures
        settings == spec_settings(log(*events)),
{
    match log_at(events, 0) {
        Event::GameCreated { settings, .. } => *settings,
        _ => Settings::default(),
    }
}

/// Whether a log is empty or starts with the game's creation.
pub open spec fn starts_with_creation(s: Seq<Event>) -> bool {
    s.len() == 0 || s[0] is GameCreated
}

/// The game's code; a fresh random code for an empty log.
pub fn game_id(events: &im::Vector<Event>) -> (code: GameID)
    requires
        starts_with_creation(log(*events)),
    ensures
        log(*events).len() > 0 ==> code == log(*events)[0]->game_id,
{
    if log_len(events) == 0 {
        generate_game_code()
    } else {
        match log_at(events, 0) {
            Event::GameCreated { game_id, .. } => *game_id,
            _ => generate_game_code(),
        }
    }
}

/// The first four bytes of a code read as a big-endian number.
pub open spec fn code_number(code: GameID) -> int {
    code.view_bytes()[0] * 0x100_0000 + code.view_bytes()[1] * 0x1_0000 + code.view_bytes()[2]
        * 0x100 + code.view_bytes()[3]
}

/// The race seed of a round: the code's number plus the round, wrapping at 2^32.
pub open spec fn spec_race_seed_for_round(code: GameID, round: u32) -> u32 {
    ((code_number(code) + round) % 0x1_0000_0000) as u32
}

/// The seed of a given round's race. For an empty log it comes from a random code.
pub fn race_seed_for_round(events: &im::Vector<Event>, round: u32) -> (seed: u32)
    requires
        starts_with_creation(log(*events)),
    ensures
        log(*events).len() > 0 ==> seed == spec_race_seed_for_round(log(*events)[0]->game_id, round),
{
    let code = game_id(events);
    let b = code.bytes();
    proof {
        code.lemma_len();
    }
    let number: u32 = (b[0] as u32) * 0x100_0000 + (b[1] as u32) * 0x1_0000 + (b[2] as u32) * 0x100
        + (b[3] as u32);
    number.wrapping_add(round)
}

/// The seed of the current round's race.
pub fn race_seed(events: &im::Vector<Event>) -> (seed: u32)
    requires
        starts_with_creation(log(*events)),
        spec_round(log(*events)) <= u32::MAX,
    ensures
        log(*events).len() > 0 ==> seed == spec_race_seed_for_round(
            log(*events)[0]->game_id,
            spec_round(log(*events)) as u32,
        ),
{
    let r = round(events);
    race_seed_for_round(events, r)
}

/// How long the players have to bet once a round started, in seconds.
pub const PRE_GAME_TIMEOUT: u32 = 90;

/// How long the race's intro lasts: 3 seconds plus 4 for every distinct card
/// played on a monster this round.
pub open spec fn spec_pre_race_duration(s: Seq<Event>) -> nat {
    3 + 4 * spec_played_monster_cards(s).to_set().len()
}

/// The race's intro length in seconds.
pub fn pre_race_duration(events: &im::Vector<Event>) -> (secs: u64)
    requires
        spec_pre_race_duration(log(*events)) <= u64::MAX,
    ensures
        secs == spec_pre_race_duration(log(*events)),
{
    let cards = unique_played_monster_cards(events);
    proof {
        let played = spec_played_monster_cards(log(*events));
        assert(cards@.no_duplicates()) by {
            assert forall|i: int, j: int| 0 <= i < cards@.len() && 0 <= j < cards@.len() && i != j implies cards@[i] != cards@[j] by {
                if i < j {
                    assert(card_before(cards@[i], cards@[j]));
                } else {
                    assert(card_before(cards@[j], cards@[i]));
                }
            }
        }
        cards@.unique_seq_to_set();
        assert(cards@.to_set() =~= played.to_set()) by {
            assert forall|x: PlayedMonsterCard| cards@.to_set().contains(x) <==> played.to_set().contains(x) by {
                assert(cards@.contains(x) <==> played.contains(x));
            }
        }
    }
    3 + 4 * (cards.len() as u64)
}

/// The start time of the latest round.
pub open spec fn spec_last_round_start(s: Seq<Event>) -> Option<u32>
    decreases s.len(),
{
    if s.len() == 0 {
        None
    } else if let Event::RoundStarted { time, .. } = s.last() {
        Some(time)
    } else {
        spec_last_round_start(s.drop_last())
    }
}

/// Seconds left to bet, rounded down, at `now` (nanoseconds since 1970): none
/// in the first round, else what remains of the timeout since the latest
/// round started, or zero once it passed.
pub open spec fn spec_time_left_in_pregame(s: Seq<Event>, now: u128) -> Option<u64> {
    if spec_round(s) <= 1 {
        None
    } else {
        let deadline = (spec_last_round_start(s)->0 + PRE_GAME_TIMEOUT) * 1_000_000_000;
        if deadline >= now {
            Some(((deadline - now) / 1_000_000_000) as u64)
        } else {
            Some(0)
        }
    }
}

proof fn lemma_round_start_exists(s: Seq<Event>)
    requires
        spec_round(s) > 0,
    ensures
        spec_last_round_start(s) is Some,
    decreases s.len(),
{
    if s.len() > 0 && !(s.last() is RoundStarted) {
        lemma_round_start_exists(s.drop_last());
    }
}

/// Seconds left to bet at the time `now` (nanoseconds since 1970).
pub fn time_left_in_pregame_at(events: &im::Vector<Event>, now: u128) -> (left: Option<u64>)
    ensures
        left == spec_time_left_in_pregame(log(*events), now),
{
    let ghost s = log(*events);
    if count_kind(events, 1) <= 1 {
        return None;
    }
    proof {
        lemma_round_start_exists(s);
    }
    let mut i: usize = log_len(events);
    proof {
        assert(s.take(i as int) =~= s);
    }
    while i > 0
        invariant
            i <= s.len(),
            s == log(*events),
            spec_last_round_start(s) == spec_last_round_start(s.take(i as int)),
            spec_last_round_start(s) is Some,
            spec_round(s) > 1,
        decreases i,
    {
        proof {
            lemma_take_step(s, i - 1);
        }
        if let Event::RoundStarted { time, .. } = log_at(events, i - 1) {
            let deadline: u128 = (*time as u128 + PRE_GAME_TIMEOUT as u128) * 1_000_000_000;
            if deadline >= now {
                return Some(((deadline - now) / 1_000_000_000) as u64);
            } else {
                return Some(0);
            }
        }
        i = i - 1;
    }
    None
}

/// Seconds left to bet now, by the system clock.
pub fn time_left_in_pregame(events: &im::Vector<Event>) -> (left: Option<u64>)
    ensures
        spec_round(log(*events)) <= 1 ==> left is None,
        spec_round(log(*events)) > 1 ==> left is Some,
{
    time_left_in_pregame_at(events, now_nanos())
}

/// The position of the last event matching `p`, counted from the end (0 for the last event).
pub open spec fn position_from_end(s: Seq<Event>, p: spec_fn(Event) -> bool) -> Option<int>
    decreases s.len(),
{
    if s.len() == 0 {
        None
    } else if p(s.last()) {
        Some(0)
    } else {
        match position_from_end(s.drop_last(), p) {
            Some(k) => Some(k + 1),
            None => None,
        }
    }
}

pub(crate) fn position_from_end_of(events: &im::Vector<Event>, kind: u8) -> (pos: Option<usize>)
    requires
        kind < 5,
    ensures
        pos matches Some(k) ==> position_from_end(log(*events), kind_predicate(kind)) == Some(k as int),
        pos is None ==> position_from_end(log(*events), kind_predicate(kind)) is None,
        pos matches Some(k) ==> k < log(*events).len(),
        log(*events).len() <= usize::MAX,
{
    let ghost s = log(*events);
    let ghost p = kind_predicate(kind);
    let n = log_len(events);
    let mut i: usize = n;
    proof {
        assert(s.take(i as int) =~= s);
    }
    while i > 0
        invariant
            n == s.len(),
            i <= n,
            s == log(*events),
            p == kind_predicate(kind),
            kind < 5,
            position_from_end(s, p) == match position_from_end(s.take(i as int), p) {
                Some(k) => Some(k + (n - i)),
                None => None,
            },
        decreases i,
    {
        proof {
            lemma_take_step(s, i - 1);
        }
        let hit = match log_at(events, i - 1) {
            Event::PlayerJoined { .. } => kind == 0,
            Event::RoundStarted { .. } => kind == 1,
            Event::RaceFinished { .. } => kind == 2,
            Event::BoughtCard { .. } => kind == 3,
            Event::RaceStarted { .. } => kind == 4,
            _ => false,
        };
        if hit {
            return Some(n - i);
        }
        i = i - 1;
    }
    None
}

/// The events of the latest round as the slice between the positions,
/// counted from the end, of the latest round start and the latest race finish
/// (the log's length when no race finished); `None` before the first round.
pub open spec fn spec_last_round(s: Seq<Event>) -> Option<Seq<Event>> {
    match position_from_end(s, kind_predicate(1)) {
        None => None,
        Some(start) => {
            let end = match position_from_end(s, kind_predicate(2)) {
                Some(e) => e,
                None => s.len() as int,
            };
            if start >= end + 1 || start >= s.len() {
                Some(Seq::empty())
            } else {
                Some(s.subrange(start, end + 1))
            }
        },
    }
}

/// The events of the latest round. A round that started must have a race that
/// finished: the slice would run past the log's end otherwise.
pub fn last_round(events: &im::Vector<Event>) -> (round: Option<im::Vector<Event>>)
    requires
        position_from_end(log(*events), kind_predicate(1)) is Some ==> position_from_end(
            log(*events),
            kind_predicate(2),
        ) is Some,
    ensures
        match spec_last_round(log(*events)) {
            None => round is None,
            Some(r) => round matches Some(v) && log(v) == r,
        },
{
    let start = match position_from_end_of(events, 1) {
        Some(k) => k,
        None => {
            return None;
        },
    };
    let end = match position_from_end_of(events, 2) {
        Some(k) => k,
        None => log_len(events),
    };
    Some(log_slice(events, start, end + 1))
}

} // verus!
