use im::Vector;
use shared::commands::Command;
use shared::events::{Event, Odds, PlacedBet, Probability, RaceResults, Settings};
use shared::game_id::generate_game_code;
use shared::process_managers::start_race::StartRace as BettingManager;
use shared::processors::finish_game::FinishGame;
use shared::processors::finish_race::FinishRace as IntroAwareFinishRace;
use shared::processors::race_timeout::FinishRace;
use shared::processors::start_game::StartGame;
use shared::processors::start_race::StartRace;
use shared::processors::start_round::StartRound;
use shared::processors::{run_processors_step, Alarm, Outside, Step};

fn game() -> Event {
    Event::GameCreated { game_id: generate_game_code(), settings: Settings::default() }
}

fn joined(id: u128) -> Event {
    Event::PlayerJoined { session_id: id, name: "Test".into(), initial_cards: vec![] }
}

fn bet(id: u128, monster_id: u128) -> Event {
    Event::PlacedBet(PlacedBet { session_id: id, monster_id, amount: 100 })
}

fn outside(race_nanos: u64) -> Outside {
    Outside {
        now: std::time::SystemTime::now().duration_since(std::time::UNIX_EPOCH).unwrap().as_nanos(),
        race_nanos,
        odds: Odds([
            (0x71, Probability { wins: 1, races: 3 }),
            (0x72, Probability { wins: 1, races: 3 }),
            (0x73, Probability { wins: 1, races: 3 }),
        ]),
        results: RaceResults { first: 0x71, second: 0x72, third: 0x73 },
    }
}

#[test]
fn game_does_not_start() {
    let a = 0xc1u128;
    let b = 0xc2u128;

    let mut events = Vector::from(vec![game(), joined(a)]);

    assert_eq!(None, StartGame.process(&events));

    events.push_back(joined(b));
    events.push_back(Event::PlayerReady { session_id: a });
    assert_eq!(None, StartGame.process(&events));
}

#[test]
fn game_does_start() {
    let a = 0xc3u128;
    let b = 0xc4u128;

    let events = Vector::from(vec![
        game(),
        joined(a),
        joined(b),
        Event::PlayerReady { session_id: a },
        Event::PlayerReady { session_id: b },
    ]);

    assert_eq!(Some(Command::StartGame(())), StartGame.process(&events));
}

#[test]
fn start_race_race_does_not_start() {
    let a = 0xc5u128;
    let b = 0xc6u128;

    let events = Vector::from(vec![
        game(),
        joined(a),
        joined(b),
        Event::PlayerReady { session_id: a },
        Event::PlayerReady { session_id: b },
        Event::start_round_now(),
        bet(a, 0xd1),
    ]);

    assert_eq!(None, StartRace.process(&events));
}

#[test]
fn start_race_race_does_start() {
    let a = 0xc7u128;
    let b = 0xc8u128;

    let events = Vector::from(vec![
        game(),
        joined(a),
        joined(b),
        Event::PlayerReady { session_id: a },
        Event::PlayerReady { session_id: b },
        Event::start_round_now(),
        bet(a, 0xd2),
        bet(b, 0xd3),
    ]);

    assert_eq!(Some(Command::StartRace(())), StartRace.process(&events));
}

#[test]
fn start_race_race_starts_after_timeout() {
    let a = 0xc9u128;
    let b = 0xcau128;

    let start = Event::now();

    let events = Vector::from(vec![
        game(),
        joined(a),
        joined(b),
        Event::PlayerReady { session_id: a },
        Event::PlayerReady { session_id: b },
        Event::RoundStarted { time: start - 90, odds: None },
        Event::RoundStarted { time: start - 90, odds: None },
        bet(a, 0xd4),
    ]);

    assert_eq!(Some(Command::StartRace(())), StartRace.process(&events));
}

#[test]
fn betting_manager_race_does_not_start() {
    let a = 0xcbu128;
    let b = 0xccu128;

    let events = Vector::from(vec![
        game(),
        joined(a),
        joined(b),
        Event::PlayerReady { session_id: a },
        Event::PlayerReady { session_id: b },
        Event::start_round_now(),
        bet(a, 0xd5),
    ]);

    assert_eq!(None, BettingManager.process(&events));
}

#[test]
fn betting_manager_race_does_start() {
    let a = 0xcdu128;
    let b = 0xceu128;

    let events = Vector::from(vec![
        game(),
        joined(a),
        joined(b),
        Event::PlayerReady { session_id: a },
        Event::PlayerReady { session_id: b },
        Event::start_round_now(),
        bet(a, 0xd6),
        bet(b, 0xd7),
    ]);

    assert_eq!(Some(Command::StartRace(())), BettingManager.process(&events));
}

#[test]
fn betting_manager_race_starts_after_timeout() {
    let a = 0xcfu128;
    let b = 0xd0u128;

    let start = Event::now();

    let events = Vector::from(vec![
        game(),
        joined(a),
        joined(b),
        Event::PlayerReady { session_id: a },
        Event::PlayerReady { session_id: b },
        Event::RoundStarted { time: start - 90, odds: None },
        Event::RoundStarted { time: start - 90, odds: None },
        bet(a, 0xd8),
    ]);

    assert_eq!(Some(Command::StartRace(())), BettingManager.process(&events));
    assert_eq!(Some(Alarm(90_000_000_000)), BettingManager.alarm(&Vector::from(vec![
        game(),
        Event::RoundStarted { time: 0, odds: None },
        Event::RoundStarted { time: 1, odds: None },
    ])));
}

#[test]
fn race_finish_durability() {
    let events = Vector::from(vec![
        game(),
        joined(0xe1),
        Event::PlayerReady { session_id: 0xe2 },
        Event::RoundStarted { time: Event::now(), odds: None },
        Event::RaceStarted { time: Event::now() - 60 },
        Event::PlacedBet(PlacedBet { session_id: 0xe3, monster_id: 0xe4, amount: 1000 }),
    ]);

    assert_eq!(IntroAwareFinishRace.process(&events, 30_000_000_000), Some(Command::FinishRace(())));
}

#[test]
fn processor_trigger() {
    let a = 0xe5u128;

    let events = Vector::from(vec![game(), joined(a), Event::PlayerReady { session_id: a }]);

    match run_processors_step(&events, &outside(30_000_000_000)).unwrap() {
        Step::Emitted(v) => assert!(matches!(&v[..], [Event::RoundStarted { .. }]), "didn't match"),
        other => panic!("didn't match: {:?}", other),
    }
}

#[test]
fn race_alarm_set() {
    let a = 0xe6u128;

    let events = Vector::from(vec![
        game(),
        joined(a),
        Event::PlayerReady { session_id: a },
        Event::start_round_now(),
        Event::start_race_now(),
    ]);

    match run_processors_step(&events, &outside(30_000_000_000)).unwrap() {
        Step::Settled(alarm) => assert!(matches!(alarm, Some(Alarm(_))), "race alarm didn't set"),
        other => panic!("race alarm didn't set: {:?}", other),
    }
}

#[test]
fn race_finishes_automatically() {
    let a = 0xe7u128;

    let now = Event::now();

    let events = Vector::from(vec![
        game(),
        joined(a),
        Event::PlayerReady { session_id: a },
        Event::RoundStarted { time: now, odds: None },
        Event::RaceStarted { time: now - 60 },
    ]);

    match run_processors_step(&events, &outside(30_000_000_000)).unwrap() {
        Step::Emitted(v) => assert!(matches!(&v[..], [Event::RaceFinished { .. }]), "race didn't finish"),
        other => panic!("race didn't finish: {:?}", other),
    }
}

#[test]
fn race_timeout_waits_for_the_race() {
    let events = Vector::from(vec![game(), Event::RoundStarted { time: 0, odds: None }, Event::RaceStarted { time: 100 }]);
    assert_eq!(FinishRace.alarm(&events, 25_000_000_000), Some(Alarm(25_000_000_000)));
    assert_eq!(FinishRace.process_at(&events, 25_000_000_000, 124_999_999_999), None);
    assert_eq!(FinishRace.process_at(&events, 25_000_000_000, 125_000_000_000), Some(Command::FinishRace(())));
    assert_eq!(FinishRace.process_at(&events, 25_000_000_001, 125_000_000_000), None);
}

#[test]
fn intro_is_added_to_the_race() {
    let events = Vector::from(vec![game(), Event::RoundStarted { time: 0, odds: None }, Event::RaceStarted { time: 100 }]);
    // No card was played on a monster: the intro lasts three seconds.
    assert_eq!(IntroAwareFinishRace.alarm(&events, 25_000_000_000), Some(Alarm(28_000_000_000)));
    assert_eq!(IntroAwareFinishRace.process_at(&events, 25_000_000_000, 126_999_999_999), None);
    assert_eq!(IntroAwareFinishRace.process_at(&events, 25_000_000_000, 127_000_000_000), Some(Command::FinishRace(())));
}

#[test]
fn next_round_after_summary() {
    let results = RaceResults { first: 1, second: 2, third: 3 };
    let events = Vector::from(vec![
        game(),
        Event::RoundStarted { time: 0, odds: None },
        Event::RaceStarted { time: 10 },
        Event::RaceFinished { time: 50, results },
    ]);
    assert_eq!(StartRound.alarm(&events), Some(Alarm(15_000_000_000)));
    assert_eq!(StartRound.process_at(&events, 63_999_999_999), None);
    assert_eq!(StartRound.process_at(&events, 64_000_000_000), Some(Command::StartRound(())));
}

#[test]
fn game_over_after_ten_races() {
    let results = RaceResults { first: 1, second: 2, third: 3 };
    let mut events = Vector::from(vec![game()]);
    for round in 0..10u32 {
        assert_eq!(FinishGame.process(&events), None);
        events.push_back(Event::RoundStarted { time: round, odds: None });
        events.push_back(Event::RaceStarted { time: round });
        events.push_back(Event::RaceFinished { time: round, results });
    }
    assert_eq!(FinishGame.process(&events), Some(Command::FinishGame(())));
    assert_eq!(StartRound.alarm(&events), None);
    assert_eq!(StartRound.process_at(&events, u128::MAX), None);
    events.push_back(Event::GameFinished);
    assert_eq!(FinishGame.process(&events), None);
}

#[test]
fn race_starts_only_once_per_round() {
    let a = 0xe8u128;
    let mut events = Vector::from(vec![
        game(),
        joined(a),
        Event::PlayerReady { session_id: a },
        Event::RoundStarted { time: 0, odds: None },
        bet(a, 0xd9),
    ]);
    assert_eq!(StartRace.process_at(&events, 0), Some(Command::StartRace(())));
    events.push_back(Event::RaceStarted { time: 1 });
    assert_eq!(StartRace.process_at(&events, u128::MAX), None);
}
