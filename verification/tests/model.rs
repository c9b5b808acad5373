use im::Vector;
use shared::cards::{Card, TargetKind};
use shared::events::{option_payout, scaled, Event, Multiplier, Odds, Probability, Settings};
use shared::game_id::{generate_game_code, GameID, GameIdError};
use shared::monsters::{monster, MONSTER_COUNT};
use shared::projections::odds::{simulation_seeds, tally_odds, ODDS_RACES};
use shared::projections::accounts::debt;
use shared::projections::{
    game_has_started, last_round, maximum_debt, minimum_bet, pre_race_duration, race_seed_for_round, round,
    time_left_in_pregame_at,
};

#[test]
fn test_uppercase() {
    assert_eq!(GameID::try_from("abcdef").unwrap(), GameID::try_from("ABCDEF").unwrap());
    assert_eq!(GameID::try_from("abcdef").unwrap().as_str(), "ABCDEF");
}

#[test]
fn game_code_length() {
    assert_eq!(GameID::try_from("ABCDE").unwrap_err(), GameIdError::IncorrectLength);
    assert_eq!(GameID::try_from("ABCDEFG").unwrap_err(), GameIdError::IncorrectLength);
    assert_eq!(
        GameIdError::IncorrectLength.message(),
        "failed to convert from String to GameID, incorrect length"
    );
    assert_eq!(GameID::try_from_str("abcdef"), Some(Ok(GameID::try_from("ABCDEF").unwrap())));
    assert_eq!(GameID::try_from("XYZ123").unwrap().bytes(), *b"XYZ123");
}

#[test]
fn generated_codes_are_upper_case_letters() {
    for _ in 0..20 {
        let code = generate_game_code();
        assert!(code.bytes().iter().all(|b| b.is_ascii_uppercase()));
        assert_eq!(code.as_str().len(), 6);
    }
}

fn value(m: Multiplier) -> f64 {
    m.num as f64 / m.den as f64
}

#[test]
fn payout_is_capped_at_ten() {
    let odds = Some(Odds([
        (1, Probability { wins: 0, races: 1000 }),
        (2, Probability { wins: 50, races: 1000 }),
        (3, Probability { wins: 400, races: 1000 }),
    ]));
    assert_eq!(option_payout(&odds, 1), Multiplier { num: 10, den: 1 });
    assert_eq!(option_payout(&odds, 2), Multiplier { num: 10, den: 1 });
    assert_eq!(value(option_payout(&odds, 3)), 2.5);
    assert_eq!(value(option_payout(&odds, 4)), f32::min(1.0 / (1.0f32 / 3.0), 10.0) as f64);
    assert_eq!(option_payout(&None, 1), Multiplier { num: 3, den: 1 });
    assert_eq!(scaled(option_payout(&odds, 3), 100), 250);
    assert_eq!(scaled(Multiplier { num: 10, den: 1 }, i32::MAX), i32::MAX);
    assert_eq!(scaled(Multiplier { num: 3, den: 2 }, -5), -7);
}

#[test]
fn payouts_are_computed_in_single_precision() {
    let cases: [(u32, i32); 8] = [
        (300, 300),
        (300, 3),
        (700, 1000),
        (123, 4567),
        (999, 77777),
        (1, 100),
        (333, 2_000_000_000),
        (1000, 16_777_217),
    ];
    for (wins, stake) in cases {
        let odds = Some(Odds([
            (1, Probability { wins, races: 1000 }),
            (2, Probability { wins: 0, races: 1000 }),
            (3, Probability { wins: 1000 - wins, races: 1000 }),
        ]));
        let m = option_payout(&odds, 1);
        let payout = f32::min(1.0 / (wins as f32 / 1000.), 10.0);
        assert_eq!(value(m), payout as f64);
        assert_eq!(scaled(m, stake), (payout * stake as f32) as i32);
        assert_eq!(scaled(m, -stake), (payout * (-stake) as f32) as i32);
    }
    assert_eq!(scaled(option_payout(&Some(Odds([
        (1, Probability { wins: 300, races: 1000 }),
        (2, Probability { wins: 300, races: 1000 }),
        (3, Probability { wins: 400, races: 1000 }),
    ])), 1), 300), 1000);
}

#[test]
fn odds_count_wins() {
    let ms = [monster(0), monster(1), monster(2)];
    let winners = vec![ms[0].uuid, ms[2].uuid, ms[0].uuid, ms[0].uuid];
    let odds = tally_odds(&ms, &winners);
    assert_eq!(odds.0[0], (ms[0].uuid, Probability { wins: 3, races: ODDS_RACES }));
    assert_eq!(odds.0[1], (ms[1].uuid, Probability { wins: 0, races: ODDS_RACES }));
    assert_eq!(odds.0[2], (ms[2].uuid, Probability { wins: 1, races: ODDS_RACES }));
}

#[test]
fn simulation_seeds_are_seeded() {
    let a = simulation_seeds(7);
    assert_eq!(a.len(), 1000);
    assert_eq!(a, simulation_seeds(7));
    assert_ne!(a, simulation_seeds(8));
}

#[test]
fn roster_has_eleven_monsters() {
    assert_eq!(MONSTER_COUNT, 11);
    assert_eq!(monster(0).name, "Cactoro");
    assert_eq!(monster(1).name, "Purglehorn");
}

#[test]
fn card_texts() {
    assert_eq!(Card::TasteTester.name(), "Taste Tester");
    assert_eq!(Card::Scrutiny.target_kind(), TargetKind::MultiplePlayers(2));
    assert_eq!(Card::Theft.target_kind(), TargetKind::Player);
    assert_eq!(Card::Poison.icon(), "/pkg/icons/poison.svg");
}

#[test]
fn seeds_and_rounds() {
    let code = GameID::try_from("ABCDEF").unwrap();
    let events = Vector::from(vec![
        Event::GameCreated { game_id: code, settings: Settings::default() },
        Event::RoundStarted { time: 100, odds: None },
    ]);
    assert!(game_has_started(&events));
    assert_eq!(round(&events), 1);
    assert_eq!(race_seed_for_round(&events, 0), 0x4142_4344);
    assert_eq!(race_seed_for_round(&events, u32::MAX), 0x4142_4343);
    assert_eq!(pre_race_duration(&events), 3);
    assert_eq!(time_left_in_pregame_at(&events, 0), None);

    let mut later = events.clone();
    later.push_back(Event::RoundStarted { time: 200, odds: None });
    assert_eq!(time_left_in_pregame_at(&later, 250_000_000_000), Some(40));
    assert_eq!(time_left_in_pregame_at(&later, 300_000_000_000), Some(0));
}

#[test]
fn latest_round_slice() {
    let code = GameID::try_from("ABCDEF").unwrap();
    let results = shared::events::RaceResults { first: 1, second: 2, third: 3 };
    let events = Vector::from(vec![
        Event::GameCreated { game_id: code, settings: Settings::default() },
        Event::RoundStarted { time: 1, odds: None },
        Event::RaceStarted { time: 2 },
        Event::RaceFinished { time: 3, results },
    ]);
    // Positions are counted from the end: round start 2, race finish 0, so
    // the slice from 2 through 0 is empty.
    assert_eq!(last_round(&events), Some(Vector::new()));
    let mut next = events.clone();
    next.push_back(Event::RoundStarted { time: 4, odds: None });
    // Round start 0, race finish 1: the first two events of the log.
    assert_eq!(last_round(&next), Some(Vector::from(vec![events[0].clone(), events[1].clone()])));
    assert_eq!(last_round(&Vector::from(vec![Event::GameCreated { game_id: code, settings: Settings::default() }])), None);
}

#[test]
fn debt_grows_with_each_race() {
    let code = GameID::try_from("ABCDEF").unwrap();
    let results = shared::events::RaceResults { first: 1, second: 2, third: 3 };
    let mut events = Vector::from(vec![
        Event::GameCreated { game_id: code, settings: Settings::default() },
        Event::PlayerJoined { session_id: 9, name: "Alice".into(), initial_cards: vec![] },
        Event::BorrowedMoney { session_id: 9, amount: 1000 },
    ]);
    assert_eq!(debt(&events, 9), 1000);
    assert_eq!(debt(&events, 8), 0);
    assert_eq!(minimum_bet(&events), 100);
    assert_eq!(maximum_debt(&events), 300);
    events.push_back(Event::RoundStarted { time: 0, odds: None });
    events.push_back(Event::RaceStarted { time: 1 });
    events.push_back(Event::RaceFinished { time: 2, results });
    assert_eq!(debt(&events, 9), 1051);
    assert_eq!(minimum_bet(&events), 200);
    assert_eq!(maximum_debt(&events), 500);
    events.push_back(Event::PaidBackMoney { session_id: 9, amount: 51 });
    assert_eq!(debt(&events, 9), 1000);
}

#[test]
fn race_monsters_are_distinct() {
    let code = GameID::try_from("ABCDEF").unwrap();
    let events = Vector::from(vec![Event::GameCreated { game_id: code, settings: Settings::default() }]);
    for seed in 0..50u32 {
        let ms = shared::projections::monsters::monsters(&events, seed);
        assert_ne!(ms[0].uuid, ms[1].uuid);
        assert_ne!(ms[0].uuid, ms[2].uuid);
        assert_ne!(ms[1].uuid, ms[2].uuid);
    }
}

#[test]
fn crystals_give_five_hundred() {
    let code = GameID::try_from("ABCDEF").unwrap();
    let events = Vector::from(vec![
        Event::GameCreated { game_id: code, settings: Settings::default() },
        Event::PlayerJoined { session_id: 1, name: "Alice".into(), initial_cards: vec![] },
        Event::PlayerJoined { session_id: 2, name: "Bob".into(), initial_cards: vec![] },
        Event::PlayedCard { session_id: 1, card: Card::Crystals, target: shared::cards::Target::Player(2) },
    ]);
    let balances = shared::projections::accounts::all_account_balances(&events);
    assert_eq!(balances[&2], 1500);
    assert_eq!(balances[&1], 1000);
}

#[test]
fn interest_is_charged_in_single_precision() {
    let code = GameID::try_from("ABCDEF").unwrap();
    let results = shared::events::RaceResults { first: 1, second: 2, third: 3 };
    let after_one_race = |amount: u32| {
        let events = Vector::from(vec![
            Event::GameCreated { game_id: code, settings: Settings::default() },
            Event::PlayerJoined { session_id: 9, name: "Alice".into(), initial_cards: vec![] },
            Event::BorrowedMoney { session_id: 9, amount },
            Event::RaceFinished { time: 2, results },
        ]);
        debt(&events, 9)
    };
    assert_eq!(after_one_race(31549), 33158);
    assert_eq!(after_one_race(1000), 1051);
    let mut amounts: Vec<u32> = (31000..33000).collect();
    amounts.extend([0, 1, 2, 999, 16_777_215, 16_777_217, 123_456_789, 4_000_000_000, u32::MAX]);
    let mut x: u32 = 12345;
    for _ in 0..2000 {
        x = x.wrapping_mul(1_664_525).wrapping_add(1_013_904_223);
        amounts.push(x);
    }
    for amount in amounts {
        assert_eq!(after_one_race(amount), ((amount as f32) * 1.051) as u32, "amount {}", amount);
    }
}

#[test]
fn theft_takes_a_single_precision_fifth() {
    let code = GameID::try_from("ABCDEF").unwrap();
    let after_theft = |extra: Event| {
        let events = Vector::from(vec![
            Event::GameCreated { game_id: code, settings: Settings::default() },
            Event::PlayerJoined { session_id: 1, name: "Alice".into(), initial_cards: vec![] },
            Event::PlayerJoined { session_id: 2, name: "Bob".into(), initial_cards: vec![] },
            extra,
            Event::PlayedCard { session_id: 1, card: Card::Theft, target: shared::cards::Target::Player(2) },
        ]);
        let balances = shared::projections::accounts::all_account_balances(&events);
        (balances[&1], balances[&2])
    };
    let mut cases: Vec<Event> = Vec::new();
    for x in (0..3000u32).chain([16_777_000, 16_777_216, 33_554_431, 2_000_000_000, 2_147_000_000]) {
        cases.push(Event::BorrowedMoney { session_id: 2, amount: x });
        cases.push(Event::PaidBackMoney { session_id: 2, amount: x });
    }
    let mut x: u32 = 777;
    for _ in 0..1000 {
        x = x.wrapping_mul(1_664_525).wrapping_add(1_013_904_223) % 2_000_000_000;
        cases.push(Event::BorrowedMoney { session_id: 2, amount: x });
        cases.push(Event::PaidBackMoney { session_id: 2, amount: x });
    }
    for extra in cases {
        let before = match extra {
            Event::BorrowedMoney { amount, .. } => 1000 + amount as i32,
            Event::PaidBackMoney { amount, .. } => 1000 - amount as i32,
            _ => unreachable!(),
        };
        let taken = ((before as f32) * 0.2) as i32;
        assert_eq!(after_theft(extra), (1000 + taken, before - taken), "balance {}", before);
    }
}

#[test]
fn winnings_of_an_empty_log() {
    assert!(shared::projections::accounts::winnings(&Vector::new()).is_empty());
}
