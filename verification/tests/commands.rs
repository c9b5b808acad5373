use im::Vector;
use shared::cards::{Card, Target};
use shared::commands::borrow_money::{self, BorrowMoney};
use shared::commands::buy_card::BuyCard;
use shared::commands::change_profile::{self, ChangeProfile};
use shared::commands::create_game::{self, CreateGame};
use shared::commands::finish_game::FinishGame;
use shared::commands::finish_race::FinishRace;
use shared::commands::join_game::{self, JoinGame};
use shared::commands::place_bets::{self, Bet, PlaceBets};
use shared::commands::play_card::{self, PlayCard};
use shared::commands::ready_player::ReadyPlayer;
use shared::commands::start_game::StartGame;
use shared::commands::start_race::StartRace;
use shared::commands::start_round::{next_round_monsters, StartRound};
use shared::commands::{Command, CommandError, Environment, GameCode, API};
use shared::events::{Event, Odds, PlacedBet, Probability, RaceResults, Settings};
use shared::game_id::{generate_game_code, GameID};
use shared::projections::accounts::all_account_balances;
use shared::projections::hand::cards_in_hand;
use shared::projections::monsters::monsters;
use shared::projections::race_seed;

fn code() -> GameID {
    GameID::try_from("ABCDEF").unwrap()
}

fn created() -> Event {
    Event::GameCreated { game_id: code(), settings: Settings::default() }
}

fn joined(id: u128, name: &str) -> Event {
    Event::PlayerJoined { session_id: id, name: name.to_owned(), initial_cards: vec![] }
}

fn some_results() -> RaceResults {
    RaceResults { first: 0x71, second: 0x72, third: 0x73 }
}

fn some_odds() -> Odds {
    Odds([
        (0x71, Probability { wins: 1, races: 2 }),
        (0x72, Probability { wins: 1, races: 4 }),
        (0x73, Probability { wins: 1, races: 4 }),
    ])
}

#[test]
fn cannot_modify_player_that_doesnt_exist() {
    let a = 0xa1u128;
    let b = 0xb1u128;

    let events = Vector::from(vec![
        Event::GameCreated { game_id: generate_game_code(), settings: Settings::default() },
        joined(a, "A"),
    ]);

    assert_eq!(
        "cannot modify player that doesn't exist",
        ChangeProfile::handle(b, &events, change_profile::Input { name: "B".into() })
            .err()
            .expect("failed to fail")
            .message(),
    );
}

#[test]
fn players_may_not_finish_the_race() {
    let player = 0xa2u128;

    let events = Vector::from(vec![
        Event::GameCreated { game_id: generate_game_code(), settings: Settings::default() },
        Event::PlayerJoined { session_id: player, name: "example".into(), initial_cards: vec![] },
        Event::PlayerReady { session_id: player },
        Event::RoundStarted { time: 0, odds: None },
    ]);

    assert_eq!(
        "players may not finish the race",
        FinishRace::handle(player, &events, (), some_results()).err().expect("failed to fail").message(),
    );
}

#[test]
fn race_can_only_finish_if_its_in_progress() {
    let player = 0xa3u128;

    let events = Vector::from(vec![
        Event::GameCreated { game_id: generate_game_code(), settings: Settings::default() },
        Event::PlayerJoined { session_id: player, name: "example".into(), initial_cards: vec![] },
        Event::PlayerReady { session_id: player },
        Event::RoundStarted { time: 0, odds: None },
        Event::RaceStarted { time: 0 },
        Event::RaceFinished {
            time: 0,
            results: RaceResults { first: 0xa31, second: 0xa32, third: 0xa33 },
        },
    ]);

    assert_eq!(
        "race can only finish if its in progress",
        FinishRace::handle(0, &events, (), some_results()).err().expect("failed to fail").message(),
    );
}

#[test]
fn happy_path() {
    let player = 0xa4u128;

    let events = Vector::from(vec![
        Event::GameCreated { game_id: generate_game_code(), settings: Settings::default() },
        Event::PlayerJoined { session_id: player, name: "example".into(), initial_cards: vec![] },
        Event::PlayerReady { session_id: player },
        Event::RoundStarted { time: 0, odds: None },
        Event::RaceStarted { time: 0 },
    ]);

    let out = FinishRace::handle(0, &events, (), some_results()).expect("didn't finish race");
    assert!(matches!(out.last(), Some(Event::RaceFinished { .. })), "didn't finish race");
}

#[test]
fn finish_race_records_results_and_time() {
    let events = Vector::from(vec![created(), joined(1, "A"), Event::RoundStarted { time: 5, odds: None }, Event::RaceStarted { time: 10 }]);
    let out = FinishRace::handle_at(0, &events, (), some_results(), 77).unwrap();
    assert_eq!(out, vec![Event::RaceFinished { time: 77, results: some_results() }]);
}

#[test]
fn create_game_once() {
    let empty = Vector::new();
    let out = CreateGame::handle(0, &empty, create_game::Input { code: code() }).unwrap();
    assert_eq!(out, vec![Event::GameCreated { game_id: code(), settings: Settings::default() }]);
    let events = Vector::from(out);
    assert_eq!(
        CreateGame::handle(0, &events, create_game::Input { code: code() }).unwrap_err(),
        CommandError::GameAlreadyCreated
    );
    assert_eq!(
        CommandError::GameAlreadyCreated.message(),
        "create game cannot be called after the game has already been created"
    );
}

#[test]
fn join_game_rules() {
    let empty = Vector::new();
    let input = || join_game::Input { name: "Alice".into(), code: code() };
    assert_eq!(JoinGame::handle(1, &empty, input()).unwrap_err(), CommandError::JoinMissingGame);
    assert_eq!(CommandError::JoinMissingGame.message(), "cannot join game that doesn't exist");

    let events = Vector::from(vec![created()]);
    let out = JoinGame::handle(1, &events, input()).unwrap();
    assert_eq!(out, vec![Event::PlayerJoined { session_id: 1, name: "Alice".into(), initial_cards: vec![] }]);

    let mut events = events;
    events.push_back(out[0].clone());
    assert_eq!(JoinGame::handle(1, &events, input()).unwrap(), vec![]);

    let mut started = events.clone();
    started.push_back(Event::RoundStarted { time: 0, odds: None });
    assert_eq!(JoinGame::handle(2, &started, input()).unwrap_err(), CommandError::JoinAfterStart);
    assert_eq!(CommandError::JoinAfterStart.message(), "cannot join after game has already started");
}

#[test]
fn join_game_limit() {
    let mut events = Vector::from(vec![created()]);
    for id in 1..=15u128 {
        let out = JoinGame::handle(id, &events, join_game::Input { name: id.to_string(), code: code() }).unwrap();
        assert_eq!(out.len(), 1);
        events.push_back(out[0].clone());
    }
    assert_eq!(
        JoinGame::handle(16, &events, join_game::Input { name: "16".into(), code: code() }).unwrap_err(),
        CommandError::MaximumPlayers
    );
    assert_eq!(CommandError::MaximumPlayers.message(), "maximum number of players reached");
}

#[test]
fn join_game_deals_starting_cards() {
    let game = Event::GameCreated { game_id: code(), settings: Settings { starting_cards: 3, ..Default::default() } };
    let events = Vector::from(vec![game]);
    let out = JoinGame::handle(1, &events, join_game::Input { name: "Alice".into(), code: code() }).unwrap();
    match &out[0] {
        Event::PlayerJoined { initial_cards, .. } => {
            assert_eq!(initial_cards, &vec![Card::TasteTester, Card::Meditation, Card::TinfoilHat])
        },
        other => panic!("unexpected event {:?}", other),
    }
}

#[test]
fn change_profile_rules() {
    let events = Vector::from(vec![created(), joined(1, "Alice")]);
    assert_eq!(ChangeProfile::handle(1, &events, change_profile::Input { name: "Alice".into() }).unwrap(), vec![]);
    assert_eq!(
        ChangeProfile::handle(1, &events, change_profile::Input { name: "Alicia".into() }).unwrap(),
        vec![Event::ChangedProfile { session_id: 1, name: "Alicia".into() }]
    );
    let mut started = events.clone();
    started.push_back(Event::RoundStarted { time: 0, odds: None });
    assert_eq!(
        ChangeProfile::handle(1, &started, change_profile::Input { name: "Alicia".into() }).unwrap_err(),
        CommandError::ModifyAfterStart
    );
    assert_eq!(CommandError::ModifyAfterStart.message(), "cannot modify profile after game has started");
}

#[test]
fn ready_player_rules() {
    let events = Vector::from(vec![created(), joined(1, "Alice")]);
    assert_eq!(ReadyPlayer::handle(2, &events, ()).unwrap_err(), CommandError::ReadyMissingPlayer);
    assert_eq!(CommandError::ReadyMissingPlayer.message(), "cannot ready a player that doesn't exist");
    assert_eq!(ReadyPlayer::handle(1, &events, ()).unwrap(), vec![Event::PlayerReady { session_id: 1 }]);
    let mut started = events.clone();
    started.push_back(Event::RoundStarted { time: 0, odds: None });
    assert_eq!(ReadyPlayer::handle(1, &started, ()).unwrap_err(), CommandError::ReadyAfterStart);
    assert_eq!(CommandError::ReadyAfterStart.message(), "cannot ready a player after game has started");
}

#[test]
fn start_game_rules() {
    let events = Vector::from(vec![created(), joined(1, "Alice")]);
    assert_eq!(StartGame::handle_at(1, &events, (), some_odds(), 9).unwrap_err(), CommandError::PlayersMayNotStartRace);
    assert_eq!(CommandError::PlayersMayNotStartRace.message(), "players may not start the race");
    assert_eq!(StartGame::handle_at(0, &events, (), some_odds(), 9).unwrap_err(), CommandError::GameStartNeedsReady);
    assert_eq!(CommandError::GameStartNeedsReady.message(), "game can only start if all players are ready");
    let mut ready = events.clone();
    ready.push_back(Event::PlayerReady { session_id: 1 });
    assert_eq!(
        StartGame::handle_at(0, &ready, (), some_odds(), 9).unwrap(),
        vec![Event::RoundStarted { time: 9, odds: Some(some_odds()) }]
    );
}

#[test]
fn start_round_rules() {
    let events = Vector::from(vec![created(), joined(1, "Alice")]);
    assert_eq!(StartRound::handle_at(1, &events, (), some_odds(), 9).unwrap_err(), CommandError::PlayersMayNotStartRound);
    assert_eq!(CommandError::PlayersMayNotStartRound.message(), "players may not start the round");
    assert_eq!(StartRound::handle_at(0, &events, (), some_odds(), 9).unwrap_err(), CommandError::RoundStartNeedsReady);
    assert_eq!(CommandError::RoundStartNeedsReady.message(), "round can only start if all players are ready");
    let mut ready = events.clone();
    ready.push_back(Event::PlayerReady { session_id: 1 });
    assert_eq!(
        StartRound::handle_at(0, &ready, (), some_odds(), 12).unwrap(),
        vec![Event::RoundStarted { time: 12, odds: Some(some_odds()) }]
    );
}

#[test]
fn next_round_uses_next_seed() {
    let events = Vector::from(vec![created(), joined(1, "Alice"), Event::RoundStarted { time: 0, odds: None }]);
    let (ms, seed) = next_round_monsters(&events);
    // "ABCD" read big-endian, plus the next round's number.
    assert_eq!(seed, 0x4142_4344 + 2);
    assert_eq!(ms.map(|m| m.uuid), monsters(&events, seed).map(|m| m.uuid));
}

#[test]
fn start_race_rules() {
    let events = Vector::from(vec![created()]);
    assert_eq!(StartRace::handle_at(3, &events, (), 5).unwrap_err(), CommandError::PlayersMayNotStartRace);
    assert_eq!(StartRace::handle_at(0, &events, (), 5).unwrap(), vec![Event::RaceStarted { time: 5 }]);
    assert!(matches!(StartRace::handle(0, &events, ()).unwrap()[..], [Event::RaceStarted { .. }]));
}

#[test]
fn finish_game_rules() {
    let mut events = Vector::from(vec![created(), joined(1, "Alice")]);
    assert_eq!(FinishGame::handle(1, &events, ()).unwrap_err(), CommandError::PlayersMayNotFinishGame);
    assert_eq!(CommandError::PlayersMayNotFinishGame.message(), "players may not finish the game");
    assert_eq!(FinishGame::handle(0, &events, ()).unwrap_err(), CommandError::GameNotFinished);
    assert_eq!(CommandError::GameNotFinished.message(), "game is not finished");
    for round in 0..10u32 {
        events.push_back(Event::RoundStarted { time: round, odds: None });
        events.push_back(Event::RaceStarted { time: round });
        events.push_back(Event::RaceFinished { time: round, results: some_results() });
    }
    let out = FinishGame::handle(0, &events, ()).unwrap();
    assert_eq!(out, vec![Event::GameFinished]);
    events.push_back(Event::GameFinished);
    assert_eq!(FinishGame::handle(0, &events, ()).unwrap(), vec![]);
}

fn betting_game() -> Vector<Event> {
    Vector::from(vec![created(), joined(1, "Alice"), joined(2, "Bob"), Event::RoundStarted { time: 0, odds: None }])
}

#[test]
fn place_bets_rules() {
    let not_started = Vector::from(vec![created(), joined(1, "Alice")]);
    let bet = |monster_id: u128, amount: i32| Bet { monster_id, amount };
    assert_eq!(
        PlaceBets::handle(1, &not_started, place_bets::Input { bets: vec![] }).unwrap_err(),
        CommandError::BetBeforeStart
    );
    assert_eq!(CommandError::BetBeforeStart.message(), "cannot place a bet if the game hasn't started");

    let events = betting_game();
    let ms = monsters(&events, race_seed(&events));
    assert_eq!(
        PlaceBets::handle(1, &events, place_bets::Input { bets: vec![bet(ms[0].uuid, -1)] }).unwrap_err(),
        CommandError::NegativeBet
    );
    assert_eq!(CommandError::NegativeBet.message(), "cannot place a bet with a value less than 0");
    assert_eq!(
        PlaceBets::handle(1, &events, place_bets::Input { bets: vec![bet(ms[0].uuid, 600), bet(ms[1].uuid, 401)] })
            .unwrap_err(),
        CommandError::BetOverBalance
    );
    assert_eq!(
        CommandError::BetOverBalance.message(),
        "cannot place a bet with a total value greater than your balance"
    );
    assert_eq!(
        PlaceBets::handle(1, &events, place_bets::Input { bets: vec![bet(0x999, 10)] }).unwrap_err(),
        CommandError::UnknownMonster
    );
    assert_eq!(CommandError::UnknownMonster.message(), "failed to find monster corresponding to bet");

    let out = PlaceBets::handle(
        1,
        &events,
        place_bets::Input { bets: vec![bet(ms[0].uuid, 600), bet(ms[1].uuid, 0), bet(ms[2].uuid, 400)] },
    )
    .unwrap();
    assert_eq!(
        out,
        vec![
            Event::PlacedBet(PlacedBet { session_id: 1, monster_id: ms[0].uuid, amount: 600 }),
            Event::PlacedBet(PlacedBet { session_id: 1, monster_id: ms[2].uuid, amount: 400 }),
        ]
    );
    let mut after = events.clone();
    for e in out {
        after.push_back(e);
    }
    assert_eq!(all_account_balances(&after)[&1], 0);
}

#[test]
fn borrow_money_rules() {
    let empty = Vector::new();
    let borrow = |amount: i32| borrow_money::Input { amount };
    assert_eq!(BorrowMoney::handle(1, &empty, borrow(10)).unwrap_err(), CommandError::BorrowFromMissingGame);
    assert_eq!(CommandError::BorrowFromMissingGame.message(), "can't borrow money from a game that doesn't exist");

    let events = Vector::from(vec![created(), joined(1, "Alice")]);
    assert_eq!(BorrowMoney::handle(1, &events, borrow(0)).unwrap(), vec![]);
    assert_eq!(BorrowMoney::handle(2, &events, borrow(10)).unwrap_err(), CommandError::BorrowByNonPlayer);
    assert_eq!(CommandError::BorrowByNonPlayer.message(), "only real players can borrow money");
    assert_eq!(BorrowMoney::handle(1, &events, borrow(1001)).unwrap_err(), CommandError::BorrowOverLimit);
    assert_eq!(CommandError::BorrowOverLimit.message(), "cannot borrow more than $1000");
    assert_eq!(BorrowMoney::handle(1, &events, borrow(-1)).unwrap_err(), CommandError::PaybackOverDebt);
    assert_eq!(CommandError::PaybackOverDebt.message(), "cannot payback more than you owe");
    assert_eq!(BorrowMoney::handle(1, &events, borrow(-1001)).unwrap_err(), CommandError::PaybackOverBalance);
    assert_eq!(CommandError::PaybackOverBalance.message(), "cannot payback more money than you have");
    assert_eq!(
        BorrowMoney::handle(1, &events, borrow(1000)).unwrap(),
        vec![Event::BorrowedMoney { session_id: 1, amount: 1000 }]
    );

    let mut owing = events.clone();
    owing.push_back(Event::BorrowedMoney { session_id: 1, amount: 300 });
    assert_eq!(
        BorrowMoney::handle(1, &owing, borrow(-200)).unwrap(),
        vec![Event::PaidBackMoney { session_id: 1, amount: 200 }]
    );
    assert_eq!(BorrowMoney::handle(1, &owing, borrow(701)).unwrap_err(), CommandError::BorrowOverLimit);
    assert_eq!(CommandError::NoBalance.message(), "player doesn't exist");
}

#[test]
fn buy_card_rules() {
    let events = Vector::from(vec![created(), joined(1, "Alice")]);
    assert_eq!(BuyCard::handle(2, &events, ()).unwrap_err(), CommandError::PlayerDoesNotExist);
    assert_eq!(CommandError::PlayerDoesNotExist.message(), "Player does not exist");
    let out = BuyCard::handle(1, &events, ()).unwrap();
    assert_eq!(out.len(), 1);
    assert!(matches!(out[0], Event::BoughtCard { session_id: 1, .. }));
    assert_eq!(out, BuyCard::handle(1, &events, ()).unwrap());

    let mut full = events.clone();
    for _ in 0..5 {
        full.push_back(Event::BoughtCard { session_id: 1, card: Card::Poison });
    }
    assert_eq!(BuyCard::handle(1, &full, ()).unwrap_err(), CommandError::HandFull);
    assert_eq!(CommandError::HandFull.message(), "Player already has 5 cards in hand");

    let mut broke = events.clone();
    broke.push_back(Event::PlacedBet(PlacedBet { session_id: 1, monster_id: 7, amount: 950 }));
    assert_eq!(BuyCard::handle(1, &broke, ()).unwrap_err(), CommandError::NotEnoughMoney);
    assert_eq!(CommandError::NotEnoughMoney.message(), "Player does not have enough money");
}

#[test]
fn play_card_rules() {
    let events = Vector::from(vec![
        created(),
        joined(1, "Alice"),
        joined(2, "Bob"),
        Event::RoundStarted { time: 0, odds: None },
        Event::BoughtCard { session_id: 1, card: Card::Theft },
        Event::BoughtCard { session_id: 1, card: Card::Theft },
        Event::BoughtCard { session_id: 1, card: Card::Theft },
        Event::BoughtCard { session_id: 1, card: Card::Theft },
    ]);
    let play = |card: Card, target: Target| play_card::Input { card, target };
    assert_eq!(PlayCard::handle(3, &events, play(Card::Theft, Target::Player(2))).unwrap_err(), CommandError::PlayerDoesNotExist);
    assert_eq!(
        PlayCard::handle(1, &events, play(Card::Poison, Target::Player(2))).unwrap_err(),
        CommandError::CardNotInHand
    );
    assert_eq!(CommandError::CardNotInHand.message(), "Player does not have card in hand");
    assert_eq!(PlayCard::handle(1, &events, play(Card::Theft, Target::Player(1))).unwrap_err(), CommandError::InvalidTarget);
    assert_eq!(CommandError::InvalidTarget.message(), "Invalid target for card");
    let out = PlayCard::handle(1, &events, play(Card::Theft, Target::Player(2))).unwrap();
    assert_eq!(out, vec![Event::PlayedCard { session_id: 1, card: Card::Theft, target: Target::Player(2) }]);

    let mut played = events.clone();
    for _ in 0..3 {
        played.push_back(Event::PlayedCard { session_id: 1, card: Card::Theft, target: Target::Player(2) });
    }
    assert_eq!(cards_in_hand(&played, 1), vec![Card::Theft]);
    assert_eq!(
        PlayCard::handle(1, &played, play(Card::Theft, Target::Player(2))).unwrap_err(),
        CommandError::AlreadyPlayedCard
    );
    assert_eq!(CommandError::AlreadyPlayedCard.message(), "Player already played card this round");
}

#[test]
fn command_urls() {
    assert_eq!(CreateGame::url("ABCDEF"), "/api/object/game/by_code/ABCDEF/commands/create_game");
    assert_eq!(CreateGame::redirect("ABCDEF"), Some("/host/ABCDEF".to_owned()));
    assert_eq!(JoinGame::url("ABCDEF"), "/api/object/game/by_code/ABCDEF/command/join_game");
    assert_eq!(JoinGame::redirect("ABCDEF"), Some("/play/ABCDEF".to_owned()));
    assert_eq!(ChangeProfile::url("ABCDEF"), "/api/object/game/by_code/ABCDEF/commands/change_profile");
    assert_eq!(ChangeProfile::redirect("ABCDEF"), None);
    assert_eq!(ReadyPlayer::url("X"), "/api/object/game/by_code/X/commands/ready_player");
    assert_eq!(PlaceBets::url("X"), "/api/object/game/by_code/X/command/place_bet");
    assert_eq!(BorrowMoney::url("X"), "/api/object/game/by_code/X/commands/borrow_money");
    assert_eq!(BuyCard::url("X"), "/api/object/game/by_code/X/command/buy_card");
    assert_eq!(PlayCard::url("X"), "/api/object/game/by_code/X/command/play_card");
}

#[test]
fn inputs_name_their_game() {
    assert_eq!(create_game::Input { code: code() }.game_code(), code());
    assert_eq!(join_game::Input { name: "A".into(), code: code() }.game_code(), code());
}

#[test]
fn dispatch_hands_commands_to_handlers() {
    let env = Environment { now: 42, odds: some_odds(), results: some_results() };
    let events = Vector::from(vec![created(), joined(1, "Alice"), Event::PlayerReady { session_id: 1 }]);
    assert_eq!(
        Command::handle(0, &events, Command::StartGame(()), &env).unwrap(),
        vec![Event::RoundStarted { time: 42, odds: Some(some_odds()) }]
    );
    assert_eq!(Command::handle(0, &events, Command::StartRace(()), &env).unwrap(), vec![Event::RaceStarted { time: 42 }]);
    assert_eq!(
        Command::handle(1, &events, Command::ReadyPlayer(()), &env).unwrap(),
        vec![Event::PlayerReady { session_id: 1 }]
    );
    let mut racing = events.clone();
    racing.push_back(Event::RoundStarted { time: 1, odds: None });
    racing.push_back(Event::RaceStarted { time: 2 });
    assert_eq!(
        Command::handle(0, &racing, Command::FinishRace(()), &env).unwrap(),
        vec![Event::RaceFinished { time: 42, results: some_results() }]
    );
}
