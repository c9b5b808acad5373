use im::{OrdMap, Vector};
use shared::cards::{Card, Target};
use shared::events::{Event, Odds, Payout, PlacedBet, Probability, RaceResults, Settings};
use shared::game_id::{generate_game_code, GameID};
use shared::projections::accounts::{self, all_account_balances, INFLATION_FACTOR};
use shared::projections::hand::{self, can_play_more_cards, draw_n_cards_from_deck, initial_cards};
use shared::projections;

#[test]
fn empty() {
    let events = Vector::new();

    let accounts = all_account_balances(&events);

    assert_eq!(
        accounts,
        ([] as [(u128, i32); 0])
            .into_iter()
            .collect::<OrdMap<u128, i32>>()
    )
}

#[test]
fn initial_balances() {
    let alice = 0x1001u128;
    let bob = 0x1002u128;

    let events = Vector::from(vec![
        Event::GameCreated {
            game_id: GameID::try_from("ABCDEF").unwrap(),
            settings: Settings::default(),
        },
        Event::PlayerJoined {
            session_id: bob,
            name: "Bob".to_owned(),
            initial_cards: vec![]
        },
        Event::PlayerJoined {
            session_id: alice,
            name: "Alice".to_owned(),
            initial_cards: vec![]
        }
    ]);

    let accounts = all_account_balances(&events);

    assert_eq!(
        accounts,
        [(alice, 1000), (bob, 1000)]
            .into_iter()
            .collect::<OrdMap<u128, i32>>()
    )
}

#[test]
fn buying_cards() {
    let alice = 0x1003u128;
    let bob = 0x1004u128;

    let events = Vector::from(vec![
        Event::GameCreated {
            game_id: GameID::try_from("ABCDEF").unwrap(),
            settings: Settings::default()
        },
        Event::PlayerJoined {
            session_id: bob,
            name: "Bob".to_owned(),
            initial_cards: vec![]
        },
        Event::PlayerJoined {
            session_id: alice,
            name: "Alice".to_owned(),
            initial_cards: vec![]
        },
        Event::BoughtCard {
            session_id: alice,
            card: Card::Poison
        },
        Event::BoughtCard {
            session_id: alice,
            card: Card::Poison
        },
        Event::BoughtCard {
            session_id: bob,
            card: Card::Poison
        }
    ]);

    let accounts = all_account_balances(&events);

    assert_eq!(
        accounts,
        [(alice, 800), (bob, 900)]
            .into_iter()
            .collect::<OrdMap<u128, i32>>()
    )
}

#[test]
fn borrowing_money() {
    let alice = 0x1005u128;
    let bob = 0x1006u128;

    let events = Vector::from(vec![
        Event::GameCreated {
            game_id: GameID::try_from("ABCDEF").unwrap(),
            settings: Settings::default()
        },
        Event::PlayerJoined {
            session_id: bob,
            name: "Bob".to_owned(),
            initial_cards: vec![]
        },
        Event::PlayerJoined {
            session_id: alice,
            name: "Alice".to_owned(),
            initial_cards: vec![]
        },
        Event::BorrowedMoney {
            session_id: alice,
            amount: 1000
        },
        Event::BorrowedMoney {
            session_id: bob,
            amount: 200
        },
    ]);

    let accounts = all_account_balances(&events);

    assert_eq!(
        accounts,
        [(alice, 2000), (bob, 1200)]
            .into_iter()
            .collect::<OrdMap<u128, i32>>()
    )
}

#[test]
fn paying_back_money() {
    let alice = 0x1007u128;
    let bob = 0x1008u128;

    let events = Vector::from(vec![
        Event::GameCreated {
            game_id: GameID::try_from("ABCDEF").unwrap(),
            settings: Settings::default()
        },
        Event::PlayerJoined {
            session_id: bob,
            name: "Bob".to_owned(),
            initial_cards: vec![]
        },
        Event::PlayerJoined {
            session_id: alice,
            name: "Alice".to_owned(),
            initial_cards: vec![]
        },
        Event::BorrowedMoney {
            session_id: alice,
            amount: 1000
        },
        Event::BorrowedMoney {
            session_id: bob,
            amount: 200
        },
        Event::PaidBackMoney {
            session_id: bob,
            amount: 100
        }
    ]);

    let accounts = all_account_balances(&events);

    assert_eq!(
        accounts,
        [(alice, 2000), (bob, 1100)]
            .into_iter()
            .collect::<OrdMap<u128, i32>>()
    )
}

#[test]
fn placing_bets() {
    let alice = 0x1009u128;
    let bob = 0x100au128;

    let monster_a = 0x100bu128;
    let monster_b = 0x100cu128;

    let events = Vector::from(vec![
        Event::GameCreated {
            game_id: GameID::try_from("ABCDEF").unwrap(),
            settings: Settings::default()
        },
        Event::PlayerJoined {
            session_id: bob,
            name: "Bob".to_owned(),
            initial_cards: vec![]
        },
        Event::PlayerJoined {
            session_id: alice,
            name: "Alice".to_owned(),
            initial_cards: vec![]
        },
        Event::PlacedBet(PlacedBet {
            session_id: alice,
            monster_id: monster_a,
            amount: 200
        }),
        Event::PlacedBet(PlacedBet {
            session_id: bob,
            monster_id: monster_b,
            amount: 500
        })
    ]);

    let accounts = all_account_balances(&events);

    assert_eq!(
        accounts,
        [(alice, 800), (bob, 500)]
            .into_iter()
            .collect::<OrdMap<u128, i32>>()
    )
}

#[test]
fn winning_money_pool() {
    let alice = 0x100du128;
    let bob = 0x100eu128;

    let monster_a = 0x100fu128;
    let monster_b = 0x1010u128;
    let monster_c = 0x1011u128;

    let events = Vector::from(vec![
        Event::GameCreated {
            game_id: GameID::try_from("ABCDEF").unwrap(),
            settings: Settings {
                payout: Payout::Pool,
                ..Default::default()
            }
        },
        Event::PlayerJoined {
            session_id: bob,
            name: "Bob".to_owned(),
            initial_cards: vec![]
        },
        Event::PlayerJoined {
            session_id: alice,
            name: "Alice".to_owned(),
            initial_cards: vec![]
        },
        Event::PlacedBet(PlacedBet {
            session_id: alice,
            monster_id: monster_a,
            amount: 200
        }),
        Event::PlacedBet(PlacedBet {
            session_id: bob,
            monster_id: monster_b,
            amount: 500
        }),
        Event::RaceFinished {
            time: Event::now(),
            results: RaceResults {
                first: monster_a,
                second: monster_b,
                third: monster_c,
            }
        }
    ]);

    let accounts = all_account_balances(&events);

    assert_eq!(
        accounts,
        [(alice, 1550), (bob, 500)]
            .into_iter()
            .collect::<OrdMap<u128, i32>>()
    )
}

#[test]
fn winning_money_odds() {
    let alice = 0x1012u128;
    let bob = 0x1013u128;

    let monster_a = 0x1014u128;
    let monster_b = 0x1015u128;
    let monster_c = 0x1016u128;

    let events = Vector::from(vec![
        Event::GameCreated {
            game_id: GameID::try_from("ABCDEF").unwrap(),
            settings: Settings {
                payout: Payout::Odds,
                ..Default::default()
            }
        },
        Event::PlayerJoined {
            session_id: bob,
            name: "Bob".to_owned(),
            initial_cards: vec![]
        },
        Event::PlayerJoined {
            session_id: alice,
            name: "Alice".to_owned(),
            initial_cards: vec![]
        },
        Event::PlacedBet(PlacedBet {
            session_id: alice,
            monster_id: monster_a,
            amount: 200
        }),
        Event::PlacedBet(PlacedBet {
            session_id: bob,
            monster_id: monster_b,
            amount: 500
        }),
        Event::RaceFinished {
            time: Event::now(),
            results: RaceResults {
                first: monster_a,
                second: monster_b,
                third: monster_c,
            }
        }
    ]);

    let accounts = all_account_balances(&events);

    assert_eq!(
        accounts,
        [(alice, 1400), (bob, 500)]
            .into_iter()
            .collect::<OrdMap<u128, i32>>()
    )
}

#[test]
fn multiple_rounds_pool() {
    let alice = 0x1017u128;
    let bob = 0x1018u128;

    let monster_a = 0x1019u128;
    let monster_b = 0x101au128;
    let monster_c = 0x101bu128;

    let events = Vector::from(vec![
        Event::GameCreated {
            game_id: GameID::try_from("ABCDEF").unwrap(),
            settings: Settings {
                payout: Payout::Pool,
                ..Default::default()
            }
        },
        Event::PlayerJoined {
            session_id: bob,
            name: "Bob".to_owned(),
            initial_cards: vec![]
        },
        Event::PlayerJoined {
            session_id: alice,
            name: "Alice".to_owned(),
            initial_cards: vec![]
        },
        Event::PlacedBet(PlacedBet {
            session_id: alice,
            monster_id: monster_a,
            amount: 200
        }),
        Event::PlacedBet(PlacedBet {
            session_id: bob,
            monster_id: monster_b,
            amount: 500
        }),
        Event::RaceFinished {
            time: Event::now(),
            results: RaceResults {
                first: monster_a,
                second: monster_b,
                third: monster_c,
            }
        },
        Event::PlacedBet(PlacedBet {
            session_id: alice,
            monster_id: monster_a,
            amount: 250
        }),
        Event::PlacedBet(PlacedBet {
            session_id: bob,
            monster_id: monster_b,
            amount: 500
        }),
        Event::RaceFinished {
            time: Event::now(),
            results: RaceResults {
                first: monster_b,
                second: monster_a,
                third: monster_c,
            }
        },
        Event::PlacedBet(PlacedBet {
            session_id: alice,
            monster_id: monster_b,
            amount: 50
        }),
        Event::PlacedBet(PlacedBet {
            session_id: bob,
            monster_id: monster_c,
            amount: 300
        }),
        Event::RaceFinished {
            time: Event::now(),
            results: RaceResults {
                first: monster_c,
                second: monster_b,
                third: monster_a,
            }
        }
    ]);

    let accounts = all_account_balances(&events);

    assert_eq!(
        accounts,
        [(alice, 1250), (bob, 830)]
            .into_iter()
            .collect::<OrdMap<u128, i32>>()
    )
}

#[test]
fn multiple_rounds_odds() {
    let alice = 0x101cu128;
    let bob = 0x101du128;

    let monster_a = 0x101eu128;
    let monster_b = 0x101fu128;
    let monster_c = 0x1020u128;

    let events = Vector::from(vec![
        Event::GameCreated {
            game_id: GameID::try_from("ABCDEF").unwrap(),
            settings: Settings {
                payout: Payout::Odds,
                ..Default::default()
            }
        },
        Event::PlayerJoined {
            session_id: bob,
            name: "Bob".to_owned(),
            initial_cards: vec![]
        },
        Event::PlayerJoined {
            session_id: alice,
            name: "Alice".to_owned(),
            initial_cards: vec![]
        },
        Event::PlacedBet(PlacedBet {
            session_id: alice,
            monster_id: monster_a,
            amount: 200
        }),
        Event::PlacedBet(PlacedBet {
            session_id: bob,
            monster_id: monster_b,
            amount: 500
        }),
        Event::RaceFinished {
            time: Event::now(),
            results: RaceResults {
                first: monster_a,
                second: monster_b,
                third: monster_c,
            }
        },
        Event::PlacedBet(PlacedBet {
            session_id: alice,
            monster_id: monster_a,
            amount: 250
        }),
        Event::PlacedBet(PlacedBet {
            session_id: bob,
            monster_id: monster_b,
            amount: 500
        }),
        Event::RaceFinished {
            time: Event::now(),
            results: RaceResults {
                first: monster_b,
                second: monster_a,
                third: monster_c,
            }
        },
        Event::PlacedBet(PlacedBet {
            session_id: alice,
            monster_id: monster_b,
            amount: 50
        }),
        Event::PlacedBet(PlacedBet {
            session_id: bob,
            monster_id: monster_c,
            amount: 300
        }),
        Event::RaceFinished {
            time: Event::now(),
            results: RaceResults {
                first: monster_c,
                second: monster_b,
                third: monster_a,
            }
        }
    ]);

    let accounts = all_account_balances(&events);

    assert_eq!(
        accounts,
        [(alice, 1100), (bob, 2100)]
            .into_iter()
            .collect::<OrdMap<u128, i32>>()
    )
}

#[test]
fn all_together_pool() {
    let alice = 0x1021u128;
    let bob = 0x1022u128;

    let monster_a = 0x1023u128;
    let monster_b = 0x1024u128;
    let monster_c = 0x1025u128;

    let events = Vector::from(vec![
        Event::GameCreated {
            game_id: GameID::try_from("ABCDEF").unwrap(),
            settings: Settings {
                payout: Payout::Pool,
                ..Default::default()
            }
        },
        Event::PlayerJoined {
            session_id: bob,
            name: "Bob".to_owned(),
            initial_cards: vec![]
        },
        Event::PlayerJoined {
            session_id: alice,
            name: "Alice".to_owned(),
            initial_cards: vec![]
        },
        Event::BoughtCard {
            session_id: alice,
            card: Card::Poison
        },
        Event::PlacedBet(PlacedBet {
            session_id: alice,
            monster_id: monster_a,
            amount: 200
        }),
        Event::PlacedBet(PlacedBet {
            session_id: bob,
            monster_id: monster_b,
            amount: 500
        }),
        Event::RaceFinished {
            time: Event::now(),
            results: RaceResults {
                first: monster_a,
                second: monster_b,
                third: monster_c,
            }
        },
        Event::BoughtCard {
            session_id: bob,
            card: Card::Poison
        },
        Event::BorrowedMoney {
            session_id: bob,
            amount: 500
        },
        Event::PlacedBet(PlacedBet {
            session_id: alice,
            monster_id: monster_a,
            amount: 250
        }),
        Event::PlacedBet(PlacedBet {
            session_id: bob,
            monster_id: monster_b,
            amount: 400
        }),
        Event::BorrowedMoney {
            session_id: alice,
            amount: 100
        },
        Event::RaceFinished {
            time: Event::now(),
            results: RaceResults {
                first: monster_b,
                second: monster_a,
                third: monster_c,
            }
        },
        Event::PlacedBet(PlacedBet {
            session_id: alice,
            monster_id: monster_b,
            amount: 50
        }),
        Event::PlacedBet(PlacedBet {
            session_id: bob,
            monster_id: monster_c,
            amount: 300
        }),
        Event::RaceFinished {
            time: Event::now(),
            results: RaceResults {
                first: monster_c,
                second: monster_b,
                third: monster_a,
            }
        },
        Event::PaidBackMoney {
            session_id: bob,
            amount: 500
        }
    ]);

    let accounts = all_account_balances(&events);

    assert_eq!(
        accounts,
        [(alice, 1250), (bob, 730)]
            .into_iter()
            .collect::<OrdMap<u128, i32>>()
    )
}

#[test]
fn all_together_odds() {
    let alice = 0x1026u128;
    let bob = 0x1027u128;

    let monster_a = 0x1028u128;
    let monster_b = 0x1029u128;
    let monster_c = 0x102au128;

    let events = Vector::from(vec![
        Event::GameCreated {
            game_id: GameID::try_from("ABCDEF").unwrap(),
            settings: Settings {
                payout: Payout::Odds,
                ..Default::default()
            }
        },
        Event::PlayerJoined {
            session_id: bob,
            name: "Bob".to_owned(),
            initial_cards: vec![]
        },
        Event::PlayerJoined {
            session_id: alice,
            name: "Alice".to_owned(),
            initial_cards: vec![]
        },
        Event::BoughtCard {
            session_id: alice,
            card: Card::Poison
        },
        Event::PlacedBet(PlacedBet {
            session_id: alice,
            monster_id: monster_a,
            amount: 200
        }),
        Event::PlacedBet(PlacedBet {
            session_id: bob,
            monster_id: monster_b,
            amount: 500
        }),
        Event::RaceFinished {
            time: Event::now(),
            results: RaceResults {
                first: monster_a,
                second: monster_b,
                third: monster_c,
            }
        },
        Event::BoughtCard {
            session_id: bob,
            card: Card::Poison
        },
        Event::BorrowedMoney {
            session_id: bob,
            amount: 500
        },
        Event::PlacedBet(PlacedBet {
            session_id: alice,
            monster_id: monster_a,
            amount: 250
        }),
        Event::PlacedBet(PlacedBet {
            session_id: bob,
            monster_id: monster_b,
            amount: 400
        }),
        Event::BorrowedMoney {
            session_id: alice,
            amount: 100
        },
        Event::RaceFinished {
            time: Event::now(),
            results: RaceResults {
                first: monster_b,
                second: monster_a,
                third: monster_c,
            }
        },
        Event::PlacedBet(PlacedBet {
            session_id: alice,
            monster_id: monster_b,
            amount: 50
        }),
        Event::PlacedBet(PlacedBet {
            session_id: bob,
            monster_id: monster_c,
            amount: 300
        }),
        Event::RaceFinished {
            time: Event::now(),
            results: RaceResults {
                first: monster_c,
                second: monster_b,
                third: monster_a,
            }
        },
        Event::PaidBackMoney {
            session_id: bob,
            amount: 500
        }
    ]);

    let accounts = all_account_balances(&events);

    assert_eq!(
        accounts,
        [(alice, 1100), (bob, 1800)]
            .into_iter()
            .collect::<OrdMap<u128, i32>>()
    )
}

#[test]
fn winnings() {
    let alice = 0x102bu128;
    let bob = 0x102cu128;
    let carol = 0x102du128;

    let monster_a = 0x102eu128;
    let monster_b = 0x102fu128;
    let monster_c = 0x1030u128;

    let events = Vector::from(vec![
        Event::GameCreated {
            game_id: generate_game_code(),
            settings: Settings {
                payout: Payout::Pool,
                ..Default::default()
            }
        },
        Event::PlayerJoined {
            name: "Alice".into(),
            session_id: alice,
            initial_cards: vec![]
        },
        Event::PlayerJoined {
            name: "Bob".into(),
            session_id: bob,
            initial_cards: vec![]
        },
        Event::PlayerJoined {
            name: "Carol".into(),
            session_id: carol,
            initial_cards: vec![]
        },
        Event::PlacedBet(PlacedBet {
            session_id: alice,
            monster_id: monster_a,
            amount: 100
        }),
        Event::PlacedBet(PlacedBet {
            session_id: alice,
            monster_id: monster_b,
            amount: 100
        }),
        Event::PlacedBet(PlacedBet {
            session_id: bob,
            monster_id: monster_b,
            amount: 100
        }),
        Event::PlacedBet(PlacedBet {
            session_id: carol,
            monster_id: monster_a,
            amount: 100
        }),
        Event::RaceFinished {
            time: Event::now(),
            results: RaceResults {
                first: monster_b,
                second: monster_a,
                third: monster_c
            }
        }
    ]);

    let winnings = accounts::winnings(&events);

    assert_eq!(
        winnings,
        OrdMap::from([(alice, 10), (bob, 110), (carol, -100)].as_ref())
    );
}

#[test]
fn poison_lowers_strength() {

    let alice = 0x1031u128;

    let events = Vector::from(vec![
        Event::GameCreated {
            game_id: generate_game_code(),
            settings: Settings::default()
        },
        Event::PlayerJoined {
            name: "Alice".into(),
            session_id: alice,
            initial_cards: vec![]
        },
        Event::BoughtCard {
            session_id: alice,
            card: Card::Poison
        },
        Event::RoundStarted {
            time: 0,
            odds: None
        },
    ]);

    let monsters = projections::monsters::monsters(&events, 0);

    let mut post_poison_events = events.clone();
    post_poison_events.push_back(Event::PlayedCard {
        session_id: alice,
        card: Card::Poison,
        target: Target::Monster(monsters[0].uuid),
    });

    let post_poison_monsters = projections::monsters::monsters(&post_poison_events, 0);

    assert_eq!(monsters[0].strength - 3, post_poison_monsters[0].strength);
    assert_eq!(monsters[1].strength, post_poison_monsters[1].strength);
    assert_eq!(monsters[2].strength, post_poison_monsters[2].strength);
}

#[test]
fn poison_countered_by_taste_tester() {

    let alice = 0x1032u128;

    let events = Vector::from(vec![
        Event::GameCreated {
            game_id: generate_game_code(),
            settings: Settings::default()
        },
        Event::PlayerJoined {
            name: "Alice".into(),
            session_id: alice,
            initial_cards: vec![]
        },
        Event::BoughtCard {
            session_id: alice,
            card: Card::Poison
        },
        Event::BoughtCard {
            session_id: alice,
            card: Card::TasteTester
        },
        Event::RoundStarted {
            time: 0,
            odds: None
        },
    ]);

    let monsters = projections::monsters::monsters(&events, 0);

    let mut post_poison_events = events.clone();
    post_poison_events.push_back(Event::PlayedCard {
        session_id: alice,
        card: Card::Poison,
        target: Target::Monster(monsters[0].uuid),
    });
    post_poison_events.push_back(Event::PlayedCard {
        session_id: alice,
        card: Card::TasteTester,
        target: Target::Monster(monsters[0].uuid),
    });

    let post_poison_monsters = projections::monsters::monsters(&post_poison_events, 0);

    assert_eq!(monsters[0].strength, post_poison_monsters[0].strength);
    assert_eq!(monsters[1].strength, post_poison_monsters[1].strength);
    assert_eq!(monsters[2].strength, post_poison_monsters[2].strength);
}

#[test]
fn extra_rations_increases_strength() {

    let alice = 0x1033u128;

    let events = Vector::from(vec![
        Event::GameCreated {
            game_id: generate_game_code(),
            settings: Settings::default()
        },
        Event::PlayerJoined {
            name: "Alice".into(),
            session_id: alice,
            initial_cards: vec![]
        },
        Event::BoughtCard {
            session_id: alice,
            card: Card::ExtraRations
        },
        Event::RoundStarted {
            time: 0,
            odds: None
        },
    ]);

    let monsters = projections::monsters::monsters(&events, 0);

    let mut post_rations_events = events.clone();
    post_rations_events.push_back(Event::PlayedCard {
        session_id: alice,
        card: Card::ExtraRations,
        target: Target::Monster(monsters[0].uuid),
    });

    let post_poison_monsters = projections::monsters::monsters(&post_rations_events, 0);

    assert_eq!(monsters[0].strength + 2, post_poison_monsters[0].strength);
    assert_eq!(monsters[1].strength, post_poison_monsters[1].strength);
    assert_eq!(monsters[2].strength, post_poison_monsters[2].strength);
}

#[test]
fn extra_rations_countered_by_taste_tester() {

    let alice = 0x1034u128;

    let events = Vector::from(vec![
        Event::GameCreated {
            game_id: generate_game_code(),
            settings: Settings::default()
        },
        Event::PlayerJoined {
            name: "Alice".into(),
            session_id: alice,
            initial_cards: vec![]
        },
        Event::BoughtCard {
            session_id: alice,
            card: Card::ExtraRations
        },
        Event::BoughtCard {
            session_id: alice,
            card: Card::TasteTester
        },
        Event::RoundStarted {
            time: 0,
            odds: None
        },
    ]);

    let monsters = projections::monsters::monsters(&events, 0);

    let mut post_rations_events = events.clone();
    post_rations_events.push_back(Event::PlayedCard {
        session_id: alice,
        card: Card::ExtraRations,
        target: Target::Monster(monsters[0].uuid),
    });
    post_rations_events.push_back(Event::PlayedCard {
        session_id: alice,
        card: Card::TasteTester,
        target: Target::Monster(monsters[0].uuid),
    });

    let post_poison_monsters = projections::monsters::monsters(&post_rations_events, 0);

    assert_eq!(monsters[0].strength, post_poison_monsters[0].strength);
    assert_eq!(monsters[1].strength, post_poison_monsters[1].strength);
    assert_eq!(monsters[2].strength, post_poison_monsters[2].strength);
}

#[test]
fn cards_in_hand() {

    let alice = 0x1035u128;

    let events = Vector::from(vec![
        Event::GameCreated {
            game_id: generate_game_code(),
            settings: Settings::default()
        },
        Event::PlayerJoined {
            name: "Alice".into(),
            session_id: alice,
            initial_cards: vec![]
        },
        Event::BoughtCard {
            session_id: alice,
            card: Card::Poison
        },
        Event::BoughtCard {
            session_id: alice,
            card: Card::TasteTester
        },
    ]);

    let cards_in_hand = hand::cards_in_hand(&events, alice);

    assert_eq!(cards_in_hand, vec![Card::Poison, Card::TasteTester]);
}

#[test]
fn starting_cards() {

    // Initial cards are sensitive to player UUID & GameCode
    let alice = 1u128;

    let game = Event::GameCreated {
        game_id: GameID::try_from("ABCDEF").unwrap(),
        settings: Settings {
            starting_cards: 3,
            ..Default::default()
        },
    };

    let events = Vector::from(vec![
        game.clone(),
        Event::PlayerJoined {
            name: "Alice".into(),
            session_id: alice,
            initial_cards: initial_cards(&Vector::from(vec![game]), alice)
        }
    ]);

    let cards_in_hand = hand::cards_in_hand(&events, alice);

    assert_eq!(
        cards_in_hand,
        vec![Card::TasteTester, Card::Meditation, Card::TinfoilHat]
    );
}

#[test]
fn playing_a_card_removes_it_from_hand() {

    let alice = 0x1036u128;

    let events = Vector::from(vec![
        Event::GameCreated {
            game_id: generate_game_code(),
            settings: Settings::default()
        },
        Event::PlayerJoined {
            name: "Alice".into(),
            session_id: alice,
            initial_cards: vec![]
        },
        Event::BoughtCard {
            session_id: alice,
            card: Card::Poison
        },
        Event::BoughtCard {
            session_id: alice,
            card: Card::TasteTester
        },
        Event::BoughtCard {
            session_id: alice,
            card: Card::TasteTester
        },
        Event::PlayedCard {
            session_id: alice,
            card: Card::TasteTester,
            target: Target::Monster(alice),
        }
    ]);

    let cards_in_hand = hand::cards_in_hand(&events, alice);

    assert_eq!(cards_in_hand, vec![Card::Poison, Card::TasteTester]);
}

#[test]
fn drawing_a_card_is_deterministic() {
    let events = Vector::from(vec![Event::GameCreated {
        game_id: generate_game_code(),
        settings: Settings::default()
    }]);

    assert_eq!(
        draw_n_cards_from_deck(&events, 0, 1),
        draw_n_cards_from_deck(&events, 0, 1)
    );
}

#[test]
fn theft() {

    let alice = 0x1037u128;
    let bob = 0x1038u128;

    let events = Vector::from(vec![
        Event::GameCreated {
            game_id: generate_game_code(),
            settings: Settings::default()
        },
        Event::PlayerJoined {
            name: "Alice".into(),
            session_id: alice,
            initial_cards: vec![]
        },
        Event::PlayerJoined {
            name: "Bob".into(),
            session_id: bob,
            initial_cards: vec![]
        },
        Event::BoughtCard {
            session_id: alice,
            card: Card::Theft
        },
        Event::PlayedCard {
            session_id: alice,
            card: Card::Theft,
            target: Target::Player(bob),
        }
    ]);

    let balances = all_account_balances(&events);

    assert_eq!(balances[&alice], 1100);
    assert_eq!(balances[&bob], 800);
}

#[test]
fn extortion_one_card() {

    let alice = 0x1039u128;
    let bob = 0x103au128;

    let events = Vector::from(vec![
        Event::GameCreated {
            game_id: GameID::try_from("ABCDEF").unwrap(),
            settings: Settings::default()
        },
        Event::PlayerJoined {
            name: "Alice".into(),
            session_id: alice,
            initial_cards: vec![]
        },
        Event::PlayerJoined {
            name: "Bob".into(),
            session_id: bob,
            initial_cards: vec![]
        },
        Event::BoughtCard {
            session_id: alice,
            card: Card::Extortion
        },
        Event::BoughtCard {
            session_id: bob,
            card: Card::Poison,
        },
        Event::PlayedCard {
            session_id: alice,
            card: Card::Extortion,
            target: Target::Player(bob),
        }
    ]);

    assert_eq!(hand::cards_in_hand(&events, alice), vec![Card::Poison]);
    assert_eq!(hand::cards_in_hand(&events, bob), vec![]);
}

#[test]
fn extortion_two_card() {

    let alice = 0x103bu128;
    let bob = 0x103cu128;

    let events = Vector::from(vec![
        Event::GameCreated {
            game_id: GameID::try_from("ABCDEF").unwrap(),
            settings: Settings::default()
        },
        Event::PlayerJoined {
            name: "Alice".into(),
            session_id: alice,
            initial_cards: vec![]
        },
        Event::PlayerJoined {
            name: "Bob".into(),
            session_id: bob,
            initial_cards: vec![]
        },
        Event::BoughtCard {
            session_id: alice,
            card: Card::Extortion
        },
        Event::BoughtCard {
            session_id: bob,
            card: Card::Poison,
        },
        Event::BoughtCard {
            session_id: bob,
            card: Card::PsyBlast,
        },
        Event::PlayedCard {
            session_id: alice,
            card: Card::Extortion,
            target: Target::Player(bob),
        }
    ]);

    assert_eq!(
        hand::cards_in_hand(&events, alice),
        vec![Card::PsyBlast, Card::Poison]
    );
    assert_eq!(hand::cards_in_hand(&events, bob), vec![]);
}

#[test]
fn extortion_three_card() {

    let alice = 0x103du128;
    let bob = 0x103eu128;

    let events = Vector::from(vec![
        Event::GameCreated {
            game_id: GameID::try_from("ABCDEF").unwrap(),
            settings: Settings::default()
        },
        Event::PlayerJoined {
            name: "Alice".into(),
            session_id: alice,
            initial_cards: vec![]
        },
        Event::PlayerJoined {
            name: "Bob".into(),
            session_id: bob,
            initial_cards: vec![]
        },
        Event::BoughtCard {
            session_id: alice,
            card: Card::Extortion
        },
        Event::BoughtCard {
            session_id: bob,
            card: Card::Poison,
        },
        Event::BoughtCard {
            session_id: bob,
            card: Card::PsyBlast,
        },
        Event::BoughtCard {
            session_id: bob,
            card: Card::Meditation,
        },
        Event::PlayedCard {
            session_id: alice,
            card: Card::Extortion,
            target: Target::Player(bob),
        }
    ]);

    assert_eq!(
        hand::cards_in_hand(&events, alice),
        vec![Card::Meditation, Card::PsyBlast]
    );
    assert_eq!(hand::cards_in_hand(&events, bob), vec![Card::Poison]);
}

#[test]
fn three_players_numbers_of_cards() {

    // The number of cards that can be played per round scales inversely with the number of players.
    // [1-3] -> 3
    // [4-8] -> 2
    // 9+ -> 1

    let alice = 0x103fu128;
    let bob = 0x1040u128;
    let carol = 0x1041u128;

    let mut events = Vector::from(vec![
        Event::GameCreated {
            game_id: generate_game_code(),
            settings: Settings::default()
        },
        Event::PlayerJoined {
            name: "Alice".into(),
            session_id: alice,
            initial_cards: vec![]
        },
        Event::PlayerJoined {
            name: "Bob".into(),
            session_id: bob,
            initial_cards: vec![]
        },
        Event::PlayerJoined {
            name: "Carol".into(),
            session_id: carol,
            initial_cards: vec![]
        },
        Event::PlayerReady { session_id: alice },
        Event::PlayerReady { session_id: bob },
        Event::PlayerReady { session_id: carol },
        Event::RoundStarted {
            time: 0,
            odds: None
        },
        Event::BoughtCard {
            session_id: alice,
            card: Card::Poison,
        },
        Event::BoughtCard {
            session_id: alice,
            card: Card::Poison,
        },
        Event::BoughtCard {
            session_id: alice,
            card: Card::Poison,
        },
        Event::BoughtCard {
            session_id: bob,
            card: Card::Scrutiny,
        },
    ]);

    assert!(
        can_play_more_cards(&events, alice),
        "Player should be able to play cards initially"
    );

    events.push_back(Event::PlayedCard {
        session_id: alice,
        card: Card::Poison,
        target: Target::Monster(0x1042u128),
    });
    assert!(
        can_play_more_cards(&events, alice),
        "A three player game should allow a player to play at least two card"
    );

    events.push_back(Event::PlayedCard {
        session_id: alice,
        card: Card::Poison,
        target: Target::Monster(0x1043u128),
    });

    assert!(
        can_play_more_cards(&events, alice),
        "A three player game should allow a player to play at least three cards"
    );

    events.push_back(Event::PlayedCard {
        session_id: alice,
        card: Card::Poison,
        target: Target::Monster(0x1044u128),
    });

    assert!(
        !can_play_more_cards(&events, alice),
        "A three player game should allow a player to play no more than three cards"
    );

    events.push_back(Event::PlayedCard {
        session_id: bob,
        card: Card::Scrutiny,
        target: Target::MultiplePlayers(vec![carol]),
    });

    assert!(
        !can_play_more_cards(&events, carol),
        "Player should not be able to play cards after being subject to scrutiny"
    );

    events.push_back(Event::RoundStarted {
        time: 1,
        odds: None,
    });
    assert!(
        can_play_more_cards(&events, alice),
        "Player should be able to play cards at the start of a new round"
    );
}

#[test]
fn four_to_eight_players_numbers_of_cards() {

    let players = (1..=6u128).map(|i| 0x5000u128 + i).collect::<Vec<_>>();

    let mut events = Vector::from_iter(
        [Event::GameCreated {
            game_id: generate_game_code(),
            settings: Settings::default(),
        }]
        .into_iter()
        .chain(players.iter().clone().flat_map(|id| {
            [
                Event::PlayerJoined {
                    session_id: *id,
                    name: id.to_string(),
                    initial_cards: vec![],
                },
                Event::PlayerReady { session_id: *id },
            ]
        }))
        .chain([Event::RoundStarted {
            time: 0,
            odds: None,
        }]),
    );

    assert!(
        can_play_more_cards(&events, players[0]),
        "Player should be able to play cards initially"
    );

    events.push_back(Event::PlayedCard {
        session_id: players[0],
        card: Card::Poison,
        target: Target::Monster(0x1045u128),
    });
    assert!(
        can_play_more_cards(&events, players[0]),
        "A three player game should allow a player to play at least two card"
    );

    events.push_back(Event::PlayedCard {
        session_id: players[0],
        card: Card::Poison,
        target: Target::Monster(0x1046u128),
    });

    assert!(
        !can_play_more_cards(&events, players[0]),
        "A 6 player game should allow a player to play no more than two cards"
    );

    assert!(
        can_play_more_cards(&events, players[1]),
        "Other players playing cards should not affect other players ability to play cards"
    );
}

#[test]
fn nine_plus_players_numbers_of_cards() {

    let players = (1..=9u128).map(|i| 0x6000u128 + i).collect::<Vec<_>>();

    let mut events = Vector::from_iter(
        [Event::GameCreated {
            game_id: generate_game_code(),
            settings: Settings::default(),
        }]
        .into_iter()
        .chain(players.iter().clone().flat_map(|id| {
            [
                Event::PlayerJoined {
                    session_id: *id,
                    name: id.to_string(),
                    initial_cards: vec![],
                },
                Event::PlayerReady { session_id: *id },
            ]
        }))
        .chain([Event::RoundStarted {
            time: 0,
            odds: None,
        }]),
    );

    assert!(
        can_play_more_cards(&events, players[0]),
        "Player should be able to play cards initially"
    );

    events.push_back(Event::PlayedCard {
        session_id: players[0],
        card: Card::Poison,
        target: Target::Monster(0x1047u128),
    });
    assert!(
        !can_play_more_cards(&events, players[0]),
        "A nine player game should allow only a single card to be played"
    );

    assert!(
        can_play_more_cards(&events, players[1]),
        "Other players playing cards should not affect other players ability to play cards"
    );
}

#[test]
fn winnings_proportional_to_loss() {

    let alice = 0x1048u128;
    let bob = 0x1049u128;
    let carol = 0x104au128;

    let monster_a = 0x104bu128;
    let monster_b = 0x104cu128;
    let monster_c = 0x104du128;

    let bets: [(&str, &[(u128, u128, i32)], [(u128, i32); 3]); 5] = [
        (
            "winner takes all",
            &[
                (alice, monster_a, 100),
                (bob, monster_b, 200),
                (carol, monster_c, 300),
            ],
            [
                (alice, INFLATION_FACTOR * 500 / 100),
                (bob, -200),
                (carol, -300),
            ],
        ),
        (
            "winnings split proportionally",
            &[
                (alice, monster_a, 100),
                (bob, monster_a, 200),
                (carol, monster_c, 300),
            ],
            [
                (alice, INFLATION_FACTOR * 100 / 100),
                (bob, INFLATION_FACTOR * 200 / 100),
                (carol, -300),
            ],
        ),
        (
            "bet nothing win nothing",
            &[
                (alice, monster_a, 0),
                (bob, monster_a, 200),
                (carol, monster_c, 300),
            ],
            [
                (alice, 0),
                (bob, INFLATION_FACTOR * 300 / 100),
                (carol, -300),
            ],
        ),
        (
            "win some, loose some",
            &[
                (alice, monster_a, 100),
                (alice, monster_b, 100),
                (bob, monster_a, 100),
                (carol, monster_c, 300),
            ],
            // A weird consequence of this means you win back some of the money you lost
            [
                (alice, -100 + INFLATION_FACTOR * 200 / 100),
                (bob, INFLATION_FACTOR * 200 / 100),
                (carol, -300),
            ],
        ),
        (
            "infinite money glitch",
            &[
                (alice, monster_a, 1),
                (alice, monster_b, 1000),
                (bob, monster_c, 0),
                (carol, monster_c, 0),
            ],
            // The inflation factor means if you're the only one loosing and winning, you win back more than you lost
            [
                (alice, -1000 + INFLATION_FACTOR * 1000 / 100),
                (bob, 0),
                (carol, 0),
            ],
        ),
    ];

    let events = Vector::from(vec![
        Event::GameCreated {
            game_id: generate_game_code(),
            settings: Settings {
                payout: Payout::Pool,
                ..Default::default()
            }
        },
        Event::PlayerJoined {
            name: "Alice".into(),
            session_id: alice,
            initial_cards: vec![]
        },
        Event::PlayerJoined {
            name: "Bob".into(),
            session_id: bob,
            initial_cards: vec![]
        },
        Event::PlayerJoined {
            name: "Carol".into(),
            session_id: carol,
            initial_cards: vec![]
        },
        Event::PlayerReady { session_id: alice },
        Event::PlayerReady { session_id: bob },
        Event::PlayerReady { session_id: carol },
        Event::RoundStarted {
            time: 0,
            odds: None
        }
    ]);

    for (name, bets, results) in bets {
        let mut events = events.clone();

        for (session_id, monster_id, amount) in bets.iter().copied() {
            events.push_back(Event::PlacedBet(PlacedBet {
                session_id,
                monster_id,
                amount,
            }));
        }

        events.push_back(Event::RaceStarted { time: 0 });
        events.push_back(Event::RaceFinished {
            time: 0,
            results: RaceResults {
                first: monster_a,
                second: monster_b,
                third: monster_c,
            },
        });

        let accounts = all_account_balances(&events);
        let winnings = accounts::winnings(&events);

        for (session_id, expected_winnings) in results {
            assert_eq!(
                1000 + expected_winnings,
                accounts[&session_id],
                "account balance: {}",
                name
            );
            assert_eq!(
                expected_winnings, winnings[&session_id],
                "winnings: {}",
                name
            );
        }
    }
}

#[test]
fn odds_payouts_are_single_precision() {
    let alice = 0x2001u128;
    let (a, b, c) = (0x2002u128, 0x2003u128, 0x2004u128);
    let odds = Odds([
        (a, Probability { wins: 300, races: 1000 }),
        (b, Probability { wins: 300, races: 1000 }),
        (c, Probability { wins: 400, races: 1000 }),
    ]);
    let events = Vector::from(vec![
        Event::GameCreated {
            game_id: GameID::try_from("ABCDEF").unwrap(),
            settings: Settings { payout: Payout::Odds, ..Default::default() },
        },
        Event::PlayerJoined { session_id: alice, name: "Alice".to_owned(), initial_cards: vec![] },
        Event::RoundStarted { time: 0, odds: Some(odds) },
        Event::PlacedBet(PlacedBet { session_id: alice, monster_id: a, amount: 300 }),
        Event::RaceFinished { time: 0, results: RaceResults { first: a, second: b, third: c } },
    ]);
    let payout: f32 = f32::min(1.0 / (300f32 / 1000.), 10.0);
    let balances = all_account_balances(&events);
    assert_eq!(balances.get(&alice), Some(&(1000 - 300 + (payout * 300f32) as i32)));
    assert_eq!(balances.get(&alice), Some(&1700));
    let won = accounts::winnings(&events);
    assert_eq!(won.get(&alice), Some(&(((payout - 1.0) * 300f32) as i32)));
}

#[test]
fn events_without_money_leave_balances_alone() {
    let alice = 0x3001u128;
    let bob = 0x3002u128;
    let mut events = Vector::from(vec![
        Event::GameCreated {
            game_id: GameID::try_from("ABCDEF").unwrap(),
            settings: Settings { payout: Payout::Odds, ..Default::default() },
        },
        Event::PlayerJoined { session_id: alice, name: "Alice".to_owned(), initial_cards: vec![] },
        Event::PlayerJoined { session_id: bob, name: "Bob".to_owned(), initial_cards: vec![] },
        Event::BoughtCard { session_id: alice, card: Card::Poison },
    ]);
    let before = all_account_balances(&events);
    for e in [
        Event::ChangedProfile { session_id: alice, name: "Al".to_owned() },
        Event::PlayerReady { session_id: bob },
        Event::RoundStarted { time: 0, odds: None },
        Event::PlayedCard { session_id: alice, card: Card::Poison, target: Target::Player(bob) },
        Event::RaceStarted { time: 0 },
        Event::GameFinished,
    ] {
        events.push_back(e);
        assert_eq!(all_account_balances(&events), before);
    }
}
