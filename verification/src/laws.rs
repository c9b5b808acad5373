//! Properties of the game that span several requests or hold of every log.

use vstd::prelude::*;

use crate::cards::{Card, Target};
use crate::commands::borrow_money::{debt_of, spec_borrow_money, DEBT_LIMIT};
use crate::commands::buy_card::{next_deck_card, spec_buy_card, HAND_LIMIT};
use crate::commands::change_profile::spec_change_profile;
use crate::commands::create_game::{spec_create_game, Input as CreateInput};
use crate::commands::finish_game::spec_finish_game;
use crate::commands::finish_race::spec_finish_race;
use crate::commands::join_game::{join_game_answer, Input as JoinInput, MAX_PLAYERS};
use crate::commands::place_bets::{any_negative, bet_events, bets_total, lemma_total_prefix, spec_place_bets, Bet};
use crate::commands::play_card::{spec_play_card, Input as PlayInput};
use crate::commands::ready_player::spec_ready_player;
use crate::commands::{CommandError, SERVER_SESSION};
use crate::events::{
    Event, Payout, PlacedBet, RaceResults, Settings,
};
use crate::monsters::Monster;
use crate::processors::{spec_processor_step, start_race::start_race_fires, Outside, StepOutcome};
use crate::projections::accounts::{
    account_fold, account_step, balances_defined, AccountState, debt_fold, fits_i32, get_or_zero, lemma_account_fold_prefix,
    lemma_winnings_fold_prefix, pay_odds, pay_pool, pool_share, race_winnings, settings_of, spec_balances,
    spec_winnings, stake_total, theft_share, winnings_defined, lemma_theft_share_bounded, winnings_fold, WinningsState, CARD_PRICE, CRYSTALS_GIFT,
};
use crate::projections::hand::{
    can_play_from, extortion_victim, spec_cards_in_hand, spec_max_cards, taken_by_extortion, without_card,
};
use crate::projections::monsters::{
    distinct_uuids, played_on, spec_monsters, spec_played_monster_cards, spec_pre_computed_odds, PlayedMonsterCard,
};
use crate::projections::accounts::{spec_all_debt, with_interest};
use crate::projections::players::{spec_all_players_have_bet, spec_placed_bets, spec_players};
use crate::events::{Odds, spec_odds_of, spec_payout_for, spec_scaled};
use crate::processors::NANOS_PER_SEC;
use crate::projections::{spec_last_round_start, PRE_GAME_TIMEOUT};
use crate::projections::{
    joined_as, kind_predicate, position_from_end, spec_player_count, spec_player_exists, spec_round, spec_settings,
};

verus! {

/// A player is listed exactly when they joined.
pub proof fn lemma_players_are_those_who_joined(s: Seq<Event>, player: u128)
    ensures
        spec_players(s).contains_key(player) <==> spec_player_exists(s, player),
    decreases s.len(),
{
    if s.len() > 0 {
        let t = s.drop_last();
        lemma_players_are_those_who_joined(t, player);
        if spec_player_exists(t, player) {
            let j = choose|j: int| 0 <= j < t.len() && joined_as(#[trigger] t[j], player);
            assert(joined_as(s[j], player));
        }
        if spec_player_exists(s, player) && !joined_as(s.last(), player) {
            let j = choose|j: int| 0 <= j < s.len() && joined_as(#[trigger] s[j], player);
            assert(j != s.len() - 1);
            assert(joined_as(t[j], player));
        }
        if joined_as(s.last(), player) {
            assert(joined_as(s[s.len() - 1], player));
        }
    }
}

proof fn lemma_position_nonnegative(s: Seq<Event>, p: spec_fn(Event) -> bool)
    ensures
        position_from_end(s, p) matches Some(k) ==> 0 <= k < s.len(),
    decreases s.len(),
{
    if s.len() > 0 {
        lemma_position_nonnegative(s.drop_last(), p);
    }
}

/// A game is created once: creating it again is refused.
pub proof fn law_create_once(s: Seq<Event>, input: CreateInput, again: CreateInput)
    requires
        spec_create_game(s, input) is Ok,
    ensures
        spec_create_game(s + spec_create_game(s, input)->Ok_0, again) == Err::<Seq<Event>, CommandError>(
            CommandError::GameAlreadyCreated,
        ),
{
}

/// Joining twice records nothing the second time.
pub proof fn law_join_twice(
    session_id: u128,
    s: Seq<Event>,
    input: JoinInput,
    r: Result<Vec<Event>, CommandError>,
    again: JoinInput,
    r2: Result<Vec<Event>, CommandError>,
)
    requires
        join_game_answer(session_id, s, input, r),
        r is Ok,
        join_game_answer(session_id, s + r->Ok_0@, again, r2),
    ensures
        r2 matches Ok(v) && v@.len() == 0,
{
    let v = r->Ok_0@;
    if !spec_player_exists(s, session_id) {
        assert((s + v)[s.len() as int] == v[0]);
        assert(joined_as((s + v)[s.len() as int], session_id));
    } else {
        let j = choose|j: int| 0 <= j < s.len() && joined_as(#[trigger] s[j], session_id);
        assert((s + v)[j] == s[j]);
    }
    assert(s + v != Seq::<Event>::empty()) by {
        assert((s + v).len() > 0);
    }
}

/// A game never takes more than fifteen players: a join keeps the count
/// within the limit.
pub proof fn law_join_limit(session_id: u128, s: Seq<Event>, input: JoinInput, r: Result<Vec<Event>, CommandError>)
    requires
        join_game_answer(session_id, s, input, r),
        r is Ok,
        spec_player_count(s) <= MAX_PLAYERS,
    ensures
        spec_player_count(s + r->Ok_0@) <= MAX_PLAYERS,
{
    let v = r->Ok_0@;
    if v.len() == 0 {
        assert(s + v =~= s);
    } else {
        assert((s + v).drop_last() =~= s);
    }
}

/// A ready player stays listed and is ready.
pub proof fn law_ready(session_id: u128, s: Seq<Event>)
    requires
        spec_ready_player(session_id, s) is Ok,
    ensures
        spec_players(s + spec_ready_player(session_id, s)->Ok_0).contains_key(session_id),
        spec_players(s + spec_ready_player(session_id, s)->Ok_0)[session_id].ready,
{
    let s2 = s + spec_ready_player(session_id, s)->Ok_0;
    assert(s2.drop_last() =~= s);
    lemma_players_are_those_who_joined(s, session_id);
}

/// After a rename the player goes by the new name.
pub proof fn law_rename(session_id: u128, s: Seq<Event>, input: crate::commands::change_profile::Input)
    requires
        spec_change_profile(session_id, s, input) is Ok,
    ensures
        spec_players(s + spec_change_profile(session_id, s, input)->Ok_0).contains_key(session_id),
        spec_players(s + spec_change_profile(session_id, s, input)->Ok_0)[session_id].name == input.name@,
{
    let v = spec_change_profile(session_id, s, input)->Ok_0;
    lemma_players_are_those_who_joined(s, session_id);
    if v.len() == 0 {
        assert(s + v =~= s);
    } else {
        assert((s + v).drop_last() =~= s);
    }
}

/// Declaring a game over twice in a row records nothing the second time.
pub proof fn law_finish_game_once(s: Seq<Event>)
    requires
        spec_finish_game(SERVER_SESSION, s) is Ok,
    ensures
        spec_finish_game(SERVER_SESSION, s + spec_finish_game(SERVER_SESSION, s)->Ok_0) == Ok::<
            Seq<Event>,
            CommandError,
        >(Seq::empty()),
{
    let v = spec_finish_game(SERVER_SESSION, s)->Ok_0;
    let s2 = s + v;
    if v.len() == 0 {
        assert(s2 =~= s);
    } else {
        assert(s2.last() == Event::GameFinished);
        assert(s2[s2.len() - 1] is GameFinished);
    }
}

/// A race finishes once: finishing it again is refused.
pub proof fn law_finish_race_once(s: Seq<Event>, results: RaceResults, now: u32, again: RaceResults, later: u32)
    requires
        spec_finish_race(SERVER_SESSION, s, results, now) is Ok,
    ensures
        spec_finish_race(SERVER_SESSION, s + spec_finish_race(SERVER_SESSION, s, results, now)->Ok_0, again, later)
            == Err::<Seq<Event>, CommandError>(CommandError::RaceNotInProgress),
{
    let s2 = s + spec_finish_race(SERVER_SESSION, s, results, now)->Ok_0;
    assert(s2.drop_last() =~= s);
}

/// The server's own commands are never refused when a processor issues them.
pub proof fn law_processors_never_refused(s: Seq<Event>, o: Outside)
    ensures
        !(spec_processor_step(s, o) is Refused),
{
}

/// A race starts at most once per round: once the processors started it, the
/// race-starting processor does not fire again.
pub proof fn law_race_starts_once(s: Seq<Event>, o: Outside, later: u128)
    requires
        start_race_fires(s, o.now),
        !crate::processors::start_game::start_game_fires(s),
    ensures
        spec_processor_step(s, o) matches StepOutcome::Emitted(v) && !start_race_fires(s + v, later),
{
    let v = seq![Event::RaceStarted { time: crate::processors::seconds_of(o.now) }];
    let s2 = s + v;
    assert(s2.drop_last() =~= s);
    assert(s2.last() == Event::RaceStarted { time: crate::processors::seconds_of(o.now) });
    assert(kind_predicate(4)(s2.last()));
    assert(!kind_predicate(1)(s2.last()));
    assert(position_from_end(s2, kind_predicate(4)) == Some(0int));
    assert(position_from_end(s2, kind_predicate(1)) == match position_from_end(s, kind_predicate(1)) {
        Some(k) => Some(k + 1),
        None => None::<int>,
    });
    if let Some(k) = position_from_end(s, kind_predicate(1)) {
        lemma_position_nonnegative(s, kind_predicate(1));
    }
    assert(crate::processors::start_race::race_already_started(s2));
}

/// Buying a card adds it to the hand, which never holds more than five
/// cards, and costs the price, which the balance covers.
pub proof fn law_buy_card(session_id: u128, s: Seq<Event>)
    requires
        spec_buy_card(session_id, s) is Ok,
        balances_defined(s),
    ensures
        spec_cards_in_hand(s + spec_buy_card(session_id, s)->Ok_0, session_id) == spec_cards_in_hand(
            s,
            session_id,
        ).push(next_deck_card(s)),
        spec_cards_in_hand(s + spec_buy_card(session_id, s)->Ok_0, session_id).len() <= HAND_LIMIT,
        balances_defined(s + spec_buy_card(session_id, s)->Ok_0),
        get_or_zero(spec_balances(s + spec_buy_card(session_id, s)->Ok_0), session_id) == get_or_zero(
            spec_balances(s),
            session_id,
        ) - CARD_PRICE,
        get_or_zero(spec_balances(s + spec_buy_card(session_id, s)->Ok_0), session_id) >= 0,
{
    let s2 = s + spec_buy_card(session_id, s)->Ok_0;
    assert(s2.drop_last() =~= s);
    let j = choose|j: int| 0 <= j < s.len() && joined_as(#[trigger] s[j], session_id);
    assert(s2[0] == s[0]);
    assert(settings_of(s2) == settings_of(s));
}

/// Playing a card takes one copy of it from the hand; Extortion also brings
/// the victim's last (up to two) cards.
pub proof fn law_play_card(session_id: u128, s: Seq<Event>, input: PlayInput)
    requires
        spec_play_card(session_id, s, input) is Ok,
    ensures
        extortion_victim(session_id, input.card, input.target) is None ==> spec_cards_in_hand(
            s + spec_play_card(session_id, s, input)->Ok_0,
            session_id,
        ) == without_card(spec_cards_in_hand(s, session_id), input.card),
        extortion_victim(session_id, input.card, input.target) matches Some(victim) ==> spec_cards_in_hand(
            s + spec_play_card(session_id, s, input)->Ok_0,
            session_id,
        ) == without_card(spec_cards_in_hand(s, session_id), Card::Extortion) + taken_by_extortion(
            spec_cards_in_hand(s, victim),
        ),
        spec_cards_in_hand(s, session_id).contains(input.card),
{
    let s2 = s + spec_play_card(session_id, s, input)->Ok_0;
    assert(s2.drop_last() =~= s);
    if let Some(victim) = extortion_victim(session_id, input.card, input.target) {
        assert(victim != session_id);
    }
}

/// Borrowing or paying back moves the debt by the amount and keeps it
/// between zero and the limit; the balance moves the same way.
pub proof fn law_borrow_within_limit(session_id: u128, s: Seq<Event>, amount: i32)
    requires
        spec_borrow_money(session_id, s, amount) is Ok,
        debt_fold(s) is Some,
        debt_of(s, session_id) <= i32::MAX,
    ensures
        debt_fold(s + spec_borrow_money(session_id, s, amount)->Ok_0) is Some,
        debt_of(s + spec_borrow_money(session_id, s, amount)->Ok_0, session_id) == debt_of(s, session_id) + amount,
        amount != 0 ==> 0 <= debt_of(s + spec_borrow_money(session_id, s, amount)->Ok_0, session_id) <= DEBT_LIMIT,
        balances_defined(s) && fits_i32(get_or_zero(spec_balances(s), session_id) + amount) ==> {
            &&& balances_defined(s + spec_borrow_money(session_id, s, amount)->Ok_0)
            &&& get_or_zero(spec_balances(s + spec_borrow_money(session_id, s, amount)->Ok_0), session_id)
                == get_or_zero(spec_balances(s), session_id) + amount
        },
{
    let v = spec_borrow_money(session_id, s, amount)->Ok_0;
    let s2 = s + v;
    let owed = debt_of(s, session_id);
    assert((owed as i32) == owed) by (bit_vector)
        requires
            owed <= 0x7fff_ffff,
    ;
    if amount == 0 {
        assert(s2 =~= s);
    } else {
        assert(s2.drop_last() =~= s);
        assert(s2[0] == s[0]);
        if amount > 0 {
            assert((amount as u32) as i32 == amount) by (bit_vector)
                requires
                    0 < amount,
            ;
        } else {
            assert(amount != i32::MIN);
            assert(((-amount) as u32) as i32 == -amount) by (bit_vector)
                requires
                    amount < 0,
                    amount != -0x8000_0000i32,
            ;
        }
    }
}

proof fn lemma_bets_fold(session_id: u128, s: Seq<Event>, bets: Seq<Bet>, k: int, settings: Settings)
    requires
        0 <= k <= bets.len(),
        account_fold(s, settings) is Some,
        !any_negative(bets),
        bets_total(bets) <= get_or_zero(account_fold(s, settings)->0.accounts, session_id),
    ensures
        account_fold(s + bet_events(session_id, bets.take(k)), settings) is Some,
        get_or_zero(account_fold(s + bet_events(session_id, bets.take(k)), settings)->0.accounts, session_id)
            == get_or_zero(account_fold(s, settings)->0.accounts, session_id) - bets_total(bets.take(k)),
    decreases k,
{
    if k == 0 {
        assert(bets.take(0) =~= Seq::<Bet>::empty());
        assert(s + Seq::<Event>::empty() =~= s);
    } else {
        lemma_bets_fold(session_id, s, bets, k - 1, settings);
        lemma_total_prefix(bets, k);
        lemma_total_prefix(bets, k - 1);
        assert(bets.take(k).drop_last() =~= bets.take(k - 1));
        assert(bets.take(k).last() == bets[k - 1]);
        assert(!(bets[k - 1].amount < 0));
        let prev = bet_events(session_id, bets.take(k - 1));
        let bet = bets[k - 1];
        if bet.amount > 0 {
            let e = Event::PlacedBet(crate::events::PlacedBet { session_id, monster_id: bet.monster_id, amount: bet.amount });
            assert(bet_events(session_id, bets.take(k)) == prev.push(e));
            assert((s + prev.push(e)).drop_last() =~= s + prev);
            assert((s + prev.push(e)).last() == e);
        } else {
            assert(bet_events(session_id, bets.take(k)) == prev);
        }
    }
}

/// Accepted bets never spend more than the player has: the balance goes down
/// by the stakes and stays at zero or above.
pub proof fn law_bets_within_balance(session_id: u128, s: Seq<Event>, bets: Seq<Bet>)
    requires
        spec_place_bets(session_id, s, bets) is Ok,
        balances_defined(s),
    ensures
        balances_defined(s + spec_place_bets(session_id, s, bets)->Ok_0),
        get_or_zero(spec_balances(s + spec_place_bets(session_id, s, bets)->Ok_0), session_id) == get_or_zero(
            spec_balances(s),
            session_id,
        ) - bets_total(bets),
        get_or_zero(spec_balances(s + spec_place_bets(session_id, s, bets)->Ok_0), session_id) >= 0,
{
    let v = spec_place_bets(session_id, s, bets)->Ok_0;
    let j = choose|j: int| 0 <= j < s.len() && crate::projections::is_round_started(#[trigger] s[j]);
    assert((s + v)[0] == s[0]);
    assert(settings_of(s + v) == settings_of(s));
    lemma_bets_fold(session_id, s, bets, bets.len() as int, settings_of(s));
    assert(bets.take(bets.len() as int) =~= bets);
}

/// How many cards the player played since the latest round started.
pub open spec fn plays_this_round(s: Seq<Event>, player: u128) -> nat
    decreases s.len(),
{
    if s.len() == 0 {
        0
    } else {
        match s.last() {
            Event::RoundStarted { .. } => 0,
            Event::PlayedCard { session_id, .. } => if session_id == player {
                plays_this_round(s.drop_last(), player) + 1
            } else {
                plays_this_round(s.drop_last(), player)
            },
            _ => plays_this_round(s.drop_last(), player),
        }
    }
}

proof fn lemma_can_play_counts(s: Seq<Event>, player: u128, max: nat, count: nat)
    requires
        can_play_from(s, player, max, count),
    ensures
        count + plays_this_round(s, player) < max,
    decreases s.len(),
{
    if s.len() > 0 {
        match s.last() {
            Event::RoundStarted { .. } => {},
            Event::PlayedCard { session_id, .. } => {
                if session_id == player {
                    lemma_can_play_counts(s.drop_last(), player, max, count + 1);
                } else {
                    lemma_can_play_counts(s.drop_last(), player, max, count);
                }
            },
            _ => {
                lemma_can_play_counts(s.drop_last(), player, max, count);
            },
        }
    }
}

/// A player plays at most three cards a round with up to three players, two
/// with four to eight, one with nine or more: a card is accepted only while
/// the player is under that limit.
pub proof fn law_cards_per_round(session_id: u128, s: Seq<Event>, input: PlayInput)
    requires
        spec_play_card(session_id, s, input) is Ok,
    ensures
        plays_this_round(s + spec_play_card(session_id, s, input)->Ok_0, session_id) <= spec_max_cards(
            spec_player_count(s + spec_play_card(session_id, s, input)->Ok_0),
        ),
{
    let s2 = s + spec_play_card(session_id, s, input)->Ok_0;
    assert(s2.drop_last() =~= s);
    lemma_can_play_counts(s, session_id, spec_max_cards(spec_player_count(s)), 0);
}

/// Theft moves crystals between two players: the thief gains what the victim
/// loses, a fifth of the victim's balance as `f32` arithmetic takes it.
pub proof fn law_theft_moves_crystals(session_id: u128, victim: u128, s: Seq<Event>)
    requires
        spec_play_card(session_id, s, PlayInput { card: Card::Theft, target: Target::Player(victim) }) is Ok,
        balances_defined(s),
        fits_i32(get_or_zero(spec_balances(s), session_id) + theft_share(get_or_zero(spec_balances(s), victim))),
    ensures
        ({
            let s2 = s + spec_play_card(
                session_id,
                s,
                PlayInput { card: Card::Theft, target: Target::Player(victim) },
            )->Ok_0;
            let taken = theft_share(get_or_zero(spec_balances(s), victim));
            &&& balances_defined(s2)
            &&& get_or_zero(spec_balances(s2), victim) == get_or_zero(spec_balances(s), victim) - taken
            &&& get_or_zero(spec_balances(s2), session_id) == get_or_zero(spec_balances(s), session_id) + taken
        }),
{
    let input = PlayInput { card: Card::Theft, target: Target::Player(victim) };
    let s2 = s + spec_play_card(session_id, s, input)->Ok_0;
    assert(s2.drop_last() =~= s);
    let j = choose|j: int| 0 <= j < s.len() && joined_as(#[trigger] s[j], session_id);
    assert(s2[0] == s[0]);
    assert(settings_of(s2) == settings_of(s));
    assert(victim != session_id);
    lemma_theft_share_bounded(get_or_zero(spec_balances(s), victim));
}

/// Once the last player gets ready, the processors start the game: its
/// first round begins.
pub proof fn law_ready_players_start_game(s: Seq<Event>, o: Outside)
    requires
        crate::processors::start_game::start_game_fires(s),
    ensures
        spec_processor_step(s, o) matches StepOutcome::Emitted(v) && crate::projections::spec_game_has_started(s + v)
            && spec_round(s + v) == spec_round(s) + 1,
{
    let v = seq![Event::RoundStarted { time: crate::processors::seconds_of(o.now), odds: Some(o.odds) }];
    let s2 = s + v;
    assert(s2.drop_last() =~= s);
    assert(crate::projections::is_round_started(s2[s2.len() - 1]));
}

/// What one card does to a monster that no card has touched yet: Poison
/// -3 strength, Extra Rations +2 strength, Psy Blast -3 dexterity, Meditation
/// +2 dexterity, Nepotism a 1.5 m head start (15 tenths); Taste Tester and
/// Tinfoil Hat alone change nothing, nor do the cards played on players.
pub open spec fn one_card_effect(m: Monster, card: Card) -> Monster {
    match card {
        Card::Poison => Monster { strength: (m.strength - 3) as i32, ..m },
        Card::ExtraRations => Monster { strength: (m.strength + 2) as i32, ..m },
        Card::PsyBlast => Monster { dexterity: (m.dexterity - 3) as i32, ..m },
        Card::Meditation => Monster { dexterity: (m.dexterity + 2) as i32, ..m },
        Card::Nepotism => Monster { starting_position: (m.starting_position + 15) as i32, ..m },
        _ => m,
    }
}

/// A card played on one of the race's monsters, before any other card was
/// played on a monster this race, changes that monster as its text says and
/// leaves the other two as they were.
pub proof fn law_card_on_monster(s: Seq<Event>, seed: u32, session_id: u128, card: Card, k: int)
    requires
        spec_played_monster_cards(s).len() == 0,
        distinct_uuids(spec_monsters(s, seed)),
        0 <= k < 3,
    ensures
        ({
            let m = spec_monsters(s, seed);
            let m2 = spec_monsters(
                s.push(Event::PlayedCard { session_id, card, target: Target::Monster(m[k].uuid) }),
                seed,
            );
            &&& m2[k] == one_card_effect(m[k], card)
            &&& forall|j: int| 0 <= j < 3 && j != k ==> #[trigger] m2[j] == m[j]
        }),
{
    let m = spec_monsters(s, seed);
    let e = Event::PlayedCard { session_id, card, target: Target::Monster(m[k].uuid) };
    let s2 = s.push(e);
    let x = PlayedMonsterCard { card, monster_id: m[k].uuid };
    assert(s2.drop_last() =~= s);
    assert(spec_played_monster_cards(s2) =~= seq![x]);
    assert(spec_played_monster_cards(s) =~= Seq::<PlayedMonsterCard>::empty());
    assert forall|t: u128, c: Card| #[trigger] played_on(seq![x], t, c) <==> (t == m[k].uuid && c == card) by {
        if played_on(seq![x], t, c) {
            let i = choose|i: int| 0 <= i < 1 && seq![x][i] == PlayedMonsterCard { card: c, monster_id: t };
        }
        if t == m[k].uuid && c == card {
            assert(seq![x][0] == PlayedMonsterCard { card: c, monster_id: t });
        }
    }
    assert forall|t: u128, c: Card| !#[trigger] played_on(Seq::<PlayedMonsterCard>::empty(), t, c) by {}
    assert forall|j: int| 0 <= j < 3 && j != k implies #[trigger] spec_monsters(s2, seed)[j] == m[j] by {
        assert(m[j].uuid != m[k].uuid);
    }
}

proof fn lemma_pay_odds_keeps_accounts(a: Map<u128, i32>, bets: Seq<PlacedBet>, first: u128, odds: Option<crate::events::Odds>, k: u128)
    requires
        pay_odds(a, bets, first, odds) is Some,
        a.contains_key(k),
    ensures
        pay_odds(a, bets, first, odds)->0.contains_key(k),
    decreases bets.len(),
{
    if bets.len() > 0 {
        lemma_pay_odds_keeps_accounts(a, bets.drop_last(), first, odds, k);
    }
}

proof fn lemma_pay_pool_keeps_accounts(a: Map<u128, i32>, bets: Seq<PlacedBet>, first: u128, losses: int, wins: int, k: u128)
    requires
        pay_pool(a, bets, first, losses, wins) is Some,
        a.contains_key(k),
    ensures
        pay_pool(a, bets, first, losses, wins)->0.contains_key(k),
    decreases bets.len(),
{
    if bets.len() > 0 {
        lemma_pay_pool_keeps_accounts(a, bets.drop_last(), first, losses, wins, k);
    }
}

/// A player who joined keeps an account: no event removes one.
pub proof fn lemma_joined_players_have_accounts(s: Seq<Event>, settings: Settings, player: u128)
    requires
        account_fold(s, settings) is Some,
        spec_player_exists(s, player),
    ensures
        account_fold(s, settings)->0.accounts.contains_key(player),
    decreases s.len(),
{
    let t = s.drop_last();
    let st = account_fold(t, settings)->0;
    if joined_as(s.last(), player) {
    } else {
        let j = choose|j: int| 0 <= j < s.len() && joined_as(#[trigger] s[j], player);
        assert(j != s.len() - 1);
        assert(joined_as(t[j], player));
        lemma_joined_players_have_accounts(t, settings, player);
        match s.last() {
            Event::RaceFinished { results, .. } => {
                match settings.payout {
                    Payout::Odds => lemma_pay_odds_keeps_accounts(st.accounts, st.bets, results.first, st.odds, player),
                    Payout::Pool => {
                        let losses = stake_total(st.bets, results.first, false)->0;
                        let wins = stake_total(st.bets, results.first, true)->0;
                        lemma_pay_pool_keeps_accounts(st.accounts, st.bets, results.first, losses, wins, player);
                    },
                }
            },
            _ => {},
        }
    }
}

/// Crystals gives the player it is played on 500 crystals and changes no
/// other balance.
pub proof fn law_crystals_gift(s: Seq<Event>, source: u128, target: u128)
    requires
        s.len() > 0,
        balances_defined(s),
        spec_player_exists(s, target),
        fits_i32(get_or_zero(spec_balances(s), target) + CRYSTALS_GIFT),
    ensures
        ({
            let s2 = s.push(Event::PlayedCard { session_id: source, card: Card::Crystals, target: Target::Player(target) });
            &&& balances_defined(s2)
            &&& spec_balances(s).contains_key(target)
            &&& spec_balances(s2) == spec_balances(s).insert(target, (spec_balances(s)[target] + CRYSTALS_GIFT) as i32)
        }),
{
    let s2 = s.push(Event::PlayedCard { session_id: source, card: Card::Crystals, target: Target::Player(target) });
    assert(s2.drop_last() =~= s);
    assert(s2[0] == s[0]);
    assert(settings_of(s2) == settings_of(s));
    lemma_joined_players_have_accounts(s, settings_of(s), target);
}

/// The events that place `bets`, in order.
pub open spec fn bet_log(bets: Seq<PlacedBet>) -> Seq<Event> {
    Seq::new(bets.len(), |i: int| Event::PlacedBet(bets[i]))
}

/// The sum of the stakes that `player` placed.
pub open spec fn stakes_of(bets: Seq<PlacedBet>, player: u128) -> int
    decreases bets.len(),
{
    if bets.len() == 0 {
        0
    } else {
        stakes_of(bets.drop_last(), player) + if bets.last().session_id == player {
            bets.last().amount as int
        } else {
            0
        }
    }
}

/// What a pool payout credits `player`: each winning stake back with its share.
pub open spec fn pool_gains(bets: Seq<PlacedBet>, player: u128, first: u128, losses: int, wins: int) -> int
    decreases bets.len(),
{
    if bets.len() == 0 {
        0
    } else {
        let b = bets.last();
        pool_gains(bets.drop_last(), player, first, losses, wins) + if b.session_id == player && b.monster_id
            == first {
            b.amount + pool_share(b.amount as int, losses, wins)->0
        } else {
            0
        }
    }
}

/// What `player` won or lost under a pool payout: each winning stake's
/// share, less each losing stake.
pub open spec fn pool_net(bets: Seq<PlacedBet>, player: u128, first: u128, losses: int, wins: int) -> int
    decreases bets.len(),
{
    if bets.len() == 0 {
        0
    } else {
        let b = bets.last();
        pool_net(bets.drop_last(), player, first, losses, wins) + if b.session_id != player {
            0
        } else if b.monster_id == first {
            pool_share(b.amount as int, losses, wins)->0
        } else {
            -b.amount
        }
    }
}

proof fn lemma_pool_gains_less_stakes(bets: Seq<PlacedBet>, player: u128, first: u128, losses: int, wins: int)
    ensures
        pool_gains(bets, player, first, losses, wins) - stakes_of(bets, player) == pool_net(
            bets,
            player,
            first,
            losses,
            wins,
        ),
    decreases bets.len(),
{
    if bets.len() > 0 {
        lemma_pool_gains_less_stakes(bets.drop_last(), player, first, losses, wins);
    }
}

proof fn lemma_pay_pool_credits(a: Map<u128, i32>, bets: Seq<PlacedBet>, first: u128, losses: int, wins: int, player: u128)
    requires
        pay_pool(a, bets, first, losses, wins) is Some,
        a.contains_key(player),
    ensures
        pay_pool(a, bets, first, losses, wins)->0.contains_key(player),
        pay_pool(a, bets, first, losses, wins)->0[player] == a[player] + pool_gains(bets, player, first, losses, wins),
    decreases bets.len(),
{
    if bets.len() > 0 {
        lemma_pay_pool_credits(a, bets.drop_last(), first, losses, wins, player);
    }
}

proof fn lemma_race_winnings_pool(
    w: Map<u128, i32>,
    bets: Seq<PlacedBet>,
    first: u128,
    odds: crate::events::Odds,
    settings: Settings,
    losses: int,
    wins: int,
    player: u128,
)
    requires
        settings.payout == Payout::Pool,
        race_winnings(w, bets, first, odds, settings, losses, wins) is Some,
    ensures
        get_or_zero(race_winnings(w, bets, first, odds, settings, losses, wins)->0, player) == get_or_zero(w, player)
            + pool_net(bets, player, first, losses, wins),
    decreases bets.len(),
{
    if bets.len() > 0 {
        lemma_race_winnings_pool(w, bets.drop_last(), first, odds, settings, losses, wins, player);
    }
}

proof fn lemma_bets_on_accounts(s0: Seq<Event>, bets: Seq<PlacedBet>, settings: Settings, k: int, player: u128)
    requires
        0 <= k <= bets.len(),
        account_fold(s0 + bet_log(bets), settings) is Some,
        account_fold(s0, settings) is Some,
        account_fold(s0, settings)->0.bets.len() == 0,
        account_fold(s0, settings)->0.accounts.contains_key(player),
    ensures
        account_fold(s0 + bet_log(bets.take(k)), settings) is Some,
        account_fold(s0 + bet_log(bets.take(k)), settings)->0.bets == bets.take(k),
        account_fold(s0 + bet_log(bets.take(k)), settings)->0.odds == account_fold(s0, settings)->0.odds,
        account_fold(s0 + bet_log(bets.take(k)), settings)->0.accounts.contains_key(player),
        account_fold(s0 + bet_log(bets.take(k)), settings)->0.accounts[player] == account_fold(s0, settings)->0.accounts[player]
            - stakes_of(bets.take(k), player),
    decreases k,
{
    if k == 0 {
        assert(s0 + bet_log(bets.take(0)) =~= s0);
        assert(bets.take(0) =~= account_fold(s0, settings)->0.bets);
    } else {
        lemma_bets_on_accounts(s0, bets, settings, k - 1, player);
        let sk = s0 + bet_log(bets.take(k));
        assert(sk =~= (s0 + bet_log(bets)).take(s0.len() + k));
        lemma_account_fold_prefix(s0 + bet_log(bets), settings, s0.len() + k);
        assert(sk.drop_last() =~= s0 + bet_log(bets.take(k - 1)));
        assert(sk.last() == Event::PlacedBet(bets[k - 1]));
        assert(bets.take(k).drop_last() =~= bets.take(k - 1));
        assert(bets.take(k - 1).push(bets[k - 1]) =~= bets.take(k));
    }
}

proof fn lemma_bets_on_winnings(s0: Seq<Event>, bets: Seq<PlacedBet>, odds: crate::events::Odds, settings: Settings, k: int)
    requires
        0 <= k <= bets.len(),
        winnings_fold(s0, odds, settings) is Some,
        winnings_fold(s0, odds, settings)->0.bets.len() == 0,
    ensures
        winnings_fold(s0 + bet_log(bets.take(k)), odds, settings) == Some(
            WinningsState { winnings: winnings_fold(s0, odds, settings)->0.winnings, bets: bets.take(k) },
        ),
    decreases k,
{
    if k == 0 {
        assert(s0 + bet_log(bets.take(0)) =~= s0);
        assert(bets.take(0) =~= winnings_fold(s0, odds, settings)->0.bets);
    } else {
        lemma_bets_on_winnings(s0, bets, odds, settings, k - 1);
        let sk = s0 + bet_log(bets.take(k));
        assert(sk.drop_last() =~= s0 + bet_log(bets.take(k - 1)));
        assert(sk.last() == Event::PlacedBet(bets[k - 1]));
        assert(bets.take(k - 1).push(bets[k - 1]) =~= bets.take(k));
    }
}

/// In a round paid from the pool, what a player's balance gained or lost by
/// the end of the race is what the winnings say they won or lost: starting
/// from the start of a round with no bets pending, after the bets, the
/// race's start and its finish, the balance is the one before the bets plus
/// the player's winnings.
pub proof fn law_pool_balance_matches_winnings(
    s0: Seq<Event>,
    bets: Seq<PlacedBet>,
    started: u32,
    finished: u32,
    results: RaceResults,
    player: u128,
)
    requires
        s0.len() > 0,
        spec_settings(s0).payout == Payout::Pool,
        account_fold(s0, spec_settings(s0)) is Some,
        account_fold(s0, spec_settings(s0))->0.bets.len() == 0,
        account_fold(s0, spec_settings(s0))->0.accounts.contains_key(player),
        ({
            let s = s0 + bet_log(bets) + seq![
                Event::RaceStarted { time: started },
                Event::RaceFinished { time: finished, results },
            ];
            &&& balances_defined(s)
            &&& winnings_defined(s)
        }),
        s0.last() is RoundStarted,
    ensures
        ({
            let s = s0 + bet_log(bets) + seq![
                Event::RaceStarted { time: started },
                Event::RaceFinished { time: finished, results },
            ];
            get_or_zero(spec_balances(s), player) == account_fold(s0, spec_settings(s0))->0.accounts[player]
                + get_or_zero(spec_winnings(s), player)
        }),
{
    let stt = spec_settings(s0);
    let sb = s0 + bet_log(bets);
    let sr = sb.push(Event::RaceStarted { time: started });
    let s = sr.push(Event::RaceFinished { time: finished, results });
    assert(s =~= s0 + bet_log(bets) + seq![
        Event::RaceStarted { time: started },
        Event::RaceFinished { time: finished, results },
    ]);
    assert(s[0] == s0[0]);
    assert(spec_settings(s) == stt);
    assert(settings_of(s) == stt);
    let odds = spec_pre_computed_odds(s);
    // The balances side.
    assert(s.drop_last() =~= sr);
    assert(sr.drop_last() =~= sb);
    lemma_account_fold_prefix(s, stt, sb.len() as int);
    assert(s.take(sb.len() as int) =~= sb);
    assert(bets.take(bets.len() as int) =~= bets);
    lemma_bets_on_accounts(s0, bets, stt, bets.len() as int, player);
    let acc = account_fold(sb, stt)->0;
    let first = results.first;
    let losses = stake_total(bets, first, false)->0;
    let wins = stake_total(bets, first, true)->0;
    assert(account_fold(sr, stt) == Some(acc));
    assert(s.last() == Event::RaceFinished { time: finished, results });
    assert(account_fold(s, stt) == account_step(acc, s.last(), stt));
    assert(acc.bets == bets);
    assert(stake_total(bets, first, false) is Some && stake_total(bets, first, true) is Some);
    assert(pay_pool(acc.accounts, bets, first, losses, wins) is Some);
    lemma_pay_pool_credits(acc.accounts, bets, first, losses, wins, player);
    // The winnings side: the round's start cleared them.
    lemma_winnings_fold_prefix(s, odds, stt, s0.len() as int);
    assert(s.take(s0.len() as int) =~= s0);
    assert(s0.drop_last() + seq![s0.last()] =~= s0);
    assert(winnings_fold(s0, odds, stt)->0.winnings =~= Map::<u128, i32>::empty());
    lemma_bets_on_winnings(s0, bets, odds, stt, bets.len() as int);
    let w0 = winnings_fold(s0, odds, stt)->0.winnings;
    assert(winnings_fold(sb, odds, stt) == Some(WinningsState { winnings: w0, bets: bets }));
    assert(winnings_fold(sr, odds, stt) == Some(WinningsState { winnings: w0, bets: bets }));
    assert(race_winnings(w0, bets, first, odds, stt, losses, wins) is Some);
    lemma_race_winnings_pool(w0, bets, first, odds, stt, losses, wins, player);
    assert(get_or_zero(w0, player) == 0);
    lemma_pool_gains_less_stakes(bets, player, first, losses, wins);
}

/// When a pass of the processors appends nothing, none of them fires on the
/// log: it is a fixpoint of the processor loop, and the alarm is the race's if
/// it set one, else the betting timer's.
pub proof fn law_settled_is_fixpoint(s: Seq<Event>, o: Outside)
    requires
        spec_processor_step(s, o) is Settled,
    ensures
        !crate::processors::start_game::start_game_fires(s),
        !start_race_fires(s, o.now),
        !crate::processors::race_timeout::race_timeout_fires(s, o.race_nanos, o.now),
        spec_processor_step(s, o) == StepOutcome::Settled(
            match crate::processors::race_timeout::race_alarm(s, o.race_nanos) {
                Some(a) => Some(a),
                None => crate::processors::start_race::betting_alarm(s),
            },
        ),
{
}

/// Taste Tester played on a poisoned monster cancels the Poison: the race's
/// monsters are as they were before either card.
pub proof fn law_taste_tester_counters_poison(s: Seq<Event>, seed: u32, session_id: u128, k: int)
    requires
        spec_played_monster_cards(s).len() == 0,
        0 <= k < 3,
    ensures
        ({
            let m = spec_monsters(s, seed);
            let target = Target::Monster(m[k].uuid);
            let s2 = s.push(Event::PlayedCard { session_id, card: Card::Poison, target }).push(
                Event::PlayedCard { session_id, card: Card::TasteTester, target },
            );
            spec_monsters(s2, seed) == m
        }),
{
    let m = spec_monsters(s, seed);
    let target = Target::Monster(m[k].uuid);
    let s1 = s.push(Event::PlayedCard { session_id, card: Card::Poison, target });
    let s2 = s1.push(Event::PlayedCard { session_id, card: Card::TasteTester, target });
    let x1 = PlayedMonsterCard { card: Card::Poison, monster_id: m[k].uuid };
    let x2 = PlayedMonsterCard { card: Card::TasteTester, monster_id: m[k].uuid };
    assert(s1.drop_last() =~= s);
    assert(s2.drop_last() =~= s1);
    assert(spec_played_monster_cards(s1) =~= seq![x1]);
    assert(spec_played_monster_cards(s2) =~= seq![x1, x2]);
    assert(spec_played_monster_cards(s) =~= Seq::<PlayedMonsterCard>::empty());
    let both = seq![x1, x2];
    assert(spec_played_monster_cards(s2) =~= both);
    assert forall|t: u128, c: Card| #[trigger] played_on(both, t, c) <==> (t == m[k].uuid && (c
        == Card::Poison || c == Card::TasteTester)) by {
        if played_on(both, t, c) {
            let i = choose|i: int| 0 <= i < 2 && both[i] == PlayedMonsterCard { card: c, monster_id: t };
        }
        if t == m[k].uuid && c == Card::Poison {
            assert(both[0] == PlayedMonsterCard { card: c, monster_id: t });
        }
        if t == m[k].uuid && c == Card::TasteTester {
            assert(both[1] == PlayedMonsterCard { card: c, monster_id: t });
        }
    }
    assert forall|t: u128, c: Card| !#[trigger] played_on(Seq::<PlayedMonsterCard>::empty(), t, c) by {}
    assert(spec_monsters(s2, seed) =~= m);
}

/// Whether an event leaves every balance as it is: profile changes, readiness,
/// round and race starts, the end of the game, and cards other than Theft and
/// Crystals played on a player.
pub open spec fn moves_no_money(e: Event) -> bool {
    match e {
        Event::ChangedProfile { .. } | Event::PlayerReady { .. } | Event::RoundStarted { .. }
        | Event::RaceStarted { .. } | Event::GameFinished => true,
        Event::PlayedCard { card, target, .. } => !((card == Card::Theft || card == Card::Crystals)
            && target is Player),
        _ => false,
    }
}

/// Only joins, purchases, borrowing, paying back, bets, race results, Theft
/// and Crystals move money: any other event leaves the balances as they were.
pub proof fn law_events_that_move_no_money(s: Seq<Event>, e: Event)
    requires
        s.len() > 0,
        balances_defined(s),
        moves_no_money(e),
    ensures
        balances_defined(s.push(e)),
        spec_balances(s.push(e)) == spec_balances(s),
{
    let s2 = s.push(e);
    assert(s2.drop_last() =~= s);
    assert(s2[0] == s[0]);
    assert(settings_of(s2) == settings_of(s));
}


/// Tinfoil Hat played on a monster hit by Psy Blast cancels the Psy Blast: the
/// race's monsters are as they were before either card.
pub proof fn law_tinfoil_hat_counters_psy_blast(s: Seq<Event>, seed: u32, session_id: u128, k: int)
    requires
        spec_played_monster_cards(s).len() == 0,
        0 <= k < 3,
    ensures
        ({
            let m = spec_monsters(s, seed);
            let target = Target::Monster(m[k].uuid);
            let s2 = s.push(Event::PlayedCard { session_id, card: Card::PsyBlast, target }).push(
                Event::PlayedCard { session_id, card: Card::TinfoilHat, target },
            );
            spec_monsters(s2, seed) == m
        }),
{
    let m = spec_monsters(s, seed);
    let target = Target::Monster(m[k].uuid);
    let s1 = s.push(Event::PlayedCard { session_id, card: Card::PsyBlast, target });
    let s2 = s1.push(Event::PlayedCard { session_id, card: Card::TinfoilHat, target });
    let x1 = PlayedMonsterCard { card: Card::PsyBlast, monster_id: m[k].uuid };
    let x2 = PlayedMonsterCard { card: Card::TinfoilHat, monster_id: m[k].uuid };
    assert(s1.drop_last() =~= s);
    assert(s2.drop_last() =~= s1);
    assert(spec_played_monster_cards(s1) =~= seq![x1]);
    let both = seq![x1, x2];
    assert(spec_played_monster_cards(s2) =~= both);
    assert(spec_played_monster_cards(s) =~= Seq::<PlayedMonsterCard>::empty());
    assert forall|t: u128, c: Card| #[trigger] played_on(both, t, c) <==> (t == m[k].uuid && (c
        == Card::PsyBlast || c == Card::TinfoilHat)) by {
        if played_on(both, t, c) {
            let i = choose|i: int| 0 <= i < 2 && both[i] == PlayedMonsterCard { card: c, monster_id: t };
        }
        if t == m[k].uuid && c == Card::PsyBlast {
            assert(both[0] == PlayedMonsterCard { card: c, monster_id: t });
        }
        if t == m[k].uuid && c == Card::TinfoilHat {
            assert(both[1] == PlayedMonsterCard { card: c, monster_id: t });
        }
    }
    assert forall|t: u128, c: Card| !#[trigger] played_on(Seq::<PlayedMonsterCard>::empty(), t, c) by {}
    assert(spec_monsters(s2, seed) =~= m);
}

/// Every finished race charges interest: after a race each debt is the one
/// before it grown by 5.1% (as `with_interest` rounds it), and nobody gains
/// or loses a debt.
pub proof fn law_every_race_charges_interest(s: Seq<Event>, time: u32, results: RaceResults)
    requires
        debt_fold(s) is Some,
    ensures
        ({
            let s2 = s.push(Event::RaceFinished { time, results });
            &&& debt_fold(s2) is Some
            &&& spec_all_debt(s2).dom() == spec_all_debt(s).dom()
            &&& forall|p: u128| #[trigger] spec_all_debt(s).contains_key(p) ==> spec_all_debt(s2)[p]
                == with_interest(spec_all_debt(s)[p])
        }),
{
    let s2 = s.push(Event::RaceFinished { time, results });
    assert(s2.drop_last() =~= s);
    assert(spec_all_debt(s2).dom() =~= spec_all_debt(s).dom());
}

/// Whether the event at `j` is a bet placed after the latest finished race.
pub open spec fn bet_open_at(s: Seq<Event>, j: int) -> bool {
    &&& 0 <= j < s.len()
    &&& s[j] is PlacedBet
    &&& forall|k: int| j < k < s.len() ==> !(#[trigger] s[k] is RaceFinished)
}

/// A player counts as having bet exactly when they placed a bet after the
/// latest race finished: a finished race clears the bets.
pub proof fn law_placed_bets_since_last_race(s: Seq<Event>, player: u128)
    ensures
        spec_placed_bets(s).contains_key(player) <==> exists|j: int| #[trigger] bet_open_at(s, j) && (s[j]->0).session_id
            == player,
    decreases s.len(),
{
    if s.len() > 0 {
        let t = s.drop_last();
        let n = s.len() - 1;
        law_placed_bets_since_last_race(t, player);
        match s.last() {
            Event::RaceFinished { .. } => {
                assert forall|j: int| !#[trigger] bet_open_at(s, j) by {
                    if bet_open_at(s, j) {
                        assert(j != n);
                        assert(!(s[n] is RaceFinished));
                    }
                }
            },
            _ => {
                assert forall|j: int| 0 <= j < n implies #[trigger] bet_open_at(s, j) == bet_open_at(t, j) by {
                    if bet_open_at(t, j) {
                        assert forall|k: int| j < k < s.len() implies !(#[trigger] s[k] is RaceFinished) by {
                            if k < n {
                                assert(t[k] == s[k]);
                            }
                        }
                    }
                    if bet_open_at(s, j) {
                        assert forall|k: int| j < k < t.len() implies !(#[trigger] t[k] is RaceFinished) by {
                            assert(t[k] == s[k]);
                        }
                    }
                }
                if spec_placed_bets(s).contains_key(player) {
                    if spec_placed_bets(t).contains_key(player) {
                        let j = choose|j: int| #[trigger] bet_open_at(t, j) && (t[j]->0).session_id == player;
                        assert(bet_open_at(s, j));
                    } else {
                        assert(bet_open_at(s, n));
                    }
                }
                if exists|j: int| #[trigger] bet_open_at(s, j) && (s[j]->0).session_id == player {
                    let j = choose|j: int| #[trigger] bet_open_at(s, j) && (s[j]->0).session_id == player;
                    if j < n {
                        assert(bet_open_at(t, j));
                    }
                }
            },
        }
    }
}

/// Right after a race finishes and the next round starts nobody has bet yet,
/// so the race waits: it can only start once the betting time of the new
/// round is over.
pub proof fn law_new_round_waits_for_bets(
    s: Seq<Event>,
    finished: u32,
    results: RaceResults,
    time: u32,
    odds: Option<Odds>,
    now: u128,
)
    ensures
        ({
            let s2 = s.push(Event::RaceFinished { time: finished, results }).push(Event::RoundStarted { time, odds });
            &&& forall|p: u128| !#[trigger] spec_placed_bets(s2).contains_key(p)
            &&& !spec_all_players_have_bet(s2)
            &&& start_race_fires(s2, now) ==> now >= (time + PRE_GAME_TIMEOUT) * NANOS_PER_SEC
        }),
{
    let s1 = s.push(Event::RaceFinished { time: finished, results });
    let s2 = s1.push(Event::RoundStarted { time, odds });
    assert(s1.drop_last() =~= s);
    assert(s2.drop_last() =~= s1);
    assert(spec_placed_bets(s1) =~= Map::<u128, Seq<PlacedBet>>::empty());
    assert(spec_placed_bets(s2) == spec_placed_bets(s1));
    if spec_all_players_have_bet(s2) {
        assert(spec_players(s2).dom() =~= Set::<u128>::empty());
    }
    assert(spec_last_round_start(s2) == Some(time));
}

/// No bet is pending: every bet in the log was followed by a finished race.
pub open spec fn no_open_bets(s: Seq<Event>) -> bool {
    forall|j: int| !#[trigger] bet_open_at(s, j)
}

proof fn lemma_no_open_bets_fold(s: Seq<Event>, settings: Settings)
    requires
        no_open_bets(s),
        account_fold(s, settings) is Some,
    ensures
        account_fold(s, settings)->0.bets.len() == 0,
    decreases s.len(),
{
    if s.len() > 0 {
        let t = s.drop_last();
        let n = s.len() - 1;
        match s.last() {
            Event::RaceFinished { .. } => {},
            Event::PlacedBet(..) => {
                assert(bet_open_at(s, n));
            },
            _ => {
                assert forall|j: int| !#[trigger] bet_open_at(t, j) by {
                    if bet_open_at(t, j) {
                        assert forall|k: int| j < k < s.len() implies !(#[trigger] s[k] is RaceFinished) by {
                            if k < n {
                                assert(t[k] == s[k]);
                            }
                        }
                        assert(bet_open_at(s, j));
                    }
                }
                lemma_no_open_bets_fold(t, settings);
            },
        }
    }
}

/// Under odds payouts a race is settled at the odds of the latest round: a
/// winning bet placed after a round started with odds `o` credits its stake
/// times `o`'s payout for the monster, whatever earlier rounds announced.
pub proof fn law_race_pays_latest_odds(
    s: Seq<Event>,
    player: u128,
    o: Odds,
    round_time: u32,
    monster: u128,
    amount: i32,
    started: u32,
    finished: u32,
    results: RaceResults,
)
    requires
        s.len() > 0,
        settings_of(s).payout == Payout::Odds,
        balances_defined(s),
        no_open_bets(s),
        spec_player_exists(s, player),
        results.first == monster,
        balances_defined(
            s + seq![
                Event::RoundStarted { time: round_time, odds: Some(o) },
                Event::PlacedBet(PlacedBet { session_id: player, monster_id: monster, amount }),
                Event::RaceStarted { time: started },
                Event::RaceFinished { time: finished, results },
            ],
        ),
    ensures
        ({
            let s2 = s + seq![
                Event::RoundStarted { time: round_time, odds: Some(o) },
                Event::PlacedBet(PlacedBet { session_id: player, monster_id: monster, amount }),
                Event::RaceStarted { time: started },
                Event::RaceFinished { time: finished, results },
            ];
            get_or_zero(spec_balances(s2), player) == get_or_zero(spec_balances(s), player) - amount + spec_scaled(
                spec_payout_for(spec_odds_of(o, monster)),
                amount as int,
            )
        }),
{
    let bet = PlacedBet { session_id: player, monster_id: monster, amount };
    let s2 = s + seq![
        Event::RoundStarted { time: round_time, odds: Some(o) },
        Event::PlacedBet(bet),
        Event::RaceStarted { time: started },
        Event::RaceFinished { time: finished, results },
    ];
    let stt = settings_of(s);
    assert(s2[0] == s[0]);
    assert(settings_of(s2) == stt);
    let s1 = s.push(Event::RoundStarted { time: round_time, odds: Some(o) });
    let sb = s1.push(Event::PlacedBet(bet));
    let sr = sb.push(Event::RaceStarted { time: started });
    assert(s2 =~= sr.push(Event::RaceFinished { time: finished, results }));
    assert(s2.drop_last() =~= sr);
    assert(sr.drop_last() =~= sb);
    assert(sb.drop_last() =~= s1);
    assert(s1.drop_last() =~= s);
    lemma_no_open_bets_fold(s, stt);
    lemma_joined_players_have_accounts(s, stt, player);
    let st0 = account_fold(s, stt)->0;
    assert(st0.bets =~= Seq::<PlacedBet>::empty());
    let acc = st0.accounts;
    lemma_account_fold_prefix(s2, stt, sb.len() as int);
    assert(s2.take(sb.len() as int) =~= sb);
    let st1 = AccountState { odds: Some(o), ..st0 };
    assert(account_fold(s1, stt) == Some(st1));
    assert(account_fold(sb, stt) == account_step(st1, Event::PlacedBet(bet), stt));
    assert(fits_i32(acc[player] - amount));
    let acc2 = acc.insert(player, (acc[player] - amount) as i32);
    assert(account_fold(sb, stt)->0.bets =~= seq![bet]);
    assert(account_fold(sb, stt)->0.accounts == acc2);
    assert(account_fold(sr, stt)->0.odds == Some(o));
    assert(seq![bet].drop_last() =~= Seq::<PlacedBet>::empty());
    assert(seq![bet].last() == bet);
    assert(pay_odds(acc2, Seq::<PlacedBet>::empty(), monster, Some(o)) == Some(acc2));
    assert(pay_odds(acc2, seq![bet], monster, Some(o)) == crate::projections::accounts::add_or_insert(
        acc2,
        player,
        spec_scaled(spec_payout_for(spec_odds_of(o, monster)), amount as int),
    ));
}

proof fn lemma_pay_odds_losers(a: Map<u128, i32>, bets: Seq<PlacedBet>, first: u128, odds: Option<Odds>, player: u128)
    requires
        pay_odds(a, bets, first, odds) is Some,
        forall|i: int| 0 <= i < bets.len() && (#[trigger] bets[i]).session_id == player ==> bets[i].monster_id != first,
    ensures
        get_or_zero(pay_odds(a, bets, first, odds)->0, player) == get_or_zero(a, player),
    decreases bets.len(),
{
    if bets.len() > 0 {
        assert forall|i: int| 0 <= i < bets.drop_last().len() && (#[trigger] bets.drop_last()[i]).session_id
            == player implies bets.drop_last()[i].monster_id != first by {
            assert(bets.drop_last()[i] == bets[i]);
        }
        assert(bets.last() == bets[bets.len() - 1]);
        lemma_pay_odds_losers(a, bets.drop_last(), first, odds, player);
    }
}

proof fn lemma_pay_pool_losers(a: Map<u128, i32>, bets: Seq<PlacedBet>, first: u128, losses: int, wins: int, player: u128)
    requires
        pay_pool(a, bets, first, losses, wins) is Some,
        forall|i: int| 0 <= i < bets.len() && (#[trigger] bets[i]).session_id == player ==> bets[i].monster_id != first,
    ensures
        get_or_zero(pay_pool(a, bets, first, losses, wins)->0, player) == get_or_zero(a, player),
    decreases bets.len(),
{
    if bets.len() > 0 {
        assert forall|i: int| 0 <= i < bets.drop_last().len() && (#[trigger] bets.drop_last()[i]).session_id
            == player implies bets.drop_last()[i].monster_id != first by {
            assert(bets.drop_last()[i] == bets[i]);
        }
        assert(bets.last() == bets[bets.len() - 1]);
        lemma_pay_pool_losers(a, bets.drop_last(), first, losses, wins, player);
    }
}

proof fn lemma_race_winnings_losers(
    w: Map<u128, i32>,
    bets: Seq<PlacedBet>,
    first: u128,
    odds: Odds,
    settings: Settings,
    losses: int,
    wins: int,
    player: u128,
)
    requires
        race_winnings(w, bets, first, odds, settings, losses, wins) is Some,
        forall|i: int| 0 <= i < bets.len() && (#[trigger] bets[i]).session_id == player ==> bets[i].monster_id != first,
    ensures
        get_or_zero(race_winnings(w, bets, first, odds, settings, losses, wins)->0, player) == get_or_zero(w, player)
            - stakes_of(bets, player),
    decreases bets.len(),
{
    if bets.len() > 0 {
        assert forall|i: int| 0 <= i < bets.drop_last().len() && (#[trigger] bets.drop_last()[i]).session_id
            == player implies bets.drop_last()[i].monster_id != first by {
            assert(bets.drop_last()[i] == bets[i]);
        }
        assert(bets.last() == bets[bets.len() - 1]);
        lemma_race_winnings_losers(w, bets.drop_last(), first, odds, settings, losses, wins, player);
    }
}

/// A player whose bets all lost has lost exactly their stakes, whatever the
/// payout: their winnings are minus the stakes, and from the start of a round
/// with no bets pending, after the bets, the race's start and its finish, the
/// balance is the one before the bets plus those winnings.
pub proof fn law_losing_bets_cost_their_stakes(
    s0: Seq<Event>,
    bets: Seq<PlacedBet>,
    started: u32,
    finished: u32,
    results: RaceResults,
    player: u128,
)
    requires
        s0.len() > 0,
        account_fold(s0, spec_settings(s0)) is Some,
        no_open_bets(s0),
        spec_player_exists(s0, player),
        forall|i: int| 0 <= i < bets.len() && (#[trigger] bets[i]).session_id == player ==> bets[i].monster_id
            != results.first,
        ({
            let s = s0 + bet_log(bets) + seq![
                Event::RaceStarted { time: started },
                Event::RaceFinished { time: finished, results },
            ];
            &&& balances_defined(s)
            &&& winnings_defined(s)
        }),
        s0.last() is RoundStarted,
    ensures
        ({
            let s = s0 + bet_log(bets) + seq![
                Event::RaceStarted { time: started },
                Event::RaceFinished { time: finished, results },
            ];
            &&& get_or_zero(spec_winnings(s), player) == -stakes_of(bets, player)
            &&& get_or_zero(spec_balances(s), player) == get_or_zero(spec_balances(s0), player) + get_or_zero(
                spec_winnings(s),
                player,
            )
        }),
{
    let stt = spec_settings(s0);
    let sb = s0 + bet_log(bets);
    let sr = sb.push(Event::RaceStarted { time: started });
    let s = sr.push(Event::RaceFinished { time: finished, results });
    assert(s =~= s0 + bet_log(bets) + seq![
        Event::RaceStarted { time: started },
        Event::RaceFinished { time: finished, results },
    ]);
    assert(s[0] == s0[0]);
    assert(spec_settings(s) == stt);
    assert(settings_of(s) == stt);
    assert(settings_of(s0) == stt);
    lemma_no_open_bets_fold(s0, stt);
    lemma_joined_players_have_accounts(s0, stt, player);
    let odds = spec_pre_computed_odds(s);
    assert(s.drop_last() =~= sr);
    assert(sr.drop_last() =~= sb);
    lemma_account_fold_prefix(s, stt, sb.len() as int);
    assert(s.take(sb.len() as int) =~= sb);
    assert(bets.take(bets.len() as int) =~= bets);
    lemma_bets_on_accounts(s0, bets, stt, bets.len() as int, player);
    let acc = account_fold(sb, stt)->0;
    let first = results.first;
    assert(account_fold(sr, stt) == Some(acc));
    assert(account_fold(s, stt) == account_step(acc, s.last(), stt));
    assert(acc.bets == bets);
    match stt.payout {
        Payout::Odds => {
            lemma_pay_odds_losers(acc.accounts, bets, first, acc.odds, player);
        },
        Payout::Pool => {
            let losses = stake_total(bets, first, false)->0;
            let wins = stake_total(bets, first, true)->0;
            lemma_pay_pool_losers(acc.accounts, bets, first, losses, wins, player);
        },
    }
    lemma_winnings_fold_prefix(s, odds, stt, s0.len() as int);
    assert(s.take(s0.len() as int) =~= s0);
    assert(s0.drop_last() + seq![s0.last()] =~= s0);
    assert(winnings_fold(s0, odds, stt)->0.winnings =~= Map::<u128, i32>::empty());
    lemma_bets_on_winnings(s0, bets, odds, stt, bets.len() as int);
    let w0 = winnings_fold(s0, odds, stt)->0.winnings;
    assert(winnings_fold(sb, odds, stt) == Some(WinningsState { winnings: w0, bets: bets }));
    assert(winnings_fold(sr, odds, stt) == Some(WinningsState { winnings: w0, bets: bets }));
    match stt.payout {
        Payout::Odds => {
            lemma_race_winnings_losers(w0, bets, first, odds, stt, 0, 0, player);
        },
        Payout::Pool => {
            let losses = stake_total(bets, first, false)->0;
            let wins = stake_total(bets, first, true)->0;
            lemma_race_winnings_losers(w0, bets, first, odds, stt, losses, wins, player);
        },
    }
    assert(get_or_zero(w0, player) == 0);
}

} // verus!
