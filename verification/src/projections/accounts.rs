use vstd::prelude::*;

use crate::cards::{Card, Target};
use crate::collections::{
    balance_map, balances_get, balances_insert, balances_new, bet_list, bets_at, bets_len,
    bets_new, bets_push_back, debt_map, debts_get, debts_insert, debts_keys, debts_new,
};
use crate::events::{
    log, log_at, log_len, option_payout, scaled, spec_option_payout, spec_payout_for,
    spec_odds_of, spec_scaled, trunc_div, truncate, truncated, Event, Multiplier, Odds, Payout,
    PlacedBet, Settings,
};
use crate::rounding::{f32_quotient, quotient_to_f32};
use crate::projections::monsters::{pre_computed_odds, spec_pre_computed_odds};
use crate::projections::{settings, spec_round, spec_settings, starts_with_creation};

verus! {

/// Every player starts with this many crystals.
pub const STARTING_BALANCE: i32 = 1000;

/// A card costs this many crystals.
pub const CARD_PRICE: i32 = 100;

/// The Crystals card gives this many crystals.
pub const CRYSTALS_GIFT: i32 = 500;

/// Pool winners share the losers' stakes scaled by this percentage.
pub const INFLATION_FACTOR: i32 = 110;

pub open spec fn fits_i32(x: int) -> bool {
    i32::MIN <= x <= i32::MAX
}

pub open spec fn get_or_zero(m: Map<u128, i32>, k: u128) -> int {
    if m.contains_key(k) {
        m[k] as int
    } else {
        0
    }
}

/// Adds `delta` to the balance of `k` if `k` has one; `None` when the sum leaves the `i32` range.
pub open spec fn modify_existing(m: Map<u128, i32>, k: u128, delta: int) -> Option<Map<u128, i32>> {
    if !m.contains_key(k) {
        Some(m)
    } else if fits_i32(m[k] + delta) {
        Some(m.insert(k, (m[k] + delta) as i32))
    } else {
        None
    }
}

/// Adds `delta` to the balance of `k`, starting from zero if it has none.
pub open spec fn add_or_insert(m: Map<u128, i32>, k: u128, delta: int) -> Option<Map<u128, i32>> {
    if fits_i32(get_or_zero(m, k) + delta) {
        Some(m.insert(k, (get_or_zero(m, k) + delta) as i32))
    } else {
        None
    }
}

/// The winners of a race under odds payouts: each winning bet adds its stake
/// times the monster's payout, in the order the bets were placed.
pub open spec fn pay_odds(
    accounts: Map<u128, i32>,
    bets: Seq<PlacedBet>,
    first: u128,
    odds: Option<Odds>,
) -> Option<Map<u128, i32>>
    decreases bets.len(),
{
    if bets.len() == 0 {
        Some(accounts)
    } else {
        match pay_odds(accounts, bets.drop_last(), first, odds) {
            None => None,
            Some(m) => {
                let bet = bets.last();
                if bet.monster_id != first {
                    Some(m)
                } else {
                    add_or_insert(
                        m,
                        bet.session_id,
                        spec_scaled(spec_option_payout(odds, bet.monster_id), bet.amount as int),
                    )
                }
            },
        }
    }
}

/// The sum of the stakes of the bets that did (`winners`) or did not win,
/// added up in order; `None` when a partial sum leaves the `i32` range.
pub open spec fn stake_total(bets: Seq<PlacedBet>, first: u128, winners: bool) -> Option<int>
    decreases bets.len(),
{
    if bets.len() == 0 {
        Some(0)
    } else {
        match stake_total(bets.drop_last(), first, winners) {
            None => None,
            Some(t) => {
                let bet = bets.last();
                if (bet.monster_id == first) != winners {
                    Some(t)
                } else if fits_i32(t + bet.amount) {
                    Some(t + bet.amount)
                } else {
                    None
                }
            },
        }
    }
}

/// `INFLATION_FACTOR * amount * losses / wins / 100` evaluated as `i32`
/// arithmetic from left to right; `None` when that overflows or divides by zero.
pub open spec fn pool_share(amount: int, losses: int, wins: int) -> Option<int> {
    let a = INFLATION_FACTOR * amount;
    let b = a * losses;
    if !fits_i32(a) || !fits_i32(b) || wins == 0 || !fits_i32(trunc_div(b, wins)) {
        None
    } else {
        Some(trunc_div(trunc_div(b, wins), 100))
    }
}

/// The winners of a race under pool payouts: each winning bet gets its stake
/// back plus its share of the losers' stakes.
pub open spec fn pay_pool(
    accounts: Map<u128, i32>,
    bets: Seq<PlacedBet>,
    first: u128,
    losses: int,
    wins: int,
) -> Option<Map<u128, i32>>
    decreases bets.len(),
{
    if bets.len() == 0 {
        Some(accounts)
    } else {
        match pay_pool(accounts, bets.drop_last(), first, losses, wins) {
            None => None,
            Some(m) => {
                let bet = bets.last();
                if bet.monster_id != first {
                    Some(m)
                } else {
                    match pool_share(bet.amount as int, losses, wins) {
                        None => None,
                        Some(share) => if fits_i32(bet.amount + share) {
                            add_or_insert(m, bet.session_id, bet.amount + share)
                        } else {
                            None
                        },
                    }
                }
            },
        }
    }
}

pub open spec fn settle_race(
    accounts: Map<u128, i32>,
    bets: Seq<PlacedBet>,
    first: u128,
    odds: Option<Odds>,
    settings: Settings,
) -> Option<Map<u128, i32>> {
    match settings.payout {
        Payout::Odds => pay_odds(accounts, bets, first, odds),
        Payout::Pool => match (stake_total(bets, first, false), stake_total(bets, first, true)) {
            (Some(losses), Some(wins)) => pay_pool(accounts, bets, first, losses, wins),
            _ => None,
        },
    }
}

/// What the balances fold carries from one event to the next.
pub struct AccountState {
    pub accounts: Map<u128, i32>,
    pub bets: Seq<PlacedBet>,
    pub odds: Option<Odds>,
}

pub open spec fn account_step(st: AccountState, e: Event, settings: Settings) -> Option<AccountState> {
    match e {
        Event::PlayerJoined { session_id, .. } => Some(
            AccountState { accounts: st.accounts.insert(session_id, STARTING_BALANCE), ..st },
        ),
        Event::BoughtCard { session_id, .. } => match modify_existing(
            st.accounts,
            session_id,
            -CARD_PRICE,
        ) {
            Some(m) => Some(AccountState { accounts: m, ..st }),
            None => None,
        },
        Event::BorrowedMoney { session_id, amount } => match modify_existing(
            st.accounts,
            session_id,
            (amount as i32) as int,
        ) {
            Some(m) => Some(AccountState { accounts: m, ..st }),
            None => None,
        },
        Event::PaidBackMoney { session_id, amount } => match modify_existing(
            st.accounts,
            session_id,
            -((amount as i32) as int),
        ) {
            Some(m) => Some(AccountState { accounts: m, ..st }),
            None => None,
        },
        Event::PlacedBet(bet) => match modify_existing(
            st.accounts,
            bet.session_id,
            -(bet.amount as int),
        ) {
            Some(m) => Some(AccountState { accounts: m, bets: st.bets.push(bet), ..st }),
            None => None,
        },
        Event::RoundStarted { odds, .. } => Some(AccountState { odds: odds, ..st }),
        Event::RaceFinished { results, .. } => match settle_race(
            st.accounts,
            st.bets,
            results.first,
            st.odds,
            settings,
        ) {
            Some(m) => Some(AccountState { accounts: m, bets: Seq::empty(), ..st }),
            None => None,
        },
        Event::PlayedCard { session_id: source, card: Card::Theft, target: Target::Player(target) } => {
            let t = get_or_zero(st.accounts, target);
            let s = get_or_zero(st.accounts, source);
            let amount = theft_share(t);
            if target == source || !fits_i32(s + amount) {
                None
            } else {
                Some(
                    AccountState {
                        accounts: st.accounts.insert(target, (t - amount) as i32).insert(
                            source,
                            (s + amount) as i32,
                        ),
                        ..st
                    },
                )
            }
        },
        Event::PlayedCard { card: Card::Crystals, target: Target::Player(target), .. } => match add_or_insert(
            st.accounts,
            target,
            CRYSTALS_GIFT as int,
        ) {
            Some(m) => Some(AccountState { accounts: m, ..st }),
            None => None,
        },
        _ => Some(st),
    }
}

pub open spec fn initial_account_state() -> AccountState {
    AccountState { accounts: Map::empty(), bets: Seq::empty(), odds: None }
}

/// The balances fold over a log; `None` when some step would overflow, divide
/// by zero, or steal from the thief.
pub open spec fn account_fold(s: Seq<Event>, settings: Settings) -> Option<AccountState>
    decreases s.len(),
{
    if s.len() == 0 {
        Some(initial_account_state())
    } else {
        match account_fold(s.drop_last(), settings) {
            None => None,
            Some(st) => account_step(st, s.last(), settings),
        }
    }
}

pub open spec fn settings_of(s: Seq<Event>) -> Settings {
    if s.len() > 0 {
        spec_settings(s)
    } else {
        Settings::spec_default()
    }
}

/// Whether the balances of a log can be computed without an arithmetic fault.
pub open spec fn balances_defined(s: Seq<Event>) -> bool {
    account_fold(s, settings_of(s)) is Some
}

/// The crystal balance of every player.
pub open spec fn spec_balances(s: Seq<Event>) -> Map<u128, i32> {
    account_fold(s, settings_of(s))->0.accounts
}

pub proof fn lemma_account_fold_prefix(s: Seq<Event>, settings: Settings, k: int)
    requires
        0 <= k <= s.len(),
        account_fold(s, settings) is Some,
    ensures
        account_fold(s.take(k), settings) is Some,
    decreases s.len(),
{
    if k < s.len() {
        assert(s.drop_last().take(k) =~= s.take(k));
        lemma_account_fold_prefix(s.drop_last(), settings, k);
    } else {
        assert(s.take(k) =~= s);
    }
}


proof fn lemma_pay_odds_prefix(a: Map<u128, i32>, bets: Seq<PlacedBet>, first: u128, odds: Option<Odds>, k: int)
    requires
        0 <= k <= bets.len(),
        pay_odds(a, bets, first, odds) is Some,
    ensures
        pay_odds(a, bets.take(k), first, odds) is Some,
    decreases bets.len(),
{
    if k < bets.len() {
        assert(bets.drop_last().take(k) =~= bets.take(k));
        lemma_pay_odds_prefix(a, bets.drop_last(), first, odds, k);
    } else {
        assert(bets.take(k) =~= bets);
    }
}

proof fn lemma_stake_total_prefix(bets: Seq<PlacedBet>, first: u128, winners: bool, k: int)
    requires
        0 <= k <= bets.len(),
        stake_total(bets, first, winners) is Some,
    ensures
        stake_total(bets.take(k), first, winners) is Some,
    decreases bets.len(),
{
    if k < bets.len() {
        assert(bets.drop_last().take(k) =~= bets.take(k));
        lemma_stake_total_prefix(bets.drop_last(), first, winners, k);
    } else {
        assert(bets.take(k) =~= bets);
    }
}

proof fn lemma_pay_pool_prefix(a: Map<u128, i32>, bets: Seq<PlacedBet>, first: u128, losses: int, wins: int, k: int)
    requires
        0 <= k <= bets.len(),
        pay_pool(a, bets, first, losses, wins) is Some,
    ensures
        pay_pool(a, bets.take(k), first, losses, wins) is Some,
    decreases bets.len(),
{
    if k < bets.len() {
        assert(bets.drop_last().take(k) =~= bets.take(k));
        lemma_pay_pool_prefix(a, bets.drop_last(), first, losses, wins, k);
    } else {
        assert(bets.take(k) =~= bets);
    }
}

proof fn lemma_bets_step(bets: Seq<PlacedBet>, i: int)
    requires
        0 <= i < bets.len(),
    ensures
        bets.take(i + 1).drop_last() == bets.take(i),
        bets.take(i + 1).last() == bets[i],
{
    assert(bets.take(i + 1).drop_last() =~= bets.take(i));
}

/// Adds `delta` to the balance of `key`, starting from zero when it has none.
fn add_to_balance(accounts: &mut im::OrdMap<u128, i32>, key: u128, delta: i32)
    requires
        add_or_insert(balance_map(*old(accounts)), key, delta as int) is Some,
    ensures
        balance_map(*final(accounts)) == add_or_insert(balance_map(*old(accounts)), key, delta as int)->0,
{
    let current = match balances_get(accounts, key) {
        Some(b) => b,
        None => 0,
    };
    balances_insert(accounts, key, current + delta);
}

/// Adds `delta` to the balance of `key` if it has one.
fn modify_balance(accounts: &mut im::OrdMap<u128, i32>, key: u128, delta: i32)
    requires
        modify_existing(balance_map(*old(accounts)), key, delta as int) is Some,
    ensures
        balance_map(*final(accounts)) == modify_existing(balance_map(*old(accounts)), key, delta as int)->0,
{
    if let Some(b) = balances_get(accounts, key) {
        balances_insert(accounts, key, b + delta);
    }
}

fn settle_odds(
    accounts: &mut im::OrdMap<u128, i32>,
    bets: &im::Vector<PlacedBet>,
    first: u128,
    odds: &Option<Odds>,
)
    requires
        pay_odds(balance_map(*old(accounts)), bet_list(*bets), first, *odds) is Some,
    ensures
        balance_map(*final(accounts)) == pay_odds(balance_map(*old(accounts)), bet_list(*bets), first, *odds)->0,
{
    let ghost a0 = balance_map(*accounts);
    let ghost bl = bet_list(*bets);
    let n = bets_len(bets);
    let mut i: usize = 0;
    proof {
        assert(bl.take(0) =~= Seq::<PlacedBet>::empty());
    }
    while i < n
        invariant
            n == bl.len(),
            bl == bet_list(*bets),
            i <= n,
            pay_odds(a0, bl, first, *odds) is Some,
            pay_odds(a0, bl.take(i as int), first, *odds) == Some(balance_map(*accounts)),
        decreases n - i,
    {
        proof {
            lemma_bets_step(bl, i as int);
            lemma_pay_odds_prefix(a0, bl, first, *odds, i + 1);
        }
        let bet = bets_at(bets, i);
        if bet.monster_id == first {
            let m = option_payout(odds, bet.monster_id);
            let amount = scaled(m, bet.amount);
            add_to_balance(accounts, bet.session_id, amount);
        }
        i = i + 1;
    }
    proof {
        assert(bl.take(n as int) =~= bl);
    }
}

fn stake_sum(bets: &im::Vector<PlacedBet>, first: u128, winners: bool) -> (total: i32)
    requires
        stake_total(bet_list(*bets), first, winners) is Some,
    ensures
        total == stake_total(bet_list(*bets), first, winners)->0,
{
    let ghost bl = bet_list(*bets);
    let n = bets_len(bets);
    let mut total: i32 = 0;
    let mut i: usize = 0;
    proof {
        assert(bl.take(0) =~= Seq::<PlacedBet>::empty());
    }
    while i < n
        invariant
            n == bl.len(),
            bl == bet_list(*bets),
            i <= n,
            stake_total(bl, first, winners) is Some,
            stake_total(bl.take(i as int), first, winners) == Some(total as int),
        decreases n - i,
    {
        proof {
            lemma_bets_step(bl, i as int);
            lemma_stake_total_prefix(bl, first, winners, i + 1);
        }
        let bet = bets_at(bets, i);
        if (bet.monster_id == first) == winners {
            total = total + bet.amount;
        }
        i = i + 1;
    }
    proof {
        assert(bl.take(n as int) =~= bl);
    }
    total
}

/// `a / b` rounded towards zero, for `a / b` within the `i32` range.
fn div_toward_zero(a: i32, b: i32) -> (q: i32)
    requires
        b != 0,
        fits_i32(trunc_div(a as int, b as int)),
    ensures
        q == trunc_div(a as int, b as int),
{
    if b > 0 {
        a / b
    } else {
        let divisor: i64 = -(b as i64);
        let q0: i64 = (a as i64) / divisor;
        assert(q0 == trunc_div(a as int, divisor as int));
        let q: i64 = -q0;
        q as i32
    }
}

fn settle_pool(
    accounts: &mut im::OrdMap<u128, i32>,
    bets: &im::Vector<PlacedBet>,
    first: u128,
    losses: i32,
    wins: i32,
)
    requires
        pay_pool(balance_map(*old(accounts)), bet_list(*bets), first, losses as int, wins as int) is Some,
    ensures
        balance_map(*final(accounts)) == pay_pool(
            balance_map(*old(accounts)),
            bet_list(*bets),
            first,
            losses as int,
            wins as int,
        )->0,
{
    let ghost a0 = balance_map(*accounts);
    let ghost bl = bet_list(*bets);
    let n = bets_len(bets);
    let mut i: usize = 0;
    proof {
        assert(bl.take(0) =~= Seq::<PlacedBet>::empty());
    }
    while i < n
        invariant
            n == bl.len(),
            bl == bet_list(*bets),
            i <= n,
            pay_pool(a0, bl, first, losses as int, wins as int) is Some,
            pay_pool(a0, bl.take(i as int), first, losses as int, wins as int) == Some(balance_map(*accounts)),
        decreases n - i,
    {
        proof {
            lemma_bets_step(bl, i as int);
            lemma_pay_pool_prefix(a0, bl, first, losses as int, wins as int, i + 1);
        }
        let bet = bets_at(bets, i);
        if bet.monster_id == first {
            let a = INFLATION_FACTOR * bet.amount;
            let b = a * losses;
            let c = div_toward_zero(b, wins);
            let share = div_toward_zero(c, 100);
            add_to_balance(accounts, bet.session_id, bet.amount + share);
        }
        i = i + 1;
    }
    proof {
        assert(bl.take(n as int) =~= bl);
    }
}


/// Settles a finished race whose winner is `first`: under odds payouts each
/// winning bet pays its stake times the monster's payout; under pool payouts
/// each winning bet gets its stake back plus its share of the losing stakes.
fn settle(
    accounts: &mut im::OrdMap<u128, i32>,
    bets: &im::Vector<PlacedBet>,
    first: u128,
    odds: &Option<Odds>,
    settings: Settings,
)
    requires
        settle_race(balance_map(*old(accounts)), bet_list(*bets), first, *odds, settings) is Some,
    ensures
        balance_map(*final(accounts)) == settle_race(
            balance_map(*old(accounts)),
            bet_list(*bets),
            first,
            *odds,
            settings,
        )->0,
{
    match settings.payout {
        Payout::Odds => settle_odds(accounts, bets, first, odds),
        Payout::Pool => {
            let losses = stake_sum(bets, first, false);
            let wins = stake_sum(bets, first, true);
            settle_pool(accounts, bets, first, losses, wins);
        },
    }
}

/// The crystal balance of every player who joined (and of anyone a card or a
/// payout credited). Players start with 1000 crystals; buying a card costs 100;
/// borrowing adds and paying back subtracts the amount; a bet subtracts its
/// stake until the race finishes and is settled; Theft moves a fifth of the
/// victim's crystals (in `f32`, truncated) to the thief; Crystals gives 500.
pub fn all_account_balances(events: &im::Vector<Event>) -> (balances: im::OrdMap<u128, i32>)
    requires
        balances_defined(log(*events)),
    ensures
        balance_map(balances) == spec_balances(log(*events)),
{
    let ghost s = log(*events);
    let ghost stt = settings_of(s);
    let mut accounts = balances_new();
    let mut bets = bets_new();
    let mut maybe_odds: Option<Odds> = None;
    let n = log_len(events);
    let mut i: usize = 0;
    proof {
        assert(s.take(0) =~= Seq::<Event>::empty());
        assert(initial_account_state().accounts =~= balance_map(accounts));
    }
    while i < n
        invariant
            n == s.len(),
            s == log(*events),
            stt == settings_of(s),
            i <= n,
            account_fold(s, stt) is Some,
            account_fold(s.take(i as int), stt) == Some(
                AccountState { accounts: balance_map(accounts), bets: bet_list(bets), odds: maybe_odds },
            ),
        decreases n - i,
    {
        proof {
            assert(s.take(i + 1).drop_last() =~= s.take(i as int));
            lemma_account_fold_prefix(s, stt, i + 1);
        }
        let e = log_at(events, i);
        match e {
            Event::PlayerJoined { session_id, .. } => {
                balances_insert(&mut accounts, *session_id, STARTING_BALANCE);
            },
            Event::BoughtCard { session_id, .. } => {
                modify_balance(&mut accounts, *session_id, -CARD_PRICE);
            },
            Event::BorrowedMoney { session_id, amount } => {
                modify_balance(&mut accounts, *session_id, *amount as i32);
            },
            Event::PaidBackMoney { session_id, amount } => {
                let delta = *amount as i32;
                if let Some(b) = balances_get(&accounts, *session_id) {
                    balances_insert(&mut accounts, *session_id, b - delta);
                }
            },
            Event::PlacedBet(bet) => {
                bets_push_back(&mut bets, *bet);
                if let Some(b) = balances_get(&accounts, bet.session_id) {
                    balances_insert(&mut accounts, bet.session_id, b - bet.amount);
                }
            },
            Event::RoundStarted { odds, .. } => {
                maybe_odds = *odds;
            },
            Event::RaceFinished { results, .. } => {
                let st = settings(events);
                settle(&mut accounts, &bets, results.first, &maybe_odds, st);
                bets = bets_new();
            },
            Event::PlayedCard { session_id: source, card: Card::Theft, target: Target::Player(target) } => {
                let t = match balances_get(&accounts, *target) {
                    Some(b) => b,
                    None => 0,
                };
                let src = match balances_get(&accounts, *source) {
                    Some(b) => b,
                    None => 0,
                };
                let amount = fifth(t);
                balances_insert(&mut accounts, *target, t - amount);
                balances_insert(&mut accounts, *source, src + amount);
            },
            Event::PlayedCard { card: Card::Crystals, target: Target::Player(target), .. } => {
                add_to_balance(&mut accounts, *target, CRYSTALS_GIFT);
            },
            _ => {},
        }
        proof {
            assert(account_fold(s.take(i + 1), stt) == Some(
                AccountState { accounts: balance_map(accounts), bets: bet_list(bets), odds: maybe_odds },
            ));
        }
        i = i + 1;
    }
    proof {
        assert(s.take(n as int) =~= s);
    }
    accounts
}

/// The balance of one player; zero for someone without an account.
pub fn account_balance(events: &im::Vector<Event>, player: u128) -> (balance: i32)
    requires
        balances_defined(log(*events)),
    ensures
        balance == get_or_zero(spec_balances(log(*events)), player),
{
    match balances_get(&all_account_balances(events), player) {
        Some(b) => b,
        None => 0,
    }
}


/// The net gain of a winning stake under a payout multiplier `m`, in single
/// precision as `((m - 1.0) * (amount as f32)) as i32` computes it: `m - 1`
/// rounded to an `f32`, the amount rounded to an `f32`, their product rounded
/// to an `f32`, and the result truncated towards zero and saturated to an `i32`.
pub open spec fn spec_net_gain(m: Multiplier, amount: int) -> int {
    let below = m.num < m.den;
    let diff = f32_quotient(
        if below { (m.den - m.num) as nat } else { (m.num - m.den) as nat },
        m.den as nat,
    );
    let a = round_to_f32(magnitude(amount));
    truncated(f32_quotient((diff.0 * a) as nat, diff.1), below != (amount < 0))
}

fn net_gain(m: Multiplier, amount: i32) -> (r: i32)
    requires
        m.bounded(),
    ensures
        r == spec_net_gain(m, amount as int),
{
    let below = m.num < m.den;
    let gap: u128 = if below {
        m.den - m.num
    } else {
        m.num - m.den
    };
    let diff = quotient_to_f32(gap, m.den);
    proof {
        if diff.1 == 1 {
            assert(diff.0 <= 18) by (nonlinear_arith)
                requires
                    diff.0 * m.den <= 2 * gap * diff.1,
                    diff.1 == 1,
                    gap <= 9 * m.den,
                    m.den >= 1,
            ;
        }
        assert(diff.1 <= 0x4_0000_0000_0000_0000_0000) by (nonlinear_arith)
            requires
                diff.1 <= 0x100_0000 * m.den,
                m.den <= 0x400_0000_0000_0000,
        ;
    }
    let mag: u64 = if amount < 0 {
        (-(amount as i64)) as u64
    } else {
        amount as u64
    };
    assert(mag == magnitude(amount as int));
    let a = nearest_f32(mag);
    assert(diff.0 * a <= 0x100_0000_0000_0000) by (nonlinear_arith)
        requires
            diff.0 <= 0x100_0000,
            a <= 0x1_0000_0000,
    ;
    let x = quotient_to_f32(diff.0 * (a as u128), diff.1);
    proof {
        if x.1 == 1 {
            assert(x.0 <= 0x200_0000_0000_0000) by (nonlinear_arith)
                requires
                    x.0 * diff.1 <= 2 * (diff.0 * a) * x.1,
                    x.1 == 1,
                    diff.1 >= 1,
                    diff.0 * a <= 0x100_0000_0000_0000,
            ;
        }
    }
    truncate(x, below != (amount < 0))
}

/// What each bet of a finished race wins or loses: under odds payouts a
/// winning bet gains its stake times the payout minus one, a losing bet loses
/// its stake; under pool payouts a winning bet gains its share of the losing
/// stakes. `None` when the arithmetic overflows or divides by zero.
pub open spec fn race_winnings(
    w: Map<u128, i32>,
    bets: Seq<PlacedBet>,
    first: u128,
    odds: Odds,
    settings: Settings,
    losses: int,
    wins: int,
) -> Option<Map<u128, i32>>
    decreases bets.len(),
{
    if bets.len() == 0 {
        Some(w)
    } else {
        match race_winnings(w, bets.drop_last(), first, odds, settings, losses, wins) {
            None => None,
            Some(m) => {
                let bet = bets.last();
                let gain = if bet.monster_id != first {
                    if fits_i32(-bet.amount) {
                        Some(-bet.amount)
                    } else {
                        None
                    }
                } else {
                    match settings.payout {
                        Payout::Odds => Some(
                            spec_net_gain(spec_payout_for(spec_odds_of(odds, bet.monster_id)), bet.amount as int),
                        ),
                        Payout::Pool => pool_share(bet.amount as int, losses, wins),
                    }
                };
                match gain {
                    None => None,
                    Some(g) => add_or_insert(m, bet.session_id, g),
                }
            },
        }
    }
}

pub open spec fn settle_winnings(
    w: Map<u128, i32>,
    bets: Seq<PlacedBet>,
    first: u128,
    odds: Odds,
    settings: Settings,
) -> Option<Map<u128, i32>> {
    match settings.payout {
        Payout::Odds => race_winnings(w, bets, first, odds, settings, 0, 0),
        Payout::Pool => match (stake_total(bets, first, false), stake_total(bets, first, true)) {
            (Some(losses), Some(wins)) => race_winnings(w, bets, first, odds, settings, losses, wins),
            _ => None,
        },
    }
}

/// What the winnings fold carries from one event to the next.
pub struct WinningsState {
    pub winnings: Map<u128, i32>,
    pub bets: Seq<PlacedBet>,
}

pub open spec fn winnings_step(st: WinningsState, e: Event, odds: Odds, settings: Settings) -> Option<WinningsState> {
    match e {
        Event::RoundStarted { .. } => Some(WinningsState { winnings: Map::empty(), bets: Seq::empty() }),
        Event::PlacedBet(bet) => Some(WinningsState { bets: st.bets.push(bet), ..st }),
        Event::RaceFinished { results, .. } => match settle_winnings(
            st.winnings,
            st.bets,
            results.first,
            odds,
            settings,
        ) {
            Some(m) => Some(WinningsState { winnings: m, ..st }),
            None => None,
        },
        _ => Some(st),
    }
}

pub open spec fn winnings_fold(s: Seq<Event>, odds: Odds, settings: Settings) -> Option<WinningsState>
    decreases s.len(),
{
    if s.len() == 0 {
        Some(WinningsState { winnings: Map::empty(), bets: Seq::empty() })
    } else {
        match winnings_fold(s.drop_last(), odds, settings) {
            None => None,
            Some(st) => winnings_step(st, s.last(), odds, settings),
        }
    }
}

/// Whether the winnings of a non-empty log can be computed without an arithmetic fault.
pub open spec fn winnings_defined(s: Seq<Event>) -> bool {
    winnings_fold(s, spec_pre_computed_odds(s), spec_settings(s)) is Some
}

/// What each player won or lost in the races of the current round.
pub open spec fn spec_winnings(s: Seq<Event>) -> Map<u128, i32> {
    winnings_fold(s, spec_pre_computed_odds(s), spec_settings(s))->0.winnings
}

pub proof fn lemma_winnings_fold_prefix(s: Seq<Event>, odds: Odds, settings: Settings, k: int)
    requires
        0 <= k <= s.len(),
        winnings_fold(s, odds, settings) is Some,
    ensures
        winnings_fold(s.take(k), odds, settings) is Some,
    decreases s.len(),
{
    if k < s.len() {
        assert(s.drop_last().take(k) =~= s.take(k));
        lemma_winnings_fold_prefix(s.drop_last(), odds, settings, k);
    } else {
        assert(s.take(k) =~= s);
    }
}

proof fn lemma_race_winnings_prefix(
    w: Map<u128, i32>,
    bets: Seq<PlacedBet>,
    first: u128,
    odds: Odds,
    settings: Settings,
    losses: int,
    wins: int,
    k: int,
)
    requires
        0 <= k <= bets.len(),
        race_winnings(w, bets, first, odds, settings, losses, wins) is Some,
    ensures
        race_winnings(w, bets.take(k), first, odds, settings, losses, wins) is Some,
    decreases bets.len(),
{
    if k < bets.len() {
        assert(bets.drop_last().take(k) =~= bets.take(k));
        lemma_race_winnings_prefix(w, bets.drop_last(), first, odds, settings, losses, wins, k);
    } else {
        assert(bets.take(k) =~= bets);
    }
}

fn vec_stake_sum(bets: &Vec<PlacedBet>, first: u128, winners: bool) -> (total: i32)
    requires
        stake_total(bets@, first, winners) is Some,
    ensures
        total == stake_total(bets@, first, winners)->0,
{
    let mut total: i32 = 0;
    let mut i: usize = 0;
    proof {
        assert(bets@.take(0) =~= Seq::<PlacedBet>::empty());
    }
    while i < bets.len()
        invariant
            i <= bets@.len(),
            stake_total(bets@, first, winners) is Some,
            stake_total(bets@.take(i as int), first, winners) == Some(total as int),
        decreases bets.len() - i,
    {
        proof {
            lemma_bets_step(bets@, i as int);
            lemma_stake_total_prefix(bets@, first, winners, i + 1);
        }
        let bet = bets[i];
        if (bet.monster_id == first) == winners {
            total = total + bet.amount;
        }
        i = i + 1;
    }
    proof {
        assert(bets@.take(bets@.len() as int) =~= bets@);
    }
    total
}

fn settle_round_winnings(
    winnings: &mut im::OrdMap<u128, i32>,
    bets: &Vec<PlacedBet>,
    first: u128,
    odds: &Odds,
    settings: Settings,
)
    requires
        settle_winnings(balance_map(*old(winnings)), bets@, first, *odds, settings) is Some,
    ensures
        balance_map(*final(winnings)) == settle_winnings(balance_map(*old(winnings)), bets@, first, *odds, settings)->0,
{
    let mut losses: i32 = 0;
    let mut wins: i32 = 0;
    if let Payout::Pool = settings.payout {
        losses = vec_stake_sum(bets, first, false);
        wins = vec_stake_sum(bets, first, true);
    }
    let ghost w0 = balance_map(*winnings);
    proof {
        assert(bets@.take(0) =~= Seq::<PlacedBet>::empty());
    }
    let mut i: usize = 0;
    while i < bets.len()
        invariant
            i <= bets@.len(),
            race_winnings(w0, bets@, first, *odds, settings, losses as int, wins as int) is Some,
            race_winnings(w0, bets@.take(i as int), first, *odds, settings, losses as int, wins as int)
                == Some(balance_map(*winnings)),
        decreases bets.len() - i,
    {
        proof {
            lemma_bets_step(bets@, i as int);
            lemma_race_winnings_prefix(w0, bets@, first, *odds, settings, losses as int, wins as int, i + 1);
        }
        let bet = bets[i];
        let gain = if bet.monster_id != first {
            -bet.amount
        } else {
            match settings.payout {
                Payout::Odds => net_gain(odds.payout(bet.monster_id), bet.amount),
                Payout::Pool => {
                    let a = INFLATION_FACTOR * bet.amount;
                    let b = a * losses;
                    let c = div_toward_zero(b, wins);
                    div_toward_zero(c, 100)
                },
            }
        };
        add_to_balance(winnings, bet.session_id, gain);
        i = i + 1;
    }
    proof {
        assert(bets@.take(bets@.len() as int) =~= bets@);
    }
}

/// What each player won (positive) or lost (negative) in the races of the
/// current round: under pool payouts a winning bet gains its share of the
/// losing stakes (`110 * stake * losses / wins / 100`), under odds payouts its
/// stake times the payout minus one; a losing bet loses its stake.
pub fn winnings(events: &im::Vector<Event>) -> (winnings: im::OrdMap<u128, i32>)
    requires
        starts_with_creation(log(*events)),
        spec_round(log(*events)) <= u32::MAX,
        winnings_defined(log(*events)),
    ensures
        balance_map(winnings) == spec_winnings(log(*events)),
{
    let ghost s = log(*events);
    let odds = pre_computed_odds(events);
    let mut won = balances_new();
    let n = log_len(events);
    if n == 0 {
        proof {
            assert(balance_map(won) =~= spec_winnings(s));
        }
        return won;
    }
    let st = settings(events);
    let mut bets: Vec<PlacedBet> = Vec::new();
    let mut i: usize = 0;
    proof {
        assert(s.take(0) =~= Seq::<Event>::empty());
        assert(balance_map(won) =~= Map::<u128, i32>::empty());
    }
    while i < n
        invariant
            n == s.len(),
            s == log(*events),
            i <= n,
            odds == spec_pre_computed_odds(s),
            st == spec_settings(s),
            winnings_fold(s, odds, st) is Some,
            winnings_fold(s.take(i as int), odds, st) == Some(
                WinningsState { winnings: balance_map(won), bets: bets@ },
            ),
        decreases n - i,
    {
        proof {
            assert(s.take(i + 1).drop_last() =~= s.take(i as int));
            lemma_winnings_fold_prefix(s, odds, st, i + 1);
        }
        match log_at(events, i) {
            Event::RoundStarted { .. } => {
                won = balances_new();
                bets = Vec::new();
                proof {
                    assert(balance_map(won) =~= Map::<u128, i32>::empty());
                    assert(bets@ =~= Seq::<PlacedBet>::empty());
                }
            },
            Event::PlacedBet(bet) => {
                bets.push(*bet);
            },
            Event::RaceFinished { results, .. } => {
                settle_round_winnings(&mut won, &bets, results.first, &odds, st);
            },
            _ => {},
        }
        i = i + 1;
    }
    proof {
        assert(s.take(n as int) =~= s);
    }
    won
}

/// `2` to the power `n`.
pub open spec fn two_to(n: nat) -> nat
    decreases n,
{
    if n == 0 {
        1
    } else {
        2 * two_to((n - 1) as nat)
    }
}

/// How many low bits of `x` lie beyond the 24 significant bits of an `f32`.
pub open spec fn excess_bits(x: nat) -> nat
    decreases x,
{
    if x < 0x100_0000 {
        0
    } else {
        1 + excess_bits(x / 2)
    }
}

/// The whole number `x` as an `f32` holds it: rounded to 24 significant bits,
/// to the nearest such value, ties going to the one with an even last bit.
pub open spec fn round_to_f32(x: nat) -> nat {
    let unit = two_to(excess_bits(x));
    let q = x / unit;
    let r = x % unit;
    if 2 * r > unit || (2 * r == unit && q % 2 == 1) {
        (q + 1) * unit
    } else {
        q * unit
    }
}

/// The significand of the `f32` nearest to 1.051: the factor is this over `2^23`.
pub const INTEREST_SIGNIFICAND: u64 = 8816427;

/// The debt after a race: grown by 5.1% in single-precision floating point,
/// as `((amount as f32) * 1.051) as u32` computes it. The amount is rounded to
/// an `f32`, multiplied by the `f32` nearest to 1.051, the product rounded to
/// an `f32` (to nearest, ties to even), and the result truncated to a whole
/// number and saturated to a `u32`.
pub open spec fn with_interest(amount: u32) -> u32 {
    let grown = round_to_f32(round_to_f32(amount as nat) * (INTEREST_SIGNIFICAND as nat)) / two_to(23);
    if grown > u32::MAX {
        u32::MAX
    } else {
        grown as u32
    }
}

/// The debt fold; `None` when a debt would overflow or be paid back below zero.
pub open spec fn debt_fold(s: Seq<Event>) -> Option<Map<u128, u32>>
    decreases s.len(),
{
    if s.len() == 0 {
        Some(Map::empty())
    } else {
        match debt_fold(s.drop_last()) {
            None => None,
            Some(m) => match s.last() {
                Event::BorrowedMoney { session_id, amount } => {
                    let owed = if m.contains_key(session_id) { m[session_id] as int } else { 0 };
                    if owed + amount <= u32::MAX {
                        Some(m.insert(session_id, (owed + amount) as u32))
                    } else {
                        None
                    }
                },
                Event::PaidBackMoney { session_id, amount } => {
                    let owed = if m.contains_key(session_id) { m[session_id] as int } else { 0 };
                    if owed - amount >= 0 {
                        Some(m.insert(session_id, (owed - amount) as u32))
                    } else {
                        None
                    }
                },
                Event::RaceFinished { .. } => Some(m.map_values(|v: u32| with_interest(v))),
                _ => Some(m),
            },
        }
    }
}

/// What every player owes: borrowing adds, paying back subtracts, and each
/// finished race adds 5.1% interest.
pub open spec fn spec_all_debt(s: Seq<Event>) -> Map<u128, u32> {
    debt_fold(s)->0
}

proof fn lemma_debt_fold_prefix(s: Seq<Event>, k: int)
    requires
        0 <= k <= s.len(),
        debt_fold(s) is Some,
    ensures
        debt_fold(s.take(k)) is Some,
    decreases s.len(),
{
    if k < s.len() {
        assert(s.drop_last().take(k) =~= s.take(k));
        lemma_debt_fold_prefix(s.drop_last(), k);
    } else {
        assert(s.take(k) =~= s);
    }
}

/// Rounds a whole number to the nearest value an `f32` holds.
pub(crate) fn nearest_f32(x: u64) -> (r: u64)
    requires
        x < 0x1000_0000_0000_0000,
    ensures
        r == round_to_f32(x as nat),
        r <= 2 * x,
        x >= 1 ==> r >= 1,
{
    let mut y: u64 = x;
    let mut unit: u64 = 1;
    let ghost mut shift: nat = 0;
    while y >= 0x100_0000
        invariant
            x < 0x1000_0000_0000_0000,
            1 <= unit,
            unit == two_to(shift),
            shift > 0 ==> y >= 0x80_0000,
            y == x / unit,
            excess_bits(x as nat) == shift + excess_bits(y as nat),
            unit * y <= x,
        decreases y,
    {
        proof {
            vstd::arithmetic::div_mod::lemma_div_denominator(x as int, unit as int, 2);
            assert(unit < 0x10_0000_0000) by (nonlinear_arith)
                requires
                    unit * y <= x,
                    y >= 0x100_0000,
                    x < 0x1000_0000_0000_0000,
                    unit >= 1,
            ;
            vstd::arithmetic::div_mod::lemma_fundamental_div_mod(x as int, (unit * 2) as int);
            assert(((unit * 2) * (x as int / (unit * 2) as int)) <= x) by (nonlinear_arith)
                requires
                    x == (unit * 2) * (x as int / (unit * 2) as int) + (x as int % (unit * 2) as int),
                    0 <= x as int % (unit * 2) as int,
            ;
        }
        y = y / 2;
        unit = unit * 2;
        proof {
            shift = shift + 1;
        }
    }
    assert(excess_bits(y as nat) == 0);
    let q = x / unit;
    let r = x % unit;
    proof {
        vstd::arithmetic::div_mod::lemma_fundamental_div_mod(x as int, unit as int);
        assert((q + 1) * unit <= x + unit && q * unit <= x) by (nonlinear_arith)
            requires
                x == unit * q + r,
                0 <= r,
        ;
        assert(x >= 1 ==> unit <= x) by (nonlinear_arith)
            requires
                x == unit * q + r,
                0 <= r,
                unit >= 1,
                shift > 0 ==> q >= 0x80_0000,
                shift == 0 ==> unit == 1,
        ;
        assert((q + 1) * unit >= q * unit) by (nonlinear_arith)
            requires
                unit >= 1,
        ;
        assert(x >= 1 ==> q * unit >= 1) by (nonlinear_arith)
            requires
                x == unit * q + r,
                0 <= r < unit,
                x >= 1 ==> unit <= x,
                unit >= 1,
        ;
        assert(x == 0 ==> q == 0 && r == 0) by (nonlinear_arith)
            requires
                x == unit * q + r,
                0 <= r,
                0 <= q,
                unit >= 1,
        ;
    }
    if 2 * r > unit || (2 * r == unit && q % 2 == 1) {
        (q + 1) * unit
    } else {
        q * unit
    }
}

/// The significand of the `f32` nearest to 0.2: the factor is this over `2^26`.
pub const THEFT_SIGNIFICAND: u64 = 13421773;

/// The size of `t`, without its sign.
pub open spec fn magnitude(t: int) -> nat {
    if t < 0 {
        (-t) as nat
    } else {
        t as nat
    }
}

/// What Theft takes from a balance `t`: a fifth in single-precision floating
/// point, as `((t as f32) * 0.2) as i32` computes it. The balance is rounded to
/// an `f32`, multiplied by the `f32` nearest to 0.2, the product rounded to an
/// `f32` (to nearest, ties to even), and the result truncated towards zero.
pub open spec fn theft_share(t: int) -> int {
    let taken = round_to_f32(round_to_f32(magnitude(t)) * (THEFT_SIGNIFICAND as nat)) / two_to(26);
    if t < 0 {
        -taken
    } else {
        taken as int
    }
}

proof fn lemma_unit_at_most(x: nat)
    ensures
        two_to(excess_bits(x)) >= 1,
        x >= 1 ==> two_to(excess_bits(x)) <= x,
    decreases x,
{
    if x >= 0x100_0000 {
        lemma_unit_at_most(x / 2);
    }
}

/// Rounding to an `f32` at most doubles a whole number.
pub proof fn lemma_round_to_f32_at_most_double(x: nat)
    ensures
        round_to_f32(x) <= 2 * x,
{
    let unit = two_to(excess_bits(x));
    lemma_unit_at_most(x);
    let q = x / unit;
    let r = x % unit;
    vstd::arithmetic::div_mod::lemma_fundamental_div_mod(x as int, unit as int);
    assert((q + 1) * unit <= x + unit && q * unit <= x) by (nonlinear_arith)
        requires
            x == unit * q + r,
            0 <= r,
    ;
    if x == 0 {
        assert(q == 0) by (nonlinear_arith)
            requires
                x == unit * q + r,
                0 <= r,
                0 <= q,
                unit >= 1,
                x == 0,
        ;
    }
}

/// Theft never takes more than the balance holds, and takes from its side of zero.
pub proof fn lemma_theft_share_bounded(t: int)
    ensures
        t >= 0 ==> 0 <= theft_share(t) <= t,
        t < 0 ==> t <= theft_share(t) <= 0,
{
    let m = magnitude(t);
    let f = round_to_f32(m);
    lemma_round_to_f32_at_most_double(m);
    lemma_round_to_f32_at_most_double(f * (THEFT_SIGNIFICAND as nat));
    let p = round_to_f32(f * (THEFT_SIGNIFICAND as nat));
    assert(two_to(26) == 0x400_0000) by {
        reveal_with_fuel(two_to, 27);
    }
    assert(p / 0x400_0000 <= m) by (nonlinear_arith)
        requires
            f <= 2 * m,
            p <= 2 * (f * 13421773),
            0 <= p,
    ;
}

fn fifth(t: i32) -> (r: i32)
    ensures
        r == theft_share(t as int),
        t >= 0 ==> 0 <= r <= t,
        t < 0 ==> t <= r <= 0,
{
    let m: u64 = if t < 0 {
        (-(t as i64)) as u64
    } else {
        t as u64
    };
    assert(m == magnitude(t as int));
    let f = nearest_f32(m);
    let p = nearest_f32(f * THEFT_SIGNIFICAND);
    assert(two_to(26) == 0x400_0000) by {
        reveal_with_fuel(two_to, 27);
    }
    let taken: u64 = p / 0x400_0000;
    assert(taken <= m) by (nonlinear_arith)
        requires
            f <= 2 * m,
            p <= 2 * (f * THEFT_SIGNIFICAND),
            taken == p / 0x400_0000,
            THEFT_SIGNIFICAND == 13421773,
    ;
    if t < 0 {
        -(taken as i64) as i32
    } else {
        taken as i32
    }
}

fn interest(amount: u32) -> (r: u32)
    ensures
        r == with_interest(amount),
{
    let f = nearest_f32(amount as u64);
    let p = nearest_f32(f * INTEREST_SIGNIFICAND);
    assert(two_to(23) == 0x80_0000) by {
        reveal_with_fuel(two_to, 24);
    }
    let grown: u64 = p / 0x80_0000;
    if grown > u32::MAX as u64 {
        u32::MAX
    } else {
        grown as u32
    }
}

/// Adds a race's interest to every debt.
fn charge_interest(debts: &mut im::HashMap<u128, u32>)
    ensures
        debt_map(*final(debts)) == debt_map(*old(debts)).map_values(|v: u32| with_interest(v)),
{
    let ghost m0 = debt_map(*debts);
    let keys = debts_keys(debts);
    let mut j: usize = 0;
    while j < keys.len()
        invariant
            j <= keys@.len(),
            keys@.no_duplicates(),
            forall|k: u128| #[trigger] keys@.contains(k) <==> m0.contains_key(k),
            debt_map(*debts).dom() == m0.dom(),
            forall|k: u128| #[trigger] debt_map(*debts).contains_key(k) ==> debt_map(*debts)[k] == if keys@.take(j as int).contains(k) {
                with_interest(m0[k])
            } else {
                m0[k]
            },
        decreases keys.len() - j,
    {
        let k = keys[j];
        proof {
            assert(keys@.contains(k));
            assert(!keys@.take(j as int).contains(k)) by {
                if keys@.take(j as int).contains(k) {
                    let i = choose|i: int| 0 <= i < j && #[trigger] keys@[i] == k;
                    assert(keys@.take(j as int)[i] == keys@[i]);
                    assert(keys@[i] == keys@[j as int]);
                }
            }
        }
        let owed = match debts_get(debts, k) {
            Some(v) => v,
            None => 0,
        };
        debts_insert(debts, k, interest(owed));
        proof {
            assert forall|x: u128| #[trigger] keys@.take(j + 1).contains(x) <==> (keys@.take(j as int).contains(x) || x == k) by {
                if keys@.take(j + 1).contains(x) {
                    let i = choose|i: int| 0 <= i < j + 1 && #[trigger] keys@[i] == x;
                    assert(keys@.take(j + 1)[i] == keys@[i]);
                    if i < j {
                        assert(keys@.take(j as int)[i] == x);
                    }
                }
                if keys@.take(j as int).contains(x) {
                    let i = choose|i: int| 0 <= i < j && #[trigger] keys@[i] == x;
                    assert(keys@.take(j as int)[i] == keys@[i]);
                    assert(keys@.take(j + 1)[i] == x);
                }
                if x == k {
                    assert(keys@.take(j + 1)[j as int] == x);
                }
            }
            assert(debt_map(*debts).dom() =~= m0.dom());
        }
        j = j + 1;
    }
    proof {
        assert(keys@.take(keys@.len() as int) =~= keys@);
        assert(debt_map(*debts) =~= m0.map_values(|v: u32| with_interest(v)));
    }
}

/// What every player owes: borrowing adds, paying back subtracts, and every
/// finished race adds 5.1% interest (in `f32`, truncated).
pub fn all_debt(events: &im::Vector<Event>) -> (debts: im::HashMap<u128, u32>)
    requires
        debt_fold(log(*events)) is Some,
    ensures
        debt_map(debts) == spec_all_debt(log(*events)),
{
    let ghost s = log(*events);
    let mut debts = debts_new();
    let n = log_len(events);
    let mut i: usize = 0;
    proof {
        assert(s.take(0) =~= Seq::<Event>::empty());
    }
    while i < n
        invariant
            n == s.len(),
            s == log(*events),
            i <= n,
            debt_fold(s) is Some,
            debt_fold(s.take(i as int)) == Some(debt_map(debts)),
        decreases n - i,
    {
        proof {
            assert(s.take(i + 1).drop_last() =~= s.take(i as int));
            lemma_debt_fold_prefix(s, i + 1);
        }
        match log_at(events, i) {
            Event::BorrowedMoney { session_id, amount } => {
                let owed = match debts_get(&debts, *session_id) {
                    Some(v) => v,
                    None => 0,
                };
                debts_insert(&mut debts, *session_id, owed + *amount);
            },
            Event::PaidBackMoney { session_id, amount } => {
                let owed = match debts_get(&debts, *session_id) {
                    Some(v) => v,
                    None => 0,
                };
                debts_insert(&mut debts, *session_id, owed - *amount);
            },
            Event::RaceFinished { .. } => {
                charge_interest(&mut debts);
            },
            _ => {},
        }
        i = i + 1;
    }
    proof {
        assert(s.take(n as int) =~= s);
    }
    debts
}

/// What one player owes; zero for a player who never borrowed.
pub fn debt(events: &im::Vector<Event>, player_id: u128) -> (owed: u32)
    requires
        debt_fold(log(*events)) is Some,
    ensures
        owed == if spec_all_debt(log(*events)).contains_key(player_id) {
            spec_all_debt(log(*events))[player_id]
        } else {
            0
        },
{
    match debts_get(&all_debt(events), player_id) {
        Some(v) => v,
        None => 0,
    }
}

} // verus!
