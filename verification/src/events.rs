use vstd::prelude::*;

use crate::cards::{Card, Target};
use crate::clock::now_nanos;
use crate::game_id::GameID;
use crate::projections::accounts::{magnitude, nearest_f32, round_to_f32};
use crate::rounding::{f32_quotient, quotient_to_f32};

verus! {

/// A bet of `amount` crystals by a player on a monster.
#[derive(Debug, Clone, Copy, PartialEq, Eq, Structural)]
pub struct PlacedBet {
    pub session_id: u128,
    pub monster_id: u128,
    pub amount: i32,
}

/// The three finishers of a race.
#[derive(Debug, Clone, Copy, PartialEq, Eq, Structural)]
pub struct RaceResults {
    pub first: u128,
    pub second: u128,
    pub third: u128,
}

/// How the winners of a race are paid.
#[derive(Debug, Clone, Copy, PartialEq, Eq, Structural)]
pub enum Payout {
    Odds,
    Pool,
}

#[derive(Debug, Clone, Copy, PartialEq, Eq, Structural)]
pub struct Settings {
    pub payout: Payout,
    pub starting_cards: u8,
}

impl Settings {
    pub open spec fn spec_default() -> Settings {
        Settings { payout: Payout::Odds, starting_cards: 0 }
    }
}

impl Default for Settings {
    /// Odds payouts and no starting cards.
    fn default() -> (settings: Settings)
        ensures
            settings == Settings::spec_default(),
    {
        Settings { payout: Payout::Odds, starting_cards: 0 }
    }
}

/// A chance of winning, `wins` out of `races` simulated races.
#[derive(Debug, Clone, Copy, PartialEq, Eq, Structural)]
pub struct Probability {
    pub wins: u32,
    pub races: u32,
}

/// The chance of each of a round's three monsters to win.
#[derive(Debug, Clone, Copy, PartialEq, Eq)]
pub struct Odds(pub [(u128, Probability); 3]);

/// A payout multiplier: the `f32` value `num / den`, whose denominator is a
/// power of two.
#[derive(Debug, Clone, Copy, PartialEq, Eq, Structural)]
pub struct Multiplier {
    pub num: u128,
    pub den: u128,
}

impl Multiplier {
    /// A positive denominator of at most `2^58`, a numerator of at most
    /// `2^24`, and a value of at most `PAYOUT_MAX`.
    pub open spec fn bounded(self) -> bool {
        &&& 1 <= self.den <= 0x400_0000_0000_0000
        &&& self.num <= 0x100_0000
        &&& self.num <= PAYOUT_MAX * self.den
    }
}

/// Payouts never exceed ten times the stake.
pub const PAYOUT_MAX: u32 = 10;

/// The chance of a monster that the odds do not list: one in three.
pub open spec fn default_probability() -> Probability {
    Probability { wins: 1, races: 3 }
}

pub open spec fn spec_odds_of(odds: Odds, monster_id: u128) -> Probability {
    if odds.0[0].0 == monster_id {
        odds.0[0].1
    } else if odds.0[1].0 == monster_id {
        odds.0[1].1
    } else if odds.0[2].0 == monster_id {
        odds.0[2].1
    } else {
        default_probability()
    }
}

/// The payout for a chance `p`, in single precision as the game computes it:
/// the chance is `wins as f32 / races as f32`, the payout is `1.0 / chance`
/// capped at `PAYOUT_MAX`. A chance of zero (or an undefined one) pays the
/// cap; a chance out of zero races is infinite and pays nothing.
pub open spec fn spec_payout_for(p: Probability) -> Multiplier {
    if p.wins == 0 {
        Multiplier { num: PAYOUT_MAX as u128, den: 1 }
    } else if p.races == 0 {
        Multiplier { num: 0, den: 1 }
    } else {
        let chance = f32_quotient(round_to_f32(p.wins as nat), round_to_f32(p.races as nat));
        let inverse = f32_quotient(chance.1, chance.0);
        if inverse.0 > PAYOUT_MAX * inverse.1 {
            Multiplier { num: PAYOUT_MAX as u128, den: 1 }
        } else {
            Multiplier { num: inverse.0 as u128, den: inverse.1 as u128 }
        }
    }
}

pub open spec fn spec_option_odds_of(odds: Option<Odds>, monster_id: u128) -> Probability {
    match odds {
        Some(o) => spec_odds_of(o, monster_id),
        None => default_probability(),
    }
}

/// Without odds every monster pays three times the stake.
pub open spec fn spec_option_payout(odds: Option<Odds>, monster_id: u128) -> Multiplier {
    match odds {
        Some(o) => spec_payout_for(spec_odds_of(o, monster_id)),
        None => Multiplier { num: 3, den: 1 },
    }
}

/// Rust's integer division, which rounds towards zero.
pub open spec fn trunc_div(a: int, b: int) -> int {
    if a >= 0 {
        if b > 0 {
            a / b
        } else {
            -(a / (-b))
        }
    } else {
        if b > 0 {
            -((-a) / b)
        } else {
            (-a) / (-b)
        }
    }
}

/// The nearest value of an `i32`, as a saturating conversion gives it.
pub open spec fn clamp_i32(x: int) -> int {
    if x < i32::MIN {
        i32::MIN as int
    } else if x > i32::MAX {
        i32::MAX as int
    } else {
        x
    }
}

/// The whole part of the fraction `x`, negated when `negative`, and saturated
/// to an `i32`: what `as i32` makes of an `f32`.
pub open spec fn truncated(x: (nat, nat), negative: bool) -> int {
    let t = (x.0 / x.1) as int;
    clamp_i32(if negative { -t } else { t })
}

/// `amount` times the multiplier in single precision, as
/// `(m * (amount as f32)) as i32` computes it: the amount is rounded to an
/// `f32`, the product rounded to an `f32`, and the result truncated towards
/// zero and saturated to an `i32`.
pub open spec fn spec_scaled(m: Multiplier, amount: int) -> int {
    let a = round_to_f32(magnitude(amount));
    truncated(f32_quotient((m.num * a) as nat, m.den as nat), amount < 0)
}

/// The payout for a chance `p`.
fn payout_of(p: Probability) -> (m: Multiplier)
    ensures
        m == spec_payout_for(p),
        m.bounded(),
{
    if p.wins == 0 {
        return Multiplier { num: 10, den: 1 };
    }
    if p.races == 0 {
        return Multiplier { num: 0, den: 1 };
    }
    let w = nearest_f32(p.wins as u64);
    let r = nearest_f32(p.races as u64);
    let chance = quotient_to_f32(w as u128, r as u128);
    proof {
        if chance.1 == 1 {
            assert(chance.0 <= 2 * w) by (nonlinear_arith)
                requires
                    chance.0 * r <= 2 * w * chance.1,
                    chance.1 == 1,
                    r >= 1,
            ;
        }
    }
    let inverse = quotient_to_f32(chance.1, chance.0);
    proof {
        assert(inverse.1 <= 0x400_0000_0000_0000) by (nonlinear_arith)
            requires
                inverse.1 <= 0x100_0000 * chance.0,
                chance.0 <= 0x4_0000_0000,
        ;
    }
    if inverse.0 > 10 * inverse.1 {
        Multiplier { num: 10, den: 1 }
    } else {
        Multiplier { num: inverse.0, den: inverse.1 }
    }
}

/// `amount` times `m` in single precision, truncated towards zero and
/// saturated to an `i32`.
pub fn scaled(m: Multiplier, amount: i32) -> (r: i32)
    requires
        m.bounded(),
    ensures
        r == spec_scaled(m, amount as int),
{
    let mag: u64 = if amount < 0 {
        (-(amount as i64)) as u64
    } else {
        amount as u64
    };
    assert(mag == magnitude(amount as int));
    let a = nearest_f32(mag);
    assert(m.num * a <= 0x100_0000_0000_0000) by (nonlinear_arith)
        requires
            m.num <= 0x100_0000,
            a <= 0x1_0000_0000,
    ;
    let x = quotient_to_f32(m.num * (a as u128), m.den);
    proof {
        if x.1 == 1 {
            assert(x.0 <= 0x200_0000_0000_0000) by (nonlinear_arith)
                requires
                    x.0 * m.den <= 2 * (m.num * a) * x.1,
                    x.1 == 1,
                    m.den >= 1,
                    m.num * a <= 0x100_0000_0000_0000,
            ;
        }
    }
    truncate(x, amount < 0)
}

/// The whole part of `x.0 / x.1`, negated when `negative`, saturated to an `i32`.
pub(crate) fn truncate(x: (u128, u128), negative: bool) -> (r: i32)
    requires
        x.1 >= 1,
        x.0 <= 0x1_0000_0000_0000_0000,
    ensures
        r == truncated((x.0 as nat, x.1 as nat), negative),
{
    let t = x.0 / x.1;
    assert(t <= x.0) by (nonlinear_arith)
        requires
            t == x.0 / x.1,
            x.1 >= 1,
    ;
    let signed: i128 = if negative {
        -(t as i128)
    } else {
        t as i128
    };
    if signed < i32::MIN as i128 {
        i32::MIN
    } else if signed > i32::MAX as i128 {
        i32::MAX
    } else {
        signed as i32
    }
}

impl Odds {
    /// The chance of `monster_id` to win, one in three when it is not listed.
    pub fn odds(&self, monster_id: u128) -> (p: Probability)
        ensures
            p == spec_odds_of(*self, monster_id),
    {
        if self.0[0].0 == monster_id {
            self.0[0].1
        } else if self.0[1].0 == monster_id {
            self.0[1].1
        } else if self.0[2].0 == monster_id {
            self.0[2].1
        } else {
            Probability { wins: 1, races: 3 }
        }
    }

    /// The payout multiplier of a bet on `monster_id`: never more than
    /// `PAYOUT_MAX` times the stake.
    pub fn payout(&self, monster_id: u128) -> (m: Multiplier)
        ensures
            m == spec_payout_for(spec_odds_of(*self, monster_id)),
            m.bounded(),
            m.den > 0,
            m.num <= PAYOUT_MAX * m.den,
    {
        let p = self.odds(monster_id);
        payout_of(p)
    }
}

/// The chance of `monster_id` under optional odds.
pub fn option_odds(odds: &Option<Odds>, monster_id: u128) -> (p: Probability)
    ensures
        p == spec_option_odds_of(*odds, monster_id),
{
    match odds {
        Some(o) => o.odds(monster_id),
        None => Probability { wins: 1, races: 3 },
    }
}

/// The payout multiplier of `monster_id` under optional odds: never more than
/// `PAYOUT_MAX` times the stake.
pub fn option_payout(odds: &Option<Odds>, monster_id: u128) -> (m: Multiplier)
    ensures
        m == spec_option_payout(*odds, monster_id),
        m.bounded(),
        m.den > 0,
        m.num <= PAYOUT_MAX * m.den,
{
    match odds {
        Some(o) => o.payout(monster_id),
        None => Multiplier { num: 3, den: 1 },
    }
}

#[derive(Debug, Clone, PartialEq, Eq)]
pub enum Event {
    GameCreated { game_id: GameID, settings: Settings },
    PlayerJoined { session_id: u128, name: String, initial_cards: Vec<Card> },
    ChangedProfile { session_id: u128, name: String },
    PlayerReady { session_id: u128 },
    RoundStarted { time: u32, odds: Option<Odds> },
    BoughtCard { session_id: u128, card: Card },
    PlayedCard { session_id: u128, card: Card, target: Target },
    BorrowedMoney { session_id: u128, amount: u32 },
    PaidBackMoney { session_id: u128, amount: u32 },
    PlacedBet(PlacedBet),
    RaceStarted { time: u32 },
    RaceFinished { time: u32, results: RaceResults },
    GameFinished,
}

impl Event {
    /// Seconds since 1970 by the system clock, cut to 32 bits.
    pub fn now() -> (secs: u32) {
        (now_nanos() / 1_000_000_000) as u32
    }

    /// A round that starts now, without odds.
    pub fn start_round_now() -> (e: Event)
        ensures
            e matches Event::RoundStarted { odds: None, .. },
    {
        Event::RoundStarted { time: Event::now(), odds: None }
    }

    /// A race that starts now.
    pub fn start_race_now() -> (e: Event)
        ensures
            e is RaceStarted,
    {
        Event::RaceStarted { time: Event::now() }
    }
}

#[verifier::external_type_specification]
#[verifier::external_body]
#[verifier::reject_recursive_types(A)]
pub struct ExVector<A>(im::Vector<A>);

/// What an event log holds, first event first.
pub uninterp spec fn log(v: im::Vector<Event>) -> Seq<Event>;

/// `im::Vector::len`: the number of events held.
#[verifier::external_body]
pub(crate) fn log_len(v: &im::Vector<Event>) -> (len: usize)
    ensures
        len == log(*v).len(),
{
    v.len()
}

/// `im::Vector`'s indexing: the event at position `i`.
#[verifier::external_body]
pub(crate) fn log_at(v: &im::Vector<Event>, i: usize) -> (e: &Event)
    requires
        i < log(*v).len(),
    ensures
        *e == log(*v)[i as int],
{
    &v[i]
}

/// `im::Vector::slice` on a copy: for `start <= end <= len` the events at positions
/// `start..end`; an empty log when `start >= end` or `start >= len`.
#[verifier::external_body]
pub(crate) fn log_slice(v: &im::Vector<Event>, start: usize, end: usize) -> (s: im::Vector<Event>)
    requires
        start < end && start < log(*v).len() ==> end <= log(*v).len(),
    ensures
        log(s) == if start >= end || start >= log(*v).len() {
            Seq::<Event>::empty()
        } else {
            log(*v).subrange(start as int, end as int)
        },
{
    v.clone().slice(start..end)
}

} // verus!
