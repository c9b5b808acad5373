use vstd::prelude::*;

use crate::commands::{address, spec_address, view_result, CommandError, API};
use crate::events::{log, Event, PlacedBet};
use crate::projections::accounts::{account_balance, balances_defined, fits_i32, get_or_zero, spec_balances};
use crate::projections::monsters::{in_current_race, monsters, spec_monsters, spec_race_seed};
use crate::projections::{game_has_started, race_seed, spec_game_has_started, spec_round, starts_with_creation};

verus! {

/// A stake on one monster.
#[derive(Debug, Clone, Copy, PartialEq, Eq, Structural)]
pub struct Bet {
    pub monster_id: u128,
    pub amount: i32,
}

/// The stakes a player places at once.
#[derive(Debug, Clone, PartialEq, Eq)]
pub struct Input {
    pub bets: Vec<Bet>,
}

/// Places a player's bets on the current race.
#[derive(Debug, Clone, Copy, Default)]
pub struct PlaceBets;

impl API for PlaceBets {
    fn url(game_id: &str) -> (url: String)
        ensures
            url@ == spec_address("/api/object/game/by_code/"@, game_id@, "/command/place_bet"@),
    {
        address("/api/object/game/by_code/", game_id, "/command/place_bet")
    }
}

pub open spec fn any_negative(bets: Seq<Bet>) -> bool {
    exists|i: int| 0 <= i < bets.len() && (#[trigger] bets[i]).amount < 0
}

/// The sum of the stakes.
pub open spec fn bets_total(bets: Seq<Bet>) -> int
    decreases bets.len(),
{
    if bets.len() == 0 {
        0
    } else {
        bets_total(bets.drop_last()) + bets.last().amount
    }
}

/// Whether every bet is on a monster of the current race.
pub open spec fn all_on_race(s: Seq<Event>, bets: Seq<Bet>) -> bool {
    forall|i: int| 0 <= i < bets.len() ==> in_current_race(s, (#[trigger] bets[i]).monster_id)
}

/// One event per bet with a positive stake, in order.
pub open spec fn bet_events(session_id: u128, bets: Seq<Bet>) -> Seq<Event>
    decreases bets.len(),
{
    if bets.len() == 0 {
        Seq::empty()
    } else {
        let earlier = bet_events(session_id, bets.drop_last());
        let bet = bets.last();
        if bet.amount > 0 {
            earlier.push(Event::PlacedBet(PlacedBet { session_id, monster_id: bet.monster_id, amount: bet.amount }))
        } else {
            earlier
        }
    }
}

/// Bets need a started game, no negative stake, a total within the player's
/// balance and monsters of the current race; stakes of zero record nothing.
pub open spec fn spec_place_bets(session_id: u128, s: Seq<Event>, bets: Seq<Bet>) -> Result<Seq<Event>, CommandError> {
    if !spec_game_has_started(s) {
        Err(CommandError::BetBeforeStart)
    } else if any_negative(bets) {
        Err(CommandError::NegativeBet)
    } else if bets_total(bets) > get_or_zero(spec_balances(s), session_id) {
        Err(CommandError::BetOverBalance)
    } else if !all_on_race(s, bets) {
        Err(CommandError::UnknownMonster)
    } else {
        Ok(bet_events(session_id, bets))
    }
}

/// What placing bets needs so that no sum overflows: the balances and the
/// total of the stakes fit, and so does the count of rounds.
pub open spec fn place_bets_computable(session_id: u128, s: Seq<Event>, bets: Seq<Bet>) -> bool {
    spec_game_has_started(s) && !any_negative(bets) ==> {
        &&& balances_defined(s)
        &&& fits_i32(bets_total(bets))
        &&& bets_total(bets) <= get_or_zero(spec_balances(s), session_id) ==> {
            &&& starts_with_creation(s)
            &&& spec_round(s) <= u32::MAX
        }
    }
}

pub proof fn lemma_total_prefix(bets: Seq<Bet>, i: int)
    requires
        0 <= i <= bets.len(),
        !any_negative(bets),
    ensures
        0 <= bets_total(bets.take(i)) <= bets_total(bets),
    decreases bets.len(),
{
    if bets.len() > 0 {
        assert(bets.last().amount >= 0) by {
            assert(!(bets[bets.len() - 1].amount < 0));
        }
        assert(!any_negative(bets.drop_last())) by {
            assert forall|k: int| 0 <= k < bets.drop_last().len() implies !(#[trigger] bets.drop_last()[k].amount
                < 0) by {
                assert(bets.drop_last()[k] == bets[k]);
            }
        }
        if i == bets.len() {
            assert(bets.take(i) =~= bets);
            lemma_total_prefix(bets.drop_last(), i - 1);
            assert(bets.drop_last().take(i - 1) =~= bets.drop_last());
        } else {
            lemma_total_prefix(bets.drop_last(), i);
            assert(bets.drop_last().take(i) =~= bets.take(i));
            lemma_total_prefix(bets.drop_last(), bets.len() - 1);
            assert(bets.drop_last().take(bets.len() - 1) =~= bets.drop_last());
        }
    }
}

impl PlaceBets {
    pub fn handle(session_id: u128, events: &im::Vector<Event>, input: Input) -> (r: Result<Vec<Event>, CommandError>)
        requires
            place_bets_computable(session_id, log(*events), input.bets@),
        ensures
            view_result(r) == spec_place_bets(session_id, log(*events), input.bets@),
    {
        let ghost s = log(*events);
        let bets = &input.bets;
        if !game_has_started(events) {
            return Err(CommandError::BetBeforeStart);
        }
        let mut i: usize = 0;
        while i < bets.len()
            invariant
                i <= bets@.len(),
                s == log(*events),
                bets@ == input.bets@,
                spec_game_has_started(s),
                forall|k: int| 0 <= k < i ==> !((#[trigger] bets@[k]).amount < 0),
            decreases bets.len() - i,
        {
            if bets[i].amount < 0 {
                proof {
                    assert(any_negative(bets@)) by {
                        assert(bets@[i as int].amount < 0);
                    }
                }
                return Err(CommandError::NegativeBet);
            }
            i = i + 1;
        }
        let balance = account_balance(events, session_id);
        let mut total: i32 = 0;
        let mut i: usize = 0;
        while i < bets.len()
            invariant
                i <= bets@.len(),
                !any_negative(bets@),
                fits_i32(bets_total(bets@)),
                total == bets_total(bets@.take(i as int)),
            decreases bets.len() - i,
        {
            proof {
                lemma_total_prefix(bets@, i + 1);
                assert(bets@.take(i + 1).drop_last() =~= bets@.take(i as int));
            }
            total = total + bets[i].amount;
            i = i + 1;
        }
        proof {
            assert(bets@.take(bets@.len() as int) =~= bets@);
        }
        if total > balance {
            return Err(CommandError::BetOverBalance);
        }
        let seed = race_seed(events);
        let ms = monsters(events, seed);
        proof {
            assert(seed == spec_race_seed(s));
        }
        let mut i: usize = 0;
        while i < bets.len()
            invariant
                i <= bets@.len(),
                s.len() > 0,
                s == log(*events),
                bets@ == input.bets@,
                spec_game_has_started(s),
                !any_negative(bets@),
                bets_total(bets@) <= get_or_zero(spec_balances(s), session_id),
                ms@ == spec_monsters(s, spec_race_seed(s)),
                forall|k: int| 0 <= k < i ==> in_current_race(s, (#[trigger] bets@[k]).monster_id),
            decreases bets.len() - i,
        {
            let id = bets[i].monster_id;
            if !(ms[0].uuid == id || ms[1].uuid == id || ms[2].uuid == id) {
                proof {
                    assert forall|k: int| 0 <= k < 3 implies (#[trigger] spec_monsters(s, spec_race_seed(s))[k]).uuid
                        != id by {
                        assert(spec_monsters(s, spec_race_seed(s))[k] == ms@[k]);
                    }
                    assert(!in_current_race(s, bets@[i as int].monster_id));
                }
                return Err(CommandError::UnknownMonster);
            }
            proof {
                if ms[0].uuid == id {
                    assert(spec_monsters(s, spec_race_seed(s))[0].uuid == id);
                } else if ms[1].uuid == id {
                    assert(spec_monsters(s, spec_race_seed(s))[1].uuid == id);
                } else {
                    assert(spec_monsters(s, spec_race_seed(s))[2].uuid == id);
                }
            }
            i = i + 1;
        }
        let mut out: Vec<Event> = Vec::new();
        let mut i: usize = 0;
        while i < bets.len()
            invariant
                i <= bets@.len(),
                out@ == bet_events(session_id, bets@.take(i as int)),
            decreases bets.len() - i,
        {
            proof {
                assert(bets@.take(i + 1).drop_last() =~= bets@.take(i as int));
            }
            let bet = bets[i];
            if bet.amount > 0 {
                out.push(Event::PlacedBet(PlacedBet { session_id, monster_id: bet.monster_id, amount: bet.amount }));
            }
            i = i + 1;
        }
        proof {
            assert(bets@.take(bets@.len() as int) =~= bets@);
        }
        Ok(out)
    }
}

} // verus!
