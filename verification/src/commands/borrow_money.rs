use vstd::prelude::*;

use crate::collections::balances_get;
use crate::commands::{address, spec_address, view_result, CommandError, API};
use crate::events::{log, log_len, Event};
use crate::projections::accounts::{
    all_account_balances, balances_defined, debt, debt_fold, fits_i32, spec_all_debt, spec_balances,
};
use crate::projections::{player_exists, spec_player_exists};

verus! {

/// The most a player may owe.
pub const DEBT_LIMIT: i32 = 1000;

/// An amount to borrow, or to pay back when negative.
#[derive(Debug, Clone, Copy, PartialEq, Eq, Structural)]
pub struct Input {
    pub amount: i32,
}

/// Lends a player money or takes it back.
#[derive(Debug, Clone, Copy, Default)]
pub struct BorrowMoney;

impl API for BorrowMoney {
    fn url(game_id: &str) -> (url: String)
        ensures
            url@ == spec_address("/api/object/game/by_code/"@, game_id@, "/commands/borrow_money"@),
    {
        address("/api/object/game/by_code/", game_id, "/commands/borrow_money")
    }
}

/// What a player owes, zero if they never borrowed.
pub open spec fn debt_of(s: Seq<Event>, player: u128) -> u32 {
    if spec_all_debt(s).contains_key(player) {
        spec_all_debt(s)[player]
    } else {
        0
    }
}

/// The debt after the request, with the debt read as an `i32`.
pub open spec fn new_debt(s: Seq<Event>, player: u128, amount: i32) -> int {
    (debt_of(s, player) as i32) + amount
}

/// Borrowing needs a game and a player with a balance; a payback may not
/// exceed the balance nor the debt, and the debt may not exceed the limit.
pub open spec fn spec_borrow_money(session_id: u128, s: Seq<Event>, amount: i32) -> Result<Seq<Event>, CommandError> {
    if s.len() == 0 {
        Err(CommandError::BorrowFromMissingGame)
    } else if amount == 0 {
        Ok(Seq::empty())
    } else if !spec_player_exists(s, session_id) {
        Err(CommandError::BorrowByNonPlayer)
    } else if !spec_balances(s).contains_key(session_id) {
        Err(CommandError::NoBalance)
    } else if amount < 0 && -amount > spec_balances(s)[session_id] {
        Err(CommandError::PaybackOverBalance)
    } else if new_debt(s, session_id, amount) > DEBT_LIMIT {
        Err(CommandError::BorrowOverLimit)
    } else if new_debt(s, session_id, amount) < 0 {
        Err(CommandError::PaybackOverDebt)
    } else if amount > 0 {
        Ok(seq![Event::BorrowedMoney { session_id, amount: amount as u32 }])
    } else {
        Ok(seq![Event::PaidBackMoney { session_id, amount: (-amount) as u32 }])
    }
}

/// What the request needs so that no step overflows: debts and balances can
/// be computed, the amount can be negated, and the new debt fits.
pub open spec fn borrow_money_computable(session_id: u128, s: Seq<Event>, amount: i32) -> bool {
    s.len() > 0 && amount != 0 && spec_player_exists(s, session_id) ==> {
        &&& debt_fold(s) is Some
        &&& balances_defined(s)
        &&& spec_balances(s).contains_key(session_id) ==> {
            &&& amount != i32::MIN
            &&& !(amount < 0 && -amount > spec_balances(s)[session_id]) ==> fits_i32(
                new_debt(s, session_id, amount),
            )
        }
    }
}

impl BorrowMoney {
    pub fn handle(session_id: u128, events: &im::Vector<Event>, input: Input) -> (r: Result<Vec<Event>, CommandError>)
        requires
            borrow_money_computable(session_id, log(*events), input.amount),
        ensures
            view_result(r) == spec_borrow_money(session_id, log(*events), input.amount),
    {
        let amount = input.amount;
        if log_len(events) == 0 {
            return Err(CommandError::BorrowFromMissingGame);
        }
        if amount == 0 {
            let v: Vec<Event> = Vec::new();
            proof {
                assert(v@ =~= Seq::<Event>::empty());
            }
            return Ok(v);
        }
        if !player_exists(events, session_id) {
            return Err(CommandError::BorrowByNonPlayer);
        }
        let owed = debt(events, session_id);
        let ghost s = log(*events);
        let accounts = all_account_balances(events);
        let balance = match balances_get(&accounts, session_id) {
            Some(b) => b,
            None => {
                return Err(CommandError::NoBalance);
            },
        };
        if amount < 0 && -amount > balance {
            return Err(CommandError::PaybackOverBalance);
        }
        let updated = owed as i32 + amount;
        if updated > DEBT_LIMIT {
            return Err(CommandError::BorrowOverLimit);
        }
        if updated < 0 {
            return Err(CommandError::PaybackOverDebt);
        }
        if amount > 0 {
            let v = vec![Event::BorrowedMoney { session_id, amount: amount as u32 }];
            proof {
                assert(v@ =~= seq![Event::BorrowedMoney { session_id, amount: amount as u32 }]);
            }
            Ok(v)
        } else {
            let repaid: i32 = -amount;
            let v = vec![Event::PaidBackMoney { session_id, amount: repaid as u32 }];
            proof {
                assert(v@ =~= seq![Event::PaidBackMoney { session_id, amount: (-amount) as u32 }]);
            }
            Ok(v)
        }
    }
}

} // verus!
