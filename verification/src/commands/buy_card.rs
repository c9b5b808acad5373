use vstd::prelude::*;

use crate::cards::Card;
use crate::commands::{address, spec_address, view_result, CommandError, API};
use crate::events::{log, Event};
use crate::projections::accounts::{account_balance, balances_defined, get_or_zero, spec_balances, CARD_PRICE};
use crate::projections::hand::{cards_in_hand, draw_n_cards_from_deck, spec_cards_in_hand, spec_draw, spec_draw_seed};
use crate::projections::{player_exists, spec_bought_cards, spec_player_exists, starts_with_creation};

verus! {

/// The most cards a hand holds.
pub const HAND_LIMIT: usize = 5;

pub type Input = ();

/// Buys a card from the deck.
#[derive(Debug, Clone, Copy, Default)]
pub struct BuyCard;

impl API for BuyCard {
    fn url(game_id: &str) -> (url: String)
        ensures
            url@ == spec_address("/api/object/game/by_code/"@, game_id@, "/command/buy_card"@),
    {
        address("/api/object/game/by_code/", game_id, "/command/buy_card")
    }
}

/// The card the deck gives next: the first of a one-card draw.
pub open spec fn next_deck_card(s: Seq<Event>) -> Card {
    spec_draw(spec_draw_seed(s, 0), 1)[0]
}

/// A player who joined, holds fewer than five cards and has the price buys
/// the deck's next card.
pub open spec fn spec_buy_card(session_id: u128, s: Seq<Event>) -> Result<Seq<Event>, CommandError> {
    if !spec_player_exists(s, session_id) {
        Err(CommandError::PlayerDoesNotExist)
    } else if spec_cards_in_hand(s, session_id).len() >= HAND_LIMIT {
        Err(CommandError::HandFull)
    } else if get_or_zero(spec_balances(s), session_id) < CARD_PRICE {
        Err(CommandError::NotEnoughMoney)
    } else {
        Ok(seq![Event::BoughtCard { session_id, card: next_deck_card(s) }])
    }
}

/// What buying needs so that no sum overflows.
pub open spec fn buy_card_computable(session_id: u128, s: Seq<Event>) -> bool {
    spec_player_exists(s, session_id) && spec_cards_in_hand(s, session_id).len() < HAND_LIMIT ==> {
        &&& balances_defined(s)
        &&& get_or_zero(spec_balances(s), session_id) >= CARD_PRICE ==> {
            &&& starts_with_creation(s)
            &&& spec_bought_cards(s) <= u32::MAX
        }
    }
}

impl BuyCard {
    pub fn handle(session_id: u128, events: &im::Vector<Event>, input: Input) -> (r: Result<Vec<Event>, CommandError>)
        requires
            buy_card_computable(session_id, log(*events)),
        ensures
            view_result(r) == spec_buy_card(session_id, log(*events)),
    {
        if !player_exists(events, session_id) {
            return Err(CommandError::PlayerDoesNotExist);
        }
        if cards_in_hand(events, session_id).len() >= HAND_LIMIT {
            return Err(CommandError::HandFull);
        }
        if account_balance(events, session_id) < CARD_PRICE {
            return Err(CommandError::NotEnoughMoney);
        }
        let drawn = draw_n_cards_from_deck(events, 0, 1);
        let card = drawn[0];
        let v = vec![Event::BoughtCard { session_id, card }];
        proof {
            assert(v@ =~= seq![Event::BoughtCard { session_id, card: next_deck_card(log(*events)) }]);
        }
        Ok(v)
    }
}

} // verus!
