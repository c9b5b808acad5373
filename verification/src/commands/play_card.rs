use vstd::prelude::*;

use crate::cards::{Card, Target};
use crate::commands::{address, spec_address, view_result, CommandError, API};
use crate::events::{log, Event};
use crate::projections::hand::{can_play_more_cards, cards_in_hand, spec_can_play_more_cards, spec_cards_in_hand};
use crate::projections::monsters::{spec_valid_target, target_is_valid};
use crate::projections::{player_exists, spec_player_exists, spec_round, starts_with_creation};

verus! {

/// The card to play and what to play it on.
#[derive(Debug, Clone, PartialEq, Eq)]
pub struct Input {
    pub card: Card,
    pub target: Target,
}

/// Plays a card from a player's hand.
#[derive(Debug, Clone, Copy, Default)]
pub struct PlayCard;

impl API for PlayCard {
    fn url(game_id: &str) -> (url: String)
        ensures
            url@ == spec_address("/api/object/game/by_code/"@, game_id@, "/command/play_card"@),
    {
        address("/api/object/game/by_code/", game_id, "/command/play_card")
    }
}

/// A player who joined plays a card they hold, while they may still play
/// this round, on a valid target.
pub open spec fn spec_play_card(session_id: u128, s: Seq<Event>, input: Input) -> Result<Seq<Event>, CommandError> {
    if !spec_player_exists(s, session_id) {
        Err(CommandError::PlayerDoesNotExist)
    } else if !spec_cards_in_hand(s, session_id).contains(input.card) {
        Err(CommandError::CardNotInHand)
    } else if !spec_can_play_more_cards(s, session_id) {
        Err(CommandError::AlreadyPlayedCard)
    } else if !spec_valid_target(s, session_id, input.target) {
        Err(CommandError::InvalidTarget)
    } else {
        Ok(seq![Event::PlayedCard { session_id, card: input.card, target: input.target }])
    }
}

/// Whether the request gets as far as looking up the current race's monsters.
pub open spec fn play_card_reaches_race(session_id: u128, s: Seq<Event>, input: Input) -> bool {
    &&& spec_player_exists(s, session_id)
    &&& spec_cards_in_hand(s, session_id).contains(input.card)
    &&& spec_can_play_more_cards(s, session_id)
    &&& input.target is Monster
}

/// What looking up the race needs: a log that starts with the game's
/// creation and a round count that fits.
pub open spec fn play_card_computable(s: Seq<Event>) -> bool {
    starts_with_creation(s) && spec_round(s) <= u32::MAX
}

fn holds(hand: &Vec<Card>, card: Card) -> (found: bool)
    ensures
        found == hand@.contains(card),
{
    let mut i: usize = 0;
    while i < hand.len()
        invariant
            i <= hand.len(),
            forall|j: int| 0 <= j < i ==> hand@[j] != card,
        decreases hand.len() - i,
    {
        if hand[i] == card {
            return true;
        }
        i = i + 1;
    }
    false
}

impl PlayCard {
    pub fn handle(session_id: u128, events: &im::Vector<Event>, input: Input) -> (r: Result<Vec<Event>, CommandError>)
        requires
            play_card_reaches_race(session_id, log(*events), input) ==> play_card_computable(log(*events)),
        ensures
            view_result(r) == spec_play_card(session_id, log(*events), input),
    {
        if !player_exists(events, session_id) {
            return Err(CommandError::PlayerDoesNotExist);
        }
        if !holds(&cards_in_hand(events, session_id), input.card) {
            return Err(CommandError::CardNotInHand);
        }
        if !can_play_more_cards(events, session_id) {
            return Err(CommandError::AlreadyPlayedCard);
        }
        let ghost target = input.target;
        if !target_is_valid(events, session_id, &input.target) {
            return Err(CommandError::InvalidTarget);
        }
        let v = vec![Event::PlayedCard { session_id, card: input.card, target: input.target }];
        proof {
            assert(v@ =~= seq![Event::PlayedCard { session_id, card: input.card, target: target }]);
        }
        Ok(v)
    }
}

} // verus!
