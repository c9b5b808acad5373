use vstd::prelude::*;

use crate::cards::Card;
use crate::commands::{address, refused, spec_address, CommandError, GameCode, API};
use crate::events::{log, log_len, Event};
use crate::game_id::GameID;
use crate::projections::hand::{initial_cards, spec_draw, spec_draw_seed};
use crate::projections::{
    game_has_started, player_count, player_exists, spec_bought_cards, spec_game_has_started,
    spec_player_count, spec_player_exists, spec_settings,
};

verus! {

/// The most players a game takes.
pub const MAX_PLAYERS: usize = 15;

/// What joining needs: the player's name and the game's code.
#[derive(Debug, Clone, PartialEq, Eq)]
pub struct Input {
    pub name: String,
    pub code: GameID,
}

impl GameCode for Input {
    fn game_code(&self) -> (code: GameID)
        ensures
            code == self.code,
    {
        self.code
    }
}

/// Adds a player to a game that has not started.
#[derive(Debug, Clone, Copy, Default)]
pub struct JoinGame;

impl API for JoinGame {
    fn url(game_id: &str) -> (url: String)
        ensures
            url@ == spec_address("/api/object/game/by_code/"@, game_id@, "/command/join_game"@),
    {
        address("/api/object/game/by_code/", game_id, "/command/join_game")
    }

    fn redirect(game_id: &str) -> (to: Option<String>)
        ensures
            to matches Some(t) && t@ == spec_address("/play/"@, game_id@, ""@),
    {
        Some(address("/play/", game_id, ""))
    }
}

/// The hand a player joins with under the game's settings.
pub open spec fn spec_starting_hand(s: Seq<Event>, player: u128) -> Seq<Card> {
    if spec_settings(s).starting_cards == 0 {
        Seq::empty()
    } else {
        spec_draw(spec_draw_seed(s, player as u64), 3)
    }
}

/// Whether `e` is the arrival of `player` under `name` with `hand`.
pub open spec fn is_arrival(e: Event, player: u128, name: String, hand: Seq<Card>) -> bool {
    e matches Event::PlayerJoined { session_id, name: n, initial_cards } && session_id == player && n == name
        && initial_cards@ == hand
}

/// When a join gets to draw a starting hand, the settings must deal none or three cards.
pub open spec fn join_can_deal(s: Seq<Event>, player: u128) -> bool {
    s.len() > 0 && !spec_player_exists(s, player) && !spec_game_has_started(s) && spec_player_count(s)
        < MAX_PLAYERS ==> {
        &&& (spec_settings(s).starting_cards == 0 || spec_settings(s).starting_cards == 3)
        &&& spec_settings(s).starting_cards == 3 ==> spec_bought_cards(s) <= u32::MAX
    }
}

/// A join of an empty log is refused; joining twice records nothing; after
/// the first round started, or with fifteen players, it is refused.
/// Otherwise the player arrives with their starting hand.
pub open spec fn join_game_answer(session_id: u128, s: Seq<Event>, input: Input, r: Result<Vec<Event>, CommandError>) -> bool {
    if s.len() == 0 {
        refused(r, CommandError::JoinMissingGame)
    } else if spec_player_exists(s, session_id) {
        r matches Ok(v) && v@.len() == 0
    } else if spec_game_has_started(s) {
        refused(r, CommandError::JoinAfterStart)
    } else if spec_player_count(s) >= MAX_PLAYERS {
        refused(r, CommandError::MaximumPlayers)
    } else {
        r matches Ok(v) && v@.len() == 1 && is_arrival(v@[0], session_id, input.name, spec_starting_hand(s, session_id))
    }
}

impl JoinGame {
    pub fn handle(session_id: u128, events: &im::Vector<Event>, input: Input) -> (r: Result<Vec<Event>, CommandError>)
        requires
            join_can_deal(log(*events), session_id),
        ensures
            join_game_answer(session_id, log(*events), input, r),
    {
        if log_len(events) == 0 {
            return Err(CommandError::JoinMissingGame);
        }
        if player_exists(events, session_id) {
            return Ok(Vec::new());
        }
        if game_has_started(events) {
            return Err(CommandError::JoinAfterStart);
        }
        if player_count(events) >= MAX_PLAYERS {
            return Err(CommandError::MaximumPlayers);
        }
        let hand = initial_cards(events, session_id);
        Ok(vec![Event::PlayerJoined { session_id, name: input.name, initial_cards: hand }])
    }
}

} // verus!
