use vstd::prelude::*;

use crate::commands::{address, spec_address, view_result, CommandError, API};
use crate::events::{log, Event};
use crate::projections::{game_has_started, player_exists, spec_game_has_started, spec_player_exists};

verus! {

pub type Input = ();

/// Marks a player as ready to play.
#[derive(Debug, Clone, Copy, Default)]
pub struct ReadyPlayer;

impl API for ReadyPlayer {
    fn url(game_id: &str) -> (url: String)
        ensures
            url@ == spec_address("/api/object/game/by_code/"@, game_id@, "/commands/ready_player"@),
    {
        address("/api/object/game/by_code/", game_id, "/commands/ready_player")
    }
}

/// Only a player who joined may get ready, and only before the first round.
pub open spec fn spec_ready_player(session_id: u128, s: Seq<Event>) -> Result<Seq<Event>, CommandError> {
    if !spec_player_exists(s, session_id) {
        Err(CommandError::ReadyMissingPlayer)
    } else if spec_game_has_started(s) {
        Err(CommandError::ReadyAfterStart)
    } else {
        Ok(seq![Event::PlayerReady { session_id }])
    }
}

impl ReadyPlayer {
    pub fn handle(session_id: u128, events: &im::Vector<Event>, input: Input) -> (r: Result<Vec<Event>, CommandError>)
        ensures
            view_result(r) == spec_ready_player(session_id, log(*events)),
    {
        if !player_exists(events, session_id) {
            return Err(CommandError::ReadyMissingPlayer);
        }
        if game_has_started(events) {
            return Err(CommandError::ReadyAfterStart);
        }
        let v = vec![Event::PlayerReady { session_id }];
        proof {
            assert(v@ =~= seq![Event::PlayerReady { session_id }]);
        }
        Ok(v)
    }
}

} // verus!
