use vstd::prelude::*;

use crate::commands::{address, spec_address, view_result, CommandError, API};
use crate::events::{log, Event};
use crate::projections::players::{player_info, spec_players};
use crate::projections::{game_has_started, player_exists, spec_game_has_started, spec_player_exists};

verus! {

/// The name a player wants.
#[derive(Debug, Clone, PartialEq, Eq)]
pub struct Input {
    pub name: String,
}

/// Renames a player in the lobby.
#[derive(Debug, Clone, Copy, Default)]
pub struct ChangeProfile;

impl API for ChangeProfile {
    fn url(game_id: &str) -> (url: String)
        ensures
            url@ == spec_address("/api/object/game/by_code/"@, game_id@, "/commands/change_profile"@),
    {
        address("/api/object/game/by_code/", game_id, "/commands/change_profile")
    }
}

/// Only a player who joined may rename, and only before the first round; a
/// rename to the current name records nothing.
pub open spec fn spec_change_profile(session_id: u128, s: Seq<Event>, input: Input) -> Result<Seq<Event>, CommandError> {
    if !spec_player_exists(s, session_id) {
        Err(CommandError::ModifyMissingPlayer)
    } else if spec_game_has_started(s) {
        Err(CommandError::ModifyAfterStart)
    } else if spec_players(s).contains_key(session_id) && spec_players(s)[session_id].name == input.name@ {
        Ok(Seq::empty())
    } else {
        Ok(seq![Event::ChangedProfile { session_id, name: input.name }])
    }
}

impl ChangeProfile {
    pub fn handle(session_id: u128, events: &im::Vector<Event>, input: Input) -> (r: Result<Vec<Event>, CommandError>)
        ensures
            view_result(r) == spec_change_profile(session_id, log(*events), input),
    {
        if !player_exists(events, session_id) {
            return Err(CommandError::ModifyMissingPlayer);
        }
        if game_has_started(events) {
            return Err(CommandError::ModifyAfterStart);
        }
        let unchanged = match player_info(events, session_id) {
            Some(info) => info.name == input.name,
            None => false,
        };
        if unchanged {
            let v: Vec<Event> = Vec::new();
            proof {
                assert(v@ =~= Seq::<Event>::empty());
            }
            return Ok(v);
        }
        let ghost name = input.name;
        let v = vec![Event::ChangedProfile { session_id, name: input.name }];
        proof {
            assert(v@ =~= seq![Event::ChangedProfile { session_id, name: name }]);
        }
        Ok(v)
    }
}

} // verus!
