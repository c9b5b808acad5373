use vstd::prelude::*;

use crate::commands::{address, spec_address, view_result, CommandError, GameCode, API};
use crate::events::{log, log_len, Event, Settings};
use crate::game_id::GameID;

verus! {

/// What creating a game needs: its code.
#[derive(Debug, Clone, Copy, PartialEq, Eq)]
pub struct Input {
    pub code: GameID,
}

impl GameCode for Input {
    fn game_code(&self) -> (code: GameID)
        ensures
            code == self.code,
    {
        self.code
    }
}

/// Opens a new game: the first event of every log.
#[derive(Debug, Clone, Copy, Default)]
pub struct CreateGame;

impl API for CreateGame {
    fn url(game_id: &str) -> (url: String)
        ensures
            url@ == spec_address("/api/object/game/by_code/"@, game_id@, "/commands/create_game"@),
    {
        address("/api/object/game/by_code/", game_id, "/commands/create_game")
    }

    fn redirect(game_id: &str) -> (to: Option<String>)
        ensures
            to matches Some(t) && t@ == spec_address("/host/"@, game_id@, ""@),
    {
        Some(address("/host/", game_id, ""))
    }
}

/// Creating a game is refused once the log holds anything; otherwise it
/// records the code with the default settings.
pub open spec fn spec_create_game(s: Seq<Event>, input: Input) -> Result<Seq<Event>, CommandError> {
    if s.len() != 0 {
        Err(CommandError::GameAlreadyCreated)
    } else {
        Ok(seq![Event::GameCreated { game_id: input.code, settings: Settings::spec_default() }])
    }
}

impl CreateGame {
    pub fn handle(session_id: u128, events: &im::Vector<Event>, input: Input) -> (r: Result<Vec<Event>, CommandError>)
        ensures
            view_result(r) == spec_create_game(log(*events), input),
    {
        if log_len(events) != 0 {
            return Err(CommandError::GameAlreadyCreated);
        }
        let created = Event::GameCreated { game_id: input.code, settings: Settings::default() };
        let v = vec![created];
        proof {
            assert(v@ =~= seq![Event::GameCreated { game_id: input.code, settings: Settings::spec_default() }]);
        }
        Ok(v)
    }
}

} // verus!
