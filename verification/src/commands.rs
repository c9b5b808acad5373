//! Requests against a game. Each handler reads the log, refuses the request
//! with a `CommandError` or answers with the events to append.

use vstd::prelude::*;
use vstd::string::*;

use crate::events::{log, Event, Odds, RaceResults};
use crate::game_id::GameID;

pub mod borrow_money;
pub mod buy_card;
pub mod change_profile;
pub mod create_game;
pub mod finish_game;
pub mod finish_race;
pub mod join_game;
pub mod place_bets;
pub mod play_card;
pub mod ready_player;
pub mod start_game;
pub mod start_race;
pub mod start_round;

pub use borrow_money::BorrowMoney;
pub use buy_card::BuyCard;
pub use change_profile::ChangeProfile;
pub use create_game::CreateGame;
pub use finish_game::FinishGame;
pub use finish_race::FinishRace;
pub use join_game::JoinGame;
pub use place_bets::PlaceBets;
pub use play_card::PlayCard;
pub use ready_player::ReadyPlayer;
pub use start_game::StartGame;
pub use start_race::StartRace;
pub use start_round::StartRound;

verus! {

/// The session of the server itself; only it may drive the game forward.
pub const SERVER_SESSION: u128 = 0;

/// Why a request was refused.
#[derive(Debug, Clone, Copy, PartialEq, Eq, Structural)]
pub enum CommandError {
    GameAlreadyCreated,
    JoinMissingGame,
    JoinAfterStart,
    MaximumPlayers,
    ModifyMissingPlayer,
    ModifyAfterStart,
    ReadyMissingPlayer,
    ReadyAfterStart,
    PlayersMayNotStartRace,
    GameStartNeedsReady,
    PlayersMayNotStartRound,
    RoundStartNeedsReady,
    PlayersMayNotFinishGame,
    GameNotFinished,
    BetBeforeStart,
    NegativeBet,
    BetOverBalance,
    UnknownMonster,
    PlayersMayNotFinishRace,
    RaceNotInProgress,
    BorrowFromMissingGame,
    BorrowByNonPlayer,
    NoBalance,
    PaybackOverBalance,
    BorrowOverLimit,
    PaybackOverDebt,
    PlayerDoesNotExist,
    HandFull,
    NotEnoughMoney,
    CardNotInHand,
    AlreadyPlayedCard,
    InvalidTarget,
}

pub open spec fn spec_error_message(e: CommandError) -> Seq<char> {
    match e {
        CommandError::GameAlreadyCreated => "create game cannot be called after the game has already been created"@,
        CommandError::JoinMissingGame => "cannot join game that doesn't exist"@,
        CommandError::JoinAfterStart => "cannot join after game has already started"@,
        CommandError::MaximumPlayers => "maximum number of players reached"@,
        CommandError::ModifyMissingPlayer => "cannot modify player that doesn't exist"@,
        CommandError::ModifyAfterStart => "cannot modify profile after game has started"@,
        CommandError::ReadyMissingPlayer => "cannot ready a player that doesn't exist"@,
        CommandError::ReadyAfterStart => "cannot ready a player after game has started"@,
        CommandError::PlayersMayNotStartRace => "players may not start the race"@,
        CommandError::GameStartNeedsReady => "game can only start if all players are ready"@,
        CommandError::PlayersMayNotStartRound => "players may not start the round"@,
        CommandError::RoundStartNeedsReady => "round can only start if all players are ready"@,
        CommandError::PlayersMayNotFinishGame => "players may not finish the game"@,
        CommandError::GameNotFinished => "game is not finished"@,
        CommandError::BetBeforeStart => "cannot place a bet if the game hasn't started"@,
        CommandError::NegativeBet => "cannot place a bet with a value less than 0"@,
        CommandError::BetOverBalance => "cannot place a bet with a total value greater than your balance"@,
        CommandError::UnknownMonster => "failed to find monster corresponding to bet"@,
        CommandError::PlayersMayNotFinishRace => "players may not finish the race"@,
        CommandError::RaceNotInProgress => "race can only finish if its in progress"@,
        CommandError::BorrowFromMissingGame => "can't borrow money from a game that doesn't exist"@,
        CommandError::BorrowByNonPlayer => "only real players can borrow money"@,
        CommandError::NoBalance => "player doesn't exist"@,
        CommandError::PaybackOverBalance => "cannot payback more money than you have"@,
        CommandError::BorrowOverLimit => "cannot borrow more than $1000"@,
        CommandError::PaybackOverDebt => "cannot payback more than you owe"@,
        CommandError::PlayerDoesNotExist => "Player does not exist"@,
        CommandError::HandFull => "Player already has 5 cards in hand"@,
        CommandError::NotEnoughMoney => "Player does not have enough money"@,
        CommandError::CardNotInHand => "Player does not have card in hand"@,
        CommandError::AlreadyPlayedCard => "Player already played card this round"@,
        CommandError::InvalidTarget => "Invalid target for card"@,
    }
}

impl CommandError {
    /// The text shown to the player.
    pub fn message(&self) -> (message: &'static str)
        ensures
            message@ == spec_error_message(*self),
    {
        match self {
            CommandError::GameAlreadyCreated => "create game cannot be called after the game has already been created",
            CommandError::JoinMissingGame => "cannot join game that doesn't exist",
            CommandError::JoinAfterStart => "cannot join after game has already started",
            CommandError::MaximumPlayers => "maximum number of players reached",
            CommandError::ModifyMissingPlayer => "cannot modify player that doesn't exist",
            CommandError::ModifyAfterStart => "cannot modify profile after game has started",
            CommandError::ReadyMissingPlayer => "cannot ready a player that doesn't exist",
            CommandError::ReadyAfterStart => "cannot ready a player after game has started",
            CommandError::PlayersMayNotStartRace => "players may not start the race",
            CommandError::GameStartNeedsReady => "game can only start if all players are ready",
            CommandError::PlayersMayNotStartRound => "players may not start the round",
            CommandError::RoundStartNeedsReady => "round can only start if all players are ready",
            CommandError::PlayersMayNotFinishGame => "players may not finish the game",
            CommandError::GameNotFinished => "game is not finished",
            CommandError::BetBeforeStart => "cannot place a bet if the game hasn't started",
            CommandError::NegativeBet => "cannot place a bet with a value less than 0",
            CommandError::BetOverBalance => "cannot place a bet with a total value greater than your balance",
            CommandError::UnknownMonster => "failed to find monster corresponding to bet",
            CommandError::PlayersMayNotFinishRace => "players may not finish the race",
            CommandError::RaceNotInProgress => "race can only finish if its in progress",
            CommandError::BorrowFromMissingGame => "can't borrow money from a game that doesn't exist",
            CommandError::BorrowByNonPlayer => "only real players can borrow money",
            CommandError::NoBalance => "player doesn't exist",
            CommandError::PaybackOverBalance => "cannot payback more money than you have",
            CommandError::BorrowOverLimit => "cannot borrow more than $1000",
            CommandError::PaybackOverDebt => "cannot payback more than you owe",
            CommandError::PlayerDoesNotExist => "Player does not exist",
            CommandError::HandFull => "Player already has 5 cards in hand",
            CommandError::NotEnoughMoney => "Player does not have enough money",
            CommandError::CardNotInHand => "Player does not have card in hand",
            CommandError::AlreadyPlayedCard => "Player already played card this round",
            CommandError::InvalidTarget => "Invalid target for card",
        }
    }
}

/// A handler's answer with the events as a sequence.
pub open spec fn view_result(r: Result<Vec<Event>, CommandError>) -> Result<Seq<Event>, CommandError> {
    match r {
        Ok(v) => Ok(v@),
        Err(e) => Err(e),
    }
}

/// Whether a handler refused with `e`.
pub open spec fn refused(r: Result<Vec<Event>, CommandError>, e: CommandError) -> bool {
    r == Err::<Vec<Event>, CommandError>(e)
}

/// Where a command is sent and where the player goes after it.
pub trait API {
    fn url(game_id: &str) -> String;

    fn redirect(game_id: &str) -> (to: Option<String>)
        default_ensures
            to is None,
    {
        None
    }
}

/// Inputs that name the game they are for.
pub trait GameCode {
    fn game_code(&self) -> GameID;
}

/// The address of a command for a game: a prefix, the game's code, a suffix.
pub open spec fn spec_address(prefix: Seq<char>, game_id: Seq<char>, suffix: Seq<char>) -> Seq<char> {
    prefix + game_id + suffix
}

/// Joins three texts.
pub fn address(prefix: &str, game_id: &str, suffix: &str) -> (text: String)
    ensures
        text@ == spec_address(prefix@, game_id@, suffix@),
{
    let text = String::from_str(prefix);
    let text = text.concat(game_id);
    text.concat(suffix)
}

/// A request to a game.
#[derive(Debug, PartialEq, Eq)]
pub enum Command {
    CreateGame(create_game::Input),
    JoinGame(join_game::Input),
    ChangeProfile(change_profile::Input),
    ReadyPlayer(ready_player::Input),
    StartGame(start_game::Input),
    StartRound(start_round::Input),
    StartRace(start_race::Input),
    PlaceBets(place_bets::Input),
    FinishRace(finish_race::Input),
    FinishGame(finish_game::Input),
    BorrowMoney(borrow_money::Input),
    BuyCard(buy_card::Input),
    PlayCard(play_card::Input),
}

/// What a command learns from outside the log: the clock's reading (seconds
/// since 1970) and the simulated odds of the next race and results of the
/// current one.
#[derive(Debug, Clone, Copy, PartialEq, Eq)]
pub struct Environment {
    pub now: u32,
    pub odds: Odds,
    pub results: RaceResults,
}

/// What every command needs so that none of its sums overflows.
pub open spec fn command_computable(session_id: u128, s: Seq<Event>, command: Command) -> bool {
    match command {
        Command::JoinGame(_) => join_game::join_can_deal(s, session_id),
        Command::PlaceBets(input) => place_bets::place_bets_computable(session_id, s, input.bets@),
        Command::BorrowMoney(input) => borrow_money::borrow_money_computable(session_id, s, input.amount),
        Command::BuyCard(_) => buy_card::buy_card_computable(session_id, s),
        Command::PlayCard(input) => play_card::play_card_reaches_race(session_id, s, input)
            ==> play_card::play_card_computable(s),
        _ => true,
    }
}

/// The answer to a command: each kind answers as its handler does.
pub open spec fn command_answer(
    session_id: u128,
    s: Seq<Event>,
    command: Command,
    env: Environment,
    r: Result<Vec<Event>, CommandError>,
) -> bool {
    match command {
        Command::CreateGame(input) => view_result(r) == create_game::spec_create_game(s, input),
        Command::JoinGame(input) => join_game::join_game_answer(session_id, s, input, r),
        Command::ChangeProfile(input) => view_result(r) == change_profile::spec_change_profile(session_id, s, input),
        Command::ReadyPlayer(_) => view_result(r) == ready_player::spec_ready_player(session_id, s),
        Command::StartGame(_) => view_result(r) == start_game::spec_start_game(session_id, s, env.odds, env.now),
        Command::StartRound(_) => view_result(r) == start_round::spec_start_round(session_id, s, env.odds, env.now),
        Command::StartRace(_) => view_result(r) == start_race::spec_start_race(session_id, env.now),
        Command::PlaceBets(input) => view_result(r) == place_bets::spec_place_bets(session_id, s, input.bets@),
        Command::FinishRace(_) => view_result(r) == finish_race::spec_finish_race(session_id, s, env.results, env.now),
        Command::FinishGame(_) => view_result(r) == finish_game::spec_finish_game(session_id, s),
        Command::BorrowMoney(input) => view_result(r) == borrow_money::spec_borrow_money(session_id, s, input.amount),
        Command::BuyCard(_) => view_result(r) == buy_card::spec_buy_card(session_id, s),
        Command::PlayCard(input) => view_result(r) == play_card::spec_play_card(session_id, s, input),
    }
}

impl Command {
    /// Hands the command to its handler.
    pub fn handle(session_id: u128, events: &im::Vector<Event>, command: Command, env: &Environment) -> (r: Result<Vec<Event>, CommandError>)
        requires
            command_computable(session_id, log(*events), command),
        ensures
            command_answer(session_id, log(*events), command, *env, r),
    {
        match command {
            Command::CreateGame(input) => CreateGame::handle(session_id, events, input),
            Command::JoinGame(input) => JoinGame::handle(session_id, events, input),
            Command::ChangeProfile(input) => ChangeProfile::handle(session_id, events, input),
            Command::ReadyPlayer(input) => ReadyPlayer::handle(session_id, events, input),
            Command::StartGame(input) => StartGame::handle_at(session_id, events, input, env.odds, env.now),
            Command::StartRound(input) => StartRound::handle_at(session_id, events, input, env.odds, env.now),
            Command::StartRace(input) => StartRace::handle_at(session_id, events, input, env.now),
            Command::PlaceBets(input) => PlaceBets::handle(session_id, events, input),
            Command::FinishRace(input) => FinishRace::handle_at(session_id, events, input, env.results, env.now),
            Command::FinishGame(input) => FinishGame::handle(session_id, events, input),
            Command::BorrowMoney(input) => BorrowMoney::handle(session_id, events, input),
            Command::BuyCard(input) => BuyCard::handle(session_id, events, input),
            Command::PlayCard(input) => PlayCard::handle(session_id, events, input),
        }
    }
}

} // verus!
