use vstd::prelude::*;

use crate::cards::{Card, Target};
use crate::collections::{bet_table, bet_table_get, bet_table_insert, bet_table_new, bets_new, bets_push_back, player_map, players_get, players_insert, players_keys, players_new};
use crate::events::{log, log_at, log_len, Event, PlacedBet};
use crate::projections::lemma_take_step;

verus! {

/// A player as the lobby shows them.
#[derive(Debug, Clone, Default, PartialEq, Eq, Hash)]
pub struct PlayerInfo {
    pub session_id: u128,
    pub name: String,
    pub ready: bool,
}

/// A player's information with the name as text.
pub struct PlayerView {
    pub session_id: u128,
    pub name: Seq<char>,
    pub ready: bool,
}

impl View for PlayerInfo {
    type V = PlayerView;

    open spec fn view(&self) -> PlayerView {
        PlayerView { session_id: self.session_id, name: self.name@, ready: self.ready }
    }
}

impl PlayerInfo {
    /// A copy of the information.
    pub fn duplicate(&self) -> (copy: PlayerInfo)
        ensures
            copy@ == self@,
    {
        PlayerInfo { session_id: self.session_id, name: self.name.clone(), ready: self.ready }
    }
}

/// The players fold: joining adds a player who is not ready, a profile change
/// renames and a ready event readies a player who joined.
pub open spec fn spec_players(s: Seq<Event>) -> Map<u128, PlayerView>
    decreases s.len(),
{
    if s.len() == 0 {
        Map::empty()
    } else {
        let m = spec_players(s.drop_last());
        match s.last() {
            Event::PlayerJoined { session_id, name, .. } => m.insert(
                session_id,
                PlayerView { session_id, name: name@, ready: false },
            ),
            Event::ChangedProfile { session_id, name } => if m.contains_key(session_id) {
                m.insert(session_id, PlayerView { name: name@, ..m[session_id] })
            } else {
                m
            },
            Event::PlayerReady { session_id } => if m.contains_key(session_id) {
                m.insert(session_id, PlayerView { ready: true, ..m[session_id] })
            } else {
                m
            },
            _ => m,
        }
    }
}

/// Every player who joined, by session.
pub fn players(events: &im::Vector<Event>) -> (players: im::OrdMap<u128, PlayerInfo>)
    ensures
        player_map(players) == spec_players(log(*events)),
{
    let ghost s = log(*events);
    let n = log_len(events);
    let mut map = players_new();
    let mut i: usize = 0;
    proof {
        assert(s.take(0) =~= Seq::<Event>::empty());
        assert(player_map(map) =~= spec_players(s.take(0)));
    }
    while i < n
        invariant
            n == s.len(),
            s == log(*events),
            i <= n,
            player_map(map) == spec_players(s.take(i as int)),
        decreases n - i,
    {
        proof {
            lemma_take_step(s, i as int);
        }
        match log_at(events, i) {
            Event::PlayerJoined { session_id, name, .. } => {
                players_insert(
                    &mut map,
                    *session_id,
                    PlayerInfo { session_id: *session_id, name: name.clone(), ready: false },
                );
            },
            Event::ChangedProfile { session_id, name } => {
                if let Some(info) = players_get(&map, *session_id) {
                    players_insert(
                        &mut map,
                        *session_id,
                        PlayerInfo { name: name.clone(), ..info },
                    );
                }
            },
            Event::PlayerReady { session_id } => {
                if let Some(info) = players_get(&map, *session_id) {
                    players_insert(&mut map, *session_id, PlayerInfo { ready: true, ..info });
                }
            },
            _ => {},
        }
        i = i + 1;
    }
    proof {
        assert(s.take(n as int) =~= s);
    }
    map
}

/// One player's information, if they joined.
pub fn player_info(events: &im::Vector<Event>, player: u128) -> (info: Option<PlayerInfo>)
    ensures
        info is Some <==> spec_players(log(*events)).contains_key(player),
        info matches Some(p) ==> p@ == spec_players(log(*events))[player],
{
    players_get(&players(events), player)
}

pub open spec fn spec_all_players_ready(s: Seq<Event>) -> bool {
    forall|k: u128| #[trigger] spec_players(s).contains_key(k) ==> spec_players(s)[k].ready
}

/// Whether every player who joined is ready (vacuously so with no players).
pub fn all_players_ready(events: &im::Vector<Event>) -> (ready: bool)
    ensures
        ready == spec_all_players_ready(log(*events)),
{
    let map = players(events);
    let keys = players_keys(&map);
    let mut i: usize = 0;
    while i < keys.len()
        invariant
            i <= keys@.len(),
            player_map(map) == spec_players(log(*events)),
            forall|k: u128| #[trigger] keys@.contains(k) <==> player_map(map).contains_key(k),
            forall|j: int| 0 <= j < i ==> (#[trigger] player_map(map)[keys@[j]]).ready,
        decreases keys.len() - i,
    {
        proof {
            assert(keys@.contains(keys@[i as int]));
        }
        match players_get(&map, keys[i]) {
            Some(info) => {
                if !info.ready {
                    return false;
                }
            },
            None => {},
        }
        i = i + 1;
    }
    proof {
        assert forall|k: u128| #[trigger] spec_players(log(*events)).contains_key(k) implies spec_players(
            log(*events),
        )[k].ready by {
            assert(keys@.contains(k));
            let j = choose|j: int| 0 <= j < keys@.len() && keys@[j] == k;
            assert(player_map(map)[keys@[j]].ready);
        }
    }
    true
}

/// The bets placed since the latest race finished, by player, in the order placed.
pub open spec fn spec_placed_bets(s: Seq<Event>) -> Map<u128, Seq<PlacedBet>>
    decreases s.len(),
{
    if s.len() == 0 {
        Map::empty()
    } else {
        let m = spec_placed_bets(s.drop_last());
        match s.last() {
            Event::PlacedBet(bet) => {
                let before = if m.contains_key(bet.session_id) {
                    m[bet.session_id]
                } else {
                    Seq::empty()
                };
                m.insert(bet.session_id, before.push(bet))
            },
            Event::RaceFinished { .. } => Map::empty(),
            _ => m,
        }
    }
}

/// The bets placed since the latest race finished, grouped by player.
pub fn placed_bets(events: &im::Vector<Event>) -> (bets: im::OrdMap<u128, im::Vector<PlacedBet>>)
    ensures
        bet_table(bets) == spec_placed_bets(log(*events)),
{
    let ghost s = log(*events);
    let n = log_len(events);
    let mut table = bet_table_new();
    let mut i: usize = 0;
    proof {
        assert(s.take(0) =~= Seq::<Event>::empty());
        assert(bet_table(table) =~= spec_placed_bets(s.take(0)));
    }
    while i < n
        invariant
            n == s.len(),
            s == log(*events),
            i <= n,
            bet_table(table) == spec_placed_bets(s.take(i as int)),
        decreases n - i,
    {
        proof {
            lemma_take_step(s, i as int);
        }
        match log_at(events, i) {
            Event::PlacedBet(bet) => {
                let mut list = match bet_table_get(&table, bet.session_id) {
                    Some(v) => v,
                    None => bets_new(),
                };
                bets_push_back(&mut list, *bet);
                bet_table_insert(&mut table, bet.session_id, list);
            },
            Event::RaceFinished { .. } => {
                table = bet_table_new();
                proof {
                    assert(bet_table(table) =~= spec_placed_bets(s.take(i + 1)));
                }
            },
            _ => {},
        }
        i = i + 1;
    }
    proof {
        assert(s.take(n as int) =~= s);
    }
    table
}

pub open spec fn spec_all_players_have_bet(s: Seq<Event>) -> bool {
    &&& spec_players(s).dom().len() > 0
    &&& forall|k: u128| #[trigger] spec_players(s).contains_key(k) ==> spec_placed_bets(s).contains_key(k)
}

/// Whether there are players and every one of them has bet since the latest race finished.
pub fn all_players_have_bet(events: &im::Vector<Event>) -> (all_bet: bool)
    ensures
        all_bet == spec_all_players_have_bet(log(*events)),
{
    let map = players(events);
    let bets = placed_bets(events);
    let keys = players_keys(&map);
    proof {
        let d = spec_players(log(*events)).dom();
        assert(d =~= keys@.to_set());
        keys@.unique_seq_to_set();
    }
    if keys.len() == 0 {
        return false;
    }
    let mut i: usize = 0;
    while i < keys.len()
        invariant
            i <= keys@.len(),
            player_map(map) == spec_players(log(*events)),
            bet_table(bets) == spec_placed_bets(log(*events)),
            forall|k: u128| #[trigger] keys@.contains(k) <==> player_map(map).contains_key(k),
            forall|j: int| 0 <= j < i ==> bet_table(bets).contains_key(#[trigger] keys@[j]),
        decreases keys.len() - i,
    {
        if bet_table_get(&bets, keys[i]).is_none() {
            proof {
                assert(keys@.contains(keys@[i as int]));
            }
            return false;
        }
        i = i + 1;
    }
    proof {
        assert forall|k: u128| #[trigger] spec_players(log(*events)).contains_key(k) implies spec_placed_bets(
            log(*events),
        ).contains_key(k) by {
            assert(keys@.contains(k));
            let j = choose|j: int| 0 <= j < keys@.len() && keys@[j] == k;
            assert(bet_table(bets).contains_key(keys@[j]));
        }
    }
    true
}

/// The card a player was just hit by, with the name of who played it: the
/// latest event must be a card played on that player (alone or among others).
pub open spec fn spec_victim_of_card(s: Seq<Event>, player: u128) -> Option<(Card, u128)> {
    if s.len() == 0 {
        None
    } else {
        match s.last() {
            Event::PlayedCard { card, session_id, target: Target::Player(t) } => if t == player {
                Some((card, session_id))
            } else {
                None
            },
            Event::PlayedCard { card, session_id, target: Target::MultiplePlayers(ts) } => if ts@.contains(player) {
                Some((card, session_id))
            } else {
                None
            },
            _ => None,
        }
    }
}

fn contains_id(ids: &Vec<u128>, id: u128) -> (found: bool)
    ensures
        found == ids@.contains(id),
{
    let mut i: usize = 0;
    while i < ids.len()
        invariant
            i <= ids.len(),
            forall|j: int| 0 <= j < i ==> ids@[j] != id,
        decreases ids.len() - i,
    {
        if ids[i] == id {
            return true;
        }
        i = i + 1;
    }
    false
}

/// The card the latest event played on `player` and the name of the player
/// who played it; `None` when the latest event is no card played on them.
pub fn victim_of_card(events: &im::Vector<Event>, player: u128) -> (victim: Option<(Card, String)>)
    requires
        spec_victim_of_card(log(*events), player) matches Some(v) ==> spec_players(log(*events)).contains_key(v.1),
    ensures
        match spec_victim_of_card(log(*events), player) {
            None => victim is None,
            Some(v) => victim matches Some(r) && r.0 == v.0 && r.1@ == spec_players(log(*events))[v.1].name,
        },
{
    let map = players(events);
    let n = log_len(events);
    if n == 0 {
        return None;
    }
    match log_at(events, n - 1) {
        Event::PlayedCard { card, session_id, target: Target::Player(target) } => {
            if *target == player {
                match players_get(&map, *session_id) {
                    Some(info) => Some((*card, info.name)),
                    None => None,
                }
            } else {
                None
            }
        },
        Event::PlayedCard { card, session_id, target: Target::MultiplePlayers(targets) } => {
            if contains_id(targets, player) {
                match players_get(&map, *session_id) {
                    Some(info) => Some((*card, info.name)),
                    None => None,
                }
            } else {
                None
            }
        },
        _ => None,
    }
}

} // verus!
