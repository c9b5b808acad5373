use vstd::prelude::*;

use crate::cards::Card;
use crate::events::PlacedBet;
use crate::projections::players::{PlayerInfo, PlayerView};

verus! {

#[verifier::external_type_specification]
#[verifier::external_body]
#[verifier::reject_recursive_types(K)]
#[verifier::reject_recursive_types(V)]
pub struct ExOrdMap<K, V>(im::OrdMap<K, V>);

/// What a map of crystal balances holds.
pub uninterp spec fn balance_map(m: im::OrdMap<u128, i32>) -> Map<u128, i32>;

pub open spec fn empty_balances() -> Map<u128, i32> {
    Map::empty()
}

/// `im::OrdMap::new`: an empty map.
#[verifier::external_body]
pub(crate) fn balances_new() -> (balances: im::OrdMap<u128, i32>)
    ensures
        balance_map(balances) == empty_balances(),
{
    im::OrdMap::new()
}

/// `im::OrdMap::get`: the value stored under `key`, copied out.
#[verifier::external_body]
pub(crate) fn balances_get(m: &im::OrdMap<u128, i32>, key: u128) -> (v: Option<i32>)
    ensures
        v == if balance_map(*m).contains_key(key) {
            Some(balance_map(*m)[key])
        } else {
            None::<i32>
        },
{
    m.get(&key).copied()
}

/// `im::OrdMap::insert`: stores `value` under `key`, replacing what was there.
#[verifier::external_body]
pub(crate) fn balances_insert(m: &mut im::OrdMap<u128, i32>, key: u128, value: i32)
    ensures
        balance_map(*final(m)) == balance_map(*old(m)).insert(key, value),
{
    m.insert(key, value);
}

/// What a list of bets holds, first bet first.
pub uninterp spec fn bet_list(v: im::Vector<PlacedBet>) -> Seq<PlacedBet>;

/// `im::Vector::new`: an empty list of bets.
#[verifier::external_body]
pub(crate) fn bets_new() -> (v: im::Vector<PlacedBet>)
    ensures
        bet_list(v) == Seq::<PlacedBet>::empty(),
{
    im::Vector::new()
}

/// `im::Vector::len`: the number of bets held.
#[verifier::external_body]
pub(crate) fn bets_len(v: &im::Vector<PlacedBet>) -> (len: usize)
    ensures
        len == bet_list(*v).len(),
{
    v.len()
}

/// `im::Vector`'s indexing: the bet at position `i`, copied out.
#[verifier::external_body]
pub(crate) fn bets_at(v: &im::Vector<PlacedBet>, i: usize) -> (bet: PlacedBet)
    requires
        i < bet_list(*v).len(),
    ensures
        bet == bet_list(*v)[i as int],
{
    v[i]
}

/// `im::Vector::push_back`: appends one bet.
#[verifier::external_body]
pub(crate) fn bets_push_back(v: &mut im::Vector<PlacedBet>, bet: PlacedBet)
    ensures
        bet_list(*final(v)) == bet_list(*old(v)).push(bet),
{
    v.push_back(bet)
}

#[verifier::external_type_specification]
#[verifier::external_body]
#[verifier::reject_recursive_types(K)]
#[verifier::reject_recursive_types(V)]
#[verifier::reject_recursive_types(S)]
pub struct ExHashMap<K, V, S>(im::HashMap<K, V, S>);

/// What a map of debts holds.
pub uninterp spec fn debt_map(m: im::HashMap<u128, u32>) -> Map<u128, u32>;

pub open spec fn no_debts() -> Map<u128, u32> {
    Map::empty()
}

/// `im::HashMap::new`: an empty map.
#[verifier::external_body]
pub(crate) fn debts_new() -> (debts: im::HashMap<u128, u32>)
    ensures
        debt_map(debts) == no_debts(),
{
    im::HashMap::new()
}

/// `im::HashMap::get`: the value stored under `key`, copied out.
#[verifier::external_body]
pub(crate) fn debts_get(m: &im::HashMap<u128, u32>, key: u128) -> (v: Option<u32>)
    ensures
        v == if debt_map(*m).contains_key(key) {
            Some(debt_map(*m)[key])
        } else {
            None::<u32>
        },
{
    m.get(&key).copied()
}

/// `im::HashMap::insert`: stores `value` under `key`, replacing what was there.
#[verifier::external_body]
pub(crate) fn debts_insert(m: &mut im::HashMap<u128, u32>, key: u128, value: u32)
    ensures
        debt_map(*final(m)) == debt_map(*old(m)).insert(key, value),
{
    m.insert(key, value);
}

/// `im::HashMap::keys`, collected: every key once, in an order that depends on
/// the map's hasher and so is left open here.
#[verifier::external_body]
pub(crate) fn debts_keys(m: &im::HashMap<u128, u32>) -> (keys: Vec<u128>)
    ensures
        forall|k: u128| #[trigger] keys@.contains(k) <==> debt_map(*m).contains_key(k),
        keys@.no_duplicates(),
{
    m.keys().copied().collect()
}


/// What a map of players holds.
pub uninterp spec fn player_map(m: im::OrdMap<u128, PlayerInfo>) -> Map<u128, PlayerView>;

pub open spec fn no_players() -> Map<u128, PlayerView> {
    Map::empty()
}

/// `im::OrdMap::new`: an empty map.
#[verifier::external_body]
pub(crate) fn players_new() -> (players: im::OrdMap<u128, PlayerInfo>)
    ensures
        player_map(players) == no_players(),
{
    im::OrdMap::new()
}

/// `im::OrdMap::get`: the player stored under `key`, copied out.
#[verifier::external_body]
pub(crate) fn players_get(m: &im::OrdMap<u128, PlayerInfo>, key: u128) -> (p: Option<PlayerInfo>)
    ensures
        p is Some <==> player_map(*m).contains_key(key),
        p matches Some(info) ==> info@ == player_map(*m)[key],
{
    m.get(&key).map(|info| info.duplicate())
}

/// `im::OrdMap::insert`: stores `value` under `key`, replacing what was there.
#[verifier::external_body]
pub(crate) fn players_insert(m: &mut im::OrdMap<u128, PlayerInfo>, key: u128, value: PlayerInfo)
    ensures
        player_map(*final(m)) == player_map(*old(m)).insert(key, value@),
{
    m.insert(key, value);
}

/// `im::OrdMap::keys`, collected: every key once, in ascending order.
#[verifier::external_body]
pub(crate) fn players_keys(m: &im::OrdMap<u128, PlayerInfo>) -> (keys: Vec<u128>)
    ensures
        forall|k: u128| #[trigger] keys@.contains(k) <==> player_map(*m).contains_key(k),
        keys@.no_duplicates(),
{
    m.keys().copied().collect()
}

/// What a table of bets by player holds.
pub uninterp spec fn bet_table(m: im::OrdMap<u128, im::Vector<PlacedBet>>) -> Map<u128, Seq<PlacedBet>>;

pub open spec fn no_bets() -> Map<u128, Seq<PlacedBet>> {
    Map::empty()
}

/// `im::OrdMap::new`: an empty table.
#[verifier::external_body]
pub(crate) fn bet_table_new() -> (table: im::OrdMap<u128, im::Vector<PlacedBet>>)
    ensures
        bet_table(table) == no_bets(),
{
    im::OrdMap::new()
}

/// `im::OrdMap::get`: the bets stored under `key`, shared (an `im::Vector` clone).
#[verifier::external_body]
pub(crate) fn bet_table_get(m: &im::OrdMap<u128, im::Vector<PlacedBet>>, key: u128) -> (bets: Option<im::Vector<PlacedBet>>)
    ensures
        bets is Some <==> bet_table(*m).contains_key(key),
        bets matches Some(v) ==> bet_list(v) == bet_table(*m)[key],
{
    m.get(&key).cloned()
}

/// `im::OrdMap::insert`: stores `bets` under `key`, replacing what was there.
#[verifier::external_body]
pub(crate) fn bet_table_insert(m: &mut im::OrdMap<u128, im::Vector<PlacedBet>>, key: u128, bets: im::Vector<PlacedBet>)
    ensures
        bet_table(*final(m)) == bet_table(*old(m)).insert(key, bet_list(bets)),
{
    m.insert(key, bets);
}


/// What a map of hands of cards holds.
pub uninterp spec fn hand_map(m: im::OrdMap<u128, Vec<Card>>) -> Map<u128, Seq<Card>>;

pub open spec fn no_hands() -> Map<u128, Seq<Card>> {
    Map::empty()
}

/// `im::OrdMap::new`: an empty map.
#[verifier::external_body]
pub(crate) fn hands_new() -> (hands: im::OrdMap<u128, Vec<Card>>)
    ensures
        hand_map(hands) == no_hands(),
{
    im::OrdMap::new()
}

/// `im::OrdMap::get`: the hand stored under `key`, copied out.
#[verifier::external_body]
pub(crate) fn hands_get(m: &im::OrdMap<u128, Vec<Card>>, key: u128) -> (hand: Option<Vec<Card>>)
    ensures
        hand is Some <==> hand_map(*m).contains_key(key),
        hand matches Some(h) ==> h@ == hand_map(*m)[key],
{
    m.get(&key).cloned()
}

/// `im::OrdMap::insert`: stores `hand` under `key`, replacing what was there.
#[verifier::external_body]
pub(crate) fn hands_insert(m: &mut im::OrdMap<u128, Vec<Card>>, key: u128, hand: Vec<Card>)
    ensures
        hand_map(*final(m)) == hand_map(*old(m)).insert(key, hand@),
{
    m.insert(key, hand);
}

} // verus!
