use vstd::prelude::*;

use crate::cards::{spec_card_rank, Card, Target};
use crate::events::{log, log_at, log_len, Event, Odds, Probability};
use crate::monsters::{lemma_roster_uuids_distinct, monster, spec_monster, Monster, MONSTER_COUNT};
use crate::projections::{
    lemma_take_step, race_seed, spec_player_exists, spec_race_seed_for_round, spec_round,
    starts_with_creation, player_exists,
};
use crate::random::{sample_indices, sampled_indices};

verus! {

/// A card played on a monster.
#[derive(Debug, Clone, Copy, PartialEq, Eq, Structural, PartialOrd, Ord)]
pub struct PlayedMonsterCard {
    pub card: Card,
    pub monster_id: u128,
}

/// The order of played cards: by card (declaration order), then by monster.
pub open spec fn card_before(a: PlayedMonsterCard, b: PlayedMonsterCard) -> bool {
    spec_card_rank(a.card) < spec_card_rank(b.card) || (spec_card_rank(a.card) == spec_card_rank(
        b.card,
    ) && a.monster_id < b.monster_id)
}

pub open spec fn strictly_sorted(v: Seq<PlayedMonsterCard>) -> bool {
    forall|i: int, j: int| 0 <= i < j < v.len() ==> card_before(#[trigger] v[i], #[trigger] v[j])
}

/// The cards played on monsters since the latest round started or race finished,
/// in the order they were played.
pub open spec fn spec_played_monster_cards(s: Seq<Event>) -> Seq<PlayedMonsterCard>
    decreases s.len(),
{
    if s.len() == 0 {
        Seq::empty()
    } else {
        match s.last() {
            Event::PlayedCard { card, target: Target::Monster(monster_id), .. } => spec_played_monster_cards(
                s.drop_last(),
            ).push(PlayedMonsterCard { card, monster_id }),
            Event::RoundStarted { .. } | Event::RaceFinished { .. } => Seq::empty(),
            _ => spec_played_monster_cards(s.drop_last()),
        }
    }
}

proof fn lemma_rank_injective(a: Card, b: Card)
    ensures
        spec_card_rank(a) == spec_card_rank(b) ==> a == b,
{
    match a {
        Card::Poison => {},
        Card::ExtraRations => {},
        Card::TasteTester => {},
        Card::PsyBlast => {},
        Card::Meditation => {},
        Card::TinfoilHat => {},
        Card::Nepotism => {},
        Card::Theft => {},
        Card::Extortion => {},
        Card::Stupify => {},
        Card::Scrutiny => {},
        Card::Crystals => {},
    }
}

proof fn lemma_card_before_total(a: PlayedMonsterCard, b: PlayedMonsterCard)
    ensures
        a == b || card_before(a, b) || card_before(b, a),
        !(card_before(a, b) && card_before(b, a)),
        !card_before(a, a),
{
    lemma_rank_injective(a.card, b.card);
}

fn card_is_before(a: PlayedMonsterCard, b: PlayedMonsterCard) -> (before: bool)
    ensures
        before == card_before(a, b),
{
    let ra = a.card.rank();
    let rb = b.card.rank();
    ra < rb || (ra == rb && a.monster_id < b.monster_id)
}

/// Adds `x` to a strictly sorted list unless it is already there.
fn insert_sorted(v: &mut Vec<PlayedMonsterCard>, x: PlayedMonsterCard)
    requires
        strictly_sorted(old(v)@),
    ensures
        strictly_sorted(final(v)@),
        forall|y: PlayedMonsterCard| #[trigger] final(v)@.contains(y) <==> (old(v)@.contains(y) || y == x),
{
    let mut p: usize = 0;
    while p < v.len() && card_is_before(v[p], x)
        invariant
            strictly_sorted(v@),
            p <= v.len(),
            forall|j: int| 0 <= j < p ==> card_before(#[trigger] v@[j], x),
        decreases v.len() - p,
    {
        p = p + 1;
    }
    if p < v.len() && v[p] == x {
        return;
    }
    let ghost before = v@;
    proof {
        if p < v.len() {
            lemma_card_before_total(v@[p as int], x);
        }
        assert forall|j: int| p <= j < before.len() implies card_before(x, #[trigger] before[j]) by {
            lemma_card_before_total(before[p as int], x);
            if j > p {
                assert(card_before(before[p as int], before[j]));
            }
        }
    }
    v.insert(p, x);
    proof {
        assert forall|i: int, j: int| 0 <= i < j < v@.len() implies card_before(
            #[trigger] v@[i],
            #[trigger] v@[j],
        ) by {
            if i < p && j > p {
                assert(card_before(before[i], x));
                assert(card_before(x, before[j - 1]));
            } else if i < p && j < p {
                assert(card_before(before[i], before[j]));
            } else if i > p {
                assert(card_before(before[i - 1], before[j - 1]));
            }
        }
        assert forall|y: PlayedMonsterCard| #[trigger] v@.contains(y) <==> (before.contains(y) || y == x) by {
            if v@.contains(y) {
                let k = choose|k: int| 0 <= k < v@.len() && v@[k] == y;
                if k < p {
                    assert(before[k] == y);
                } else if k > p {
                    assert(before[k - 1] == y);
                }
            }
            if before.contains(y) {
                let k = choose|k: int| 0 <= k < before.len() && before[k] == y;
                if k < p {
                    assert(v@[k] == y);
                } else {
                    assert(v@[k + 1] == y);
                }
            }
            if y == x {
                assert(v@[p as int] == x);
            }
        }
    }
}

/// The distinct cards played on monsters since the latest round started or
/// race finished, sorted by card and then by monster.
pub fn unique_played_monster_cards(events: &im::Vector<Event>) -> (cards: Vec<PlayedMonsterCard>)
    ensures
        strictly_sorted(cards@),
        forall|x: PlayedMonsterCard| #[trigger] cards@.contains(x) <==> spec_played_monster_cards(
            log(*events),
        ).contains(x),
{
    let ghost s = log(*events);
    let n = log_len(events);
    let mut cards: Vec<PlayedMonsterCard> = Vec::new();
    let mut i: usize = 0;
    while i < n
        invariant
            n == s.len(),
            s == log(*events),
            i <= n,
            strictly_sorted(cards@),
            forall|x: PlayedMonsterCard| #[trigger] cards@.contains(x) <==> spec_played_monster_cards(
                s.take(i as int),
            ).contains(x),
        decreases n - i,
    {
        proof {
            lemma_take_step(s, i as int);
        }
        let ghost prev = spec_played_monster_cards(s.take(i as int));
        match log_at(events, i) {
            Event::PlayedCard { card, target: Target::Monster(monster_id), .. } => {
                let x = PlayedMonsterCard { card: *card, monster_id: *monster_id };
                insert_sorted(&mut cards, x);
                proof {
                    assert forall|y: PlayedMonsterCard| #[trigger] cards@.contains(y) <==> prev.push(x).contains(y) by {
                        if y == x {
                            assert(prev.push(x)[prev.len() as int] == x);
                        }
                        if prev.push(x).contains(y) && y != x {
                            let k = choose|k: int| 0 <= k < prev.push(x).len() && prev.push(x)[k] == y;
                            assert(prev[k] == y);
                        }
                        if prev.contains(y) {
                            let k = choose|k: int| 0 <= k < prev.len() && prev[k] == y;
                            assert(prev.push(x)[k] == y);
                        }
                    }
                }
            },
            Event::RoundStarted { .. } | Event::RaceFinished { .. } => {
                cards = Vec::new();
            },
            _ => {},
        }
        i = i + 1;
    }
    proof {
        assert(s.take(n as int) =~= s);
    }
    cards
}

/// Whether the list holds `card` played on `target`.
pub open spec fn played_on(cards: Seq<PlayedMonsterCard>, target: u128, card: Card) -> bool {
    cards.contains(PlayedMonsterCard { card, monster_id: target })
}

fn has_card(cards: &Vec<PlayedMonsterCard>, target: u128, card: Card) -> (found: bool)
    ensures
        found == played_on(cards@, target, card),
{
    let mut i: usize = 0;
    while i < cards.len()
        invariant
            i <= cards.len(),
            forall|j: int| 0 <= j < i ==> cards@[j] != (PlayedMonsterCard { card, monster_id: target }),
        decreases cards.len() - i,
    {
        if cards[i].monster_id == target && cards[i].card == card {
            proof {
                assert(cards@[i as int] == PlayedMonsterCard { card, monster_id: target });
            }
            return true;
        }
        i = i + 1;
    }
    false
}

/// Poison works on a monster unless a Taste Tester protects it.
pub fn poisoned(cards: &Vec<PlayedMonsterCard>, target: u128) -> (effect: bool)
    ensures
        effect == (played_on(cards@, target, Card::Poison) && !played_on(cards@, target, Card::TasteTester)),
{
    has_card(cards, target, Card::Poison) && !has_card(cards, target, Card::TasteTester)
}

/// Nepotism cannot be countered.
pub fn nepotism(cards: &Vec<PlayedMonsterCard>, target: u128) -> (effect: bool)
    ensures
        effect == played_on(cards@, target, Card::Nepotism),
{
    has_card(cards, target, Card::Nepotism)
}

/// Extra Rations work on a monster unless a Taste Tester protects it.
pub fn extra_rations(cards: &Vec<PlayedMonsterCard>, target: u128) -> (effect: bool)
    ensures
        effect == (played_on(cards@, target, Card::ExtraRations) && !played_on(cards@, target, Card::TasteTester)),
{
    has_card(cards, target, Card::ExtraRations) && !has_card(cards, target, Card::TasteTester)
}

/// Psy Blast works on a monster unless a Tinfoil Hat protects it.
pub fn psyblast(cards: &Vec<PlayedMonsterCard>, target: u128) -> (effect: bool)
    ensures
        effect == (played_on(cards@, target, Card::PsyBlast) && !played_on(cards@, target, Card::TinfoilHat)),
{
    has_card(cards, target, Card::PsyBlast) && !has_card(cards, target, Card::TinfoilHat)
}

/// Meditation works on a monster unless a Tinfoil Hat protects it.
pub fn meditation(cards: &Vec<PlayedMonsterCard>, target: u128) -> (effect: bool)
    ensures
        effect == (played_on(cards@, target, Card::Meditation) && !played_on(cards@, target, Card::TinfoilHat)),
{
    has_card(cards, target, Card::Meditation) && !has_card(cards, target, Card::TinfoilHat)
}

/// A monster after the cards played on it: Poison -3 strength, Extra Rations
/// +2 strength, Psy Blast -3 dexterity, Meditation +2 dexterity, Nepotism a
/// 1.5 m head start; Taste Tester blocks the strength cards and Tinfoil Hat
/// the dexterity cards.
pub open spec fn spec_with_cards(m: Monster, cards: Seq<PlayedMonsterCard>) -> Monster {
    let t = m.uuid;
    let poison = played_on(cards, t, Card::Poison) && !played_on(cards, t, Card::TasteTester);
    let rations = played_on(cards, t, Card::ExtraRations) && !played_on(cards, t, Card::TasteTester);
    let blast = played_on(cards, t, Card::PsyBlast) && !played_on(cards, t, Card::TinfoilHat);
    let calm = played_on(cards, t, Card::Meditation) && !played_on(cards, t, Card::TinfoilHat);
    let ahead = played_on(cards, t, Card::Nepotism);
    Monster {
        strength: (m.strength + (if poison { -3int } else { 0int }) + (if rations { 2int } else { 0int })) as i32,
        dexterity: (m.dexterity + (if blast { -3int } else { 0int }) + (if calm { 2int } else { 0int })) as i32,
        starting_position: (m.starting_position + if ahead { 15int } else { 0int }) as i32,
        ..m
    }
}

fn with_cards(m: Monster, cards: &Vec<PlayedMonsterCard>) -> (r: Monster)
    requires
        -100 <= m.strength <= 100,
        -100 <= m.dexterity <= 100,
        0 <= m.starting_position <= 100,
    ensures
        r == spec_with_cards(m, cards@),
{
    let mut r = m;
    if poisoned(cards, m.uuid) {
        r.strength = r.strength - 3;
    }
    if extra_rations(cards, m.uuid) {
        r.strength = r.strength + 2;
    }
    if psyblast(cards, m.uuid) {
        r.dexterity = r.dexterity - 3;
    }
    if meditation(cards, m.uuid) {
        r.dexterity = r.dexterity + 2;
    }
    if nepotism(cards, m.uuid) {
        r.starting_position = r.starting_position + 15;
    }
    r
}

/// The three monsters of a race seed, after the cards played on them.
pub open spec fn spec_monsters(s: Seq<Event>, race_seed: u32) -> Seq<Monster> {
    Seq::new(
        3,
        |k: int|
            spec_with_cards(
                spec_monster(sampled_indices(race_seed as u64, MONSTER_COUNT, 3)[k]),
                spec_played_monster_cards(s),
            ),
    )
}

proof fn lemma_with_cards_same_set(m: Monster, a: Seq<PlayedMonsterCard>, b: Seq<PlayedMonsterCard>)
    requires
        forall|x: PlayedMonsterCard| #[trigger] a.contains(x) <==> b.contains(x),
    ensures
        spec_with_cards(m, a) == spec_with_cards(m, b),
{
}

/// Whether no two of the monsters share an identifier.
pub open spec fn distinct_uuids(ms: Seq<Monster>) -> bool {
    forall|i: int, j: int| 0 <= i < ms.len() && 0 <= j < ms.len() && i != j ==> (#[trigger] ms[i]).uuid
        != (#[trigger] ms[j]).uuid
}

/// The race's three monsters: three different monsters of the roster, picked
/// by the race seed (as `choose_multiple` picks them), then changed by the
/// cards played on them.
pub fn monsters(events: &im::Vector<Event>, race_seed: u32) -> (monsters: [Monster; 3])
    ensures
        monsters@ == spec_monsters(log(*events), race_seed),
        distinct_uuids(monsters@),
{
    let idx = sample_indices(race_seed as u64, MONSTER_COUNT, 3);
    let played = unique_played_monster_cards(events);
    let a = with_cards(monster(idx[0]), &played);
    let b = with_cards(monster(idx[1]), &played);
    let c = with_cards(monster(idx[2]), &played);
    let result = [a, b, c];
    proof {
        let s = log(*events);
        lemma_with_cards_same_set(spec_monster(idx@[0]), played@, spec_played_monster_cards(s));
        lemma_with_cards_same_set(spec_monster(idx@[1]), played@, spec_played_monster_cards(s));
        lemma_with_cards_same_set(spec_monster(idx@[2]), played@, spec_played_monster_cards(s));
        assert(result@ =~= spec_monsters(s, race_seed));
        assert forall|i: int, j: int| 0 <= i < 3 && 0 <= j < 3 && i != j implies (#[trigger] result@[i]).uuid
            != (#[trigger] result@[j]).uuid by {
            lemma_roster_uuids_distinct(idx@[i], idx@[j]);
        }
    }
    result
}


/// The seed of the current round's race of a non-empty log.
pub open spec fn spec_race_seed(s: Seq<Event>) -> u32 {
    spec_race_seed_for_round(s[0]->game_id, spec_round(s) as u32)
}

/// Whether the current race has a monster with this identifier.
pub open spec fn in_current_race(s: Seq<Event>, monster_id: u128) -> bool {
    exists|k: int| 0 <= k < 3 && (#[trigger] spec_monsters(s, spec_race_seed(s))[k]).uuid == monster_id
}

/// Whether a player may play a card on `target`: another player who joined,
/// a group of such players, or a monster of the current race.
pub open spec fn spec_valid_target(s: Seq<Event>, player: u128, target: Target) -> bool {
    match target {
        Target::Player(t) => player != t && spec_player_exists(s, t),
        Target::MultiplePlayers(ts) => forall|i: int|
            0 <= i < ts@.len() ==> player != #[trigger] ts@[i] && spec_player_exists(s, ts@[i]),
        Target::Monster(t) => in_current_race(s, t),
    }
}

fn all_other_players(events: &im::Vector<Event>, player: u128, targets: &Vec<u128>) -> (valid: bool)
    ensures
        valid == forall|i: int|
            0 <= i < targets@.len() ==> player != #[trigger] targets@[i] && spec_player_exists(log(*events), targets@[i]),
{
    let mut i: usize = 0;
    while i < targets.len()
        invariant
            i <= targets.len(),
            forall|j: int|
                0 <= j < i ==> player != #[trigger] targets@[j] && spec_player_exists(log(*events), targets@[j]),
        decreases targets.len() - i,
    {
        let t = targets[i];
        if !(player != t && player_exists(events, t)) {
            return false;
        }
        i = i + 1;
    }
    true
}

/// Whether `player` may play a card on `target`. For an empty log the race's
/// monsters come from a random code.
pub fn valid_target_for_card(events: &im::Vector<Event>, player: u128, target: Target) -> (valid: bool)
    requires
        target is Monster ==> starts_with_creation(log(*events)) && spec_round(log(*events)) <= u32::MAX,
    ensures
        log(*events).len() > 0 ==> valid == spec_valid_target(log(*events), player, target),
{
    target_is_valid(events, player, &target)
}

pub(crate) fn target_is_valid(events: &im::Vector<Event>, player: u128, target: &Target) -> (valid: bool)
    requires
        *target is Monster ==> starts_with_creation(log(*events)) && spec_round(log(*events)) <= u32::MAX,
    ensures
        log(*events).len() > 0 ==> valid == spec_valid_target(log(*events), player, *target),
{
    match target {
        Target::Player(t) => player != *t && player_exists(events, *t),
        Target::MultiplePlayers(targets) => all_other_players(events, player, targets),
        Target::Monster(t) => {
            let seed = race_seed(events);
            let ms = monsters(events, seed);
            proof {
                if log(*events).len() > 0 {
                    let sm = spec_monsters(log(*events), spec_race_seed(log(*events)));
                    assert(seed == spec_race_seed(log(*events)));
                    assert(sm[0] == ms[0]);
                    assert(sm[1] == ms[1]);
                    assert(sm[2] == ms[2]);
                }
            }
            ms[0].uuid == *t || ms[1].uuid == *t || ms[2].uuid == *t
        },
    }
}

/// The odds of the latest round that came with odds.
pub open spec fn spec_last_odds(s: Seq<Event>) -> Option<Odds>
    decreases s.len(),
{
    if s.len() == 0 {
        None
    } else if let Event::RoundStarted { odds: Some(o), .. } = s.last() {
        Some(o)
    } else {
        spec_last_odds(s.drop_last())
    }
}

/// The odds the current round was announced with, or one in three for each
/// monster of the current race (for a non-empty log).
pub open spec fn spec_pre_computed_odds(s: Seq<Event>) -> Odds {
    match spec_last_odds(s) {
        Some(o) => o,
        None => {
            let ms = spec_monsters(s, spec_race_seed(s));
            let third = Probability { wins: 1, races: 3 };
            Odds([(ms[0].uuid, third), (ms[1].uuid, third), (ms[2].uuid, third)])
        },
    }
}

/// The odds the current round was announced with; when no round came with
/// odds, one in three for each monster of the current race.
pub fn pre_computed_odds(events: &im::Vector<Event>) -> (odds: Odds)
    requires
        starts_with_creation(log(*events)),
        spec_round(log(*events)) <= u32::MAX,
    ensures
        spec_last_odds(log(*events)) matches Some(o) ==> odds == o,
        log(*events).len() > 0 ==> odds == spec_pre_computed_odds(log(*events)),
{
    let ghost s = log(*events);
    let mut i: usize = log_len(events);
    proof {
        assert(s.take(i as int) =~= s);
    }
    while i > 0
        invariant
            i <= s.len(),
            s == log(*events),
            spec_last_odds(s) == spec_last_odds(s.take(i as int)),
        decreases i,
    {
        proof {
            lemma_take_step(s, i - 1);
        }
        if let Event::RoundStarted { odds: Some(o), .. } = log_at(events, i - 1) {
            return *o;
        }
        i = i - 1;
    }
    let seed = race_seed(events);
    let ms = monsters(events, seed);
    let third = Probability { wins: 1, races: 3 };
    let odds = Odds([(ms[0].uuid, third), (ms[1].uuid, third), (ms[2].uuid, third)]);
    proof {
        if s.len() > 0 {
            let sm = spec_monsters(s, spec_race_seed(s));
            assert(seed == spec_race_seed(s));
            assert(sm[0] == ms[0]);
            assert(sm[1] == ms[1]);
            assert(sm[2] == ms[2]);
            assert(odds.0@ =~= spec_pre_computed_odds(s).0@);
        }
    }
    odds
}

} // verus!
