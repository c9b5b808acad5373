use vstd::prelude::*;

use crate::cards::{Card, Target};
use crate::collections::{hand_map, hands_get, hands_insert, hands_new};
use crate::events::{log, log_at, log_len, Event};
use crate::projections::{
    bought_cards, lemma_take_step, player_count, race_seed_for_round, settings, spec_bought_cards,
    spec_player_count, spec_race_seed_for_round, spec_settings, starts_with_creation,
};
use crate::random::{draw_weighted, weighted_draws};

verus! {

/// The deck's cards by position; `spec_deck_weight` gives how often each is drawn.
pub open spec fn spec_deck_card(i: usize) -> Card {
    match i {
        0 => Card::Poison,
        1 => Card::ExtraRations,
        2 => Card::TasteTester,
        3 => Card::PsyBlast,
        4 => Card::Meditation,
        5 => Card::TinfoilHat,
        6 => Card::Nepotism,
        7 => Card::Theft,
        8 => Card::Extortion,
        9 => Card::Stupify,
        10 => Card::Scrutiny,
        _ => Card::Crystals,
    }
}

pub open spec fn spec_deck_weights() -> Seq<usize> {
    seq![10usize, 10, 10, 10, 10, 10, 3, 8, 8, 4, 4, 5]
}

fn deck_card(i: usize) -> (card: Card)
    ensures
        card == spec_deck_card(i),
{
    match i {
        0 => Card::Poison,
        1 => Card::ExtraRations,
        2 => Card::TasteTester,
        3 => Card::PsyBlast,
        4 => Card::Meditation,
        5 => Card::TinfoilHat,
        6 => Card::Nepotism,
        7 => Card::Theft,
        8 => Card::Extortion,
        9 => Card::Stupify,
        10 => Card::Scrutiny,
        _ => Card::Crystals,
    }
}

fn deck_weights() -> (weights: Vec<usize>)
    ensures
        weights@ == spec_deck_weights(),
{
    let weights: Vec<usize> = vec![10, 10, 10, 10, 10, 10, 3, 8, 8, 4, 4, 5];
    proof {
        assert(weights@ =~= spec_deck_weights());
    }
    weights
}

/// The cards `n` draws from the deck give with the generator seeded by `seed`.
pub open spec fn spec_draw(seed: u64, n: usize) -> Seq<Card> {
    Seq::new(n as nat, |i: int| spec_deck_card(weighted_draws(spec_deck_weights(), seed, n)[i]))
}

/// The seed of a draw: the race seed of the round numbered by the cards bought
/// so far, mixed with `seed`.
pub open spec fn spec_draw_seed(s: Seq<Event>, seed: u64) -> u64 {
    (spec_race_seed_for_round(s[0]->game_id, spec_bought_cards(s) as u32) as u64) ^ seed
}

/// `n` cards drawn from the weighted deck. The same log and seed always draw
/// the same cards; for an empty log the draw comes from a random code.
pub fn draw_n_cards_from_deck(events: &im::Vector<Event>, seed: u64, n: usize) -> (cards: Vec<Card>)
    requires
        starts_with_creation(log(*events)),
        spec_bought_cards(log(*events)) <= u32::MAX,
    ensures
        cards@.len() == n,
        log(*events).len() > 0 ==> cards@ == spec_draw(spec_draw_seed(log(*events), seed), n),
{
    let weights = deck_weights();
    let round = bought_cards(events);
    let race_seed = race_seed_for_round(events, round);
    let mixed = race_seed as u64 ^ seed;
    proof {
        assert(weights@[0] > 0);
        assert(weights@.len() > 0);
        assert(spec_deck_weights().fold_left(0int, |acc: int, w: usize| acc + w) <= usize::MAX) by {
            reveal_with_fuel(Seq::fold_left, 13);
        }
    }
    let draws = draw_weighted(&weights, mixed, n);
    let mut cards: Vec<Card> = Vec::new();
    let mut i: usize = 0;
    while i < n
        invariant
            i <= n,
            draws@.len() == n,
            cards@.len() == i,
            forall|j: int| 0 <= j < i ==> cards@[j] == spec_deck_card(#[trigger] draws@[j]),
        decreases n - i,
    {
        cards.push(deck_card(draws[i]));
        i = i + 1;
    }
    proof {
        if log(*events).len() > 0 {
            assert(cards@ =~= spec_draw(spec_draw_seed(log(*events), seed), n));
        }
    }
    cards
}

/// The cards a player joins with: none, or three drawn with the player's
/// session (its low 64 bits) as the seed.
pub fn initial_cards(events: &im::Vector<Event>, player: u128) -> (cards: Vec<Card>)
    requires
        log(*events).len() > 0,
        spec_settings(log(*events)).starting_cards == 0 || spec_settings(log(*events)).starting_cards == 3,
        spec_settings(log(*events)).starting_cards == 3 ==> spec_bought_cards(log(*events)) <= u32::MAX,
    ensures
        spec_settings(log(*events)).starting_cards == 0 ==> cards@ == Seq::<Card>::empty(),
        spec_settings(log(*events)).starting_cards == 3 ==> cards@ == spec_draw(
            spec_draw_seed(log(*events), player as u64),
            3,
        ),
{
    let st = settings(events);
    if st.starting_cards == 0 {
        Vec::new()
    } else {
        draw_n_cards_from_deck(events, player as u64, 3)
    }
}


/// The position of the first `card` in a hand, if it holds one.
pub open spec fn first_position(hand: Seq<Card>, card: Card) -> Option<int>
    decreases hand.len(),
{
    if hand.len() == 0 {
        None
    } else {
        match first_position(hand.drop_last(), card) {
            Some(i) => Some(i),
            None => if hand.last() == card {
                Some(hand.len() - 1)
            } else {
                None
            },
        }
    }
}

/// A hand without its first copy of `card` (unchanged when it holds none).
pub open spec fn without_card(hand: Seq<Card>, card: Card) -> Seq<Card> {
    match first_position(hand, card) {
        Some(i) => hand.remove(i),
        None => hand,
    }
}

/// The hand held under `k`, empty when there is none.
pub open spec fn hand_of(hands: Map<u128, Seq<Card>>, k: u128) -> Seq<Card> {
    if hands.contains_key(k) {
        hands[k]
    } else {
        Seq::empty()
    }
}

/// Up to two cards taken from the end of a hand, last card first.
pub open spec fn taken_by_extortion(hand: Seq<Card>) -> Seq<Card> {
    if hand.len() >= 2 {
        seq![hand[hand.len() - 1], hand[hand.len() - 2]]
    } else if hand.len() == 1 {
        seq![hand[0]]
    } else {
        Seq::empty()
    }
}

/// A hand after Extortion took its last (up to two) cards.
pub open spec fn left_after_extortion(hand: Seq<Card>) -> Seq<Card> {
    if hand.len() >= 2 {
        hand.take(hand.len() - 2)
    } else {
        Seq::empty()
    }
}

/// The player robbed when `card` is Extortion played on another player.
pub open spec fn extortion_victim(source: u128, card: Card, target: Target) -> Option<u128> {
    match target {
        Target::Player(victim) => if card == Card::Extortion && victim != source {
            Some(victim)
        } else {
            None
        },
        _ => None,
    }
}

/// Whether `card` played on `target` is Scrutiny aimed (among others) at `player`.
pub open spec fn scrutiny_on(card: Card, target: Target, player: u128) -> bool {
    match target {
        Target::MultiplePlayers(ts) => card == Card::Scrutiny && ts@.contains(player),
        _ => false,
    }
}

/// The hands fold: joining gives a player their initial cards, buying adds a
/// card, playing a card removes it, and Extortion played on another player
/// moves the victim's last two cards to the player instead.
pub open spec fn spec_hands(s: Seq<Event>) -> Map<u128, Seq<Card>>
    decreases s.len(),
{
    if s.len() == 0 {
        Map::empty()
    } else {
        let m = spec_hands(s.drop_last());
        match s.last() {
            Event::PlayerJoined { session_id, initial_cards, .. } => m.insert(session_id, initial_cards@),
            Event::BoughtCard { session_id, card } => m.insert(session_id, hand_of(m, session_id).push(card)),
            Event::PlayedCard { session_id, card, target } => match extortion_victim(session_id, card, target) {
                Some(victim) => {
                    let victim_hand = hand_of(m, victim);
                    let m2 = m.insert(victim, left_after_extortion(victim_hand));
                    m2.insert(
                        session_id,
                        without_card(hand_of(m2, session_id), Card::Extortion) + taken_by_extortion(victim_hand),
                    )
                },
                None => m.insert(session_id, without_card(hand_of(m, session_id), card)),
            },
            _ => m,
        }
    }
}

/// The cards a player holds.
pub open spec fn spec_cards_in_hand(s: Seq<Event>, player: u128) -> Seq<Card> {
    hand_of(spec_hands(s), player)
}

fn remove_card(hand: &mut Vec<Card>, card: Card)
    ensures
        final(hand)@ == without_card(old(hand)@, card),
{
    let ghost h = hand@;
    assert(h == old(hand)@);
    let mut i: usize = 0;
    while i < hand.len()
        invariant
            h == old(hand)@,
            hand@ == h,
            i <= h.len(),
            first_position(h.take(i as int), card) is None,
        decreases hand.len() - i,
    {
        proof {
            assert(h.take(i + 1).drop_last() =~= h.take(i as int));
        }
        if hand[i] == card {
            proof {
                lemma_first_position_prefix(h, card, i as int);
            }
            hand.remove(i);
            proof {
                assert(hand@ == h.remove(i as int));
                assert(without_card(h, card) == h.remove(i as int));
            }
            return;
        }
        i = i + 1;
    }
    proof {
        assert(h.take(h.len() as int) =~= h);
    }
}

proof fn lemma_first_position_prefix(h: Seq<Card>, card: Card, i: int)
    requires
        0 <= i < h.len(),
        first_position(h.take(i), card) is None,
        h[i] == card,
    ensures
        first_position(h, card) == Some(i),
    decreases h.len(),
{
    if i < h.len() - 1 {
        assert(h.drop_last().take(i) =~= h.take(i));
        lemma_first_position_prefix(h.drop_last(), card, i);
    } else {
        assert(h.drop_last() =~= h.take(i));
    }
}

fn hand_or_empty(hands: &im::OrdMap<u128, Vec<Card>>, k: u128) -> (hand: Vec<Card>)
    ensures
        hand@ == hand_of(hand_map(*hands), k),
{
    match hands_get(hands, k) {
        Some(h) => h,
        None => Vec::new(),
    }
}

/// The cards a player holds, in the order they came to them.
pub fn cards_in_hand(events: &im::Vector<Event>, player: u128) -> (cards: Vec<Card>)
    ensures
        cards@ == spec_cards_in_hand(log(*events), player),
{
    let ghost s = log(*events);
    let n = log_len(events);
    let mut hands = hands_new();
    let mut i: usize = 0;
    proof {
        assert(s.take(0) =~= Seq::<Event>::empty());
        assert(hand_map(hands) =~= spec_hands(s.take(0)));
    }
    while i < n
        invariant
            n == s.len(),
            s == log(*events),
            i <= n,
            hand_map(hands) == spec_hands(s.take(i as int)),
        decreases n - i,
    {
        proof {
            lemma_take_step(s, i as int);
        }
        match log_at(events, i) {
            Event::PlayerJoined { session_id, initial_cards, .. } => {
                let mut copy: Vec<Card> = Vec::new();
                let mut j: usize = 0;
                while j < initial_cards.len()
                    invariant
                        j <= initial_cards@.len(),
                        copy@ == initial_cards@.take(j as int),
                    decreases initial_cards.len() - j,
                {
                    copy.push(initial_cards[j]);
                    proof {
                        assert(initial_cards@.take(j + 1) =~= initial_cards@.take(j as int).push(initial_cards@[j as int]));
                    }
                    j = j + 1;
                }
                proof {
                    assert(initial_cards@.take(initial_cards@.len() as int) =~= initial_cards@);
                }
                hands_insert(&mut hands, *session_id, copy);
            },
            Event::BoughtCard { session_id, card } => {
                let mut hand = hand_or_empty(&hands, *session_id);
                hand.push(*card);
                hands_insert(&mut hands, *session_id, hand);
            },
            Event::PlayedCard { session_id, card, target } => {
                let victim = match target {
                    Target::Player(t) => if *card == Card::Extortion && *t != *session_id {
                        Some(*t)
                    } else {
                        None
                    },
                    _ => None,
                };
                match victim {
                    Some(t) => {
                        let mut target_cards = hand_or_empty(&hands, t);
                        let ghost before = target_cards@;
                        let mut removed: Vec<Card> = Vec::new();
                        if let Some(c) = target_cards.pop() {
                            removed.push(c);
                        }
                        if let Some(c) = target_cards.pop() {
                            removed.push(c);
                        }
                        proof {
                            assert(removed@ =~= taken_by_extortion(before));
                            assert(target_cards@ =~= left_after_extortion(before));
                        }
                        hands_insert(&mut hands, t, target_cards);
                        let mut source_cards = hand_or_empty(&hands, *session_id);
                        remove_card(&mut source_cards, Card::Extortion);
                        source_cards.append(&mut removed);
                        hands_insert(&mut hands, *session_id, source_cards);
                    },
                    None => {
                        let mut hand = hand_or_empty(&hands, *session_id);
                        remove_card(&mut hand, *card);
                        hands_insert(&mut hands, *session_id, hand);
                    },
                }
            },
            _ => {},
        }
        i = i + 1;
    }
    proof {
        assert(s.take(n as int) =~= s);
    }
    hand_or_empty(&hands, player)
}

/// How many cards each player may play in a round: three with up to three
/// players, two with four to eight, one with nine or more.
pub open spec fn spec_max_cards(players: nat) -> nat {
    if players <= 3 {
        3
    } else if players <= 8 {
        2
    } else {
        1
    }
}

/// Reading the log backwards from its end with `count` plays of the player
/// seen so far: the player may play another card if the current round started
/// and they played fewer than `max` cards in it, and no Scrutiny targeting them
/// was played in it after their latest play.
pub open spec fn can_play_from(s: Seq<Event>, player: u128, max: nat, count: nat) -> bool
    decreases s.len(),
{
    if s.len() == 0 {
        false
    } else {
        match s.last() {
            Event::RoundStarted { .. } => count < max,
            Event::PlayedCard { session_id, card, target } => if session_id == player {
                can_play_from(s.drop_last(), player, max, count + 1)
            } else if scrutiny_on(card, target, player) {
                false
            } else {
                can_play_from(s.drop_last(), player, max, count)
            },
            _ => can_play_from(s.drop_last(), player, max, count),
        }
    }
}

pub open spec fn spec_can_play_more_cards(s: Seq<Event>, player: u128) -> bool {
    can_play_from(s, player, spec_max_cards(spec_player_count(s)), 0)
}

fn scrutinised(targets: &Vec<u128>, player: u128) -> (found: bool)
    ensures
        found == targets@.contains(player),
{
    let mut i: usize = 0;
    while i < targets.len()
        invariant
            i <= targets.len(),
            forall|j: int| 0 <= j < i ==> targets@[j] != player,
        decreases targets.len() - i,
    {
        if targets[i] == player {
            return true;
        }
        i = i + 1;
    }
    false
}

/// Whether the player may still play a card this round.
pub fn can_play_more_cards(events: &im::Vector<Event>, player: u128) -> (can_play: bool)
    ensures
        can_play == spec_can_play_more_cards(log(*events), player),
{
    let ghost s = log(*events);
    let players = player_count(events);
    let max_cards: usize = if players <= 3 {
        3
    } else if players <= 8 {
        2
    } else {
        1
    };
    let mut count: usize = 0;
    let mut i: usize = log_len(events);
    let ghost n = i;
    proof {
        assert(s.take(i as int) =~= s);
    }
    while i > 0
        invariant
            n == s.len(),
            i <= n,
            s == log(*events),
            count <= n - i,
            max_cards == spec_max_cards(spec_player_count(s)),
            spec_can_play_more_cards(s, player) == can_play_from(s.take(i as int), player, max_cards as nat, count as nat),
        decreases i,
    {
        proof {
            lemma_take_step(s, i - 1);
        }
        match log_at(events, i - 1) {
            Event::RoundStarted { .. } => {
                return count < max_cards;
            },
            Event::PlayedCard { session_id, card, target } => {
                if *session_id == player {
                    count = count + 1;
                } else if *card == Card::Scrutiny {
                    if let Target::MultiplePlayers(targets) = target {
                        if scrutinised(targets, player) {
                            return false;
                        }
                    }
                }
            },
            _ => {},
        }
        i = i - 1;
    }
    false
}

} // verus!
