use vstd::prelude::*;

use crate::events::{Odds, Probability};
use crate::monsters::Monster;
use crate::random::{random_u32s, seeded_u32s};

verus! {

/// How many races are simulated to estimate a round's odds.
pub const ODDS_RACES: u32 = 1000;

/// The seeds of the races simulated for the odds of a race with seed `seed`.
pub fn simulation_seeds(seed: u32) -> (seeds: Vec<u32>)
    ensures
        seeds@ == seeded_u32s(seed as u64, ODDS_RACES as usize),
        seeds@.len() == ODDS_RACES,
{
    random_u32s(seed as u64, ODDS_RACES as usize)
}

/// How many of the simulated races `id` won.
pub open spec fn wins_of(winners: Seq<u128>, id: u128) -> nat
    decreases winners.len(),
{
    if winners.len() == 0 {
        0
    } else {
        wins_of(winners.drop_last(), id) + if winners.last() == id {
            1nat
        } else {
            0nat
        }
    }
}

proof fn lemma_wins_bound(winners: Seq<u128>, id: u128)
    ensures
        wins_of(winners, id) <= winners.len(),
    decreases winners.len(),
{
    if winners.len() > 0 {
        lemma_wins_bound(winners.drop_last(), id);
    }
}

/// The odds of each monster: the races it won out of those simulated.
pub open spec fn spec_tally(monsters: Seq<Monster>, winners: Seq<u128>) -> Seq<(u128, Probability)> {
    Seq::new(
        3,
        |k: int| (monsters[k].uuid, Probability { wins: wins_of(winners, monsters[k].uuid) as u32, races: ODDS_RACES }),
    )
}

/// The odds of the monsters from the winners of the simulated races.
pub fn tally_odds(monsters: &[Monster; 3], winners: &Vec<u128>) -> (odds: Odds)
    requires
        winners@.len() <= u32::MAX,
    ensures
        odds.0@ == spec_tally(monsters@, winners@),
{
    let mut counts: [u32; 3] = [0, 0, 0];
    let mut i: usize = 0;
    while i < winners.len()
        invariant
            i <= winners@.len(),
            winners@.len() <= u32::MAX,
            forall|k: int| 0 <= k < 3 ==> counts@[k] == wins_of(winners@.take(i as int), monsters@[k].uuid),
        decreases winners.len() - i,
    {
        proof {
            assert(winners@.take(i + 1).drop_last() =~= winners@.take(i as int));
            assert forall|k: int| 0 <= k < 3 implies wins_of(winners@.take(i as int), monsters@[k].uuid) < u32::MAX by {
                lemma_wins_bound(winners@.take(i as int), monsters@[k].uuid);
            }
        }
        let w = winners[i];
        if monsters[0].uuid == w {
            counts[0] = counts[0] + 1;
        }
        if monsters[1].uuid == w {
            counts[1] = counts[1] + 1;
        }
        if monsters[2].uuid == w {
            counts[2] = counts[2] + 1;
        }
        i = i + 1;
    }
    proof {
        assert(winners@.take(winners@.len() as int) =~= winners@);
    }
    let odds = Odds([
        (monsters[0].uuid, Probability { wins: counts[0], races: ODDS_RACES }),
        (monsters[1].uuid, Probability { wins: counts[1], races: ODDS_RACES }),
        (monsters[2].uuid, Probability { wins: counts[2], races: ODDS_RACES }),
    ]);
    proof {
        assert(odds.0@ =~= spec_tally(monsters@, winners@));
    }
    odds
}

} // verus!
