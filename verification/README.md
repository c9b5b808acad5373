# shared

The rules of a monster-racing party game, kept as an event log and verified
with Verus.

- `src/` is the verified library. `events` defines the log; `projections`
  reads state back out of it (balances, debts, hands, players, the race's
  monsters, timers); `commands` checks a player's or the server's request
  against the log and answers with the events to append or a `CommandError`;
  `processors` and `process_managers` decide when the game moves on by itself;
  `laws` proves properties that span several requests, such as that accepted
  bets never exceed a balance or that debts stay within the limit.
- `rounding` computes in whole numbers the single-precision rounding that the
  game's payouts use; debt interest and Theft round the same way.
- Randomness comes from the `rand` crate and collections from `im`, both
  called through small trusted wrappers whose contracts are stated in
  `random.rs`, `events.rs` and `collections.rs`.
- `app/` holds what the library cannot compute: the race simulation, which is
  floating point, the server's processor loop that feeds it the clock and the
  simulated results, and the JSON forms of the library's types.
- `tests/` runs the library on concrete games.
