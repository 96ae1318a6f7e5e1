# core_mx_life_bonding

A verified library of the logic of two MultiversX staking contracts.

* `src/bonding.rs` — the life-bonding contract: bonds locked per data NFT, their
  renewal, top-ups and withdrawal with an early-withdrawal penalty, and the
  compensation pools that collect the penalties and pay them out against deposited
  proofs.
* `src/rewards.rs`, `src/liveliness.rs` — the liveliness-stake contract: allocation of
  per-block rewards from a reserve (optionally capped by an annual rate), each staker's
  share through a rewards-per-share accumulator, and claims reduced by the staker's
  liveliness score.
* `src/ledger.rs` — the bond accounts: the total bond amount is the sum of the
  remaining amounts of the listed bonds. The endpoints keep it so, except a bond made
  for a data NFT whose bond is still listed (the stored bond is overwritten) and a
  renewal or top-up by the zero address (which reads a bond that is not stored).
* `src/deposits.rs` — the compensation accounts: each compensation's proof amount is
  the sum of the proofs deposited for it. The endpoints keep it so, except a second
  deposit by one holder for one compensation (the earlier record is replaced while its
  proof stays counted) and a bond made while the NFT's compensation holds deposits
  (the proof amount restarts at zero).
* `src/history.rs` — runs of endpoint calls on the life-bonding contract: a refund,
  once claimed, cannot be claimed again until its holder deposits a new proof for
  that compensation, whatever other calls come in between.
* `src/tables.rs`, `src/arith.rs` — the storage shapes (id mappers, unordered sets) and
  exact 128-bit arithmetic, including a full-width `a * b / c`.
* `app/` — the chain side: the typed proxy of the liveliness-stake contract and the
  ABI forms of its values.
