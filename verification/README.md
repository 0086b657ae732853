# xaver

A node staking ledger. An owner configures it; an operator opens and closes
it, registers stakers, credits income to liquid stakes, and settles a stake
once its cessation block has passed, paying its accumulated income out in the
stable asset.

- `src/` is the verified ledger: `xaver.rs` holds the state, its model, the
  transition of every message as a spec function and the executable messages
  proved against them; `laws.rs` holds the properties that span messages (the
  invariant that no account holds two stakes and that the stakes stay within
  the configured maximum, what `get_staker` reads after each message, that
  `unstake` undoes `stake`, and so on).
- `app/` is the ink! contract around it: it reads the caller and the block
  number from the chain, dispatches the asset transfers the ledger asks for
  and emits the events.
