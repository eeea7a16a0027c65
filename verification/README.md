# ovl_staking

A staking contract for the Concordium chain, with its logic verified in Verus.

Staking keeps a lock of tokens for a number of days. Through the contract's
`stake` entrypoint every request is refused with `InvalidStakingDuration`:
its two duration checks are each inverted, so no duration passes both. The
library's `State::stake` itself takes any duration. The amount a holder has
staked sets a tier (the number of thresholds of the tier table it reaches) and a number of
credits; credits can be placed with projects and taken back. Locks earn a
reward from a safe of tokens; leaving a lock early costs a fee.

## Layout

- `src/` — the verified library.
  - `types.rs`, `errors.rs`: plain value types, parameters, responses, errors.
  - `assoc.rs`: association lists (no key twice) and sums over them.
  - `order.rs`: the order in which storage lists a holder's projects (by the
    bytes a contract address is stored under).
  - `encoding.rs`: reading the lock duration from the bytes that come with
    received tokens.
  - `tiers.rs`: the tier table (a `BTreeMap` by threshold, read in increasing
    order of threshold), the tier and credits of an amount, and building the
    table from parameters.
  - `state.rs`: the state, its mathematical view and its invariant.
  - `staking.rs`, `credits.rs`, `reward.rs`: the operations, each specified by
    a spec function of the state view.
  - `contract.rs`: the decisions of the entrypoints.
  - `bounds.rs`: tests of the conditions under which operations complete.
  - `laws.rs`: properties across operations (totals kept, amounts matching
    the locks, credits balanced, one operation undoing another, how rewards
    grow, the unstake entrypoint agreeing with its view).
  - `time.rs`: time arithmetic through `concordium_std`.
- `app/` — the contract entrypoints for the host: parameter parsing, state
  storage, token transfers and upgrades.
- `tests/` — tests of the library on concrete values.
