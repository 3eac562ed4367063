# Crowdloans

Support parachains' crowdloans while releasing liquidity via crowdloan derivatives.

A *vault* collects the contributions to one crowdloan for one lease. A contribution
is held back until the vault opens, is then on its way to the relay chain, and
counts as confirmed once the relay chain reports that it took it. When the auction
is won, contributors claim a derivative of the lease, which can be redeemed when the
slot expires; when it is lost, they withdraw what they contributed.

## Layout

- `src/` is the pallet. Every call has a contract that gives its result and the new
  state of the pallet and of the runtime around it.
  - `types`, `storage_map`, `bytes`: values and containers.
  - `config`: what the pallet asks of its runtime.
  - `outside`: what is taken from the Substrate and Polkadot crates.
  - `state`: the model that contracts speak of.
  - `pallet`, `contributions`, `relay`, `vaults`, `funding`, `payouts`, `rates`: the
    calls and what they are made of.
  - `tally`, `upkeep`, `history`, `rollback`, `laws`, `ledger`: what holds in every
    state, from call to call, of failed calls, across calls, and of what was claimed
    and redeemed.
- `tests/` runs the pallet in a mock runtime.
- `app/` ties the pallet to a FRAME runtime: its services, origins, events and errors,
  and the worth of a derivative, which is computed in floating point. The runtime
  keeps the pallet's storage.
