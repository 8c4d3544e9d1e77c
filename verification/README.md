# swarmfi

The logic of the SwarmFi protocol's five CosmWasm contracts, verified with
Verus:

- `bridge_adapter`: cross-chain transfers with a basis-point fee, settled
  once as completed or failed (a failed transfer refunds amount and fee);
- `prediction_market`: markets with one constant-product pool per outcome,
  trading, liquidity, resolution and cancellation;
- `reputation_registry`: agent task records with accuracy, reliability and
  tiers, user prediction records and badges;
- `swarm_oracle`: agent price votes, the weighted-median consensus of the
  recent votes within the outlier band, and decaying stigmergy signals;
- `vault_manager`: multi-asset vaults with shares, proportional withdrawal,
  rebalancing by whitelisted agents and a bounded performance history.

`src/` is the verified library. Each handler takes the stored values it
reads (as the storage layer returned them), the block time and the message,
and returns what is to be stored and the response; its contract states the
result for every input, each error with the inputs on which it comes. The
laws of the protocol are public proof functions beside the handlers they
speak of. Only three calls into `cosmwasm_std` (`Uint128::multiply_ratio`,
`Uint128::checked_multiply_ratio`, `Timestamp::minus_seconds`) are trusted,
in `src/common.rs`.

`app/` holds the contracts on chain: storage layout, JSON messages, address
validation and the instantiate, execute and query entry points around the
handlers. `tests/` runs the handlers on concrete values.
