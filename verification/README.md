# stellarflow_contracts

The decision logic of the StellarFlow Soroban contracts, written in Verus and
proved against its contracts.

- `src/` is the verified library: error codes (`errors`), asset identifiers
  (`asset`), the voting-weight ledger (`governance`), the limit order book
  (`orders`), vault liquidation (`liquidation`), the relayer quorum check
  (`relayer`), the state of the time-locked upgrade contract (`upgrade`) and
  the keyed tables they share (`store`). Public proof functions named `law_*`
  and `lemma_*` state the properties that hold across calls.
- `app/` holds the Soroban contract shells: storage, authorization, token
  transfers, signature checks and events around the library.
- `tests/` runs the library on concrete values.
