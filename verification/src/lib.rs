//! Verified core of the StellarFlow contracts: error codes, asset identifiers,
//! the voting-weight ledger, the limit order book, vault liquidation, the
//! relayer quorum check and the state of the time-locked upgrade contract.
pub mod asset;
pub mod errors;
pub mod governance;
pub mod liquidation;
pub mod orders;
pub mod relayer;
pub mod store;
pub mod types;
pub mod upgrade;
