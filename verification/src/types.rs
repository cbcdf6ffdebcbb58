//! Plain identifiers shared by the contracts.
use vstd::prelude::*;

verus! {

/// An account or contract address, as a plain identifier. The contract shell
/// keeps the correspondence between host addresses and these identifiers.
pub type AccountId = u64;

/// Numeric asset identifier used for compact storage keys.
pub type AssetId = u32;

/// A 32-byte value: a public key, a payload hash or a code hash.
pub type Hash32 = [u8; 32];

} // verus!
