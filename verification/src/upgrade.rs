//! State of the time-locked upgrade contract: its admin data, node stakes,
//! signer set, price-feed heartbeats, node profiles, feed stakes and the staged
//! code upgrade.
//!
//! Each operation either fails and leaves the state as it was (the host rolls
//! a failed call back), or succeeds and updates it. Some checks of the contract
//! live in modules whose source is not part of this library (nonce and staging
//! access checks, revocation status, liquidity depth, schema version, ballots,
//! multisig weights, timelock readiness, staking tiers); their outcomes come in
//! as arguments, and each operation consults them at the point where the
//! contract does.
use vstd::prelude::*;

use crate::errors::ContractError;
use crate::store::{FeedKey, KeyedStore};
use crate::types::{AccountId, AssetId, Hash32};

verus! {

/// The heartbeat interval, in seconds, until an admin sets another.
pub const DEFAULT_HEARTBEAT_INTERVAL: u64 = 300;

/// Asset slot of the heartbeat that node registration records.
pub const REGISTRATION_HEARTBEAT_ASSET: AssetId = 0;

/// Asset slot of the heartbeat that a value update records.
pub const VALUE_HEARTBEAT_ASSET: AssetId = 1;

/// Seconds of inactivity after which a feed stake's storage rent has lapsed.
pub const RENT_THRESHOLD: u64 = 259_200;

/// The contract's admin and its stored value.
#[derive(Copy, Clone, Debug, PartialEq, Eq, Structural)]
pub struct ContractData {
    pub admin: AccountId,
    pub value: u64,
}

/// A node's registration stake.
#[derive(Copy, Clone, Debug, PartialEq, Eq, Structural)]
pub struct StakeRecord {
    pub node: AccountId,
    pub amount: u64,
    pub registered_at: u64,
}

/// A relayer node's latest reported rate.
#[derive(Copy, Clone, Debug, PartialEq, Eq, Structural)]
pub struct NodeProfile {
    pub node: AccountId,
    pub rate: u64,
    pub confidence: u32,
    pub updated_at: u64,
}

/// A node's stake in one asset feed and when it was last active.
#[derive(Copy, Clone, Debug, PartialEq, Eq, Structural)]
pub struct FeedStakeValue {
    pub amount: u64,
    pub last_active: u64,
}

/// The record of a feed stake registration, with the staking tier `T` that
/// the asset had at the time.
#[derive(Debug, PartialEq, Eq)]
pub struct FeedStakeRecord<T> {
    pub node: AccountId,
    pub asset: AssetId,
    pub amount: u64,
    pub tier: T,
    pub registered_at: u64,
}

/// An asset feed's market metrics: its volume score (0 to 100) and volatility.
#[derive(Copy, Clone, Debug, PartialEq, Eq, Structural)]
pub struct AssetFeedMetrics {
    pub volume_score: u32,
    pub volatility_bps: u32,
}

/// The metrics an asset feed has until an admin records some.
pub open spec fn default_feed_metrics() -> AssetFeedMetrics {
    AssetFeedMetrics { volume_score: 10, volatility_bps: 100 }
}

/// `asset`'s recorded feed metrics, or the defaults when none are recorded.
pub open spec fn recorded_feed_metrics(s: UpgradeStateView, asset: AssetId) -> AssetFeedMetrics {
    if s.feed_metrics.contains_key(asset) {
        s.feed_metrics[asset]
    } else {
        default_feed_metrics()
    }
}

/// A multi-signature proposal to replace a compromised key.
pub struct RevocationProposal {
    pub target: AccountId,
    pub replacement: AccountId,
    pub proposer: AccountId,
    pub proposed_at: u64,
    pub votes: Vec<AccountId>,
}

/// An upgrade staged for execution once its timelock has passed.
#[derive(Copy, Clone, Debug, PartialEq, Eq)]
pub struct StagedUpgrade {
    pub new_wasm_hash: Hash32,
    pub proposer: AccountId,
    pub staged_at: u64,
    pub execute_at: u64,
}

/// The governance record of a proposed upgrade and its co-signers.
pub struct GovernanceUpgradeProposal {
    pub new_wasm_hash: Hash32,
    pub proposer: AccountId,
    pub staged_at: u64,
    pub signers: Vec<AccountId>,
}

/// The abstract state of the contract.
pub struct UpgradeStateView {
    pub data: Option<ContractData>,
    pub treasury: Option<AccountId>,
    pub stakes: Map<AccountId, u64>,
    pub stake_registry: Map<AccountId, u64>,
    pub total_staked: u64,
    pub signers: Set<AccountId>,
    pub signer_count: u32,
    pub heartbeat_interval: Option<u64>,
    pub heartbeats: Map<AssetId, u64>,
    pub pending_upgrade: Option<StagedUpgrade>,
    pub proposal: Option<(Hash32, AccountId, u64, Seq<AccountId>)>,
    pub current_wasm: Option<Hash32>,
    pub node_profiles: Map<AccountId, NodeProfile>,
    pub feed_stakes: Map<FeedKey, FeedStakeValue>,
    pub feed_metrics: Map<AssetId, AssetFeedMetrics>,
    pub platform_capital: Option<u64>,
}

/// The state of the time-locked upgrade contract.
pub struct TimeLockedUpgradeContract {
    data: Option<ContractData>,
    treasury: Option<AccountId>,
    stakes: KeyedStore<AccountId, u64>,
    stake_registry: KeyedStore<AccountId, u64>,
    total_staked: u64,
    signers: KeyedStore<AccountId, bool>,
    signer_count: u32,
    heartbeat_interval: Option<u64>,
    heartbeats: KeyedStore<AssetId, u64>,
    pending_upgrade: Option<StagedUpgrade>,
    governance_proposal: Option<GovernanceUpgradeProposal>,
    current_wasm: Option<Hash32>,
    node_profiles: KeyedStore<AccountId, NodeProfile>,
    feed_stakes: KeyedStore<FeedKey, FeedStakeValue>,
    feed_metrics: KeyedStore<AssetId, AssetFeedMetrics>,
    platform_capital: Option<u64>,
}

/// The heartbeat interval in force.
pub open spec fn interval_of(s: UpgradeStateView) -> u64 {
    match s.heartbeat_interval {
        Some(i) => i,
        None => DEFAULT_HEARTBEAT_INTERVAL,
    }
}

/// Whether `caller` is the initialized contract's admin.
pub open spec fn is_admin(s: UpgradeStateView, caller: AccountId) -> bool {
    s.data matches Some(d) && d.admin == caller
}

/// The admin check that most operations make: `NotInitialized` before
/// initialization, `NotAdmin` for anyone but the admin.
pub open spec fn admin_error(s: UpgradeStateView, caller: AccountId) -> Option<ContractError> {
    match s.data {
        None => Some(ContractError::NotInitialized),
        Some(d) => if d.admin != caller {
            Some(ContractError::NotAdmin)
        } else {
            None
        },
    }
}

/// The first failure among an outside check's outcome and then a later error.
pub open spec fn first_error(check: Result<(), ContractError>, later: Option<ContractError>) -> Option<
    ContractError,
> {
    match check {
        Err(e) => Some(e),
        Ok(()) => later,
    }
}

/// The state after a node registered `amount` at time `now`.
pub open spec fn staked(s: UpgradeStateView, node: AccountId, amount: u64, now: u64) -> UpgradeStateView {
    UpgradeStateView {
        stakes: s.stakes.insert(node, amount),
        stake_registry: s.stake_registry.insert(node, amount),
        total_staked: (s.total_staked + amount) as u64,
        heartbeats: s.heartbeats.insert(REGISTRATION_HEARTBEAT_ASSET, now),
        ..s
    }
}

/// The state after a node withdrew its registration stake.
pub open spec fn unstaked(s: UpgradeStateView, node: AccountId) -> UpgradeStateView {
    UpgradeStateView {
        stakes: s.stakes.remove(node),
        stake_registry: s.stake_registry.remove(node),
        total_staked: if s.total_staked >= s.stakes[node] {
            (s.total_staked - s.stakes[node]) as u64
        } else {
            0
        },
        ..s
    }
}

/// Why a registration is refused, checked in this order.
pub open spec fn stake_error(
    s: UpgradeStateView,
    node: AccountId,
    amount: u64,
    not_revoked: Result<(), ContractError>,
) -> Option<ContractError> {
    if amount == 0 {
        Some(ContractError::InvalidStakeAmount)
    } else if not_revoked is Err {
        Some(not_revoked->Err_0)
    } else if s.stakes.contains_key(node) {
        Some(ContractError::AlreadyRegistered)
    } else if s.total_staked + amount > u64::MAX {
        Some(ContractError::Overflow)
    } else {
        None
    }
}

/// Whether `asset`'s price data is fresh at time `now`: it has a heartbeat no
/// older than the heartbeat interval.
pub open spec fn fresh(s: UpgradeStateView, asset: AssetId, now: u64) -> bool {
    s.heartbeats.contains_key(asset) && (if now >= s.heartbeats[asset] {
        now - s.heartbeats[asset]
    } else {
        0
    }) <= interval_of(s)
}

/// The number of votes that carries a revocation: a strict majority of the
/// registered signers, or one vote when there are none.
pub open spec fn threshold_for(signer_count: u32) -> u32 {
    if signer_count == 0 {
        1
    } else {
        (signer_count / 2 + 1) as u32
    }
}

/// The rate a node profile reports: none while its confidence is zero.
pub open spec fn rate_of(profile: NodeProfile) -> Option<u64> {
    if profile.confidence == 0 {
        None
    } else {
        Some(profile.rate)
    }
}

impl TimeLockedUpgradeContract {
    /// The abstract state.
    pub closed spec fn view(&self) -> UpgradeStateView {
        UpgradeStateView {
            data: self.data,
            treasury: self.treasury,
            stakes: self.stakes@,
            stake_registry: self.stake_registry@,
            total_staked: self.total_staked,
            signers: self.signers@.dom(),
            signer_count: self.signer_count,
            heartbeat_interval: self.heartbeat_interval,
            heartbeats: self.heartbeats@,
            pending_upgrade: self.pending_upgrade,
            proposal: match self.governance_proposal {
                Some(p) => Some((p.new_wasm_hash, p.proposer, p.staged_at, p.signers@)),
                None => None,
            },
            current_wasm: self.current_wasm,
            node_profiles: self.node_profiles@,
            feed_stakes: self.feed_stakes@,
            feed_metrics: self.feed_metrics@,
            platform_capital: self.platform_capital,
        }
    }

    /// The tables' bookkeeping.
    pub closed spec fn wf(&self) -> bool {
        &&& self.stakes.wf()
        &&& self.stake_registry.wf()
        &&& self.signers.wf()
        &&& self.heartbeats.wf()
        &&& self.node_profiles.wf()
        &&& self.feed_stakes.wf()
        &&& self.feed_metrics.wf()
    }

    /// A contract that has not been initialized.
    pub fn new() -> (c: Self)
        ensures
            c.wf(),
            c.view() == (UpgradeStateView {
                data: None,
                treasury: None,
                stakes: Map::empty(),
                stake_registry: Map::empty(),
                total_staked: 0,
                signers: Set::empty(),
                signer_count: 0,
                heartbeat_interval: None,
                heartbeats: Map::empty(),
                pending_upgrade: None,
                proposal: None,
                current_wasm: None,
                node_profiles: Map::empty(),
                feed_stakes: Map::empty(),
                feed_metrics: Map::empty(),
                platform_capital: None,
            }),
    {
        let c = TimeLockedUpgradeContract {
            data: None,
            treasury: None,
            stakes: KeyedStore::new(),
            stake_registry: KeyedStore::new(),
            total_staked: 0,
            signers: KeyedStore::new(),
            signer_count: 0,
            heartbeat_interval: None,
            heartbeats: KeyedStore::new(),
            pending_upgrade: None,
            governance_proposal: None,
            current_wasm: None,
            node_profiles: KeyedStore::new(),
            feed_stakes: KeyedStore::new(),
            feed_metrics: KeyedStore::new(),
            platform_capital: None,
        };
        assert(c.signers@.dom() =~= Set::<AccountId>::empty());
        c
    }

    /// The admin check of most operations.
    fn check_admin(&self, caller: AccountId) -> (r: Result<ContractData, ContractError>)
        ensures
            r == (match admin_error(self.view(), caller) {
                Some(e) => Err(e),
                None => Ok::<ContractData, ContractError>(self.data.unwrap()),
            }),
    {
        match self.data {
            None => Err(ContractError::NotInitialized),
            Some(d) => if d.admin != caller {
                Err(ContractError::NotAdmin)
            } else {
                Ok(d)
            },
        }
    }

    /// Initialize the contract with its admin and treasury. `schema_check` is
    /// the outcome of the storage schema check made first.
    pub fn initialize(
        &mut self,
        admin: AccountId,
        treasury: AccountId,
        schema_check: Result<(), ContractError>,
    ) -> (r: Result<(), ContractError>)
        requires
            old(self).wf(),
        ensures
            final(self).wf(),
            ({
                let err = first_error(
                    schema_check,
                    if old(self).view().data is Some { Some(ContractError::AlreadyInitialized) } else { None },
                );
                &&& r == (match err {
                    Some(e) => Err(e),
                    None => Ok(()),
                })
                &&& final(self).view() == (if err is Some {
                    old(self).view()
                } else {
                    UpgradeStateView {
                        data: Some(ContractData { admin, value: 0 }),
                        treasury: Some(treasury),
                        ..old(self).view()
                    }
                })
            }),
    {
        if let Err(e) = schema_check {
            return Err(e);
        }
        if self.data.is_some() {
            return Err(ContractError::AlreadyInitialized);
        }
        self.data = Some(ContractData { admin, value: 0 });
        self.treasury = Some(treasury);
        Ok(())
    }

    /// Register `node` with a stake of `amount` at time `now`. `not_revoked`
    /// is the outcome of the check that the node's key is not revoked.
    pub fn stake_and_register(
        &mut self,
        node: AccountId,
        amount: u64,
        now: u64,
        not_revoked: Result<(), ContractError>,
    ) -> (r: Result<StakeRecord, ContractError>)
        requires
            old(self).wf(),
        ensures
            final(self).wf(),
            r == (match stake_error(old(self).view(), node, amount, not_revoked) {
                Some(e) => Err(e),
                None => Ok::<StakeRecord, ContractError>(StakeRecord { node, amount, registered_at: now }),
            }),
            final(self).view() == (if r is Err {
                old(self).view()
            } else {
                staked(old(self).view(), node, amount, now)
            }),
    {
        if amount == 0 {
            return Err(ContractError::InvalidStakeAmount);
        }
        if let Err(e) = not_revoked {
            return Err(e);
        }
        if self.stakes.contains(&node) {
            return Err(ContractError::AlreadyRegistered);
        }
        let new_total = match self.total_staked.checked_add(amount) {
            Some(t) => t,
            None => return Err(ContractError::Overflow),
        };
        self.stakes.set(node, amount);
        self.stake_registry.set(node, amount);
        self.total_staked = new_total;
        self.heartbeats.set(REGISTRATION_HEARTBEAT_ASSET, now);
        Ok(StakeRecord { node, amount, registered_at: now })
    }

    /// Withdraw `node`'s registration stake, returning its amount.
    pub fn unstake(&mut self, node: AccountId) -> (r: Result<u64, ContractError>)
        requires
            old(self).wf(),
        ensures
            final(self).wf(),
            r == (if old(self).view().stakes.contains_key(node) {
                Ok::<u64, ContractError>(old(self).view().stakes[node])
            } else {
                Err(ContractError::NotRegistered)
            }),
            final(self).view() == (if r is Err {
                old(self).view()
            } else {
                unstaked(old(self).view(), node)
            }),
            r matches Ok(a) ==> final(self).view().total_staked == (if old(self).view().total_staked >= a {
                old(self).view().total_staked - a
            } else {
                0
            }),
            r is Ok ==> !final(self).view().stakes.contains_key(node),
            r is Ok ==> !final(self).view().stake_registry.contains_key(node),
    {
        let amount = match self.stakes.get(&node) {
            Some(a) => a,
            None => return Err(ContractError::NotRegistered),
        };
        self.stake_registry.remove(&node);
        let new_total = self.total_staked.saturating_sub(amount);
        self.stakes.remove(&node);
        self.total_staked = new_total;
        Ok(amount)
    }

    /// Whether `addr` is a registered signer.
    pub fn is_signer(&self, addr: AccountId) -> (r: bool)
        requires
            self.wf(),
        ensures
            r == self.view().signers.contains(addr),
    {
        self.signers.contains(&addr)
    }

    /// Register `signer`; admin only. The signer count grows when the signer is new.
    pub fn register_signer(&mut self, signer: AccountId, caller: AccountId) -> (r: Result<(), ContractError>)
        requires
            old(self).wf(),
            !old(self).view().signers.contains(signer) ==> old(self).view().signer_count < u32::MAX,
        ensures
            final(self).wf(),
            r == (match admin_error(old(self).view(), caller) {
                Some(e) => Err(e),
                None => Ok(()),
            }),
            final(self).view() == (if r is Err || old(self).view().signers.contains(signer) {
                old(self).view()
            } else {
                UpgradeStateView {
                    signers: old(self).view().signers.insert(signer),
                    signer_count: (old(self).view().signer_count + 1) as u32,
                    ..old(self).view()
                }
            }),
    {
        if let Err(e) = self.check_admin(caller) {
            return Err(e);
        }
        if !self.signers.contains(&signer) {
            self.signers.set(signer, true);
            self.signer_count = self.signer_count + 1;
            assert(self.signers@.dom() =~= old(self).signers@.dom().insert(signer));
        }
        Ok(())
    }

    /// Remove `signer`; admin only, on an initialized contract that is not
    /// paused. `paused` is the contract's pause flag.
    pub fn remove_signer(&mut self, signer: AccountId, caller: AccountId, paused: bool) -> (r: Result<
        (),
        ContractError,
    >)
        requires
            old(self).wf(),
        ensures
            final(self).wf(),
            ({
                let err = if old(self).view().data is None {
                    Some(ContractError::NotInitialized)
                } else if paused {
                    Some(ContractError::ContractPaused)
                } else {
                    admin_error(old(self).view(), caller)
                };
                &&& r == (match err {
                    Some(e) => Err(e),
                    None => Ok(()),
                })
                &&& final(self).view() == (if err is Some || !old(self).view().signers.contains(signer) {
                    old(self).view()
                } else {
                    UpgradeStateView {
                        signers: old(self).view().signers.remove(signer),
                        signer_count: if old(self).view().signer_count > 0 {
                            (old(self).view().signer_count - 1) as u32
                        } else {
                            0
                        },
                        ..old(self).view()
                    }
                })
            }),
    {
        if let Err(e) = self.assert_contract_is_active(paused) {
            return Err(e);
        }
        if let Err(e) = self.check_admin(caller) {
            return Err(e);
        }
        if self.signers.contains(&signer) {
            self.signers.remove(&signer);
            if self.signer_count > 0 {
                self.signer_count = self.signer_count - 1;
            }
            assert(self.signers@.dom() =~= old(self).signers@.dom().remove(signer));
        }
        Ok(())
    }

    /// The number of votes that carries a revocation.
    pub fn revocation_threshold(&self) -> (t: u32)
        ensures
            t == threshold_for(self.view().signer_count),
            self.view().signer_count == 0 ==> t == 1,
            self.view().signer_count > 0 ==> 2 * t > self.view().signer_count && 2 * (t - 1)
                <= self.view().signer_count,
    {
        if self.signer_count == 0 {
            1
        } else {
            self.signer_count / 2 + 1
        }
    }

    /// The admin data, once initialized.
    pub fn get_data(&self) -> (r: Result<ContractData, ContractError>)
        ensures
            r == (match self.view().data {
                Some(d) => Ok(d),
                None => Err(ContractError::NotInitialized),
            }),
    {
        match self.data {
            Some(d) => Ok(d),
            None => Err(ContractError::NotInitialized),
        }
    }

    /// Authorize a revocation proposal by `proposer`: the signature must not
    /// have expired, the proposer must not be revoked (`not_revoked`), and it
    /// must be a signer or the admin. `open_ballot` is the outcome of opening
    /// the ballot, which is what the call returns once authorized.
    pub fn propose_revocation(
        &self,
        proposer: AccountId,
        sig_expires_at: u64,
        now: u64,
        not_revoked: Result<(), ContractError>,
        open_ballot: Result<(), ContractError>,
    ) -> (r: Result<(), ContractError>)
        requires
            self.wf(),
        ensures
            r == (if now > sig_expires_at {
                Err(ContractError::SignatureExpired)
            } else if not_revoked is Err {
                not_revoked
            } else if self.view().data is None {
                Err(ContractError::NotInitialized)
            } else if !self.view().signers.contains(proposer) && self.view().data.unwrap().admin != proposer {
                Err(ContractError::Unauthorized)
            } else {
                open_ballot
            }),
    {
        if now > sig_expires_at {
            return Err(ContractError::SignatureExpired);
        }
        if let Err(e) = not_revoked {
            return Err(e);
        }
        let data = match self.get_data() {
            Ok(d) => d,
            Err(e) => return Err(e),
        };
        if !self.is_signer(proposer) && data.admin != proposer {
            return Err(ContractError::Unauthorized);
        }
        open_ballot
    }

    /// Count a revocation vote by `voter`. `ballot` is the outcome of casting
    /// the vote: the number of votes now on the ballot and the proposed
    /// replacement admin. When the votes reach the threshold the replacement
    /// becomes admin and the call returns `true`, telling the caller to close
    /// the ballot.
    pub fn vote_revocation(
        &mut self,
        voter: AccountId,
        sig_expires_at: u64,
        now: u64,
        ballot: Result<(u32, AccountId), ContractError>,
    ) -> (r: Result<bool, ContractError>)
        requires
            old(self).wf(),
        ensures
            final(self).wf(),
            ({
                let s = old(self).view();
                let err = if now > sig_expires_at {
                    Some(ContractError::SignatureExpired)
                } else if s.data is None {
                    Some(ContractError::NotInitialized)
                } else if !s.signers.contains(voter) && s.data.unwrap().admin != voter {
                    Some(ContractError::Unauthorized)
                } else if ballot is Err {
                    Some(ballot->Err_0)
                } else {
                    None
                };
                let carried = ballot is Ok && ballot->Ok_0.0 >= threshold_for(s.signer_count);
                &&& r == (match err {
                    Some(e) => Err(e),
                    None => Ok(carried),
                })
                &&& final(self).view() == (if err is None && carried {
                    UpgradeStateView {
                        data: Some(ContractData { admin: ballot->Ok_0.1, ..s.data.unwrap() }),
                        ..s
                    }
                } else {
                    s
                })
            }),
    {
        if now > sig_expires_at {
            return Err(ContractError::SignatureExpired);
        }
        let data = match self.get_data() {
            Ok(d) => d,
            Err(e) => return Err(e),
        };
        if !self.is_signer(voter) && data.admin != voter {
            return Err(ContractError::Unauthorized);
        }
        let (votes, replacement) = match ballot {
            Ok(b) => b,
            Err(e) => return Err(e),
        };
        let threshold = self.revocation_threshold();
        if votes >= threshold {
            let mut contract_data = data;
            contract_data.admin = replacement;
            self.data = Some(contract_data);
            return Ok(true);
        }
        Ok(false)
    }
}


/// `a - b`, or zero when `b` exceeds `a`.
pub open spec fn sat_sub(a: u64, b: u64) -> u64 {
    if a >= b {
        (a - b) as u64
    } else {
        0
    }
}

/// The stake a node has, or zero.
pub open spec fn stake_of(s: UpgradeStateView, node: AccountId) -> u64 {
    if s.stakes.contains_key(node) {
        s.stakes[node]
    } else {
        0
    }
}

/// Why an upgrade proposal is refused, checked in this order.
pub open spec fn propose_upgrade_error(
    s: UpgradeStateView,
    proposer: AccountId,
    sig_expires_at: u64,
    now: u64,
    staging_access: Result<(), ContractError>,
    nonce_check: Result<(), ContractError>,
    collected_weight: Result<u32, ContractError>,
    required_weight: u32,
) -> Option<ContractError> {
    if now > sig_expires_at {
        Some(ContractError::SignatureExpired)
    } else if staging_access is Err {
        Some(staging_access->Err_0)
    } else if admin_error(s, proposer) is Some {
        admin_error(s, proposer)
    } else if nonce_check is Err {
        Some(nonce_check->Err_0)
    } else if collected_weight is Err {
        Some(collected_weight->Err_0)
    } else if collected_weight->Ok_0 < required_weight {
        Some(ContractError::ThresholdNotReached)
    } else {
        None
    }
}

/// Why an upgrade execution is refused, checked in this order.
pub open spec fn execute_upgrade_error(
    s: UpgradeStateView,
    executor: AccountId,
    sig_expires_at: u64,
    now: u64,
    staging_access: Result<(), ContractError>,
    nonce_check: Result<(), ContractError>,
    timelock_ready: bool,
) -> Option<ContractError> {
    if now > sig_expires_at {
        Some(ContractError::SignatureExpired)
    } else if staging_access is Err {
        Some(staging_access->Err_0)
    } else if admin_error(s, executor) is Some {
        admin_error(s, executor)
    } else if nonce_check is Err {
        Some(nonce_check->Err_0)
    } else if s.pending_upgrade is None {
        Some(ContractError::NoPendingUpgrade)
    } else if !timelock_ready {
        Some(ContractError::UpgradeTimelockNotSatisfied)
    } else if s.treasury is None {
        Some(ContractError::UpgradeHealthCheckFailed)
    } else {
        None
    }
}

/// Why a feed stake registration is refused, checked in this order.
pub open spec fn feed_stake_error(
    s: UpgradeStateView,
    node: AccountId,
    asset: AssetId,
    amount: u64,
    not_revoked: Result<(), ContractError>,
    required: u64,
) -> Option<ContractError> {
    if amount == 0 {
        Some(ContractError::InvalidStakeAmount)
    } else if not_revoked is Err {
        Some(not_revoked->Err_0)
    } else if s.feed_stakes.contains_key(FeedKey { node, asset }) {
        Some(ContractError::FeedAlreadyRegistered)
    } else if amount < required {
        Some(ContractError::InsufficientStakeForTier)
    } else if stake_of(s, node) + amount > u64::MAX {
        Some(ContractError::Overflow)
    } else if s.total_staked + amount > u64::MAX {
        Some(ContractError::Overflow)
    } else {
        None
    }
}

/// The state after `node` staked `amount` on `asset`'s feed at time `now`.
pub open spec fn feed_staked(s: UpgradeStateView, node: AccountId, asset: AssetId, amount: u64, now: u64) -> UpgradeStateView {
    UpgradeStateView {
        feed_stakes: s.feed_stakes.insert(FeedKey { node, asset }, FeedStakeValue { amount, last_active: now }),
        stakes: s.stakes.insert(node, (stake_of(s, node) + amount) as u64),
        total_staked: (s.total_staked + amount) as u64,
        heartbeats: s.heartbeats.insert(asset, now),
        ..s
    }
}

/// Whether a feed stake last active at `v.last_active` has lapsed at time
/// `now`: more than `RENT_THRESHOLD` seconds have passed since.
pub open spec fn stake_lapsed(v: FeedStakeValue, now: u64) -> bool {
    now >= v.last_active && now - v.last_active > RENT_THRESHOLD
}

/// The state after `node` withdrew its stake from `asset`'s feed.
pub open spec fn feed_unstaked(s: UpgradeStateView, node: AccountId, asset: AssetId) -> UpgradeStateView {
    let amount = s.feed_stakes[FeedKey { node, asset }].amount;
    let node_total = sat_sub(stake_of(s, node), amount);
    UpgradeStateView {
        feed_stakes: s.feed_stakes.remove(FeedKey { node, asset }),
        stakes: if node_total == 0 {
            s.stakes.remove(node)
        } else {
            s.stakes.insert(node, node_total)
        },
        total_staked: sat_sub(s.total_staked, amount),
        ..s
    }
}

impl TimeLockedUpgradeContract {
    /// The staged upgrade, if any.
    pub fn get_pending_upgrade(&self) -> (r: Option<StagedUpgrade>)
        ensures
            r == self.view().pending_upgrade,
    {
        self.pending_upgrade
    }

    /// The seconds left before the staged upgrade may run at time `now`; zero
    /// once it may run, `None` when nothing is staged.
    pub fn get_upgrade_timelock_remaining(&self, now: u64) -> (r: Option<u64>)
        ensures
            r == (match self.view().pending_upgrade {
                Some(p) => Some(sat_sub(p.execute_at, now)),
                None => None,
            }),
    {
        match self.pending_upgrade {
            Some(staged) => Some(staged.execute_at.saturating_sub(now)),
            None => None,
        }
    }

    /// Stage an upgrade to `new_wasm_hash`, executable `upgrade_delay` seconds
    /// from `now`. Admin only, with an unexpired signature; the outcomes of the
    /// staging-access and nonce checks come in as `staging_access` and
    /// `nonce_check`, and the multisig weight collected from `signers` as
    /// `collected_weight`, which must reach `required_weight`.
    pub fn propose_upgrade(
        &mut self,
        new_wasm_hash: Hash32,
        proposer: AccountId,
        signers: Vec<AccountId>,
        sig_expires_at: u64,
        now: u64,
        staging_access: Result<(), ContractError>,
        nonce_check: Result<(), ContractError>,
        collected_weight: Result<u32, ContractError>,
        required_weight: u32,
        upgrade_delay: u64,
    ) -> (r: Result<(), ContractError>)
        requires
            old(self).wf(),
            now + upgrade_delay <= u64::MAX,
        ensures
            final(self).wf(),
            ({
                let err = propose_upgrade_error(
                    old(self).view(),
                    proposer,
                    sig_expires_at,
                    now,
                    staging_access,
                    nonce_check,
                    collected_weight,
                    required_weight,
                );
                &&& r == (match err {
                    Some(e) => Err(e),
                    None => Ok(()),
                })
                &&& final(self).view() == (if err is Some {
                    old(self).view()
                } else {
                    UpgradeStateView {
                        pending_upgrade: Some(
                            StagedUpgrade {
                                new_wasm_hash,
                                proposer,
                                staged_at: now,
                                execute_at: (now + upgrade_delay) as u64,
                            },
                        ),
                        proposal: Some((new_wasm_hash, proposer, now, signers@)),
                        ..old(self).view()
                    }
                })
            }),
    {
        if now > sig_expires_at {
            return Err(ContractError::SignatureExpired);
        }
        if let Err(e) = staging_access {
            return Err(e);
        }
        if let Err(e) = self.check_admin(proposer) {
            return Err(e);
        }
        if let Err(e) = nonce_check {
            return Err(e);
        }
        let collected = match collected_weight {
            Ok(w) => w,
            Err(e) => return Err(e),
        };
        if collected < required_weight {
            return Err(ContractError::ThresholdNotReached);
        }
        let staged_at = now;
        let ghost signer_seq = signers@;
        self.governance_proposal = Some(
            GovernanceUpgradeProposal { new_wasm_hash, proposer, staged_at, signers },
        );
        self.pending_upgrade = Some(
            StagedUpgrade { new_wasm_hash, proposer, staged_at, execute_at: staged_at + upgrade_delay },
        );
        Ok(())
    }

    /// The checks made right after new code is installed: the admin is the
    /// one from before, and the treasury is still recorded.
    pub fn run_post_upgrade_health_check(&self, pre_upgrade_data: ContractData) -> (r: Result<(), ContractError>)
        ensures
            r == (match self.view().data {
                None => Err(ContractError::NotInitialized),
                Some(d) => if d.admin != pre_upgrade_data.admin || self.view().treasury is None {
                    Err(ContractError::UpgradeHealthCheckFailed)
                } else {
                    Ok(())
                },
            }),
    {
        let post_upgrade_data = match self.get_data() {
            Ok(d) => d,
            Err(e) => return Err(e),
        };
        if post_upgrade_data.admin != pre_upgrade_data.admin {
            return Err(ContractError::UpgradeHealthCheckFailed);
        }
        if self.data.is_none() {
            return Err(ContractError::UpgradeHealthCheckFailed);
        }
        if self.treasury.is_none() {
            return Err(ContractError::UpgradeHealthCheckFailed);
        }
        Ok(())
    }

    /// Execute the staged upgrade: returns the code hash to install and clears
    /// the staged upgrade. Admin only, with an unexpired signature, once the
    /// timelock has passed (`timelock_ready`); the installed contract must pass
    /// the post-upgrade health check.
    pub fn execute_upgrade(
        &mut self,
        executor: AccountId,
        sig_expires_at: u64,
        now: u64,
        staging_access: Result<(), ContractError>,
        nonce_check: Result<(), ContractError>,
        timelock_ready: bool,
    ) -> (r: Result<Hash32, ContractError>)
        requires
            old(self).wf(),
        ensures
            final(self).wf(),
            ({
                let err = execute_upgrade_error(
                    old(self).view(),
                    executor,
                    sig_expires_at,
                    now,
                    staging_access,
                    nonce_check,
                    timelock_ready,
                );
                &&& r == (match err {
                    Some(e) => Err(e),
                    None => Ok::<Hash32, ContractError>(old(self).view().pending_upgrade.unwrap().new_wasm_hash),
                })
                &&& final(self).view() == (if err is Some {
                    old(self).view()
                } else {
                    UpgradeStateView { pending_upgrade: None, ..old(self).view() }
                })
            }),
    {
        if now > sig_expires_at {
            return Err(ContractError::SignatureExpired);
        }
        if let Err(e) = staging_access {
            return Err(e);
        }
        let data = match self.check_admin(executor) {
            Ok(d) => d,
            Err(e) => return Err(e),
        };
        if let Err(e) = nonce_check {
            return Err(e);
        }
        let pending = match self.pending_upgrade {
            Some(p) => p,
            None => return Err(ContractError::NoPendingUpgrade),
        };
        if !timelock_ready {
            return Err(ContractError::UpgradeTimelockNotSatisfied);
        }
        let pre_upgrade_data = data;
        if let Err(e) = self.run_post_upgrade_health_check(pre_upgrade_data) {
            return Err(e);
        }
        self.pending_upgrade = None;
        Ok(pending.new_wasm_hash)
    }

    /// Drop the staged upgrade and its governance record. Admin only; the
    /// staging-access check's outcome comes in as `staging_access`.
    pub fn cancel_upgrade(&mut self, canceller: AccountId, staging_access: Result<(), ContractError>) -> (r: Result<
        (),
        ContractError,
    >)
        requires
            old(self).wf(),
        ensures
            final(self).wf(),
            r == (match first_error(staging_access, admin_error(old(self).view(), canceller)) {
                Some(e) => Err(e),
                None => Ok(()),
            }),
            final(self).view() == (if r is Err {
                old(self).view()
            } else {
                UpgradeStateView { pending_upgrade: None, proposal: None, ..old(self).view() }
            }),
    {
        if let Err(e) = staging_access {
            return Err(e);
        }
        if let Err(e) = self.check_admin(canceller) {
            return Err(e);
        }
        self.pending_upgrade = None;
        self.governance_proposal = None;
        Ok(())
    }

    /// Record the code hash currently installed; admin only.
    pub fn set_current_wasm(&mut self, admin: AccountId, wasm_hash: Hash32) -> (r: Result<(), ContractError>)
        requires
            old(self).wf(),
        ensures
            final(self).wf(),
            r == (match admin_error(old(self).view(), admin) {
                Some(e) => Err(e),
                None => Ok(()),
            }),
            final(self).view() == (if r is Err {
                old(self).view()
            } else {
                UpgradeStateView { current_wasm: Some(wasm_hash), ..old(self).view() }
            }),
    {
        if let Err(e) = self.check_admin(admin) {
            return Err(e);
        }
        self.current_wasm = Some(wasm_hash);
        Ok(())
    }

    /// Set the stored value; admin only, with an unexpired signature. Records a
    /// heartbeat in the value slot at time `now`.
    pub fn set_value(
        &mut self,
        new_value: u64,
        caller: AccountId,
        sig_expires_at: u64,
        now: u64,
        staging_access: Result<(), ContractError>,
        nonce_check: Result<(), ContractError>,
    ) -> (r: Result<(), ContractError>)
        requires
            old(self).wf(),
        ensures
            final(self).wf(),
            ({
                let err = if now > sig_expires_at {
                    Some(ContractError::SignatureExpired)
                } else {
                    first_error(
                        staging_access,
                        match admin_error(old(self).view(), caller) {
                            Some(e) => Some(e),
                            None => first_error(nonce_check, None),
                        },
                    )
                };
                &&& r == (match err {
                    Some(e) => Err(e),
                    None => Ok(()),
                })
                &&& final(self).view() == (if err is Some {
                    old(self).view()
                } else {
                    UpgradeStateView {
                        data: Some(ContractData { value: new_value, ..old(self).view().data.unwrap() }),
                        heartbeats: old(self).view().heartbeats.insert(VALUE_HEARTBEAT_ASSET, now),
                        ..old(self).view()
                    }
                })
            }),
    {
        if now > sig_expires_at {
            return Err(ContractError::SignatureExpired);
        }
        if let Err(e) = staging_access {
            return Err(e);
        }
        let mut data = match self.check_admin(caller) {
            Ok(d) => d,
            Err(e) => return Err(e),
        };
        if let Err(e) = nonce_check {
            return Err(e);
        }
        data.value = new_value;
        self.data = Some(data);
        self.heartbeats.set(VALUE_HEARTBEAT_ASSET, now);
        Ok(())
    }

    /// The time of `asset`'s last heartbeat, if any.
    pub fn get_last_update_timestamp(&self, asset: AssetId) -> (r: Option<u64>)
        requires
            self.wf(),
        ensures
            r == (if self.view().heartbeats.contains_key(asset) {
                Some(self.view().heartbeats[asset])
            } else {
                None
            }),
    {
        self.heartbeats.get(&asset)
    }

    /// The heartbeat interval in force.
    pub fn get_heartbeat_interval(&self) -> (r: u64)
        ensures
            r == interval_of(self.view()),
    {
        match self.heartbeat_interval {
            Some(i) => i,
            None => DEFAULT_HEARTBEAT_INTERVAL,
        }
    }

    /// Set the heartbeat interval; admin only, and never to zero.
    pub fn set_heartbeat_interval(
        &mut self,
        interval: u64,
        admin: AccountId,
        staging_access: Result<(), ContractError>,
    ) -> (r: Result<(), ContractError>)
        requires
            old(self).wf(),
        ensures
            final(self).wf(),
            ({
                let err = if interval == 0 {
                    Some(ContractError::InvalidHeartbeatInterval)
                } else {
                    first_error(staging_access, admin_error(old(self).view(), admin))
                };
                &&& r == (match err {
                    Some(e) => Err(e),
                    None => Ok(()),
                })
                &&& final(self).view() == (if err is Some {
                    old(self).view()
                } else {
                    UpgradeStateView { heartbeat_interval: Some(interval), ..old(self).view() }
                })
            }),
    {
        if interval == 0 {
            return Err(ContractError::InvalidHeartbeatInterval);
        }
        if let Err(e) = staging_access {
            return Err(e);
        }
        if let Err(e) = self.check_admin(admin) {
            return Err(e);
        }
        self.heartbeat_interval = Some(interval);
        Ok(())
    }

    /// `node`'s stake, or zero.
    pub fn get_stake(&self, node: AccountId) -> (r: u64)
        requires
            self.wf(),
        ensures
            r == stake_of(self.view(), node),
    {
        match self.stakes.get(&node) {
            Some(a) => a,
            None => 0,
        }
    }

    /// The total staked.
    pub fn get_total_staked(&self) -> (r: u64)
        ensures
            r == self.view().total_staked,
    {
        self.total_staked
    }

    /// Record a heartbeat for `asset` at time `now`; admin only, once the
    /// asset's liquidity depth has been checked (`liquidity_check`).
    pub fn update_heartbeat(
        &mut self,
        asset: AssetId,
        updater: AccountId,
        now: u64,
        liquidity_check: Result<(), ContractError>,
    ) -> (r: Result<(), ContractError>)
        requires
            old(self).wf(),
        ensures
            final(self).wf(),
            ({
                let err = match admin_error(old(self).view(), updater) {
                    Some(e) => Some(e),
                    None => first_error(liquidity_check, None),
                };
                &&& r == (match err {
                    Some(e) => Err(e),
                    None => Ok(()),
                })
                &&& final(self).view() == (if err is Some {
                    old(self).view()
                } else {
                    UpgradeStateView { heartbeats: old(self).view().heartbeats.insert(asset, now), ..old(self).view() }
                })
            }),
    {
        if let Err(e) = self.check_admin(updater) {
            return Err(e);
        }
        if let Err(e) = liquidity_check {
            return Err(e);
        }
        self.heartbeats.set(asset, now);
        Ok(())
    }

    /// Whether `asset`'s price data is fresh at time `now`.
    pub fn is_data_fresh(&self, asset: AssetId, now: u64) -> (r: bool)
        requires
            self.wf(),
        ensures
            r == fresh(self.view(), asset, now),
    {
        match self.heartbeats.get(&asset) {
            Some(last_update) => now.saturating_sub(last_update) <= self.get_heartbeat_interval(),
            None => false,
        }
    }

    /// Record `node`'s rate and confidence at time `now`; admin only.
    pub fn upsert_node_profile(
        &mut self,
        admin: AccountId,
        node: AccountId,
        rate: u64,
        confidence: u32,
        now: u64,
        staging_access: Result<(), ContractError>,
    ) -> (r: Result<(), ContractError>)
        requires
            old(self).wf(),
        ensures
            final(self).wf(),
            r == (match first_error(staging_access, admin_error(old(self).view(), admin)) {
                Some(e) => Err(e),
                None => Ok(()),
            }),
            final(self).view() == (if r is Err {
                old(self).view()
            } else {
                UpgradeStateView {
                    node_profiles: old(self).view().node_profiles.insert(
                        node,
                        NodeProfile { node, rate, confidence, updated_at: now },
                    ),
                    ..old(self).view()
                }
            }),
    {
        if let Err(e) = staging_access {
            return Err(e);
        }
        if let Err(e) = self.check_admin(admin) {
            return Err(e);
        }
        self.node_profiles.set(node, NodeProfile { node, rate, confidence, updated_at: now });
        Ok(())
    }

    /// The rate a profile reports: none while its confidence is zero.
    pub fn scan_profile_for_rate(profile: NodeProfile) -> (r: Option<u64>)
        ensures
            r == rate_of(profile),
    {
        if profile.confidence == 0 {
            None
        } else {
            Some(profile.rate)
        }
    }

    /// `node`'s latest rate: `NotRegistered` without a profile or with a
    /// profile of zero confidence.
    pub fn get_latest_rate(&self, node: AccountId) -> (r: Result<u64, ContractError>)
        requires
            self.wf(),
        ensures
            r == (if self.view().node_profiles.contains_key(node) && rate_of(self.view().node_profiles[node]) is Some {
                Ok::<u64, ContractError>(rate_of(self.view().node_profiles[node]).unwrap())
            } else {
                Err(ContractError::NotRegistered)
            }),
    {
        let profile = match self.node_profiles.get(&node) {
            Some(p) => p,
            None => return Err(ContractError::NotRegistered),
        };
        match Self::scan_profile_for_rate(profile) {
            Some(rate) => Ok(rate),
            None => Err(ContractError::NotRegistered),
        }
    }

    /// Stake `amount` for `node` on `asset`'s feed at time `now`. The stake
    /// must reach `required`, the minimum for the asset's current staking
    /// `tier`; `not_revoked` is the outcome of the revocation check.
    pub fn stake_and_register_for_feed<T: Copy>(
        &mut self,
        node: AccountId,
        asset: AssetId,
        amount: u64,
        now: u64,
        not_revoked: Result<(), ContractError>,
        tier: T,
        required: u64,
    ) -> (r: Result<FeedStakeRecord<T>, ContractError>)
        requires
            old(self).wf(),
        ensures
            final(self).wf(),
            ({
                let err = feed_stake_error(old(self).view(), node, asset, amount, not_revoked, required);
                &&& r == (match err {
                    Some(e) => Err(e),
                    None => Ok::<FeedStakeRecord<T>, ContractError>(
                        FeedStakeRecord { node, asset, amount, tier, registered_at: now },
                    ),
                })
                &&& final(self).view() == (if err is Some {
                    old(self).view()
                } else {
                    feed_staked(old(self).view(), node, asset, amount, now)
                })
            }),
    {
        if amount == 0 {
            return Err(ContractError::InvalidStakeAmount);
        }
        if let Err(e) = not_revoked {
            return Err(e);
        }
        let feed_key = FeedKey { node, asset };
        if self.feed_stakes.contains(&feed_key) {
            return Err(ContractError::FeedAlreadyRegistered);
        }
        if amount < required {
            return Err(ContractError::InsufficientStakeForTier);
        }
        let node_total = self.get_stake(node);
        let new_node_total = match node_total.checked_add(amount) {
            Some(t) => t,
            None => return Err(ContractError::Overflow),
        };
        let new_total = match self.total_staked.checked_add(amount) {
            Some(t) => t,
            None => return Err(ContractError::Overflow),
        };
        self.feed_stakes.set(feed_key, FeedStakeValue { amount, last_active: now });
        self.stakes.set(node, new_node_total);
        self.total_staked = new_total;
        self.heartbeats.set(asset, now);
        Ok(FeedStakeRecord { node, asset, amount, tier, registered_at: now })
    }

    /// Withdraw `node`'s stake from `asset`'s feed, returning its amount.
    pub fn unstake_from_feed(&mut self, node: AccountId, asset: AssetId) -> (r: Result<u64, ContractError>)
        requires
            old(self).wf(),
        ensures
            final(self).wf(),
            r == (if old(self).view().feed_stakes.contains_key(FeedKey { node, asset }) {
                Ok::<u64, ContractError>(old(self).view().feed_stakes[FeedKey { node, asset }].amount)
            } else {
                Err(ContractError::NotRegistered)
            }),
            final(self).view() == (if r is Err {
                old(self).view()
            } else {
                feed_unstaked(old(self).view(), node, asset)
            }),
    {
        let feed_key = FeedKey { node, asset };
        let stake_val = match self.feed_stakes.get(&feed_key) {
            Some(v) => v,
            None => return Err(ContractError::NotRegistered),
        };
        let amount = stake_val.amount;
        self.feed_stakes.remove(&feed_key);
        let node_total = self.get_stake(node);
        let new_node_total = node_total.saturating_sub(amount);
        if new_node_total == 0 {
            self.stakes.remove(&node);
        } else {
            self.stakes.set(node, new_node_total);
        }
        self.total_staked = self.total_staked.saturating_sub(amount);
        Ok(amount)
    }

    /// `node`'s stake on `asset`'s feed at time `now`, or zero. A stake that
    /// has lapsed (see `stake_lapsed`) is pruned first, with the node's stake
    /// and the total reconciled as a withdrawal would, and reads as zero.
    pub fn get_feed_stake(&mut self, node: AccountId, asset: AssetId, now: u64) -> (r: u64)
        requires
            old(self).wf(),
        ensures
            final(self).wf(),
            ({
                let s = old(self).view();
                let key = FeedKey { node, asset };
                if !s.feed_stakes.contains_key(key) {
                    r == 0 && final(self).view() == s
                } else if stake_lapsed(s.feed_stakes[key], now) {
                    r == 0 && final(self).view() == feed_unstaked(s, node, asset)
                } else {
                    r == s.feed_stakes[key].amount && final(self).view() == s
                }
            }),
    {
        match self.feed_stakes.get(&FeedKey { node, asset }) {
            Some(v) => {
                if now >= v.last_active && now - v.last_active > RENT_THRESHOLD {
                    let _ = self.unstake_from_feed(node, asset);
                    0
                } else {
                    v.amount
                }
            },
            None => 0,
        }
    }

    /// Record the platform's capital.
    pub fn set_platform_capital(&mut self, capital: u64)
        ensures
            final(self).wf() == old(self).wf(),
            final(self).view() == (UpgradeStateView { platform_capital: Some(capital), ..old(self).view() }),
    {
        self.platform_capital = Some(capital);
    }
}


/// Unstaking right after registering gives back the registered amount and
/// restores every stake total; only the registration heartbeat remains.
pub proof fn law_unstake_undoes_stake(s: UpgradeStateView, node: AccountId, amount: u64, now: u64)
    requires
        stake_error(s, node, amount, Ok(())) is None,
        !s.stake_registry.contains_key(node),
    ensures
        staked(s, node, amount, now).stakes.contains_key(node),
        staked(s, node, amount, now).stakes[node] == amount,
        unstaked(staked(s, node, amount, now), node) == (UpgradeStateView {
            heartbeats: s.heartbeats.insert(REGISTRATION_HEARTBEAT_ASSET, now),
            ..s
        }),
{
    let t = staked(s, node, amount, now);
    assert(t.stakes.remove(node) =~= s.stakes);
    assert(t.stake_registry.remove(node) =~= s.stake_registry);
}

/// Withdrawing a feed stake right after placing it gives back the amount and
/// restores the node's stake, the total and the feed table; only the feed's
/// heartbeat remains.
pub proof fn law_feed_unstake_undoes_feed_stake(
    s: UpgradeStateView,
    node: AccountId,
    asset: AssetId,
    amount: u64,
    now: u64,
    required: u64,
)
    requires
        feed_stake_error(s, node, asset, amount, Ok(()), required) is None,
        s.stakes.contains_key(node) ==> s.stakes[node] > 0,
    ensures
        feed_staked(s, node, asset, amount, now).feed_stakes[FeedKey { node, asset }].amount == amount,
        feed_unstaked(feed_staked(s, node, asset, amount, now), node, asset) == (UpgradeStateView {
            heartbeats: s.heartbeats.insert(asset, now),
            ..s
        }),
{
    let t = feed_staked(s, node, asset, amount, now);
    let k = FeedKey { node, asset };
    assert(t.feed_stakes.remove(k) =~= s.feed_stakes);
    assert(stake_of(t, node) == stake_of(s, node) + amount);
    if stake_of(s, node) == 0 {
        assert(t.stakes.remove(node) =~= s.stakes);
    } else {
        assert(t.stakes.insert(node, stake_of(s, node)) =~= s.stakes);
    }
}

/// A heartbeat recorded at time `t` keeps the asset fresh exactly while no more
/// than the heartbeat interval has passed since `t`.
pub proof fn law_fresh_after_heartbeat(s: UpgradeStateView, asset: AssetId, t: u64, now: u64)
    ensures
        fresh(UpgradeStateView { heartbeats: s.heartbeats.insert(asset, t), ..s }, asset, now) <==> sat_sub(now, t)
            <= interval_of(s),
{
}

/// A revocation carries only with a strict majority of the registered
/// signers (or, with none registered, with at least one vote).
pub proof fn law_revocation_needs_majority(signer_count: u32, votes: u32)
    requires
        votes >= threshold_for(signer_count),
    ensures
        votes >= 1,
        2 * votes > signer_count,
{
}

/// Unstaking withdraws the node's whole stake, the amount that `unstake`
/// returns, and lowers the total by exactly that amount (down to zero at
/// most); the node is left with no stake and no registration.
pub proof fn law_unstake_lowers_total_by_stake(s: UpgradeStateView, node: AccountId)
    requires
        s.stakes.contains_key(node),
    ensures
        unstaked(s, node).total_staked + s.stakes[node] == s.total_staked || (s.total_staked
            < s.stakes[node] && unstaked(s, node).total_staked == 0),
        !unstaked(s, node).stakes.contains_key(node),
        !unstaked(s, node).stake_registry.contains_key(node),
        forall|other: AccountId| other != node ==> unstaked(s, node).stakes.contains_key(other)
            == s.stakes.contains_key(other),
{
}

/// The revocation threshold is the least strict majority of the registered
/// signers (one vote when there are none): it is a strict majority, one vote
/// fewer is not, and so any strict majority of votes reaches it.
pub proof fn law_threshold_is_least_majority(signer_count: u32, votes: u32)
    ensures
        signer_count == 0 ==> threshold_for(signer_count) == 1,
        signer_count > 0 ==> 2 * threshold_for(signer_count) > signer_count,
        signer_count > 0 ==> 2 * (threshold_for(signer_count) - 1) <= signer_count,
        signer_count > 0 && 2 * votes > signer_count ==> votes >= threshold_for(signer_count),
{
}

/// Registering a new signer and removing it again leaves the signer set and
/// the signer count as they were.
pub proof fn law_signer_remove_undoes_register(s: UpgradeStateView, signer: AccountId)
    requires
        !s.signers.contains(signer),
        s.signer_count < u32::MAX,
    ensures
        ({
            let registered = UpgradeStateView {
                signers: s.signers.insert(signer),
                signer_count: (s.signer_count + 1) as u32,
                ..s
            };
            &&& registered.signers.remove(signer) == s.signers
            &&& (if registered.signer_count > 0 { (registered.signer_count - 1) as u32 } else { 0 }) == s.signer_count
        }),
{
    assert(s.signers.insert(signer).remove(signer) =~= s.signers);
}

/// The remaining timelock is zero exactly when the execution time has come.
pub proof fn law_timelock_remaining_zero_when_due(execute_at: u64, now: u64)
    ensures
        sat_sub(execute_at, now) == 0 <==> now >= execute_at,
{
}


/// The fee on `amount` at `fee_bps` basis points, rounded down.
pub open spec fn fee_on(amount: u128, fee_bps: u32) -> int {
    (amount * fee_bps) / 10_000
}

impl TimeLockedUpgradeContract {
    /// Split a trade `amount` into what remains after the dynamic fee of
    /// `fee_bps` basis points and the fee itself: `(amount - fee, fee)`. A fee
    /// above 100% is refused, as is an amount whose fee product does not fit.
    pub fn calculate_and_deduct_fee(amount: u128, fee_bps: u32) -> (r: Result<(u128, u128), ContractError>)
        ensures
            r == (if fee_bps > 10_000 {
                Err(ContractError::FeeCeilingExceeded)
            } else if amount * fee_bps > u128::MAX {
                Err(ContractError::MathOverflow)
            } else {
                Ok::<(u128, u128), ContractError>(((amount - fee_on(amount, fee_bps)) as u128, fee_on(amount, fee_bps) as u128))
            }),
            r matches Ok((net, fee)) ==> net + fee == amount && fee <= amount,
    {
        if fee_bps > 10_000 {
            return Err(ContractError::FeeCeilingExceeded);
        }
        let product = match amount.checked_mul(fee_bps as u128) {
            Some(p) => p,
            None => return Err(ContractError::MathOverflow),
        };
        let fee = product / 10_000;
        assert(fee <= amount) by (nonlinear_arith)
            requires
                fee == product / 10_000,
                product == amount * fee_bps,
                fee_bps <= 10_000,
        {
            assert(amount * fee_bps <= amount * 10_000);
        }
        Ok((amount - fee, fee))
    }
}


/// Why an operation on an active contract is refused: `NotInitialized` before
/// initialization, `ContractPaused` while paused.
pub open spec fn inactive_error(s: UpgradeStateView, paused: bool) -> Option<ContractError> {
    if s.data is None {
        Some(ContractError::NotInitialized)
    } else if paused {
        Some(ContractError::ContractPaused)
    } else {
        None
    }
}

impl TimeLockedUpgradeContract {
    /// The contract must be initialized and, per its pause flag `paused`, not paused.
    fn assert_contract_is_active(&self, paused: bool) -> (r: Result<(), ContractError>)
        ensures
            r == (match inactive_error(self.view(), paused) {
                Some(e) => Err(e),
                None => Ok(()),
            }),
    {
        if self.data.is_none() {
            return Err(ContractError::NotInitialized);
        }
        if paused {
            return Err(ContractError::ContractPaused);
        }
        Ok(())
    }

    /// Report an ingestion dropout of a validator; admin only, on an active
    /// contract. `record_fault` is the outcome of recording the tracking fault:
    /// the validator's fault count in the current window, which is returned.
    pub fn report_ingestion_dropout(
        &self,
        admin: AccountId,
        paused: bool,
        record_fault: Result<u32, ContractError>,
    ) -> (r: Result<u32, ContractError>)
        ensures
            r == (match inactive_error(self.view(), paused) {
                Some(e) => Err(e),
                None => match admin_error(self.view(), admin) {
                    Some(e) => Err(e),
                    None => record_fault,
                },
            }),
    {
        if let Err(e) = self.assert_contract_is_active(paused) {
            return Err(e);
        }
        if let Err(e) = self.check_admin(admin) {
            return Err(e);
        }
        record_fault
    }

    /// Record `asset`'s feed metrics; admin only, with the multisig check's
    /// outcome in `multisig`. The volume score is capped at 100.
    pub fn set_asset_feed_metrics(
        &mut self,
        admin: AccountId,
        asset: AssetId,
        volume_score_floor: u32,
        volatility_bps: u32,
        multisig: Result<(), ContractError>,
    ) -> (r: Result<AssetFeedMetrics, ContractError>)
        requires
            old(self).wf(),
        ensures
            final(self).wf(),
            ({
                let metrics = AssetFeedMetrics {
                    volume_score: if volume_score_floor < 100 { volume_score_floor } else { 100 },
                    volatility_bps,
                };
                let err = match admin_error(old(self).view(), admin) {
                    Some(e) => Some(e),
                    None => first_error(multisig, None),
                };
                &&& r == (match err {
                    Some(e) => Err(e),
                    None => Ok(metrics),
                })
                &&& final(self).view() == (if err is Some {
                    old(self).view()
                } else {
                    UpgradeStateView { feed_metrics: old(self).view().feed_metrics.insert(asset, metrics), ..old(self).view() }
                })
            }),
    {
        if let Err(e) = self.check_admin(admin) {
            return Err(e);
        }
        if let Err(e) = multisig {
            return Err(e);
        }
        let metrics = AssetFeedMetrics {
            volume_score: if volume_score_floor < 100 { volume_score_floor } else { 100 },
            volatility_bps,
        };
        self.feed_metrics.set(asset, metrics);
        Ok(metrics)
    }

    /// `asset`'s feed metrics: the recorded ones (or the defaults) with the
    /// volume score passed through `effective_volume_score`, the adjustment
    /// that the asset's corridor fee pool makes (its rule belongs to the fee
    /// pools, which are kept apart from this contract). The volatility is the
    /// recorded one.
    pub fn get_asset_feed_metrics<F: Fn(u32) -> u32>(&self, asset: AssetId, effective_volume_score: F) -> (r:
        AssetFeedMetrics)
        requires
            self.wf(),
            forall|score: u32| effective_volume_score.requires((score,)),
        ensures
            r.volatility_bps == recorded_feed_metrics(self.view(), asset).volatility_bps,
            effective_volume_score.ensures(
                (recorded_feed_metrics(self.view(), asset).volume_score,),
                r.volume_score,
            ),
    {
        let stored = match self.feed_metrics.get(&asset) {
            Some(m) => m,
            None => AssetFeedMetrics { volume_score: 10, volatility_bps: 100 },
        };
        let volume_score = effective_volume_score(stored.volume_score);
        AssetFeedMetrics { volume_score, volatility_bps: stored.volatility_bps }
    }
}


/// The contract state as plain parts, for storing it between calls.
pub struct UpgradeParts {
    pub data: Option<ContractData>,
    pub treasury: Option<AccountId>,
    pub stakes: Vec<(AccountId, u64)>,
    pub stake_registry: Vec<(AccountId, u64)>,
    pub total_staked: u64,
    pub signers: Vec<(AccountId, bool)>,
    pub signer_count: u32,
    pub heartbeat_interval: Option<u64>,
    pub heartbeats: Vec<(AssetId, u64)>,
    pub pending_upgrade: Option<StagedUpgrade>,
    pub governance_proposal: Option<GovernanceUpgradeProposal>,
    pub current_wasm: Option<Hash32>,
    pub node_profiles: Vec<(AccountId, NodeProfile)>,
    pub feed_stakes: Vec<(FeedKey, FeedStakeValue)>,
    pub feed_metrics: Vec<(AssetId, AssetFeedMetrics)>,
    pub platform_capital: Option<u64>,
}

/// The abstract state that a set of parts stands for.
pub open spec fn parts_view(p: UpgradeParts) -> UpgradeStateView {
    UpgradeStateView {
        data: p.data,
        treasury: p.treasury,
        stakes: crate::store::map_of(p.stakes@),
        stake_registry: crate::store::map_of(p.stake_registry@),
        total_staked: p.total_staked,
        signers: crate::store::map_of(p.signers@).dom(),
        signer_count: p.signer_count,
        heartbeat_interval: p.heartbeat_interval,
        heartbeats: crate::store::map_of(p.heartbeats@),
        pending_upgrade: p.pending_upgrade,
        proposal: match p.governance_proposal {
            Some(g) => Some((g.new_wasm_hash, g.proposer, g.staged_at, g.signers@)),
            None => None,
        },
        current_wasm: p.current_wasm,
        node_profiles: crate::store::map_of(p.node_profiles@),
        feed_stakes: crate::store::map_of(p.feed_stakes@),
        feed_metrics: crate::store::map_of(p.feed_metrics@),
        platform_capital: p.platform_capital,
    }
}

impl TimeLockedUpgradeContract {
    /// The contract state that `parts` stand for.
    pub fn from_parts(parts: UpgradeParts) -> (c: Self)
        ensures
            c.wf(),
            c.view() == parts_view(parts),
    {
        let ghost p = parts;
        let c = TimeLockedUpgradeContract {
            data: parts.data,
            treasury: parts.treasury,
            stakes: KeyedStore::from_entries(parts.stakes),
            stake_registry: KeyedStore::from_entries(parts.stake_registry),
            total_staked: parts.total_staked,
            signers: KeyedStore::from_entries(parts.signers),
            signer_count: parts.signer_count,
            heartbeat_interval: parts.heartbeat_interval,
            heartbeats: KeyedStore::from_entries(parts.heartbeats),
            pending_upgrade: parts.pending_upgrade,
            governance_proposal: parts.governance_proposal,
            current_wasm: parts.current_wasm,
            node_profiles: KeyedStore::from_entries(parts.node_profiles),
            feed_stakes: KeyedStore::from_entries(parts.feed_stakes),
            feed_metrics: KeyedStore::from_entries(parts.feed_metrics),
            platform_capital: parts.platform_capital,
        };
        c
    }

    /// The contract state as plain parts.
    pub fn into_parts(self) -> (p: UpgradeParts)
        ensures
            parts_view(p) == self.view(),
    {
        UpgradeParts {
            data: self.data,
            treasury: self.treasury,
            stakes: self.stakes.into_entries(),
            stake_registry: self.stake_registry.into_entries(),
            total_staked: self.total_staked,
            signers: self.signers.into_entries(),
            signer_count: self.signer_count,
            heartbeat_interval: self.heartbeat_interval,
            heartbeats: self.heartbeats.into_entries(),
            pending_upgrade: self.pending_upgrade,
            governance_proposal: self.governance_proposal,
            current_wasm: self.current_wasm,
            node_profiles: self.node_profiles.into_entries(),
            feed_stakes: self.feed_stakes.into_entries(),
            feed_metrics: self.feed_metrics.into_entries(),
            platform_capital: self.platform_capital,
        }
    }
}

} // verus!
