//! Cross-chain payload quorum check of the bridge relayer.
//!
//! A payload hash is accepted once, when signatures from at least `threshold`
//! distinct registered validators come with it; a key listed twice counts
//! once. The check decides which signatures must be verified (the first of each
//! distinct registered validator, in order, until the threshold is met); the
//! contract shell verifies them with the host's ed25519 check, which aborts the
//! whole call on a bad signature.
use vstd::prelude::*;

use crate::errors::ContractError;
use crate::types::Hash32;

verus! {

/// A 64-byte ed25519 signature.
pub type Signature64 = [u8; 64];

/// The relayer's state: the quorum threshold, the registered validator keys,
/// and the payload hashes already accepted.
pub struct RelayerState {
    threshold: u32,
    validators: Vec<Hash32>,
    used_payloads: Vec<Hash32>,
}

/// Whether two 32-byte values are equal.
fn hash_eq(a: &Hash32, b: &Hash32) -> (r: bool)
    ensures
        r == (*a == *b),
{
    let mut i: usize = 0;
    while i < 32
        invariant
            i <= 32,
            forall|k: int| 0 <= k < i ==> a[k] == b[k],
        decreases 32 - i,
    {
        if a[i] != b[i] {
            return false;
        }
        i = i + 1;
    }
    assert(*a =~= *b);
    true
}

/// Whether `x` is among `xs`.
fn contains_hash(xs: &Vec<Hash32>, x: &Hash32) -> (r: bool)
    ensures
        r == xs@.contains(*x),
{
    let mut i: usize = 0;
    while i < xs.len()
        invariant
            i <= xs@.len(),
            forall|k: int| 0 <= k < i ==> xs@[k] != *x,
        decreases xs@.len() - i,
    {
        if hash_eq(&xs[i], x) {
            assert(xs@[i as int] == *x);
            return true;
        }
        i = i + 1;
    }
    false
}

proof fn lemma_push_contains<A>(s: Seq<A>, v: A, x: A)
    ensures
        s.push(v).contains(x) <==> (s.contains(x) || x == v),
{
    if s.contains(x) {
        let k = choose|k: int| 0 <= k < s.len() && s[k] == x;
        assert(s.push(v)[k] == x);
    }
    if x == v {
        assert(s.push(v)[s.len() as int] == v);
    }
    if s.push(v).contains(x) {
        let k = choose|k: int| 0 <= k < s.push(v).len() && s.push(v)[k] == x;
        if k < s.len() {
            assert(s[k] == x);
        }
    }
}

/// The positions of the signatures that count towards a quorum, in order: for
/// each distinct registered validator key, the first signature listed with it.
pub open spec fn registered_positions(keys: Seq<Hash32>, validators: Set<Hash32>) -> Seq<usize>
    decreases keys.len(),
{
    if keys.len() == 0 {
        Seq::empty()
    } else {
        let rest = registered_positions(keys.drop_last(), validators);
        if validators.contains(keys.last()) && !keys.drop_last().contains(keys.last()) {
            rest.push((keys.len() - 1) as usize)
        } else {
            rest
        }
    }
}

/// The signer keys of a list of signatures.
pub open spec fn signer_keys(signatures: Seq<(Hash32, Signature64)>) -> Seq<Hash32> {
    signatures.map_values(|s: (Hash32, Signature64)| s.0)
}

/// Why a payload is refused: replay, no quorum configured, too few signatures,
/// or too few distinct registered validators among their keys; `None` if it
/// is accepted.
pub open spec fn payload_error(
    used: Set<Hash32>,
    validators: Set<Hash32>,
    threshold: u32,
    payload_hash: Hash32,
    signatures: Seq<(Hash32, Signature64)>,
) -> Option<ContractError> {
    if used.contains(payload_hash) {
        Some(ContractError::InvalidProof)
    } else if threshold == 0 || signatures.len() < threshold {
        Some(ContractError::InvalidProof)
    } else if registered_positions(signer_keys(signatures), validators).len() < threshold {
        Some(ContractError::InvalidProof)
    } else {
        None
    }
}

proof fn lemma_registered_positions_prefix(keys: Seq<Hash32>, validators: Set<Hash32>, i: int, j: int)
    requires
        0 <= i <= j <= keys.len(),
    ensures
        registered_positions(keys.subrange(0, i), validators).len() <= registered_positions(
            keys.subrange(0, j),
            validators,
        ).len(),
        registered_positions(keys.subrange(0, i), validators) == registered_positions(
            keys.subrange(0, j),
            validators,
        ).take(registered_positions(keys.subrange(0, i), validators).len() as int),
    decreases j - i,
{
    if i < j {
        lemma_registered_positions_prefix(keys, validators, i, j - 1);
        assert(keys.subrange(0, j).drop_last() =~= keys.subrange(0, j - 1));
        let a = registered_positions(keys.subrange(0, i), validators);
        let b = registered_positions(keys.subrange(0, j - 1), validators);
        let c = registered_positions(keys.subrange(0, j), validators);
        if validators.contains(keys.subrange(0, j).last()) && !keys.subrange(0, j).drop_last().contains(
            keys.subrange(0, j).last(),
        ) {
            assert(c == b.push((j - 1) as usize));
            assert(c.take(a.len() as int) =~= b.take(a.len() as int));
        }
    } else {
        assert(registered_positions(keys.subrange(0, i), validators).take(
            registered_positions(keys.subrange(0, i), validators).len() as int,
        ) =~= registered_positions(keys.subrange(0, i), validators));
    }
}

impl RelayerState {
    /// The quorum threshold; zero until one is configured.
    pub closed spec fn threshold_view(&self) -> u32 {
        self.threshold
    }

    /// The registered validator keys.
    pub closed spec fn validators_view(&self) -> Set<Hash32> {
        self.validators@.to_set()
    }

    /// The payload hashes already accepted.
    pub closed spec fn used_view(&self) -> Set<Hash32> {
        self.used_payloads@.to_set()
    }

    /// A relayer with no threshold, no validators and no accepted payloads.
    pub fn new() -> (r: Self)
        ensures
            r.threshold_view() == 0,
            r.validators_view() == Set::<Hash32>::empty(),
            r.used_view() == Set::<Hash32>::empty(),
    {
        let r = RelayerState { threshold: 0, validators: Vec::new(), used_payloads: Vec::new() };
        assert(r.validators@.to_set() =~= Set::<Hash32>::empty());
        assert(r.used_payloads@.to_set() =~= Set::<Hash32>::empty());
        r
    }

    /// Set the number of validator signatures a payload needs.
    pub fn configure_threshold(&mut self, threshold: u32)
        ensures
            final(self).threshold_view() == threshold,
            final(self).validators_view() == old(self).validators_view(),
            final(self).used_view() == old(self).used_view(),
    {
        self.threshold = threshold;
    }

    /// Register a validator key.
    pub fn add_validator(&mut self, pubkey: Hash32)
        ensures
            final(self).threshold_view() == old(self).threshold_view(),
            final(self).validators_view() == old(self).validators_view().insert(pubkey),
            final(self).used_view() == old(self).used_view(),
    {
        if !contains_hash(&self.validators, &pubkey) {
            self.validators.push(pubkey);
            assert(self.validators@.to_set() =~= old(self).validators@.to_set().insert(pubkey)) by {
                assert forall|x: Hash32| #![auto] self.validators@.contains(x) == old(self).validators@.to_set().insert(pubkey).contains(x) by {
                    lemma_push_contains(old(self).validators@, pubkey, x);
                }
            }
        } else {
            assert(old(self).validators@.to_set().insert(pubkey) =~= old(self).validators@.to_set());
        }
    }

    /// Unregister a validator key.
    pub fn remove_validator(&mut self, pubkey: Hash32)
        ensures
            final(self).threshold_view() == old(self).threshold_view(),
            final(self).validators_view() == old(self).validators_view().remove(pubkey),
            final(self).used_view() == old(self).used_view(),
    {
        let n = self.validators.len();
        let mut kept: Vec<Hash32> = Vec::new();
        let mut i: usize = 0;
        while i < n
            invariant
                n == self.validators@.len(),
                self.validators@ == old(self).validators@,
                i <= n,
                forall|x: Hash32| #[trigger] kept@.contains(x) <==> (x != pubkey && self.validators@.subrange(0, i as int).contains(x)),
            decreases n - i,
        {
            let v = self.validators[i];
            let ghost k0 = kept@;
            if !hash_eq(&v, &pubkey) {
                kept.push(v);
            }
            proof {
                let s1 = self.validators@.subrange(0, i + 1);
                let s0 = self.validators@.subrange(0, i as int);
                assert(s1 =~= s0.push(v));
                assert forall|x: Hash32| #[trigger] kept@.contains(x) <==> (x != pubkey && s1.contains(x)) by {
                    lemma_push_contains(s0, v, x);
                    if v != pubkey {
                        lemma_push_contains(k0, v, x);
                    }
                }
            }
            i = i + 1;
        }
        self.validators = kept;
        assert(old(self).validators@.subrange(0, n as int) =~= old(self).validators@);
        assert(self.validators@.to_set() =~= old(self).validators@.to_set().remove(pubkey));
    }
}

/// Whether `key` signs one of the first `i` signatures.
fn key_listed_before(signatures: &Vec<(Hash32, Signature64)>, i: usize, key: &Hash32) -> (r: bool)
    requires
        i <= signatures@.len(),
    ensures
        r == signer_keys(signatures@).subrange(0, i as int).contains(*key),
{
    let ghost prefix = signer_keys(signatures@).subrange(0, i as int);
    let mut j: usize = 0;
    while j < i
        invariant
            j <= i <= signatures@.len(),
            prefix == signer_keys(signatures@).subrange(0, i as int),
            forall|k: int| 0 <= k < j ==> signatures@[k].0 != *key,
        decreases i - j,
    {
        if hash_eq(&signatures[j].0, key) {
            assert(prefix[j as int] == *key);
            return true;
        }
        j = j + 1;
    }
    assert forall|k: int| 0 <= k < prefix.len() implies prefix[k] != *key by {
        assert(prefix[k] == signatures@[k].0);
    }
    false
}

impl RelayerState {
    /// Check a cross-chain payload hash against its signatures, refusing
    /// replays and enforcing the quorum threshold over distinct registered
    /// validators. On success the payload is recorded as used and the positions
    /// of the signatures to verify are returned: the first signature of each
    /// distinct registered validator, in order, up to the threshold.
    pub fn verify_cross_chain_payload(
        &mut self,
        payload_hash: Hash32,
        signatures: &Vec<(Hash32, Signature64)>,
    ) -> (r: Result<Vec<usize>, ContractError>)
        ensures
            final(self).threshold_view() == old(self).threshold_view(),
            final(self).validators_view() == old(self).validators_view(),
            r is Err <==> payload_error(
                old(self).used_view(),
                old(self).validators_view(),
                old(self).threshold_view(),
                payload_hash,
                signatures@,
            ) is Some,
            r matches Err(e) ==> {
                &&& payload_error(
                    old(self).used_view(),
                    old(self).validators_view(),
                    old(self).threshold_view(),
                    payload_hash,
                    signatures@,
                ) == Some(e)
                &&& final(self).used_view() == old(self).used_view()
            },
            r matches Ok(positions) ==> {
                &&& positions@ == registered_positions(signer_keys(signatures@), old(self).validators_view()).take(
                    old(self).threshold_view() as int,
                )
                &&& final(self).used_view() == old(self).used_view().insert(payload_hash)
            },
    {
        if contains_hash(&self.used_payloads, &payload_hash) {
            return Err(ContractError::InvalidProof);
        }
        let threshold = self.threshold;
        if threshold == 0 || signatures.len() < threshold as usize {
            return Err(ContractError::InvalidProof);
        }
        let ghost keys = signer_keys(signatures@);
        let ghost vals = self.validators@.to_set();
        let n = signatures.len();
        let mut valid_count: u32 = 0;
        let mut chosen: Vec<usize> = Vec::new();
        let mut i: usize = 0;
        while i < n && valid_count < threshold
            invariant
                n == signatures@.len(),
                keys == signer_keys(signatures@),
                vals == self.validators@.to_set(),
                i <= n,
                valid_count <= threshold,
                chosen@.len() == valid_count,
                chosen@ == registered_positions(keys.subrange(0, i as int), vals),
            decreases n - i,
        {
            let pubkey = signatures[i].0;
            let registered = contains_hash(&self.validators, &pubkey);
            let repeated = key_listed_before(signatures, i, &pubkey);
            proof {
                assert(keys.subrange(0, i + 1).drop_last() =~= keys.subrange(0, i as int));
                assert(keys.subrange(0, i + 1).last() == pubkey);
            }
            if registered && !repeated {
                chosen.push(i);
                valid_count = valid_count + 1;
            }
            i = i + 1;
        }
        proof {
            lemma_registered_positions_prefix(keys, vals, i as int, n as int);
            assert(keys.subrange(0, n as int) =~= keys);
        }
        if valid_count < threshold {
            return Err(ContractError::InvalidProof);
        }
        let ghost old_used = self.used_payloads@;
        self.used_payloads.push(payload_hash);
        proof {
            assert(self.used_payloads@.to_set() =~= old_used.to_set().insert(payload_hash)) by {
                assert forall|x: Hash32| #![auto] self.used_payloads@.contains(x) == old_used.to_set().insert(payload_hash).contains(x) by {
                    lemma_push_contains(old_used, payload_hash, x);
                }
            }
        }
        Ok(chosen)
    }
}

proof fn lemma_registered_positions_valid(keys: Seq<Hash32>, validators: Set<Hash32>)
    requires
        keys.len() <= usize::MAX,
    ensures
        forall|k: int|
            #![trigger registered_positions(keys, validators)[k]]
            0 <= k < registered_positions(keys, validators).len() ==> {
                &&& registered_positions(keys, validators)[k] < keys.len()
                &&& validators.contains(keys[registered_positions(keys, validators)[k] as int])
            },
    decreases keys.len(),
{
    if keys.len() > 0 {
        let rest = registered_positions(keys.drop_last(), validators);
        let all = registered_positions(keys, validators);
        lemma_registered_positions_valid(keys.drop_last(), validators);
        assert forall|k: int| #![trigger all[k]] 0 <= k < all.len() implies all[k] < keys.len() && validators.contains(
            keys[all[k] as int],
        ) by {
            if k < rest.len() {
                assert(all[k] == rest[k]);
                assert(keys.drop_last()[rest[k] as int] == keys[rest[k] as int]);
            } else {
                assert(validators.contains(keys.last()));
                assert(all == rest.push((keys.len() - 1) as usize));
                assert(all[k] == (keys.len() - 1) as usize);
                assert(keys.last() == keys[keys.len() - 1]);
            }
        }
    }
}

/// A payload is accepted at most once: once recorded, the same payload hash is
/// refused whatever signatures come with it.
pub proof fn law_payload_replay_refused(
    used: Set<Hash32>,
    validators: Set<Hash32>,
    threshold: u32,
    payload_hash: Hash32,
    signatures: Seq<(Hash32, Signature64)>,
)
    ensures
        payload_error(used.insert(payload_hash), validators, threshold, payload_hash, signatures) == Some(
            ContractError::InvalidProof,
        ),
{
}

proof fn lemma_registered_positions_distinct(keys: Seq<Hash32>, validators: Set<Hash32>)
    requires
        keys.len() <= usize::MAX,
    ensures
        forall|a: int, b: int|
            #![trigger registered_positions(keys, validators)[a], registered_positions(keys, validators)[b]]
            0 <= a < b < registered_positions(keys, validators).len() ==> keys[registered_positions(
                keys,
                validators,
            )[a] as int] != keys[registered_positions(keys, validators)[b] as int],
    decreases keys.len(),
{
    if keys.len() > 0 {
        let rest_keys = keys.drop_last();
        let rest = registered_positions(rest_keys, validators);
        let all = registered_positions(keys, validators);
        lemma_registered_positions_distinct(rest_keys, validators);
        lemma_registered_positions_valid(rest_keys, validators);
        assert forall|a: int, b: int| #![trigger all[a], all[b]] 0 <= a < b < all.len() implies keys[all[a] as int]
            != keys[all[b] as int] by {
            assert(all[a] == rest[a]);
            assert(rest[a] < rest_keys.len());
            assert(keys[rest[a] as int] == rest_keys[rest[a] as int]);
            if b < rest.len() {
                assert(all[b] == rest[b]);
                assert(rest[b] < rest_keys.len());
                assert(keys[rest[b] as int] == rest_keys[rest[b] as int]);
            } else {
                assert(all == rest.push((keys.len() - 1) as usize));
                assert(all[b] == (keys.len() - 1) as usize);
                assert(!rest_keys.contains(keys.last()));
                assert(keys.last() == keys[keys.len() - 1]);
                if keys[all[a] as int] == keys[all[b] as int] {
                    assert(rest_keys.contains(keys.last()));
                }
            }
        }
    }
}

/// An accepted payload carries a quorum: exactly `threshold` signatures are
/// selected for verification, each at a distinct position, each made by a
/// registered validator, and no two by the same validator.
pub proof fn law_accepted_payload_has_quorum(
    used: Set<Hash32>,
    validators: Set<Hash32>,
    threshold: u32,
    payload_hash: Hash32,
    signatures: Seq<(Hash32, Signature64)>,
)
    requires
        payload_error(used, validators, threshold, payload_hash, signatures) is None,
        signatures.len() <= usize::MAX,
    ensures
        ({
            let chosen = registered_positions(signer_keys(signatures), validators).take(threshold as int);
            &&& chosen.len() == threshold > 0
            &&& forall|k: int|
                #![trigger chosen[k]]
                0 <= k < chosen.len() ==> chosen[k] < signatures.len() && validators.contains(
                    signatures[chosen[k] as int].0,
                )
            &&& forall|a: int, b: int|
                #![trigger chosen[a], chosen[b]]
                0 <= a < b < chosen.len() ==> signatures[chosen[a] as int].0 != signatures[chosen[b] as int].0
        }),
{
    let keys = signer_keys(signatures);
    lemma_registered_positions_valid(keys, validators);
    let all = registered_positions(keys, validators);
    let chosen = all.take(threshold as int);
    assert forall|k: int| #![trigger chosen[k]] 0 <= k < chosen.len() implies chosen[k] < signatures.len()
        && validators.contains(signatures[chosen[k] as int].0) by {
        assert(chosen[k] == all[k]);
        assert(keys[all[k] as int] == signatures[all[k] as int].0);
    }
    lemma_registered_positions_distinct(keys, validators);
    assert forall|a: int, b: int| #![trigger chosen[a], chosen[b]] 0 <= a < b < chosen.len() implies signatures[chosen[a] as int].0
        != signatures[chosen[b] as int].0 by {
        assert(chosen[a] == all[a]);
        assert(chosen[b] == all[b]);
        assert(all[a] < keys.len() && all[b] < keys.len());
        assert(keys[all[a] as int] == signatures[all[a] as int].0);
        assert(keys[all[b] as int] == signatures[all[b] as int].0);
    }
}


impl RelayerState {
    /// The relayer state holding `threshold`, the validator keys and the
    /// accepted payload hashes.
    pub fn from_parts(threshold: u32, validators: Vec<Hash32>, used_payloads: Vec<Hash32>) -> (r: Self)
        ensures
            r.threshold_view() == threshold,
            r.validators_view() == validators@.to_set(),
            r.used_view() == used_payloads@.to_set(),
    {
        RelayerState { threshold, validators, used_payloads }
    }

    /// The relayer state as its threshold, validator keys and accepted payload hashes.
    pub fn into_parts(self) -> (p: (u32, Vec<Hash32>, Vec<Hash32>))
        ensures
            p.0 == self.threshold_view(),
            p.1@.to_set() == self.validators_view(),
            p.2@.to_set() == self.used_view(),
    {
        (self.threshold, self.validators, self.used_payloads)
    }
}

} // verus!
