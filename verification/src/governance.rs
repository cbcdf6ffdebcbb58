//! Voting-weight ledger with an aggregate-total invariant.
//!
//! Users lock tokens to get voting weight (one unit of weight per locked unit),
//! extend their locks, and delegate weight to other addresses. The contract
//! keeps a stored total next to the per-user locks; the invariant it exists
//! to keep is that the stored total equals the sum of all user weights.
//!
//! Each operation either fails and leaves the ledger as it was, or succeeds and
//! updates it. Before and after each change the contract checks that the
//! stored total equals the sum of all weights and panics on a drift, so a
//! change of a positive amount is only made on a balanced ledger.
use vstd::prelude::*;

use crate::errors::InvariantError;
use crate::types::AccountId;

verus! {

/// Per-user voting weight lock record.
#[derive(Copy, Clone, Debug, PartialEq, Eq, Structural)]
pub struct VotingWeightLock {
    pub user: AccountId,
    pub locked_amount: i128,
    pub weight: i128,
    pub lock_ledger: u32,
}

/// The state of the voting-weight contract: its admin, the stored total and
/// one lock per user.
pub struct GovernanceInvariantsContract {
    admin: Option<AccountId>,
    total_voting_weight: i128,
    locks: Vec<VotingWeightLock>,
}

/// The voting weight of `locked_amount` locked tokens: one unit per token.
pub fn compute_weight(locked_amount: i128) -> (w: i128)
    ensures
        w == locked_amount,
{
    locked_amount
}

/// The lock of `user` among `locks`, if there is one.
pub open spec fn lock_of(locks: Seq<VotingWeightLock>, user: AccountId) -> Option<VotingWeightLock>
    decreases locks.len(),
{
    if locks.len() == 0 {
        None
    } else if locks.last().user == user {
        Some(locks.last())
    } else {
        lock_of(locks.drop_last(), user)
    }
}

/// The voting weight of `user`: that of its lock, or zero.
pub open spec fn weight_of(locks: Seq<VotingWeightLock>, user: AccountId) -> int {
    match lock_of(locks, user) {
        Some(l) => l.weight as int,
        None => 0,
    }
}

/// The sum of the weights of all locks.
pub open spec fn sum_weights(locks: Seq<VotingWeightLock>) -> int
    decreases locks.len(),
{
    if locks.len() == 0 {
        0
    } else {
        sum_weights(locks.drop_last()) + locks.last().weight
    }
}

/// The sum of the weights of the users listed in `users`, a user counted once
/// per listing.
pub open spec fn listed_weight(locks: Seq<VotingWeightLock>, users: Seq<AccountId>) -> int
    decreases users.len(),
{
    if users.len() == 0 {
        0
    } else {
        listed_weight(locks, users.drop_last()) + weight_of(locks, users.last())
    }
}

/// The users that hold a lock, in the order the locks were made.
pub open spec fn holders(locks: Seq<VotingWeightLock>) -> Seq<AccountId> {
    locks.map_values(|l: VotingWeightLock| l.user)
}

/// What a lock looks like after a delegation of `amount` moved through it.
pub open spec fn lock_after_delegation(
    locks: Seq<VotingWeightLock>,
    delegator: AccountId,
    delegatee: AccountId,
    amount: i128,
    ledger: u32,
    user: AccountId,
) -> Option<VotingWeightLock> {
    if user == delegator && user == delegatee {
        lock_of(locks, user)
    } else if user == delegator {
        let l = lock_of(locks, user).unwrap();
        Some(
            VotingWeightLock {
                weight: (l.weight - amount) as i128,
                locked_amount: (l.locked_amount - amount) as i128,
                ..l
            },
        )
    } else if user == delegatee {
        match lock_of(locks, user) {
            Some(l) => Some(
                VotingWeightLock {
                    weight: (l.weight + amount) as i128,
                    locked_amount: (l.locked_amount + amount) as i128,
                    ..l
                },
            ),
            None => Some(
                VotingWeightLock {
                    user: delegatee,
                    locked_amount: amount,
                    weight: amount,
                    lock_ledger: ledger,
                },
            ),
        }
    } else {
        lock_of(locks, user)
    }
}

/// Why a lock is refused, checked in this order; `None` if it is made.
pub open spec fn lock_error(
    locks: Seq<VotingWeightLock>,
    total: i128,
    user: AccountId,
    amount: i128,
) -> Option<InvariantError> {
    if amount <= 0 {
        Some(InvariantError::InvalidAmount)
    } else if lock_of(locks, user) is Some {
        Some(InvariantError::LockAlreadyExists)
    } else if total + amount > i128::MAX {
        Some(InvariantError::Overflow)
    } else {
        None
    }
}

/// Why an extension is refused, checked in this order; `None` if it is made.
pub open spec fn extend_error(
    locks: Seq<VotingWeightLock>,
    total: i128,
    user: AccountId,
    additional: i128,
) -> Option<InvariantError> {
    if additional <= 0 {
        Some(InvariantError::InvalidAmount)
    } else if lock_of(locks, user) is None {
        Some(InvariantError::NoLockFound)
    } else if lock_of(locks, user).unwrap().locked_amount + additional > i128::MAX {
        Some(InvariantError::Overflow)
    } else if total + additional > i128::MAX {
        Some(InvariantError::Overflow)
    } else {
        None
    }
}

/// Why a delegation is refused, checked in this order; `None` if it is made.
pub open spec fn delegate_error(
    locks: Seq<VotingWeightLock>,
    delegator: AccountId,
    amount: i128,
) -> Option<InvariantError> {
    if amount <= 0 {
        Some(InvariantError::InvalidAmount)
    } else if lock_of(locks, delegator) is None {
        Some(InvariantError::NoLockFound)
    } else if lock_of(locks, delegator).unwrap().weight < amount {
        Some(InvariantError::InvalidAmount)
    } else {
        None
    }
}

proof fn lemma_lock_of_index(locks: Seq<VotingWeightLock>, j: int)
    requires
        0 <= j < locks.len(),
        holders(locks).no_duplicates(),
    ensures
        lock_of(locks, locks[j].user) == Some(locks[j]),
    decreases locks.len(),
{
    if j < locks.len() - 1 {
        assert(holders(locks)[j] == locks[j].user);
        assert(holders(locks)[locks.len() - 1] == locks.last().user);
        assert(holders(locks.drop_last()) =~= holders(locks).drop_last());
        lemma_lock_of_index(locks.drop_last(), j);
    }
}

proof fn lemma_lock_of_none(locks: Seq<VotingWeightLock>, user: AccountId)
    requires
        forall|j: int| 0 <= j < locks.len() ==> (#[trigger] locks[j]).user != user,
    ensures
        lock_of(locks, user) is None,
    decreases locks.len(),
{
    if locks.len() > 0 {
        assert(locks[locks.len() - 1].user != user);
        lemma_lock_of_none(locks.drop_last(), user);
    }
}

proof fn lemma_lock_of_found(locks: Seq<VotingWeightLock>, user: AccountId)
    requires
        lock_of(locks, user) is Some,
    ensures
        exists|j: int| 0 <= j < locks.len() && locks[j] == lock_of(locks, user).unwrap() && locks[j].user == user,
    decreases locks.len(),
{
    if locks.last().user != user {
        lemma_lock_of_found(locks.drop_last(), user);
        let j = choose|j: int|
            0 <= j < locks.drop_last().len() && locks.drop_last()[j] == lock_of(locks.drop_last(), user).unwrap()
                && locks.drop_last()[j].user == user;
        assert(locks[j] == locks.drop_last()[j]);
    } else {
        assert(locks[locks.len() - 1] == locks.last());
    }
}

proof fn lemma_lock_of_push(locks: Seq<VotingWeightLock>, l: VotingWeightLock, user: AccountId)
    ensures
        lock_of(locks.push(l), user) == (if l.user == user { Some(l) } else { lock_of(locks, user) }),
{
    assert(locks.push(l).drop_last() =~= locks);
}

proof fn lemma_lock_of_update(locks: Seq<VotingWeightLock>, j: int, l: VotingWeightLock, user: AccountId)
    requires
        0 <= j < locks.len(),
        l.user == locks[j].user,
        holders(locks).no_duplicates(),
    ensures
        lock_of(locks.update(j, l), user) == (if l.user == user { Some(l) } else { lock_of(locks, user) }),
    decreases locks.len(),
{
    let u = locks.update(j, l);
    if j == locks.len() - 1 {
        assert(u.drop_last() =~= locks.drop_last());
        if l.user != user {
            assert(locks.last().user == l.user);
        }
    } else {
        assert(u.drop_last() =~= locks.drop_last().update(j, l));
        assert(holders(locks.drop_last()) =~= holders(locks).drop_last());
        assert(holders(locks)[j] == locks[j].user);
        assert(holders(locks)[locks.len() - 1] == locks.last().user);
        lemma_lock_of_update(locks.drop_last(), j, l, user);
    }
}

proof fn lemma_sum_update(locks: Seq<VotingWeightLock>, j: int, l: VotingWeightLock)
    requires
        0 <= j < locks.len(),
    ensures
        sum_weights(locks.update(j, l)) == sum_weights(locks) - locks[j].weight + l.weight,
    decreases locks.len(),
{
    let u = locks.update(j, l);
    if j == locks.len() - 1 {
        assert(u.drop_last() =~= locks.drop_last());
    } else {
        assert(u.drop_last() =~= locks.drop_last().update(j, l));
        lemma_sum_update(locks.drop_last(), j, l);
    }
}

proof fn lemma_sum_push(locks: Seq<VotingWeightLock>, l: VotingWeightLock)
    ensures
        sum_weights(locks.push(l)) == sum_weights(locks) + l.weight,
{
    assert(locks.push(l).drop_last() =~= locks);
}

proof fn lemma_sum_prefix_le(locks: Seq<VotingWeightLock>, k: int)
    requires
        0 <= k <= locks.len(),
        forall|j: int| 0 <= j < locks.len() ==> lock_wf(#[trigger] locks[j]),
    ensures
        sum_weights(locks.subrange(0, k)) <= sum_weights(locks),
    decreases locks.len(),
{
    if k == locks.len() {
        assert(locks.subrange(0, k) =~= locks);
    } else {
        let rest = locks.drop_last();
        assert forall|j: int| 0 <= j < rest.len() implies lock_wf(#[trigger] rest[j]) by {
            assert(rest[j] == locks[j]);
        }
        lemma_sum_prefix_le(rest, k);
        assert(rest.subrange(0, k) =~= locks.subrange(0, k));
        assert(lock_wf(locks[locks.len() - 1]));
    }
}

/// Each lock's weight equals its locked amount and is never negative.
pub open spec fn lock_wf(l: VotingWeightLock) -> bool {
    l.weight == l.locked_amount && l.weight >= 0
}

proof fn lemma_weight_of_nonneg(locks: Seq<VotingWeightLock>, user: AccountId)
    requires
        forall|j: int| 0 <= j < locks.len() ==> lock_wf(#[trigger] locks[j]),
    ensures
        weight_of(locks, user) >= 0,
{
    if lock_of(locks, user) is Some {
        lemma_lock_of_found(locks, user);
    }
}

proof fn lemma_listed_prefix_monotone(locks: Seq<VotingWeightLock>, users: Seq<AccountId>, i: int)
    requires
        0 <= i <= users.len(),
        forall|j: int| 0 <= j < locks.len() ==> lock_wf(#[trigger] locks[j]),
    ensures
        listed_weight(locks, users.subrange(0, i)) <= listed_weight(locks, users),
    decreases users.len() - i,
{
    if i < users.len() {
        lemma_listed_prefix_monotone(locks, users, i + 1);
        assert(users.subrange(0, i + 1).drop_last() =~= users.subrange(0, i));
        lemma_weight_of_nonneg(locks, users[i]);
    } else {
        assert(users.subrange(0, i) =~= users);
    }
}

impl GovernanceInvariantsContract {
    /// The admin, once initialized.
    pub closed spec fn admin_view(&self) -> Option<AccountId> {
        self.admin
    }

    /// The stored total voting weight.
    pub closed spec fn total_view(&self) -> i128 {
        self.total_voting_weight
    }

    /// The locks, in the order they were made.
    pub closed spec fn locks_view(&self) -> Seq<VotingWeightLock> {
        self.locks@
    }

    /// The ledger's bookkeeping: one lock per user, each lock well formed, and a
    /// stored total that is never negative.
    pub open spec fn wf(&self) -> bool {
        &&& holders(self.locks_view()).no_duplicates()
        &&& forall|j: int| 0 <= j < self.locks_view().len() ==> lock_wf(#[trigger] self.locks_view()[j])
        &&& self.total_view() >= 0
    }

    /// The invariant the contract exists to keep: the stored total equals the
    /// sum of all user weights.
    pub open spec fn balanced(&self) -> bool {
        self.total_view() == sum_weights(self.locks_view())
    }

    /// A fresh contract: no admin, no locks, a total of zero.
    pub fn new() -> (c: Self)
        ensures
            c.wf(),
            c.balanced(),
            c.admin_view() is None,
            c.total_view() == 0,
            c.locks_view() == Seq::<VotingWeightLock>::empty(),
    {
        let c = GovernanceInvariantsContract { admin: None, total_voting_weight: 0, locks: Vec::new() };
        assert(holders(c.locks@) =~= Seq::<AccountId>::empty());
        c
    }

    /// The position of `user`'s lock.
    fn find_lock(&self, user: AccountId) -> (r: Option<usize>)
        requires
            self.wf(),
        ensures
            r matches Some(j) ==> j < self.locks@.len() && self.locks@[j as int].user == user
                && lock_of(self.locks@, user) == Some(self.locks@[j as int]),
            r is None ==> lock_of(self.locks@, user) is None,
    {
        let mut j: usize = 0;
        while j < self.locks.len()
            invariant
                self.wf(),
                j <= self.locks@.len(),
                forall|k: int| 0 <= k < j ==> (#[trigger] self.locks@[k]).user != user,
            decreases self.locks@.len() - j,
        {
            if self.locks[j].user == user {
                proof { lemma_lock_of_index(self.locks@, j as int); }
                return Some(j);
            }
            j = j + 1;
        }
        proof { lemma_lock_of_none(self.locks@, user); }
        None
    }

    /// Whether the stored total equals the sum of the weights of all locks.
    pub fn is_balanced(&self) -> (r: bool)
        requires
            self.wf(),
        ensures
            r == self.balanced(),
    {
        let n = self.locks.len();
        let mut sum: i128 = 0;
        let mut i: usize = 0;
        while i < n
            invariant
                self.wf(),
                n == self.locks@.len(),
                i <= n,
                sum == sum_weights(self.locks@.subrange(0, i as int)),
            decreases n - i,
        {
            proof {
                assert(self.locks@.subrange(0, i + 1).drop_last() =~= self.locks@.subrange(0, i as int));
            }
            match sum.checked_add(self.locks[i].weight) {
                Some(next) => sum = next,
                None => {
                    proof { lemma_sum_prefix_le(self.locks@, i + 1); }
                    return false;
                },
            }
            i = i + 1;
        }
        proof {
            assert(self.locks@.subrange(0, n as int) =~= self.locks@);
        }
        sum == self.total_voting_weight
    }


    /// The pre- and post-action check: the stored total must equal the sum of
    /// the weights of all locks. The contract panics on a drift, so the check
    /// is only made on a balanced ledger, where it passes.
    fn assert_invariant_holds(&self) -> (r: Result<(), InvariantError>)
        requires
            self.wf(),
            self.balanced(),
        ensures
            r is Ok,
    {
        if !self.is_balanced() {
            assert(false);
        }
        Ok(())
    }

    /// Set the admin of a contract that has none yet; the total starts at zero.
    pub fn initialize(&mut self, admin: AccountId) -> (r: Result<(), InvariantError>)
        requires
            old(self).wf(),
        ensures
            final(self).wf(),
            r == (if old(self).admin_view() is Some {
                Err::<(), InvariantError>(InvariantError::AlreadyInitialized)
            } else {
                Ok(())
            }),
            r is Ok ==> final(self).admin_view() == Some(admin) && final(self).total_view() == 0
                && final(self).locks_view() == old(self).locks_view(),
            r is Err ==> final(self).admin_view() == old(self).admin_view() && final(self).total_view()
                == old(self).total_view() && final(self).locks_view() == old(self).locks_view(),
            r is Ok ==> (final(self).balanced() <==> sum_weights(old(self).locks_view()) == 0),
    {
        if self.admin.is_some() {
            return Err(InvariantError::AlreadyInitialized);
        }
        self.admin = Some(admin);
        self.total_voting_weight = 0;
        Ok(())
    }

    /// Lock `amount` tokens for `user` at ledger `ledger`, registering its
    /// voting weight and adding it to the total.
    /// A positive amount is only accepted on a balanced ledger: the contract
    /// panics on a drifted one (see `is_balanced`).
    pub fn lock_tokens(&mut self, user: AccountId, amount: i128, ledger: u32) -> (r: Result<
        VotingWeightLock,
        InvariantError,
    >)
        requires
            old(self).wf(),
            amount > 0 ==> old(self).balanced(),
        ensures
            final(self).wf(),
            final(self).admin_view() == old(self).admin_view(),
            r is Err <==> lock_error(old(self).locks_view(), old(self).total_view(), user, amount) is Some,
            r matches Err(e) ==> {
                &&& lock_error(old(self).locks_view(), old(self).total_view(), user, amount) == Some(e)
                &&& final(self).total_view() == old(self).total_view()
                &&& final(self).locks_view() == old(self).locks_view()
            },
            r matches Ok(l) ==> {
                &&& l == VotingWeightLock { user, locked_amount: amount, weight: amount, lock_ledger: ledger }
                &&& final(self).locks_view() == old(self).locks_view().push(l)
                &&& final(self).total_view() == old(self).total_view() + amount
            },
            old(self).balanced() ==> final(self).balanced(),
    {
        if amount <= 0 {
            return Err(InvariantError::InvalidAmount);
        }
        let _ = self.assert_invariant_holds();
        let weight = compute_weight(amount);
        if self.find_lock(user).is_some() {
            return Err(InvariantError::LockAlreadyExists);
        }
        let new_total = match self.total_voting_weight.checked_add(weight) {
            Some(t) => t,
            None => return Err(InvariantError::Overflow),
        };
        let lock = VotingWeightLock { user, locked_amount: amount, weight, lock_ledger: ledger };
        let ghost old_locks = self.locks@;
        self.locks.push(lock);
        self.total_voting_weight = new_total;
        proof {
            assert(holders(self.locks@) =~= holders(old_locks).push(user));
            assert forall|j: int| 0 <= j < holders(old_locks).len() implies holders(old_locks)[j] != user by {
                assert(holders(old_locks)[j] == old_locks[j].user);
                lemma_lock_of_index(old_locks, j);
            }
            lemma_sum_push(old_locks, lock);
            assert forall|j: int| 0 <= j < self.locks@.len() implies lock_wf(#[trigger] self.locks@[j]) by {
                if j < old_locks.len() {
                    assert(self.locks@[j] == old_locks[j]);
                }
            }
        }
        let _ = self.assert_invariant_holds();
        Ok(lock)
    }

    /// Add `additional_amount` tokens to `user`'s existing lock; its weight and
    /// the total grow by the same amount.
    /// A positive amount is only accepted on a balanced ledger: the contract
    /// panics on a drifted one (see `is_balanced`).
    pub fn extend_lock(&mut self, user: AccountId, additional_amount: i128) -> (r: Result<
        VotingWeightLock,
        InvariantError,
    >)
        requires
            old(self).wf(),
            additional_amount > 0 ==> old(self).balanced(),
        ensures
            final(self).wf(),
            final(self).admin_view() == old(self).admin_view(),
            r is Err <==> extend_error(old(self).locks_view(), old(self).total_view(), user, additional_amount)
                is Some,
            r matches Err(e) ==> {
                &&& extend_error(old(self).locks_view(), old(self).total_view(), user, additional_amount)
                    == Some(e)
                &&& final(self).total_view() == old(self).total_view()
                &&& final(self).locks_view() == old(self).locks_view()
            },
            r matches Ok(l) ==> {
                let prev = lock_of(old(self).locks_view(), user).unwrap();
                &&& l == VotingWeightLock {
                    locked_amount: (prev.locked_amount + additional_amount) as i128,
                    weight: (prev.locked_amount + additional_amount) as i128,
                    ..prev
                }
                &&& forall|u: AccountId| #[trigger] lock_of(final(self).locks_view(), u) == (if u == user {
                    Some(l)
                } else {
                    lock_of(old(self).locks_view(), u)
                })
                &&& final(self).total_view() == old(self).total_view() + additional_amount
                &&& holders(final(self).locks_view()) == holders(old(self).locks_view())
            },
            old(self).balanced() ==> final(self).balanced(),
    {
        if additional_amount <= 0 {
            return Err(InvariantError::InvalidAmount);
        }
        let _ = self.assert_invariant_holds();
        let j = match self.find_lock(user) {
            Some(j) => j,
            None => return Err(InvariantError::NoLockFound),
        };
        let mut lock = self.locks[j];
        let old_total = self.total_voting_weight;
        let new_locked = match lock.locked_amount.checked_add(additional_amount) {
            Some(v) => v,
            None => return Err(InvariantError::Overflow),
        };
        let new_weight = compute_weight(new_locked);
        let new_total = match old_total.checked_add(additional_amount) {
            Some(t) => t,
            None => return Err(InvariantError::Overflow),
        };
        lock.locked_amount = new_locked;
        lock.weight = new_weight;
        let ghost old_locks = self.locks@;
        self.locks.set(j, lock);
        self.total_voting_weight = new_total;
        proof {
            assert(self.locks@ == old_locks.update(j as int, lock));
            assert(holders(self.locks@) =~= holders(old_locks)) by {
                assert forall|k: int| 0 <= k < old_locks.len() implies holders(self.locks@)[k]
                    == holders(old_locks)[k] by {}
            }
            lemma_sum_update(old_locks, j as int, lock);
            assert forall|u: AccountId| #[trigger] lock_of(self.locks@, u) == (if u == user {
                Some(lock)
            } else {
                lock_of(old_locks, u)
            }) by {
                lemma_lock_of_update(old_locks, j as int, lock, u);
            }
            assert forall|k: int| 0 <= k < self.locks@.len() implies lock_wf(#[trigger] self.locks@[k]) by {
                if k != j {
                    assert(self.locks@[k] == old_locks[k]);
                }
            }
        }
        let _ = self.assert_invariant_holds();
        Ok(lock)
    }

    /// Move `weight_to_delegate` of `delegator`'s weight (and locked amount) to
    /// `delegatee`, creating a lock for the delegatee at ledger `ledger` if it
    /// has none. The total does not change.
    /// A positive amount is only accepted on a balanced ledger: the contract
    /// panics on a drifted one (see `is_balanced`).
    pub fn delegate_weight(
        &mut self,
        delegator: AccountId,
        delegatee: AccountId,
        weight_to_delegate: i128,
        ledger: u32,
    ) -> (r: Result<(), InvariantError>)
        requires
            old(self).wf(),
            weight_to_delegate > 0 ==> old(self).balanced(),
        ensures
            final(self).wf(),
            final(self).admin_view() == old(self).admin_view(),
            final(self).total_view() == old(self).total_view(),
            r is Err <==> delegate_error(old(self).locks_view(), delegator, weight_to_delegate) is Some,
            r matches Err(e) ==> {
                &&& delegate_error(old(self).locks_view(), delegator, weight_to_delegate) == Some(e)
                &&& final(self).locks_view() == old(self).locks_view()
            },
            r is Ok ==> forall|u: AccountId|
                #[trigger] lock_of(final(self).locks_view(), u) == lock_after_delegation(
                    old(self).locks_view(),
                    delegator,
                    delegatee,
                    weight_to_delegate,
                    ledger,
                    u,
                ),
            r is Ok ==> sum_weights(final(self).locks_view()) == sum_weights(old(self).locks_view()),
            old(self).balanced() ==> final(self).balanced(),
    {
        if weight_to_delegate <= 0 {
            return Err(InvariantError::InvalidAmount);
        }
        let _ = self.assert_invariant_holds();
        let ghost c0 = *self;
        let dj = match self.find_lock(delegator) {
            Some(j) => j,
            None => return Err(InvariantError::NoLockFound),
        };
        let mut dlock = self.locks[dj];
        if dlock.weight < weight_to_delegate {
            return Err(InvariantError::InvalidAmount);
        }
        let ghost locks0 = self.locks@;
        dlock.weight = dlock.weight - weight_to_delegate;
        dlock.locked_amount = dlock.locked_amount - weight_to_delegate;
        self.locks.set(dj, dlock);
        let ghost locks1 = self.locks@;
        proof {
            assert(locks1 == locks0.update(dj as int, dlock));
            assert(holders(locks1) =~= holders(locks0)) by {
                assert forall|k: int| 0 <= k < locks0.len() implies holders(locks1)[k] == holders(locks0)[k] by {}
            }
            lemma_sum_update(locks0, dj as int, dlock);
            assert forall|u: AccountId| #[trigger] lock_of(locks1, u) == (if u == delegator {
                Some(dlock)
            } else {
                lock_of(locks0, u)
            }) by {
                lemma_lock_of_update(locks0, dj as int, dlock, u);
            }
        }
        match self.find_lock(delegatee) {
            Some(ej) => {
                let mut elock = self.locks[ej];
                proof {
                    if delegatee != delegator {
                        assert(lock_of(locks0, delegatee) == Some(elock));
                        law_delegation_fits_when_balanced(c0, delegator, delegatee, weight_to_delegate);
                    }
                }
                elock.weight = elock.weight + weight_to_delegate;
                elock.locked_amount = elock.locked_amount + weight_to_delegate;
                self.locks.set(ej, elock);
                proof {
                    assert(self.locks@ == locks1.update(ej as int, elock));
                    assert(holders(self.locks@) =~= holders(locks1)) by {
                        assert forall|k: int| 0 <= k < locks1.len() implies holders(self.locks@)[k]
                            == holders(locks1)[k] by {}
                    }
                    lemma_sum_update(locks1, ej as int, elock);
                    assert forall|u: AccountId| #[trigger] lock_of(self.locks@, u) == lock_after_delegation(
                        locks0,
                        delegator,
                        delegatee,
                        weight_to_delegate,
                        ledger,
                        u,
                    ) by {
                        lemma_lock_of_update(locks1, ej as int, elock, u);
                    }
                    assert forall|k: int| 0 <= k < self.locks@.len() implies lock_wf(#[trigger] self.locks@[k]) by {
                        if k != ej && k != dj {
                            assert(self.locks@[k] == locks0[k]);
                        }
                    }
                }
            },
            None => {
                let elock = VotingWeightLock {
                    user: delegatee,
                    locked_amount: weight_to_delegate,
                    weight: weight_to_delegate,
                    lock_ledger: ledger,
                };
                self.locks.push(elock);
                proof {
                    assert(delegatee != delegator);
                    assert(holders(self.locks@) =~= holders(locks1).push(delegatee));
                    assert forall|k: int| 0 <= k < holders(locks1).len() implies holders(locks1)[k] != delegatee by {
                        assert(holders(locks1)[k] == locks1[k].user);
                        lemma_lock_of_index(locks1, k);
                    }
                    lemma_sum_push(locks1, elock);
                    assert forall|u: AccountId| #[trigger] lock_of(self.locks@, u) == lock_after_delegation(
                        locks0,
                        delegator,
                        delegatee,
                        weight_to_delegate,
                        ledger,
                        u,
                    ) by {
                        lemma_lock_of_push(locks1, elock, u);
                    }
                    assert forall|k: int| 0 <= k < self.locks@.len() implies lock_wf(#[trigger] self.locks@[k]) by {
                        if k < locks1.len() && k != dj {
                            assert(self.locks@[k] == locks0[k]);
                        }
                    }
                }
            },
        }
        let _ = self.assert_invariant_holds();
        Ok(())
    }

    /// The stored total voting weight.
    pub fn get_total_voting_weight(&self) -> (t: i128)
        ensures
            t == self.total_view(),
    {
        self.total_voting_weight
    }

    /// `user`'s lock, if it has one.
    pub fn get_user_weight(&self, user: AccountId) -> (r: Option<VotingWeightLock>)
        requires
            self.wf(),
        ensures
            r == lock_of(self.locks_view(), user),
    {
        match self.find_lock(user) {
            Some(j) => Some(self.locks[j]),
            None => None,
        }
    }

    /// The admin, once initialized.
    pub fn get_admin(&self) -> (r: Option<AccountId>)
        ensures
            r == self.admin_view(),
    {
        self.admin
    }

    /// Recompute the total from the locks of `known_users` and compare it with
    /// the stored one. The contract panics on a mismatch, so a call must come
    /// with listed weights that, when they fit, add up to the total;
    /// a sum that does not fit is reported as `Overflow`.
    pub fn verify_full_invariant(&self, known_users: &Vec<AccountId>) -> (r: Result<i128, InvariantError>)
        requires
            self.wf(),
            listed_weight(self.locks_view(), known_users@) <= i128::MAX ==> listed_weight(
                self.locks_view(),
                known_users@,
            ) == self.total_view(),
        ensures
            r == (if listed_weight(self.locks_view(), known_users@) > i128::MAX {
                Err::<i128, InvariantError>(InvariantError::Overflow)
            } else {
                Ok(self.total_view())
            }),
    {
        let stored_total = self.total_voting_weight;
        let mut computed_total: i128 = 0;
        let n = known_users.len();
        let mut i: usize = 0;
        while i < n
            invariant
                self.wf(),
                n == known_users@.len(),
                i <= n,
                computed_total == listed_weight(self.locks@, known_users@.subrange(0, i as int)),
            decreases n - i,
        {
            let user = known_users[i];
            proof {
                assert(known_users@.subrange(0, i + 1).drop_last() =~= known_users@.subrange(0, i as int));
                lemma_weight_of_nonneg(self.locks@, user);
            }
            match self.find_lock(user) {
                Some(j) => {
                    let w = self.locks[j].weight;
                    computed_total = match computed_total.checked_add(w) {
                        Some(t) => t,
                        None => {
                            proof { lemma_listed_prefix_monotone(self.locks@, known_users@, i + 1); }
                            return Err(InvariantError::Overflow);
                        },
                    };
                },
                None => {},
            }
            i = i + 1;
        }
        proof {
            assert(known_users@.subrange(0, n as int) =~= known_users@);
        }
        if stored_total != computed_total {
            assert(false);
        }
        Ok(stored_total)
    }
}

proof fn lemma_listed_remove(locks: Seq<VotingWeightLock>, users: Seq<AccountId>, k: int)
    requires
        0 <= k < users.len(),
    ensures
        listed_weight(locks, users) == listed_weight(locks, users.remove(k)) + weight_of(locks, users[k]),
    decreases users.len(),
{
    if k == users.len() - 1 {
        assert(users.remove(k) =~= users.drop_last());
    } else {
        assert(users.remove(k).drop_last() =~= users.drop_last().remove(k));
        assert(users.remove(k).last() == users.last());
        lemma_listed_remove(locks, users.drop_last(), k);
    }
}

proof fn lemma_listed_congruent(a: Seq<VotingWeightLock>, b: Seq<VotingWeightLock>, users: Seq<AccountId>)
    requires
        forall|i: int| 0 <= i < users.len() ==> weight_of(a, #[trigger] users[i]) == weight_of(b, users[i]),
    ensures
        listed_weight(a, users) == listed_weight(b, users),
    decreases users.len(),
{
    if users.len() > 0 {
        assert forall|i: int| 0 <= i < users.drop_last().len() implies weight_of(
            a,
            #[trigger] users.drop_last()[i],
        ) == weight_of(b, users.drop_last()[i]) by {
            assert(users.drop_last()[i] == users[i]);
        }
        lemma_listed_congruent(a, b, users.drop_last());
        assert(users[users.len() - 1] == users.last());
    }
}

/// Listing every lock holder once, in any order, gives the sum of all weights.
proof fn lemma_listed_all_holders(locks: Seq<VotingWeightLock>, users: Seq<AccountId>)
    requires
        holders(locks).no_duplicates(),
        users.no_duplicates(),
        users.to_set() == holders(locks).to_set(),
    ensures
        listed_weight(locks, users) == sum_weights(locks),
    decreases locks.len(),
{
    if locks.len() == 0 {
        if users.len() > 0 {
            assert(users.to_set().contains(users[0]));
            assert(holders(locks).to_set() =~= Set::<AccountId>::empty());
        }
        assert(users =~= Seq::<AccountId>::empty());
    } else {
        let last = locks.last();
        let rest = locks.drop_last();
        let h = last.user;
        assert(holders(locks)[locks.len() - 1] == h);
        assert(holders(locks).to_set().contains(h));
        assert(users.to_set().contains(h));
        let k = choose|k: int| 0 <= k < users.len() && users[k] == h;
        let others = users.remove(k);
        lemma_listed_remove(locks, users, k);
        lemma_lock_of_index(locks, locks.len() - 1);
        assert(holders(rest) =~= holders(locks).drop_last());
        assert forall|i: int| 0 <= i < others.len() implies weight_of(locks, #[trigger] others[i])
            == weight_of(rest, others[i]) by {
            let ki = if i < k { i } else { i + 1 };
            assert(others[i] == users[ki]);
            assert(users[ki] != h);
        }
        lemma_listed_congruent(locks, rest, others);
        assert(others.no_duplicates()) by {
            assert forall|a: int, b: int| 0 <= a < others.len() && 0 <= b < others.len() && a != b implies others[a]
                != others[b] by {
                let a0 = if a < k { a } else { a + 1 };
                let b0 = if b < k { b } else { b + 1 };
                assert(others[a] == users[a0]);
                assert(others[b] == users[b0]);
            }
        }
        assert(others.to_set() =~= holders(rest).to_set()) by {
            assert forall|x: AccountId| others.to_set().contains(x) implies holders(rest).to_set().contains(x) by {
                let i = choose|i: int| 0 <= i < others.len() && others[i] == x;
                let ki = if i < k { i } else { i + 1 };
                assert(users[ki] == x);
                assert(x != h);
                assert(users.to_set().contains(x));
                assert(holders(locks).to_set().contains(x));
                let j = choose|j: int| 0 <= j < holders(locks).len() && holders(locks)[j] == x;
                assert(j != locks.len() - 1);
                assert(holders(rest)[j] == x);
            }
            assert forall|x: AccountId| holders(rest).to_set().contains(x) implies others.to_set().contains(x) by {
                let j = choose|j: int| 0 <= j < holders(rest).len() && holders(rest)[j] == x;
                assert(holders(locks)[j] == x);
                assert(x != h);
                assert(holders(locks).to_set().contains(x));
                assert(users.to_set().contains(x));
                let i = choose|i: int| 0 <= i < users.len() && users[i] == x;
                assert(i != k);
                let oi = if i < k { i } else { i - 1 };
                assert(others[oi] == x);
            }
        }
        lemma_listed_all_holders(rest, others);
    }
}

/// The contract's central invariant: when the stored total is balanced,
/// recomputing it from any duplicate-free listing of all lock holders gives
/// back the stored total, so the full check succeeds.
pub proof fn law_full_check_holds_when_balanced(c: GovernanceInvariantsContract, users: Seq<AccountId>)
    requires
        c.wf(),
        c.balanced(),
        users.no_duplicates(),
        users.to_set() == holders(c.locks_view()).to_set(),
    ensures
        listed_weight(c.locks_view(), users) == c.total_view(),
        listed_weight(c.locks_view(), users) <= i128::MAX,
{
    lemma_listed_all_holders(c.locks_view(), users);
}

/// A delegation never overflows on a balanced ledger: the delegatee's weight
/// plus the delegated amount is at most the total.
pub proof fn law_delegation_fits_when_balanced(
    c: GovernanceInvariantsContract,
    delegator: AccountId,
    delegatee: AccountId,
    amount: i128,
)
    requires
        c.wf(),
        c.balanced(),
        delegate_error(c.locks_view(), delegator, amount) is None,
        delegatee != delegator,
    ensures
        weight_of(c.locks_view(), delegatee) + amount <= c.total_view(),
{
    let locks = c.locks_view();
    lemma_lock_of_found(locks, delegator);
    let dj = choose|j: int| 0 <= j < locks.len() && locks[j] == lock_of(locks, delegator).unwrap() && locks[j].user
        == delegator;
    if lock_of(locks, delegatee) is Some {
        lemma_lock_of_found(locks, delegatee);
        let ej = choose|j: int| 0 <= j < locks.len() && locks[j] == lock_of(locks, delegatee).unwrap()
            && locks[j].user == delegatee;
        lemma_two_weights_within_sum(locks, dj, ej);
    } else {
        lemma_one_weight_within_sum(locks, dj);
    }
}

proof fn lemma_one_weight_within_sum(locks: Seq<VotingWeightLock>, j: int)
    requires
        0 <= j < locks.len(),
        forall|k: int| 0 <= k < locks.len() ==> lock_wf(#[trigger] locks[k]),
    ensures
        locks[j].weight <= sum_weights(locks),
    decreases locks.len(),
{
    lemma_sum_nonneg(locks.drop_last());
    if j < locks.len() - 1 {
        assert(locks.drop_last()[j] == locks[j]);
        assert forall|k: int| 0 <= k < locks.drop_last().len() implies lock_wf(#[trigger] locks.drop_last()[k]) by {
            assert(locks.drop_last()[k] == locks[k]);
        }
        lemma_one_weight_within_sum(locks.drop_last(), j);
        assert(lock_wf(locks[locks.len() - 1]));
    }
}

proof fn lemma_sum_nonneg(locks: Seq<VotingWeightLock>)
    requires
        forall|k: int| 0 <= k < locks.len() ==> lock_wf(#[trigger] locks[k]),
    ensures
        sum_weights(locks) >= 0,
    decreases locks.len(),
{
    if locks.len() > 0 {
        assert forall|k: int| 0 <= k < locks.drop_last().len() implies lock_wf(#[trigger] locks.drop_last()[k]) by {
            assert(locks.drop_last()[k] == locks[k]);
        }
        lemma_sum_nonneg(locks.drop_last());
        assert(lock_wf(locks[locks.len() - 1]));
    }
}

proof fn lemma_two_weights_within_sum(locks: Seq<VotingWeightLock>, a: int, b: int)
    requires
        0 <= a < locks.len(),
        0 <= b < locks.len(),
        a != b,
        forall|k: int| 0 <= k < locks.len() ==> lock_wf(#[trigger] locks[k]),
    ensures
        locks[a].weight + locks[b].weight <= sum_weights(locks),
    decreases locks.len(),
{
    let rest = locks.drop_last();
    assert forall|k: int| 0 <= k < rest.len() implies lock_wf(#[trigger] rest[k]) by {
        assert(rest[k] == locks[k]);
    }
    let n = locks.len() - 1;
    assert(lock_wf(locks[n]));
    if a == n {
        assert(rest[b] == locks[b]);
        lemma_one_weight_within_sum(rest, b);
    } else if b == n {
        assert(rest[a] == locks[a]);
        lemma_one_weight_within_sum(rest, a);
    } else {
        assert(rest[a] == locks[a]);
        assert(rest[b] == locks[b]);
        lemma_two_weights_within_sum(rest, a, b);
    }
}


impl GovernanceInvariantsContract {
    /// The ledger holding `admin`, the stored `total` and `locks`, if they keep
    /// the ledger's bookkeeping: a non-negative total and one well-formed lock
    /// per user.
    pub fn from_parts(admin: Option<AccountId>, total: i128, locks: Vec<VotingWeightLock>) -> (r: Option<Self>)
        ensures
            r is Some <==> (total >= 0 && holders(locks@).no_duplicates() && forall|j: int|
                0 <= j < locks@.len() ==> lock_wf(#[trigger] locks@[j])),
            r matches Some(c) ==> c.wf() && c.admin_view() == admin && c.total_view() == total
                && c.locks_view() == locks@,
    {
        if total < 0 {
            return None;
        }
        let n = locks.len();
        let mut i: usize = 0;
        while i < n
            invariant
                n == locks@.len(),
                i <= n,
                forall|j: int| 0 <= j < i ==> lock_wf(#[trigger] locks@[j]),
                forall|a: int, b: int| 0 <= a < b < i ==> #[trigger] locks@[a].user != #[trigger] locks@[b].user,
            decreases n - i,
        {
            let l = locks[i];
            if l.weight != l.locked_amount || l.weight < 0 {
                return None;
            }
            let mut j: usize = 0;
            while j < i
                invariant
                    n == locks@.len(),
                    j <= i < n,
                    l == locks@[i as int],
                    forall|a: int| 0 <= a < j ==> #[trigger] locks@[a].user != l.user,
                decreases i - j,
            {
                if locks[j].user == l.user {
                    proof {
                        assert(holders(locks@)[j as int] == holders(locks@)[i as int]);
                    }
                    return None;
                }
                j = j + 1;
            }
            i = i + 1;
        }
        proof {
            assert(holders(locks@).no_duplicates()) by {
                assert forall|a: int, b: int| 0 <= a < holders(locks@).len() && 0 <= b < holders(locks@).len() && a != b implies holders(
                    locks@,
                )[a] != holders(locks@)[b] by {
                    if a < b {
                        assert(locks@[a].user != locks@[b].user);
                    } else {
                        assert(locks@[b].user != locks@[a].user);
                    }
                }
            }
        }
        Some(GovernanceInvariantsContract { admin, total_voting_weight: total, locks })
    }

    /// The ledger as its admin, stored total and locks.
    pub fn into_parts(self) -> (p: (Option<AccountId>, i128, Vec<VotingWeightLock>))
        ensures
            p.0 == self.admin_view(),
            p.1 == self.total_view(),
            p.2@ == self.locks_view(),
    {
        (self.admin, self.total_voting_weight, self.locks)
    }
}

} // verus!
