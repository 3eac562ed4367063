//! The contributions to vaults: where they are kept, and how an account's share
//! and the sums of a vault change together.
use vstd::prelude::*;

use crate::bytes::{
    bytes_concat, bytes_copy, bytes_equal, bytes_precede, precedes, precedes_irreflexive,
    precedes_total, precedes_transitive,
};
use crate::config::Config;
use crate::outside::encode_u32;
use crate::pallet::Pallet;
use crate::state::{child_id, kind_name, State};
use crate::types::{
    AccountId, ArithmeticError, ArithmeticKind, Balance, ChildStorageKind, Contribution,
    ContributionKey, TrieIndex, Vault,
};

verus! {

/// An amount with another one added or taken away.
pub open spec fn shifted(held: Balance, amount: Balance, arithmetic: ArithmeticKind) -> int {
    match arithmetic {
        ArithmeticKind::Addition => held + amount,
        ArithmeticKind::Subtraction => held - amount,
    }
}

/// What an amount that cannot be held is called.
pub open spec fn out_of_range(arithmetic: ArithmeticKind) -> ArithmeticError {
    match arithmetic {
        ArithmeticKind::Addition => ArithmeticError::Overflow,
        ArithmeticKind::Subtraction => ArithmeticError::Underflow,
    }
}

/// An amount with another one added or taken away, where the result can be held.
pub fn shift(held: Balance, amount: Balance, arithmetic: ArithmeticKind) -> (r: Result<
    Balance,
    ArithmeticError,
>)
    ensures
        match r {
            Ok(x) => x == shifted(held, amount, arithmetic),
            Err(e) => !(0 <= shifted(held, amount, arithmetic) <= Balance::MAX) && e
                == out_of_range(arithmetic),
        },
{
    match arithmetic {
        ArithmeticKind::Addition => match held.checked_add(amount) {
            Some(x) => Ok(x),
            None => Err(ArithmeticError::Overflow),
        },
        ArithmeticKind::Subtraction => match held.checked_sub(amount) {
            Some(x) => Ok(x),
            None => Err(ArithmeticError::Underflow),
        },
    }
}

/// What is left of a vault where a contribution cannot change by an amount: its sum has
/// changed, unless it is the sum that cannot.
pub open spec fn half_updated(
    vault: Vault,
    amount: Balance,
    arithmetic: ArithmeticKind,
    kind: ChildStorageKind,
) -> Vault {
    let sum = shifted(vault.sum_of(kind), amount, arithmetic);
    if 0 <= sum <= Balance::MAX {
        vault.with_sum(kind, sum as Balance)
    } else {
        vault
    }
}

impl State {
    /// What becomes of the state, of a vault and of the referral code when an
    /// amount is added to or taken from what `who` has in the child trie `child`,
    /// which holds the contributions of `kind` to the vault. Both the account's
    /// share and the vault's sum change by the amount. A new referral code takes
    /// the place of the old one.
    pub open spec fn update_contribution(
        self,
        child: Seq<u8>,
        who: AccountId,
        vault: Vault,
        amount: Balance,
        new_referral_code: Option<Seq<u8>>,
        arithmetic: ArithmeticKind,
        kind: ChildStorageKind,
    ) -> Result<(State, Vault, Seq<u8>), ArithmeticError> {
        let held = self.contribution(child, who);
        let share = shifted(held.amount, amount, arithmetic);
        let sum = shifted(vault.sum_of(kind), amount, arithmetic);
        let referral_code = match new_referral_code {
            Some(code) => code,
            None => held.referral_code,
        };
        if 0 <= sum <= Balance::MAX && 0 <= share <= Balance::MAX {
            Ok(
                (
                    self.with_contribution(child, who, share as Balance, referral_code),
                    vault.with_sum(kind, sum as Balance),
                    referral_code,
                ),
            )
        } else {
            Err(out_of_range(arithmetic))
        }
    }

    /// What becomes of the state and of a vault when an amount moves from what an
    /// account has in one child trie to what it has in another. The referral code
    /// moves with it.
    pub open spec fn migrate_contribution<T: Config>(
        self,
        who: AccountId,
        vault: Vault,
        amount: Balance,
        source: ChildStorageKind,
        destination: ChildStorageKind,
    ) -> Result<(State, Vault), ArithmeticError> {
        match self.update_contribution(
            child_id::<T>(vault.trie_index, source),
            who,
            vault,
            amount,
            None,
            ArithmeticKind::Subtraction,
            source,
        ) {
            Err(e) => Err(e),
            Ok((state, less, referral_code)) => match state.update_contribution(
                child_id::<T>(vault.trie_index, destination),
                who,
                less,
                amount,
                Some(referral_code),
                ArithmeticKind::Addition,
                destination,
            ) {
                Err(e) => Err(e),
                Ok((state, more, _)) => Ok((state, more)),
            },
        }
    }

    /// What is left of the state and of a vault where an amount cannot move from one
    /// kind to another: where it can be taken away but not be added, it was taken
    /// away.
    pub open spec fn half_migrated<T: Config>(
        self,
        who: AccountId,
        vault: Vault,
        amount: Balance,
        source: ChildStorageKind,
        destination: ChildStorageKind,
    ) -> (State, Vault) {
        match self.update_contribution(
            child_id::<T>(vault.trie_index, source),
            who,
            vault,
            amount,
            None,
            ArithmeticKind::Subtraction,
            source,
        ) {
            Err(_) => (self, half_updated(vault, amount, ArithmeticKind::Subtraction, source)),
            Ok((state, less, _)) => (
                state,
                half_updated(less, amount, ArithmeticKind::Addition, destination),
            ),
        }
    }

    /// Some child trie of a vault has an entry.
    pub open spec fn has_childstorage<T: Config>(self, index: TrieIndex) -> bool {
        ||| self.has_entries(child_id::<T>(index, ChildStorageKind::Contributed))
        ||| self.has_entries(child_id::<T>(index, ChildStorageKind::Flying))
        ||| self.has_entries(child_id::<T>(index, ChildStorageKind::Pending))
    }
}

/// There is at most one account that a walk comes to next.
pub proof fn next_is_unique(
    state: State,
    child: Seq<u8>,
    cursor: Option<AccountId>,
    a: AccountId,
    b: AccountId,
)
    requires
        state.is_next(child, cursor, a),
        state.is_next(child, cursor, b),
    ensures
        a == b,
{
    precedes_total(a@, b@);
    assert(a =~= b);
}

/// The name of a kind of contributions.
fn name_of(kind: ChildStorageKind) -> (r: Vec<u8>)
    ensures
        r@ == kind_name(kind),
{
    match kind {
        ChildStorageKind::Pending => {
            let name: [u8; 17] = [
                99, 114, 111, 119, 100, 108, 111, 97, 110, 58,
                112, 101, 110, 100, 105, 110, 103,
            ];
            assert(name@ =~= kind_name(kind));
            bytes_copy(name.as_slice())
        },
        ChildStorageKind::Flying => {
            let name: [u8; 16] = [
                99, 114, 111, 119, 100, 108, 111, 97, 110, 58,
                102, 108, 121, 105, 110, 103,
            ];
            assert(name@ =~= kind_name(kind));
            bytes_copy(name.as_slice())
        },
        ChildStorageKind::Contributed => {
            let name: [u8; 21] = [
                99, 114, 111, 119, 100, 108, 111, 97, 110, 58,
                99, 111, 110, 116, 114, 105, 98, 117, 116, 101, 100,
            ];
            assert(name@ =~= kind_name(kind));
            bytes_copy(name.as_slice())
        },
    }
}

impl<T: Config> Pallet<T> {
    /// The sum of all contributions to a vault.
    pub fn total_contribution(vault: &Vault) -> (r: Result<Balance, ArithmeticError>)
        ensures
            r == (if vault.grand_total() <= Balance::MAX {
                Ok(vault.grand_total() as Balance)
            } else {
                Err(ArithmeticError::Overflow)
            }),
    {
        match vault.contributed.checked_add(vault.flying) {
            Some(sum) => match sum.checked_add(vault.pending) {
                Some(total) => Ok(total),
                None => Err(ArithmeticError::Overflow),
            },
            None => Err(ArithmeticError::Overflow),
        }
    }

    /// The storage key of the child trie that holds the contributions of one kind
    /// to the vault with a given index.
    pub fn id_from_index(index: TrieIndex, kind: ChildStorageKind) -> (r: Vec<u8>)
        ensures
            r@ == child_id::<T>(index, kind),
    {
        let seed: Vec<u8> = bytes_concat(&name_of(kind), &encode_u32(index));
        T::hash(&seed)
    }

    /// Writes what an account contributed.
    pub fn contribution_put(
        &mut self,
        index: TrieIndex,
        who: &AccountId,
        balance: Balance,
        referral_code: &[u8],
        kind: ChildStorageKind,
    )
        ensures
            final(self)@ == old(self)@.with_state(
                old(self)@.state.put_contribution(
                    child_id::<T>(index, kind),
                    *who,
                    balance,
                    referral_code@,
                ),
            ),
    {
        let key = ContributionKey { child: Self::id_from_index(index, kind), who: *who };
        let value = Contribution { amount: balance, referral_code: bytes_copy(referral_code) };
        self.storage.contributions.insert(key, value);
    }

    /// What an account contributed.
    pub fn contribution_get(&self, index: TrieIndex, who: &AccountId, kind: ChildStorageKind) -> (r:
        Contribution)
        ensures
            r@ == self@.state.contribution(child_id::<T>(index, kind), *who),
    {
        let key = ContributionKey { child: Self::id_from_index(index, kind), who: *who };
        match self.storage.contributions.get(&key) {
            Some(contribution) => contribution,
            None => {
                let referral_code: Vec<u8> = Vec::new();
                assert(referral_code@ =~= Seq::<u8>::empty());
                Contribution { amount: 0, referral_code }
            },
        }
    }

    /// Forgets what an account contributed.
    pub fn contribution_kill(&mut self, index: TrieIndex, who: &AccountId, kind: ChildStorageKind)
        ensures
            final(self)@ == old(self)@.with_state(
                old(self)@.state.without_contribution(child_id::<T>(index, kind), *who),
            ),
    {
        let key = ContributionKey { child: Self::id_from_index(index, kind), who: *who };
        self.storage.contributions.remove(&key);
    }

    /// The account that a walk through the child trie `child` comes to behind
    /// `cursor`, in the order of keys.
    pub fn next_contributor(&self, child: &[u8], cursor: &Option<AccountId>) -> (r: Option<
        AccountId,
    >)
        ensures
            r == self@.state.next_contributor(child@, *cursor),
    {
        let ghost state = self@.state;
        let n: usize = self.storage.contributions.len();
        let mut best: Option<AccountId> = None;
        let mut i: usize = 0;
        while i < n
            invariant
                i <= n,
                n == self.storage.contributions.count(),
                state == self@.state,
                forall|j: int|
                    0 <= j < n ==> state.contributions.contains_key(
                        (#[trigger] self.storage.contributions.entry(j)).0,
                    ),
                best is Some ==> state.is_behind(child@, *cursor, best->0),
                forall|j: int, other: AccountId|
                    0 <= j < i && (#[trigger] self.storage.contributions.entry(j)).0 == (
                    ContributionKey { child: child@, who: other }) && #[trigger] state.is_behind(
                        child@,
                        *cursor,
                        other,
                    ) ==> best is Some && !precedes(other@, (best->0)@),
            decreases n - i,
        {
            let key: &ContributionKey = self.storage.contributions.key_at(i);
            let ghost before = best;
            if bytes_equal(&key.child, child) {
                let behind = match cursor {
                    Some(c) => bytes_precede(c.as_slice(), key.who.as_slice()),
                    None => true,
                };
                let better = match &best {
                    Some(b) => bytes_precede(key.who.as_slice(), b.as_slice()),
                    None => true,
                };
                if behind && better {
                    best = Some(key.who);
                }
            }
            proof {
                let k = self.storage.contributions.entry(i as int).0;
                assert(state.contributions.contains_key(k));
                assert forall|j: int, other: AccountId|
                    0 <= j < i + 1 && (#[trigger] self.storage.contributions.entry(j)).0 == (
                    ContributionKey { child: child@, who: other }) && #[trigger] state.is_behind(
                        child@,
                        *cursor,
                        other,
                    ) implies best is Some && !precedes(other@, (best->0)@) by {
                    if j < i {
                        if best != before && precedes(other@, (best->0)@) {
                            precedes_transitive(other@, (best->0)@, (before->0)@);
                        }
                    } else {
                        precedes_irreflexive(other@);
                    }
                }
            }
            i += 1;
        }
        proof {
            if best is Some {
                let who = best->0;
                assert forall|other: AccountId| #[trigger]
                    state.is_behind(child@, *cursor, other) implies !precedes(
                    other@,
                    who@,
                ) by {
                    let k = ContributionKey { child: child@, who: other };
                    assert(self.storage.contributions@.contains_key(k));
                    let j = choose|j: int|
                        0 <= j < n && (#[trigger] self.storage.contributions.entry(j)).0 == k;
                }
                assert(state.is_next(child@, *cursor, who));
                let chosen = choose|who: AccountId| state.is_next(child@, *cursor, who);
                next_is_unique(state, child@, *cursor, who, chosen);
            } else {
                if exists|who: AccountId| state.is_next(child@, *cursor, who) {
                    let who = choose|who: AccountId| state.is_next(child@, *cursor, who);
                    let k = ContributionKey { child: child@, who };
                    assert(self.storage.contributions@.contains_key(k));
                    let j = choose|j: int|
                        0 <= j < n && (#[trigger] self.storage.contributions.entry(j)).0 == k;
                    assert(state.is_behind(child@, *cursor, who));
                }
            }
        }
        best
    }

    /// Whether a child trie has an entry.
    fn has_entries(&self, child: &[u8]) -> (r: bool)
        ensures
            r == self@.state.has_entries(child@),
    {
        let n: usize = self.storage.contributions.len();
        let mut i: usize = 0;
        while i < n
            invariant
                i <= n,
                n == self.storage.contributions.count(),
                forall|j: int|
                    0 <= j < n ==> self@.state.contributions.contains_key(
                        (#[trigger] self.storage.contributions.entry(j)).0,
                    ),
                forall|j: int|
                    0 <= j < i ==> (#[trigger] self.storage.contributions.entry(j)).0.child
                        != child@,
            decreases n - i,
        {
            let key: &ContributionKey = self.storage.contributions.key_at(i);
            if bytes_equal(&key.child, child) {
                proof {
                    let k = self.storage.contributions.entry(i as int).0;
                    assert(self@.state.contributions.contains_key(
                        ContributionKey { child: child@, who: k.who },
                    ));
                }
                return true;
            }
            i += 1;
        }
        proof {
            if self@.state.has_entries(child@) {
                let who = choose|who: AccountId| #[trigger]
                    self@.state.contributions.contains_key(ContributionKey { child: child@, who });
                let k = ContributionKey { child: child@, who };
                assert(self.storage.contributions@.contains_key(k));
                let j = choose|j: int|
                    0 <= j < n && (#[trigger] self.storage.contributions.entry(j)).0 == k;
            }
        }
        false
    }

    /// Return true if any childstorage has contribution.
    pub fn has_childstorage(&self, vault: &Vault) -> (r: bool)
        ensures
            r == self@.state.has_childstorage::<T>(vault.trie_index),
    {
        let contributed: Vec<u8> = Self::id_from_index(
            vault.trie_index,
            ChildStorageKind::Contributed,
        );
        let flying: Vec<u8> = Self::id_from_index(vault.trie_index, ChildStorageKind::Flying);
        let pending: Vec<u8> = Self::id_from_index(vault.trie_index, ChildStorageKind::Pending);
        self.has_entries(&contributed) || self.has_entries(&flying) || self.has_entries(&pending)
    }

    /// Get and recalculate the user's contribution for the specified kind of child storage
    pub fn do_update_contribution(
        &mut self,
        who: &AccountId,
        vault: &mut Vault,
        amount: Balance,
        new_referral_code: Option<Vec<u8>>,
        arithmetic_kind: ArithmeticKind,
        child_storage_kind: ChildStorageKind,
    ) -> (r: Result<Vec<u8>, ArithmeticError>)
        ensures
            final(self)@.runtime == old(self)@.runtime,
            match (
                r,
                old(self)@.state.update_contribution(
                    child_id::<T>(old(vault).trie_index, child_storage_kind),
                    *who,
                    *old(vault),
                    amount,
                    match new_referral_code {
                        Some(code) => Some(code@),
                        None => None,
                    },
                    arithmetic_kind,
                    child_storage_kind,
                ),
            ) {
                (Ok(code), Ok((state, changed, referral_code))) => {
                    &&& final(self)@.state == state
                    &&& *final(vault) == changed
                    &&& code@ == referral_code
                },
                (Err(e), Err(f)) => {
                    &&& e == f
                    &&& final(self)@ == old(self)@
                    &&& *final(vault) == half_updated(
                        *old(vault),
                        amount,
                        arithmetic_kind,
                        child_storage_kind,
                    )
                },
                _ => false,
            },
    {
        let index: TrieIndex = vault.trie_index;
        let held = self.contribution_get(index, who, child_storage_kind);
        let referral_code: Vec<u8> = match new_referral_code {
            Some(code) => code,
            None => held.referral_code,
        };
        let sum: Balance = match child_storage_kind {
            ChildStorageKind::Pending => vault.pending,
            ChildStorageKind::Flying => vault.flying,
            ChildStorageKind::Contributed => vault.contributed,
        };
        let new_sum: Balance = shift(sum, amount, arithmetic_kind)?;
        match child_storage_kind {
            ChildStorageKind::Pending => vault.pending = new_sum,
            ChildStorageKind::Flying => vault.flying = new_sum,
            ChildStorageKind::Contributed => vault.contributed = new_sum,
        }
        let new_share: Balance = shift(held.amount, amount, arithmetic_kind)?;
        if new_share == 0 {
            self.contribution_kill(index, who, child_storage_kind);
        } else {
            self.contribution_put(index, who, new_share, &referral_code, child_storage_kind);
        }
        Ok(referral_code)
    }

    /// Moves an amount of what an account contributed from one kind to another.
    /// Where it can be taken away but not be added, the change is half made.
    pub fn do_migrate_contribution(
        &mut self,
        who: &AccountId,
        vault: &mut Vault,
        amount: Balance,
        src_child_storage_kind: ChildStorageKind,
        dst_child_storage_kind: ChildStorageKind,
    ) -> (r: Result<(), ArithmeticError>)
        ensures
            final(self)@.runtime == old(self)@.runtime,
            match (
                r,
                old(self)@.state.migrate_contribution::<T>(
                    *who,
                    *old(vault),
                    amount,
                    src_child_storage_kind,
                    dst_child_storage_kind,
                ),
            ) {
                (Ok(_), Ok((state, changed))) => final(self)@.state == state && *final(vault)
                    == changed,
                (Err(e), Err(f)) => {
                    &&& e == f
                    &&& (final(self)@.state, *final(vault)) == old(self)@.state.half_migrated::<T>(
                        *who,
                        *old(vault),
                        amount,
                        src_child_storage_kind,
                        dst_child_storage_kind,
                    )
                },
                _ => false,
            },
    {
        let referral_code: Vec<u8> = self.do_update_contribution(
            who,
            vault,
            amount,
            None,
            ArithmeticKind::Subtraction,
            src_child_storage_kind,
        )?;
        self.do_update_contribution(
            who,
            vault,
            amount,
            Some(referral_code),
            ArithmeticKind::Addition,
            dst_child_storage_kind,
        )?;
        Ok(())
    }
}

} // verus!
