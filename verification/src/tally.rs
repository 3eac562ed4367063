//! Sums over child tries, and what holds of the pallet's state at all times.
use vstd::prelude::*;

use crate::config::Config;
use crate::contributions::shifted;
use crate::state::{child_id, State};
use crate::types::{
    AccountId, ArithmeticKind, Balance, ChildStorageKind, Contribution, ContributionKey, QueryId,
    TrieIndex, Vault, VaultId, VaultKey, VaultPhase, XcmRequest,
};

verus! {

/// What an entry counts towards the sum of a child trie.
pub open spec fn weight(
    m: Map<ContributionKey<Seq<u8>>, Contribution<Seq<u8>>>,
    k: ContributionKey<Seq<u8>>,
    child: Seq<u8>,
) -> nat {
    if k.child == child {
        m[k].amount as nat
    } else {
        0
    }
}

/// The sum of the amounts in a child trie.
pub open spec fn total(
    m: Map<ContributionKey<Seq<u8>>, Contribution<Seq<u8>>>,
    child: Seq<u8>,
) -> nat
    decreases m.dom().len(),
{
    if m.dom().finite() && m.dom().len() > 0 {
        let k = m.dom().choose();
        weight(m, k, child) + total(m.remove(k), child)
    } else {
        0
    }
}

/// Any entry can be taken out of the sum first.
pub proof fn total_without(
    m: Map<ContributionKey<Seq<u8>>, Contribution<Seq<u8>>>,
    k: ContributionKey<Seq<u8>>,
    child: Seq<u8>,
)
    requires
        m.dom().finite(),
        m.contains_key(k),
    ensures
        total(m, child) == weight(m, k, child) + total(m.remove(k), child),
    decreases m.dom().len(),
{
    let c = m.dom().choose();
    assert(m.dom().contains(k));
    if c != k {
        total_without(m.remove(c), k, child);
        total_without(m.remove(k), c, child);
        assert(m.remove(c).remove(k) =~= m.remove(k).remove(c));
    }
}

/// The sum is nothing where a child trie has no entries.
pub proof fn total_of_none(
    m: Map<ContributionKey<Seq<u8>>, Contribution<Seq<u8>>>,
    child: Seq<u8>,
)
    requires
        forall|k: ContributionKey<Seq<u8>>| m.contains_key(k) ==> k.child != child,
    ensures
        total(m, child) == 0,
    decreases m.dom().len(),
{
    if m.dom().finite() && m.dom().len() > 0 {
        let k = m.dom().choose();
        assert(m.contains_key(k));
        total_of_none(m.remove(k), child);
    }
}

/// Each entry is at most the sum.
pub proof fn entry_at_most_total(
    m: Map<ContributionKey<Seq<u8>>, Contribution<Seq<u8>>>,
    k: ContributionKey<Seq<u8>>,
)
    requires
        m.dom().finite(),
        m.contains_key(k),
    ensures
        m[k].amount <= total(m, k.child),
{
    total_without(m, k, k.child);
}

/// Setting an account's entry in a child trie changes the sum of that trie by as
/// much as the entry, and no other sum.
pub proof fn total_with_contribution(
    state: State,
    at: Seq<u8>,
    who: AccountId,
    amount: Balance,
    referral_code: Seq<u8>,
    child: Seq<u8>,
)
    requires
        state.contributions.dom().finite(),
    ensures
        ({
            let after = state.with_contribution(at, who, amount, referral_code);
            &&& after.contributions.dom().finite()
            &&& child == at ==> total(after.contributions, child) == total(
                state.contributions,
                child,
            ) - state.contribution(at, who).amount + amount
            &&& child != at ==> total(after.contributions, child) == total(
                state.contributions,
                child,
            )
        }),
{
    let m = state.contributions;
    let k = ContributionKey { child: at, who };
    let after = state.with_contribution(at, who, amount, referral_code).contributions;
    if m.contains_key(k) {
        total_without(m, k, child);
    } else {
        assert(m.remove(k) =~= m);
    }
    if amount != 0 {
        assert(after.contains_key(k));
        total_without(after, k, child);
        assert(after.remove(k) =~= m.remove(k));
    }
}

/// Taking an account's entry out of a child trie changes the sum of that trie by
/// as much as the entry, and no other sum.
pub proof fn total_without_contribution(
    state: State,
    at: Seq<u8>,
    who: AccountId,
    child: Seq<u8>,
)
    requires
        state.contributions.dom().finite(),
    ensures
        ({
            let after = state.without_contribution(at, who);
            &&& after.contributions.dom().finite()
            &&& child == at ==> total(after.contributions, child) == total(
                state.contributions,
                child,
            ) - state.contribution(at, who).amount
            &&& child != at ==> total(after.contributions, child) == total(
                state.contributions,
                child,
            )
        }),
{
    total_with_contribution(state, at, who, 0, Seq::empty(), child);
}

/// Different vaults and different kinds never share a child trie: the hash
/// function of the chain has no collision among the seeds.
pub open spec fn collision_free<T: Config>() -> bool {
    forall|i: TrieIndex, k: ChildStorageKind, j: TrieIndex, l: ChildStorageKind|
        #![trigger child_id::<T>(i, k), child_id::<T>(j, l)]
        child_id::<T>(i, k) == child_id::<T>(j, l) ==> i == j && k == l
}

/// The phases of a vault before its auction is decided.
pub open spec fn undecided(phase: VaultPhase) -> bool {
    phase == VaultPhase::Pending || phase == VaultPhase::Contributing || phase
        == VaultPhase::Closed
}

impl State {
    /// Each vault is kept under its own lease, which ends in a later period than it
    /// begins, and can hold something.
    pub open spec fn vaults_in_place(self) -> bool {
        forall|key: VaultKey| #[trigger]
            self.vaults.contains_key(key) ==> {
                &&& self.vaults[key].id() == (key.1, key.2)
                &&& key.1 < key.2
                &&& self.vaults[key].cap > 0
            }
    }

    /// Each vault has an index of its own, which was given out before.
    pub open spec fn indices_distinct(self) -> bool {
        &&& forall|key: VaultKey| #[trigger]
            self.vaults.contains_key(key) ==> self.vaults[key].trie_index < self.next_trie_index
        &&& forall|a: VaultKey, b: VaultKey| #[trigger]
            self.vaults.contains_key(a) && #[trigger] self.vaults.contains_key(b) && a != b
                ==> self.vaults[a].trie_index != self.vaults[b].trie_index
    }

    /// The derivative of each vault is the one that is recorded for its lease, and
    /// no two leases have the same.
    pub open spec fn ctokens_agree(self) -> bool {
        &&& forall|key: VaultKey| #[trigger]
            self.vaults.contains_key(key) ==> self.ctoken_of((key.1, key.2)) == Some(
                self.vaults[key].ctoken,
            )
        &&& forall|id: VaultId| #[trigger] self.ctokens_registry.contains_key(id) ==> id.0 < id.1
        &&& forall|a: VaultId, b: VaultId| #[trigger]
            self.ctokens_registry.contains_key(a) && #[trigger] self.ctokens_registry.contains_key(b)
                && self.ctokens_registry[a] == self.ctokens_registry[b] ==> a == b
    }

    /// A crowdloan that bids has a vault to bid with.
    pub open spec fn bids_have_vaults(self) -> bool {
        forall|crowdloan: u32| #[trigger]
            self.leases_registry.contains_key(crowdloan) ==> self.vaults.contains_key(
                (
                    crowdloan,
                    self.leases_registry[crowdloan].0,
                    self.leases_registry[crowdloan].1,
                ),
            )
    }

    /// No entry of nothing is kept.
    pub open spec fn entries_positive(self) -> bool {
        &&& self.contributions.dom().finite()
        &&& forall|k: ContributionKey<Seq<u8>>| #[trigger]
            self.contributions.contains_key(k) ==> self.contributions[k].amount > 0
    }

    /// What holds of the pallet's state at all times.
    pub open spec fn consistent(self) -> bool {
        &&& self.vaults_in_place()
        &&& self.indices_distinct()
        &&& self.ctokens_agree()
        &&& self.bids_have_vaults()
        &&& self.entries_positive()
    }

    /// The sum of a vault for a kind is the sum of the entries in the child trie.
    pub open spec fn sum_agrees<T: Config>(self, vault: Vault, kind: ChildStorageKind) -> bool {
        vault.sum_of(kind) == total(self.contributions, child_id::<T>(vault.trie_index, kind))
    }

    /// What a vault says of contributions is what the child tries hold. Once its
    /// auction was decided, confirmed contributions are claimed, withdrawn and
    /// redeemed, so of these nothing is said then.
    pub open spec fn vault_agrees<T: Config>(self, vault: Vault) -> bool {
        &&& self.sum_agrees::<T>(vault, ChildStorageKind::Pending)
        &&& self.sum_agrees::<T>(vault, ChildStorageKind::Flying)
        &&& undecided(vault.phase) ==> self.sum_agrees::<T>(vault, ChildStorageKind::Contributed)
    }

    /// All vaults agree with the child tries, and the child tries of vaults to
    /// come are empty.
    pub open spec fn books_agree<T: Config>(self) -> bool {
        &&& forall|key: VaultKey| #[trigger]
            self.vaults.contains_key(key) ==> self.vault_agrees::<T>(self.vaults[key])
        &&& forall|index: TrieIndex, kind: ChildStorageKind|
            index >= self.next_trie_index ==> !self.has_entries(#[trigger] child_id::<T>(index, kind))
    }

    /// A vault whose contributions are asked back fails or expires then.
    pub open spec fn recalls_decide(self) -> bool {
        forall|query_id: QueryId| #[trigger]
            self.xcm_requests.contains_key(query_id) ==> match self.xcm_requests[query_id] {
                XcmRequest::Withdraw { target_phase, .. } => !undecided(target_phase)
                    && target_phase != VaultPhase::Succeeded,
                _ => true,
            }
    }

    /// By how much a vault counts more as confirmed than its child trie holds.
    pub open spec fn surplus<T: Config>(self, key: VaultKey) -> int {
        self.vaults[key].contributed - total(
            self.contributions,
            child_id::<T>(self.vaults[key].trie_index, ChildStorageKind::Contributed),
        )
    }

    /// Each vault counts at least as much as confirmed as its child trie holds.
    /// (It counts more once contributions were claimed.)
    pub open spec fn books_cover<T: Config>(self) -> bool {
        forall|key: VaultKey| #[trigger]
            self.vaults.contains_key(key) ==> self.surplus::<T>(key) >= 0
    }

    /// What an account has to claim of its contributions to a vault.
    pub open spec fn claimable<T: Config>(self, key: VaultKey, who: AccountId) -> Balance {
        self.contribution(
            child_id::<T>(self.vaults[key].trie_index, ChildStorageKind::Contributed),
            who,
        ).amount
    }
}

/// The surplus of a vault changes by `d`, and that of no other; a new vault has none.
pub open spec fn surplus_moves<T: Config>(
    before: State,
    after: State,
    key: VaultKey,
    d: int,
) -> bool {
    forall|k: VaultKey| #[trigger]
        after.vaults.contains_key(k) ==> after.surplus::<T>(k) == (if before.vaults.contains_key(k) {
            before.surplus::<T>(k)
        } else {
            0
        }) + (if k == key {
            d
        } else {
            0
        })
}

/// No surplus changes; a new vault has none.
pub open spec fn same_surplus<T: Config>(before: State, after: State) -> bool {
    forall|k: VaultKey| #[trigger]
        after.vaults.contains_key(k) ==> after.surplus::<T>(k) == (if before.vaults.contains_key(k) {
            before.surplus::<T>(k)
        } else {
            0
        })
}

/// A state and a vault are as good as the state with the vault put in place: the
/// vault is the one under `key`, except for its sums.
pub open spec fn same_but_sums(a: Vault, b: Vault) -> bool {
    a == (Vault { pending: a.pending, flying: a.flying, contributed: a.contributed, ..b })
}

/// Changing a contribution keeps the state consistent, where the vault's new sums
/// are put in place.
pub proof fn update_keeps_consistent(
    state: State,
    child: Seq<u8>,
    key: VaultKey,
    vault: Vault,
    who: AccountId,
    amount: Balance,
    new_referral_code: Option<Seq<u8>>,
    arithmetic: ArithmeticKind,
    kind: ChildStorageKind,
)
    requires
        state.with_vault(key, vault).consistent(),
        state.vaults.contains_key(key),
        state.update_contribution(
            child,
            who,
            vault,
            amount,
            new_referral_code,
            arithmetic,
            kind,
        ) is Ok,
    ensures
        ({
            let (after, changed, _) = state.update_contribution(
                child,
                who,
                vault,
                amount,
                new_referral_code,
                arithmetic,
                kind,
            )->Ok_0;
            &&& after.with_vault(key, changed).consistent()
            &&& after.vaults == state.vaults
            &&& same_but_sums(changed, vault)
        }),
{
    let (after, changed, code) = state.update_contribution(
        child,
        who,
        vault,
        amount,
        new_referral_code,
        arithmetic,
        kind,
    )->Ok_0;
    total_with_contribution(
        state,
        child,
        who,
        shifted_share(state, child, who, amount, arithmetic),
        code,
        child,
    );
    let before = state.with_vault(key, vault);
    let then = after.with_vault(key, changed);
    assert forall|k: VaultKey| #[trigger] then.vaults.contains_key(k) implies before.vaults.contains_key(k)
        && same_but_sums(then.vaults[k], before.vaults[k]) by {}
    assert(then.vaults_in_place());
    assert(then.indices_distinct());
    assert(then.ctokens_agree());
    assert(then.bids_have_vaults()) by {
        assert(then.vaults.dom() =~= before.vaults.dom());
        assert forall|crowdloan: u32| #[trigger]
            then.leases_registry.contains_key(crowdloan) implies then.vaults.contains_key(
            (crowdloan, then.leases_registry[crowdloan].0, then.leases_registry[crowdloan].1),
        ) by {
            assert(before.leases_registry.contains_key(crowdloan));
        }
    }
    assert(then.entries_positive());
}

/// An account's share after a change.
spec fn shifted_share(
    state: State,
    child: Seq<u8>,
    who: AccountId,
    amount: Balance,
    arithmetic: ArithmeticKind,
) -> Balance {
    shifted(state.contribution(child, who).amount, amount, arithmetic) as Balance
}

/// Changing a contribution keeps the books in agreement, where the vault's new
/// sums are put in place.
pub proof fn update_keeps_books<T: Config>(
    state: State,
    key: VaultKey,
    vault: Vault,
    who: AccountId,
    amount: Balance,
    new_referral_code: Option<Seq<u8>>,
    arithmetic: ArithmeticKind,
    kind: ChildStorageKind,
)
    requires
        collision_free::<T>(),
        state.with_vault(key, vault).consistent(),
        state.with_vault(key, vault).books_agree::<T>(),
        state.vaults.contains_key(key),
        state.update_contribution(
            child_id::<T>(vault.trie_index, kind),
            who,
            vault,
            amount,
            new_referral_code,
            arithmetic,
            kind,
        ) is Ok,
    ensures
        ({
            let (after, changed, _) = state.update_contribution(
                child_id::<T>(vault.trie_index, kind),
                who,
                vault,
                amount,
                new_referral_code,
                arithmetic,
                kind,
            )->Ok_0;
            &&& after.with_vault(key, changed).books_agree::<T>()
            &&& same_surplus::<T>(state.with_vault(key, vault), after.with_vault(key, changed))
        }),
{
    let child = child_id::<T>(vault.trie_index, kind);
    let (after, changed, code) = state.update_contribution(
        child,
        who,
        vault,
        amount,
        new_referral_code,
        arithmetic,
        kind,
    )->Ok_0;
    let share = shifted_share(state, child, who, amount, arithmetic);
    let before = state.with_vault(key, vault);
    let then = after.with_vault(key, changed);
    assert(before.vaults.contains_key(key));
    assert forall|k: VaultKey, l: ChildStorageKind| #[trigger] then.vaults.contains_key(k) implies total(
        then.contributions,
        #[trigger] child_id::<T>(then.vaults[k].trie_index, l),
    ) - then.vaults[k].sum_of(l) == total(
        before.contributions,
        child_id::<T>(before.vaults[k].trie_index, l),
    ) - before.vaults[k].sum_of(l) by {
        assert(before.vaults.contains_key(k));
        assert(then.vaults[k].trie_index == before.vaults[k].trie_index);
        let other = child_id::<T>(then.vaults[k].trie_index, l);
        total_with_contribution(state, child, who, share, code, other);
        if k == key {
            if l != kind {
                assert(other != child);
            }
        } else {
            assert(then.vaults[k].trie_index != vault.trie_index);
            assert(other != child);
        }
    }
    assert forall|k: VaultKey| #[trigger] then.vaults.contains_key(k) implies then.vault_agrees::<
        T,
    >(then.vaults[k]) by {
        assert(before.vaults.contains_key(k));
        let p = child_id::<T>(then.vaults[k].trie_index, ChildStorageKind::Pending);
        let f = child_id::<T>(then.vaults[k].trie_index, ChildStorageKind::Flying);
        let c = child_id::<T>(then.vaults[k].trie_index, ChildStorageKind::Contributed);
    }
    assert forall|index: TrieIndex, l: ChildStorageKind|
        index >= then.next_trie_index implies !then.has_entries(#[trigger] child_id::<T>(index, l)) by {
        let other = child_id::<T>(index, l);
        assert(!before.has_entries(other));
        assert(vault.trie_index < state.next_trie_index) by {
            assert(before.vaults[key] == vault);
        }
        assert(other != child);
        if then.has_entries(other) {
            let w = choose|w: AccountId| #[trigger]
                then.contributions.contains_key(ContributionKey { child: other, who: w });
            assert(before.contributions.contains_key(ContributionKey { child: other, who: w }));
        }
    }
    assert forall|k: VaultKey| #[trigger] then.vaults.contains_key(k) implies before.vaults.contains_key(
        k,
    ) && then.surplus::<T>(k) == before.surplus::<T>(k) by {
        assert(before.vaults.contains_key(k));
        let c = child_id::<T>(then.vaults[k].trie_index, ChildStorageKind::Contributed);
    }
}

} // verus!
