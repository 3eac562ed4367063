//! Every call keeps the pallet's state in order.
use vstd::prelude::*;

use crate::config::Config;
use crate::funding::entry_kind;
use crate::payouts::addressee;
use crate::pallet::signer;
use crate::state::{child_id, State, World};
use crate::tally::{
    collision_free, same_but_sums, same_surplus, surplus_moves, total, total_of_none,
    total_without_contribution, undecided, update_keeps_books, update_keeps_consistent,
};
use crate::types::{
    AccountId, ArithmeticKind, Balance, BlockNumber, BonusConfig, CallError, ChildStorageKind,
    ContributionKey, ContributionStrategy, CurrencyId, LeasePeriod, Origin, ParaId, QueryId,
    Response, TrieIndex, Vault, VaultId, VaultKey, VaultPhase, XcmRequest,
};
use crate::vaults::{with_terms, VaultChange};

verus! {

/// The calls of the pallet. `S` is what accounts can be addressed by.
pub enum Call<S> {
    CreateVault {
        crowdloan: ParaId,
        ctoken: CurrencyId,
        lease_start: LeasePeriod,
        lease_end: LeasePeriod,
        contribution_strategy: ContributionStrategy,
        cap: Balance,
        end_block: BlockNumber,
    },
    UpdateVault {
        crowdloan: ParaId,
        new_cap: Option<Balance>,
        new_end_block: Option<BlockNumber>,
        new_strategy: Option<ContributionStrategy>,
    },
    Open { crowdloan: ParaId },
    Contribute { crowdloan: ParaId, amount: Balance, referral_code: Seq<u8> },
    SetVrf { flag: bool },
    Close { crowdloan: ParaId },
    Reopen { crowdloan: ParaId },
    AuctionSucceeded { crowdloan: ParaId },
    AuctionFailed { crowdloan: ParaId },
    Claim { crowdloan: ParaId, lease_start: LeasePeriod, lease_end: LeasePeriod },
    ClaimFor { dest: S, crowdloan: ParaId, lease_start: LeasePeriod, lease_end: LeasePeriod },
    Withdraw { crowdloan: ParaId, lease_start: LeasePeriod, lease_end: LeasePeriod },
    WithdrawFor { dest: S, crowdloan: ParaId, lease_start: LeasePeriod, lease_end: LeasePeriod },
    Redeem { crowdloan: ParaId, lease_start: LeasePeriod, lease_end: LeasePeriod, amount: Balance },
    SlotExpired { crowdloan: ParaId },
    MigratePending { crowdloan: ParaId },
    NotificationReceived { query_id: QueryId, response: Response },
    Refund { crowdloan: ParaId, lease_start: LeasePeriod, lease_end: LeasePeriod },
    DissolveVault { crowdloan: ParaId, lease_start: LeasePeriod, lease_end: LeasePeriod },
    RefundFor {
        dest: S,
        crowdloan: ParaId,
        kind: ChildStorageKind,
        amount: Balance,
        lease_start: LeasePeriod,
        lease_end: LeasePeriod,
    },
    UpdateProxy { proxy_address: AccountId },
    UpdateLeasesBonus {
        lease_start: LeasePeriod,
        lease_end: LeasePeriod,
        bonus_config: BonusConfig,
    },
}

impl<T: Config> World<T> {
    /// What a call does.
    pub open spec fn dispatch(
        self,
        origin: Origin<T::OtherOrigin>,
        call: Call<T::LookupSource>,
    ) -> (World<T>, Result<(), CallError>) {
        match call {
            Call::CreateVault {
                crowdloan,
                ctoken,
                lease_start,
                lease_end,
                contribution_strategy,
                cap,
                end_block,
            } => self.create_vault(
                origin,
                crowdloan,
                ctoken,
                lease_start,
                lease_end,
                contribution_strategy,
                cap,
                end_block,
            ),
            Call::UpdateVault { crowdloan, new_cap, new_end_block, new_strategy } => {
                self.update_vault(origin, crowdloan, new_cap, new_end_block, new_strategy)
            },
            Call::Open { crowdloan } => self.open_vault(origin, crowdloan),
            Call::Contribute { crowdloan, amount, referral_code } => {
                self.contribute(origin, crowdloan, amount, referral_code)
            },
            Call::SetVrf { flag } => self.set_vrf(origin, flag),
            Call::Close { crowdloan } => self.close(origin, crowdloan),
            Call::Reopen { crowdloan } => self.reopen(origin, crowdloan),
            Call::AuctionSucceeded { crowdloan } => self.auction_succeeded(origin, crowdloan),
            Call::AuctionFailed { crowdloan } => self.auction_failed(origin, crowdloan),
            Call::Claim { crowdloan, lease_start, lease_end } => {
                self.claim(origin, crowdloan, lease_start, lease_end)
            },
            Call::ClaimFor { dest, crowdloan, lease_start, lease_end } => {
                self.claim_for(origin, dest, crowdloan, lease_start, lease_end)
            },
            Call::Withdraw { crowdloan, lease_start, lease_end } => {
                self.withdraw(origin, crowdloan, lease_start, lease_end)
            },
            Call::WithdrawFor { dest, crowdloan, lease_start, lease_end } => {
                self.withdraw_for(origin, dest, crowdloan, lease_start, lease_end)
            },
            Call::Redeem { crowdloan, lease_start, lease_end, amount } => {
                self.redeem(origin, crowdloan, lease_start, lease_end, amount)
            },
            Call::SlotExpired { crowdloan } => self.slot_expired(origin, crowdloan),
            Call::MigratePending { crowdloan } => self.migrate_pending(origin, crowdloan),
            Call::NotificationReceived { query_id, response } => {
                self.notification_received(origin, query_id, response)
            },
            Call::Refund { crowdloan, lease_start, lease_end } => {
                self.refund(origin, crowdloan, lease_start, lease_end)
            },
            Call::DissolveVault { crowdloan, lease_start, lease_end } => {
                self.dissolve_vault(origin, crowdloan, lease_start, lease_end)
            },
            Call::RefundFor { dest, crowdloan, kind, amount, lease_start, lease_end } => {
                self.refund_for(origin, dest, crowdloan, kind, amount, lease_start, lease_end)
            },
            Call::UpdateProxy { proxy_address } => self.update_proxy(origin, proxy_address),
            Call::UpdateLeasesBonus { lease_start, lease_end, bonus_config } => {
                self.update_leases_bonus(origin, lease_start, lease_end, bonus_config)
            },
        }
    }
}

/// A state is in order: it is consistent, unless child tries collide the books
/// agree, and vaults whose contributions are asked back are to fail or expire.
pub open spec fn in_order<T: Config>(state: State) -> bool {
    &&& sound::<T>(state)
    &&& state.recalls_decide()
}

/// A state is in order as far as vaults, leases and contributions go.
pub open spec fn sound<T: Config>(state: State) -> bool {
    &&& state.consistent()
    &&& collision_free::<T>() ==> state.books_agree::<T>()
}

/// `after` is in order if `before` is, and no vault's surplus differs.
spec fn keeps<T: Config>(before: State, after: State) -> bool {
    sound::<T>(before) ==> {
        &&& sound::<T>(after)
        &&& collision_free::<T>() ==> same_surplus::<T>(before, after)
    }
}

/// Two states agree on vaults, leases and contributions.
spec fn same_holdings(a: State, b: State) -> bool {
    &&& a.vaults == b.vaults
    &&& a.ctokens_registry == b.ctokens_registry
    &&& a.leases_registry == b.leases_registry
    &&& a.next_trie_index == b.next_trie_index
    &&& a.contributions == b.contributions
}

/// What is not about vaults, leases and contributions does not matter.
proof fn same_holdings_keep<T: Config>(a: State, b: State)
    requires
        same_holdings(a, b),
    ensures
        keeps::<T>(a, b),
{
    if sound::<T>(a) {
        assert(b.vaults_in_place());
        assert(b.indices_distinct());
        assert(b.ctokens_agree()) by {
            assert forall|key: VaultKey| #[trigger] b.vaults.contains_key(key) implies b.ctoken_of(
                (key.1, key.2),
            ) == Some(b.vaults[key].ctoken) by {
                assert(a.vaults.contains_key(key));
            }
        }
        assert(b.bids_have_vaults());
        assert(b.entries_positive());
        if collision_free::<T>() {
            assert forall|key: VaultKey| #[trigger]
                b.vaults.contains_key(key) implies b.vault_agrees::<T>(b.vaults[key]) by {
                assert(a.vaults.contains_key(key));
            }
            assert forall|index: TrieIndex, kind: ChildStorageKind|
                index >= b.next_trie_index implies !b.has_entries(
                #[trigger] child_id::<T>(index, kind),
            ) by {
                assert(!a.has_entries(child_id::<T>(index, kind)));
            }
        }
    }
}

/// The vault `b` stands where `a` stood: nothing differs that the books are about.
spec fn stands_for(a: Vault, b: Vault) -> bool {
    &&& b.id() == a.id()
    &&& b.ctoken == a.ctoken
    &&& b.trie_index == a.trie_index
    &&& b.cap > 0
    &&& b.pending == a.pending
    &&& b.flying == a.flying
    &&& undecided(b.phase) ==> undecided(a.phase) && b.contributed == a.contributed
}

/// Changing the terms or the phase of a vault.
proof fn replacement_keeps<T: Config>(state: State, key: VaultKey, vault: Vault)
    requires
        sound::<T>(state),
        state.vaults.contains_key(key),
        stands_for(state.vaults[key], vault),
    ensures
        sound::<T>(state.with_vault(key, vault)),
        collision_free::<T>() ==> surplus_moves::<T>(
            state,
            state.with_vault(key, vault),
            key,
            vault.contributed - state.vaults[key].contributed,
        ),
{
    let then = state.with_vault(key, vault);
    assert(then.vaults.dom() =~= state.vaults.dom());
    assert forall|k: VaultKey| #[trigger]
        then.vaults.contains_key(k) implies state.vaults.contains_key(k)
        && stands_for(state.vaults[k], then.vaults[k]) by {}
    assert(then.vaults_in_place());
    assert(then.indices_distinct());
    assert(then.ctokens_agree()) by {
        assert forall|k: VaultKey| #[trigger] then.vaults.contains_key(k) implies then.ctoken_of(
            (k.1, k.2),
        ) == Some(then.vaults[k].ctoken) by {
            assert(state.vaults.contains_key(k));
            assert(state.ctoken_of((k.1, k.2)) == Some(state.vaults[k].ctoken));
        }
    }
    assert(then.bids_have_vaults()) by {
        assert forall|crowdloan: u32| #[trigger]
            then.leases_registry.contains_key(crowdloan) implies then.vaults.contains_key(
            (crowdloan, then.leases_registry[crowdloan].0, then.leases_registry[crowdloan].1),
        ) by {
            assert(state.leases_registry.contains_key(crowdloan));
        }
    }
    assert(then.entries_positive());
    if collision_free::<T>() {
        assert forall|k: VaultKey| #[trigger]
            then.vaults.contains_key(k) implies then.vault_agrees::<T>(then.vaults[k]) by {
            assert(state.vaults.contains_key(k));
        }
        assert forall|index: TrieIndex, kind: ChildStorageKind|
            index >= then.next_trie_index implies !then.has_entries(
            #[trigger] child_id::<T>(index, kind),
        ) by {
            assert(!state.has_entries(child_id::<T>(index, kind)));
        }
    }
}

/// Putting a vault in place that is there already changes nothing.
proof fn in_place(state: State, key: VaultKey)
    requires
        state.vaults.contains_key(key),
    ensures
        state.with_vault(key, state.vaults[key]) == state,
{
    assert(state.with_vault(key, state.vaults[key]).vaults =~= state.vaults);
}

/// The vault that a crowdloan bids with is kept under its own lease.
pub(crate) proof fn current_vault_in_place(state: State, crowdloan: ParaId)
    requires
        state.consistent(),
        state.current_vault(crowdloan) is Some,
    ensures
        ({
            let vault = state.current_vault(crowdloan)->0;
            let key = (crowdloan, vault.lease_start, vault.lease_end);
            state.vaults.contains_key(key) && state.vaults[key] == vault
        }),
{
    let id = state.leases_registry[crowdloan];
    assert(state.vaults.contains_key((crowdloan, id.0, id.1)));
}

/// Changing a contribution, where the vault's new sums are put in place.
proof fn update_keeps<T: Config>(
    state: State,
    key: VaultKey,
    vault: Vault,
    who: AccountId,
    amount: Balance,
    new_referral_code: Option<Seq<u8>>,
    arithmetic: ArithmeticKind,
    kind: ChildStorageKind,
)
    requires
        sound::<T>(state.with_vault(key, vault)),
        state.vaults.contains_key(key),
        state.update_contribution(
            child_id::<T>(vault.trie_index, kind),
            who,
            vault,
            amount,
            new_referral_code,
            arithmetic,
            kind,
        ) is Ok,
    ensures
        ({
            let (after, changed, _) = state.update_contribution(
                child_id::<T>(vault.trie_index, kind),
                who,
                vault,
                amount,
                new_referral_code,
                arithmetic,
                kind,
            )->Ok_0;
            &&& keeps::<T>(state.with_vault(key, vault), after.with_vault(key, changed))
            &&& after.vaults == state.vaults
            &&& same_but_sums(changed, vault)
        }),
{
    update_keeps_consistent(
        state,
        child_id::<T>(vault.trie_index, kind),
        key,
        vault,
        who,
        amount,
        new_referral_code,
        arithmetic,
        kind,
    );
    if collision_free::<T>() {
        update_keeps_books::<T>(
            state,
            key,
            vault,
            who,
            amount,
            new_referral_code,
            arithmetic,
            kind,
        );
    }
}

/// Moving a contribution from one kind to another, where the vault's new sums are
/// put in place.
proof fn migration_keeps<T: Config>(
    state: State,
    key: VaultKey,
    vault: Vault,
    who: AccountId,
    amount: Balance,
    source: ChildStorageKind,
    destination: ChildStorageKind,
)
    requires
        sound::<T>(state.with_vault(key, vault)),
        state.vaults.contains_key(key),
        state.migrate_contribution::<T>(who, vault, amount, source, destination) is Ok,
    ensures
        ({
            let (after, changed) = state.migrate_contribution::<T>(
                who,
                vault,
                amount,
                source,
                destination,
            )->Ok_0;
            &&& keeps::<T>(state.with_vault(key, vault), after.with_vault(key, changed))
            &&& after.vaults == state.vaults
            &&& same_but_sums(changed, vault)
        }),
{
    update_keeps::<T>(
        state,
        key,
        vault,
        who,
        amount,
        None,
        ArithmeticKind::Subtraction,
        source,
    );
    let (half, less, code) = state.update_contribution(
        child_id::<T>(vault.trie_index, source),
        who,
        vault,
        amount,
        None,
        ArithmeticKind::Subtraction,
        source,
    )->Ok_0;
    update_keeps::<T>(
        half,
        key,
        less,
        who,
        amount,
        Some(code),
        ArithmeticKind::Addition,
        destination,
    );
}

/// Forgetting a confirmed contribution.
proof fn removal_keeps<T: Config>(state: State, key: VaultKey, who: AccountId)
    requires
        sound::<T>(state),
        state.vaults.contains_key(key),
        !undecided(state.vaults[key].phase),
    ensures
        ({
            let child = child_id::<T>(
                state.vaults[key].trie_index,
                ChildStorageKind::Contributed,
            );
            let after = state.without_contribution(child, who);
            &&& sound::<T>(after)
            &&& collision_free::<T>() ==> surplus_moves::<T>(
                state,
                after,
                key,
                state.contribution(child, who).amount as int,
            )
        }),
{
    let child = child_id::<T>(state.vaults[key].trie_index, ChildStorageKind::Contributed);
    let after = state.without_contribution(child, who);
    total_without_contribution(state, child, who, child);
    assert(after.vaults_in_place());
    assert(after.indices_distinct());
    assert(after.ctokens_agree()) by {
        assert forall|k: VaultKey| #[trigger]
            after.vaults.contains_key(k) implies after.ctoken_of(
            (k.1, k.2),
        ) == Some(after.vaults[k].ctoken) by {
            assert(state.vaults.contains_key(k));
        }
    }
    assert(after.bids_have_vaults());
    assert(after.entries_positive());
    if collision_free::<T>() {
        assert forall|k: VaultKey| #[trigger]
            after.vaults.contains_key(k) implies after.vault_agrees::<T>(after.vaults[k]) by {
            let p = child_id::<T>(after.vaults[k].trie_index, ChildStorageKind::Pending);
            let f = child_id::<T>(after.vaults[k].trie_index, ChildStorageKind::Flying);
            assert(state.vaults.contains_key(k));
            assert(p != child && f != child);
            total_without_contribution(state, child, who, p);
            total_without_contribution(state, child, who, f);
            if undecided(after.vaults[k].phase) {
                let c = child_id::<T>(after.vaults[k].trie_index, ChildStorageKind::Contributed);
                assert(c != child);
                total_without_contribution(state, child, who, c);
            }
        }
        assert forall|index: TrieIndex, kind: ChildStorageKind|
            index >= after.next_trie_index implies !after.has_entries(
            #[trigger] child_id::<T>(index, kind),
        ) by {
            let other = child_id::<T>(index, kind);
            assert(!state.has_entries(other));
            if after.has_entries(other) {
                let w = choose|w: AccountId| #[trigger]
                    after.contributions.contains_key(ContributionKey { child: other, who: w });
                assert(state.contributions.contains_key(ContributionKey { child: other, who: w }));
            }
        }
        assert forall|k: VaultKey| #[trigger] after.vaults.contains_key(k) implies after.surplus::<T>(
            k,
        ) == state.surplus::<T>(k) + (if k == key {
            state.contribution(child, who).amount as int
        } else {
            0
        }) by {
            assert(state.vaults.contains_key(k));
            let c = child_id::<T>(after.vaults[k].trie_index, ChildStorageKind::Contributed);
            total_without_contribution(state, child, who, c);
            if k != key {
                assert(c != child);
            }
        }
    }
}

/// Creating a vault.
proof fn creation_keeps<T: Config>(
    state: State,
    crowdloan: ParaId,
    ctoken: CurrencyId,
    lease_start: LeasePeriod,
    lease_end: LeasePeriod,
    contribution_strategy: ContributionStrategy,
    cap: Balance,
    end_block: BlockNumber,
)
    requires
        cap > 0,
        lease_start < lease_end,
        !state.is_taken(ctoken, (lease_start, lease_end)),
        state.ctokens_registry.contains_key((lease_start, lease_end))
            ==> state.ctokens_registry[(lease_start, lease_end)] == ctoken,
        !state.vaults.contains_key((crowdloan, lease_start, lease_end)),
        state.next_trie_index < TrieIndex::MAX,
    ensures
        keeps::<T>(
            state,
            state.with_new_vault(
                crowdloan,
                ctoken,
                lease_start,
                lease_end,
                contribution_strategy,
                cap,
                end_block,
            ),
        ),
{
    let key = (crowdloan, lease_start, lease_end);
    let after = state.with_new_vault(
        crowdloan,
        ctoken,
        lease_start,
        lease_end,
        contribution_strategy,
        cap,
        end_block,
    );
    if sound::<T>(state) {
        assert(after.vaults_in_place());
        assert(after.indices_distinct());
        assert(after.ctokens_agree()) by {
            assert forall|k: VaultKey| #[trigger]
                after.vaults.contains_key(k) implies after.ctoken_of(
                (k.1, k.2),
            ) == Some(after.vaults[k].ctoken) by {
                if k != key {
                    assert(state.vaults.contains_key(k));
                    assert(state.ctoken_of((k.1, k.2)) == Some(state.vaults[k].ctoken));
                }
            }
            assert forall|a: VaultId, b: VaultId| #[trigger]
                after.ctokens_registry.contains_key(a) && #[trigger] after.ctokens_registry.contains_key(
                    b,
                ) && after.ctokens_registry[a] == after.ctokens_registry[b] implies a == b by {
                let id = (lease_start, lease_end);
                if a != b {
                    assert(a != id ==> !state.bears(ctoken, a));
                    assert(b != id ==> !state.bears(ctoken, b));
                }
            }
        }
        assert(after.bids_have_vaults()) by {
            assert forall|c: u32| #[trigger]
                after.leases_registry.contains_key(c) implies after.vaults.contains_key(
                (c, after.leases_registry[c].0, after.leases_registry[c].1),
            ) by {
                if c != crowdloan {
                    assert(state.leases_registry.contains_key(c));
                }
            }
        }
        assert(after.entries_positive());
        if collision_free::<T>() {
            assert forall|k: VaultKey| #[trigger]
                after.vaults.contains_key(k) implies after.vault_agrees::<T>(after.vaults[k]) by {
                if k != key {
                    assert(state.vaults.contains_key(k));
                } else {
                    fresh_total::<T>(state, ChildStorageKind::Pending);
                    fresh_total::<T>(state, ChildStorageKind::Flying);
                    fresh_total::<T>(state, ChildStorageKind::Contributed);
                }
            }
            assert forall|index: TrieIndex, kind: ChildStorageKind|
                index >= after.next_trie_index implies !after.has_entries(
                #[trigger] child_id::<T>(index, kind),
            ) by {
                assert(!state.has_entries(child_id::<T>(index, kind)));
            }
            assert forall|k: VaultKey| #[trigger]
                after.vaults.contains_key(k) implies after.surplus::<T>(k) == (
            if state.vaults.contains_key(k) {
                state.surplus::<T>(k)
            } else {
                0
            }) by {
                if k == key {
                    fresh_total::<T>(state, ChildStorageKind::Contributed);
                }
            }
        }
    }
}

/// The child tries of the next vault sum up to nothing.
proof fn fresh_total<T: Config>(state: State, kind: ChildStorageKind)
    requires
        state.books_agree::<T>(),
    ensures
        total(state.contributions, child_id::<T>(state.next_trie_index, kind)) == 0,
{
    let child = child_id::<T>(state.next_trie_index, kind);
    assert(!state.has_entries(child));
    assert forall|k: ContributionKey<Seq<u8>>| state.contributions.contains_key(k) implies k.child
        != child by {
        if k.child == child {
            assert(state.contributions.contains_key(ContributionKey { child, who: k.who }));
        }
    }
    total_of_none(state.contributions, child);
}

/// Dissolving a vault.
proof fn dissolution_keeps<T: Config>(
    state: State,
    crowdloan: ParaId,
    lease_start: LeasePeriod,
    lease_end: LeasePeriod,
)
    ensures
        keeps::<T>(state, state.without_vault(crowdloan, lease_start, lease_end)),
{
    let key = (crowdloan, lease_start, lease_end);
    let after = state.without_vault(crowdloan, lease_start, lease_end);
    if sound::<T>(state) {
        assert(after.vaults_in_place());
        assert(after.indices_distinct());
        assert(after.ctokens_agree()) by {
            assert forall|k: VaultKey| #[trigger]
                after.vaults.contains_key(k) implies after.ctoken_of(
                (k.1, k.2),
            ) == Some(after.vaults[k].ctoken) by {
                assert(state.vaults.contains_key(k));
                assert(state.ctoken_of((k.1, k.2)) == Some(state.vaults[k].ctoken));
            }
        }
        assert(after.bids_have_vaults()) by {
            assert forall|c: u32| #[trigger]
                after.leases_registry.contains_key(c) implies after.vaults.contains_key(
                (c, after.leases_registry[c].0, after.leases_registry[c].1),
            ) by {
                assert(state.leases_registry.contains_key(c));
                if c == crowdloan {
                    assert(state.leases_registry[c] != (lease_start, lease_end));
                }
            }
        }
        assert(after.entries_positive());
        if collision_free::<T>() {
            assert forall|k: VaultKey| #[trigger]
                after.vaults.contains_key(k) implies after.vault_agrees::<T>(after.vaults[k]) by {
                assert(state.vaults.contains_key(k));
            }
            assert forall|index: TrieIndex, kind: ChildStorageKind|
                index >= after.next_trie_index implies !after.has_entries(
                #[trigger] child_id::<T>(index, kind),
            ) by {
                assert(!state.has_entries(child_id::<T>(index, kind)));
            }
        }
    }
}

/// Changing the vault that a crowdloan bids with.
proof fn change_keeps<T: Config>(
    world: World<T>,
    crowdloan: ParaId,
    phase: VaultPhase,
    change: VaultChange,
)
    requires
        world.try_mutate_vault(crowdloan, phase, change).1 is Ok,
        change is Enter && undecided(change->Enter_0) ==> undecided(phase),
    ensures
        keeps::<T>(world.state, world.try_mutate_vault(crowdloan, phase, change).0.state),
{
    let after = world.try_mutate_vault(crowdloan, phase, change).0.state;
    if sound::<T>(world.state) {
        current_vault_in_place(world.state, crowdloan);
        let vault = world.state.current_vault(crowdloan)->0;
        let key = (crowdloan, vault.lease_start, vault.lease_end);
        let changed = match change {
            VaultChange::Enter(now) => Vault { phase: now, ..vault },
            VaultChange::Recall(_) => vault,
        };
        replacement_keeps::<T>(world.state, key, changed);
        same_holdings_keep::<T>(world.state.with_vault(key, changed), after);
    }
}

/// Updating the vault that a crowdloan bids with.
proof fn vault_update_keeps<T: Config>(
    world: World<T>,
    origin: Origin<T::OtherOrigin>,
    crowdloan: ParaId,
    cap: Option<Balance>,
    end_block: Option<BlockNumber>,
    contribution_strategy: Option<ContributionStrategy>,
)
    requires
        world.vault_updated(origin, crowdloan, cap, end_block, contribution_strategy).1 is Ok,
    ensures
        keeps::<T>(
            world.state,
            world.vault_updated(origin, crowdloan, cap, end_block, contribution_strategy).0.state,
        ),
{
    let after = world.vault_updated(
        origin,
        crowdloan,
        cap,
        end_block,
        contribution_strategy,
    ).0.state;
    if sound::<T>(world.state) {
        current_vault_in_place(world.state, crowdloan);
        let vault = world.state.current_vault(crowdloan)->0;
        let key = (crowdloan, vault.lease_start, vault.lease_end);
        let changed = with_terms(vault, cap, end_block, contribution_strategy);
        replacement_keeps::<T>(world.state, key, changed);
        same_holdings_keep::<T>(world.state.with_vault(key, changed), after);
    }
}

/// Contributing.
proof fn contributing_keeps<T: Config>(
    world: World<T>,
    origin: Origin<T::OtherOrigin>,
    crowdloan: ParaId,
    amount: Balance,
    referral_code: Seq<u8>,
)
    requires
        world.contributed(origin, crowdloan, amount, referral_code).1 is Ok,
    ensures
        keeps::<T>(
            world.state,
            world.contributed(origin, crowdloan, amount, referral_code).0.state,
        ),
{
    let after = world.contributed(origin, crowdloan, amount, referral_code).0.state;
    let state = world.state;
    if sound::<T>(state) {
        current_vault_in_place(state, crowdloan);
        let who = signer(origin)->Ok_0;
        let vault = state.current_vault(crowdloan)->0;
        let key = (crowdloan, vault.lease_start, vault.lease_end);
        let kind = entry_kind(vault);
        in_place(state, key);
        update_keeps::<T>(
            state,
            key,
            vault,
            who,
            amount,
            Some(referral_code),
            ArithmeticKind::Addition,
            kind,
        );
        let (recorded, changed, _) = state.update_contribution(
            child_id::<T>(vault.trie_index, kind),
            who,
            vault,
            amount,
            Some(referral_code),
            ArithmeticKind::Addition,
            kind,
        )->Ok_0;
        same_holdings_keep::<T>(recorded.with_vault(key, changed), after);
    }
}

/// Sending on contributions that were held back, where the vault's new sums are
/// put in place.
proof fn migrating_keeps<T: Config>(
    world: World<T>,
    key: VaultKey,
    vault: Vault,
    cursor: Option<AccountId>,
    count: nat,
)
    requires
        sound::<T>(world.state.with_vault(key, vault)),
        world.state.vaults.contains_key(key),
        world.migrate_from(key.0, vault, cursor, count).2 is Ok,
    ensures
        ({
            let (after, changed, _) = world.migrate_from(key.0, vault, cursor, count);
            keeps::<T>(world.state.with_vault(key, vault), after.state.with_vault(key, changed))
        }),
    decreases T::spec_constants().migrate_keys_limit - count,
{
    let child = child_id::<T>(vault.trie_index, ChildStorageKind::Pending);
    let next = world.state.next_contributor(child, cursor);
    if next is Some && count < T::spec_constants().migrate_keys_limit {
        let who = next->0;
        let held = world.state.contribution(child, who);
        migration_keeps::<T>(
            world.state,
            key,
            vault,
            who,
            held.amount,
            ChildStorageKind::Pending,
            ChildStorageKind::Flying,
        );
        let (moved, changed) = world.state.migrate_contribution::<T>(
            who,
            vault,
            held.amount,
            ChildStorageKind::Pending,
            ChildStorageKind::Flying,
        )->Ok_0;
        let (sent, _, _) = world.migrate_one(who, key.0, vault);
        same_holdings_keep::<T>(
            moved.with_vault(key, changed),
            sent.state.with_vault(key, changed),
        );
        migrating_keeps::<T>(sent, key, changed, Some(who), count + 1);
    }
}

/// Migrating contributions.
proof fn migrate_pending_keeps<T: Config>(
    world: World<T>,
    origin: Origin<T::OtherOrigin>,
    crowdloan: ParaId,
)
    requires
        world.pending_migrated(origin, crowdloan).1 is Ok,
    ensures
        keeps::<T>(world.state, world.pending_migrated(origin, crowdloan).0.state),
{
    let after = world.pending_migrated(origin, crowdloan).0.state;
    let state = world.state;
    if sound::<T>(state) {
        current_vault_in_place(state, crowdloan);
        let vault = state.current_vault(crowdloan)->0;
        let key = (crowdloan, vault.lease_start, vault.lease_end);
        in_place(state, key);
        migrating_keeps::<T>(world, key, vault, None, 0);
        let (moved, changed, _) = world.migrate_from(crowdloan, vault, None, 0);
        same_holdings_keep::<T>(moved.state.with_vault(key, changed), after);
    }
}

/// Taking up a report of the relay chain.
proof fn notification_keeps<T: Config>(
    world: World<T>,
    origin: Origin<T::OtherOrigin>,
    query_id: QueryId,
    response: Response,
)
    requires
        world.notified(origin, query_id, response).1 is Ok,
        world.state.recalls_decide(),
    ensures
        keeps::<T>(world.state, world.notified(origin, query_id, response).0.state),
{
    let after = world.notified(origin, query_id, response).0.state;
    let state = world.state;
    if sound::<T>(state) {
        if response is ExecutionResult && state.xcm_requests.contains_key(query_id) {
            let executed = response->ExecutionResult_0 is None;
            match state.xcm_requests[query_id] {
                XcmRequest::Contribute { crowdloan, vault_id, who, amount, referral_code } => {
                    let key = (crowdloan, vault_id.0, vault_id.1);
                    let vault = state.vaults[key];
                    assert(state.vaults.contains_key(key));
                    in_place(state, key);
                    if executed {
                        migration_keeps::<T>(
                            state,
                            key,
                            vault,
                            who,
                            amount,
                            ChildStorageKind::Flying,
                            ChildStorageKind::Contributed,
                        );
                        let (moved, changed) = state.migrate_contribution::<T>(
                            who,
                            vault,
                            amount,
                            ChildStorageKind::Flying,
                            ChildStorageKind::Contributed,
                        )->Ok_0;
                        same_holdings_keep::<T>(moved.with_vault(key, changed), after);
                    } else {
                        update_keeps::<T>(
                            state,
                            key,
                            vault,
                            who,
                            amount,
                            None,
                            ArithmeticKind::Subtraction,
                            ChildStorageKind::Flying,
                        );
                        let (less, changed, _) = state.update_contribution(
                            child_id::<T>(vault.trie_index, ChildStorageKind::Flying),
                            who,
                            vault,
                            amount,
                            None,
                            ArithmeticKind::Subtraction,
                            ChildStorageKind::Flying,
                        )->Ok_0;
                        same_holdings_keep::<T>(less.with_vault(key, changed), after);
                    }
                },
                XcmRequest::Withdraw { crowdloan, vault_id, amount: _, target_phase } => {
                    if executed {
                        let key = (crowdloan, vault_id.0, vault_id.1);
                        assert(state.vaults.contains_key(key));
                        let changed = Vault { phase: target_phase, ..state.vaults[key] };
                        replacement_keeps::<T>(state, key, changed);
                        same_holdings_keep::<T>(state.with_vault(key, changed), after);
                    } else {
                        same_holdings_keep::<T>(state, after);
                    }
                },
            }
        } else {
            same_holdings_keep::<T>(state, after);
        }
    }
}

/// Claiming adds what was claimed to the surplus.
proof fn claim_keeps<T: Config>(
    world: World<T>,
    who: AccountId,
    crowdloan: ParaId,
    lease_start: LeasePeriod,
    lease_end: LeasePeriod,
)
    requires
        world.do_claim_for(who, crowdloan, lease_start, lease_end).1 is Ok,
        sound::<T>(world.state),
    ensures
        sound::<T>(world.do_claim_for(who, crowdloan, lease_start, lease_end).0.state),
        collision_free::<T>() ==> surplus_moves::<T>(
            world.state,
            world.do_claim_for(who, crowdloan, lease_start, lease_end).0.state,
            (crowdloan, lease_start, lease_end),
            world.state.claimable::<T>((crowdloan, lease_start, lease_end), who) as int,
        ),
{
    let after = world.do_claim_for(who, crowdloan, lease_start, lease_end).0.state;
    let state = world.state;
    let key = (crowdloan, lease_start, lease_end);
    removal_keeps::<T>(state, key, who);
    let child = child_id::<T>(state.vaults[key].trie_index, ChildStorageKind::Contributed);
    same_holdings_keep::<T>(state.without_contribution(child, who), after);
}

/// Withdrawing.
proof fn withdraw_keeps<T: Config>(
    world: World<T>,
    who: AccountId,
    crowdloan: ParaId,
    lease_start: LeasePeriod,
    lease_end: LeasePeriod,
)
    requires
        world.do_withdraw_for(who, crowdloan, lease_start, lease_end).1 is Ok,
    ensures
        keeps::<T>(
            world.state,
            world.do_withdraw_for(who, crowdloan, lease_start, lease_end).0.state,
        ),
{
    let after = world.do_withdraw_for(who, crowdloan, lease_start, lease_end).0.state;
    let state = world.state;
    if sound::<T>(state) {
        let key = (crowdloan, lease_start, lease_end);
        let vault = state.vaults[key];
        removal_keeps::<T>(state, key, who);
        let child = child_id::<T>(vault.trie_index, ChildStorageKind::Contributed);
        let amount = state.contribution(child, who).amount;
        let less = state.without_contribution(child, who);
        let changed = Vault { contributed: (vault.contributed - amount) as Balance, ..vault };
        replacement_keeps::<T>(less, key, changed);
        let then = less.with_vault(key, changed);
        same_holdings_keep::<T>(then, after);
    }
}

/// Redeeming takes what was redeemed from the surplus.
proof fn redeeming_keeps<T: Config>(
    world: World<T>,
    origin: Origin<T::OtherOrigin>,
    crowdloan: ParaId,
    lease_start: LeasePeriod,
    lease_end: LeasePeriod,
    amount: Balance,
)
    requires
        world.redeemed(origin, crowdloan, lease_start, lease_end, amount).1 is Ok,
        sound::<T>(world.state),
    ensures
        sound::<T>(world.redeemed(origin, crowdloan, lease_start, lease_end, amount).0.state),
        collision_free::<T>() ==> surplus_moves::<T>(
            world.state,
            world.redeemed(origin, crowdloan, lease_start, lease_end, amount).0.state,
            (crowdloan, lease_start, lease_end),
            -amount,
        ),
{
    let after = world.redeemed(origin, crowdloan, lease_start, lease_end, amount).0.state;
    let state = world.state;
    let key = (crowdloan, lease_start, lease_end);
    let vault = state.vaults[key];
    let changed = Vault { contributed: (vault.contributed - amount) as Balance, ..vault };
    replacement_keeps::<T>(state, key, changed);
    same_holdings_keep::<T>(state.with_vault(key, changed), after);
}

/// Giving back an amount, where the vault's new sums are put in place.
proof fn refund_one_keeps<T: Config>(
    world: World<T>,
    key: VaultKey,
    vault: Vault,
    who: AccountId,
    kind: ChildStorageKind,
    amount: Balance,
)
    requires
        sound::<T>(world.state.with_vault(key, vault)),
        world.state.vaults.contains_key(key),
        world.do_refund_for(who, vault, kind, amount).2 is Ok,
    ensures
        ({
            let (after, changed, _) = world.do_refund_for(who, vault, kind, amount);
            &&& keeps::<T>(world.state.with_vault(key, vault), after.state.with_vault(key, changed))
            &&& after.state.vaults == world.state.vaults
            &&& same_but_sums(changed, vault)
        }),
{
    update_keeps::<T>(
        world.state,
        key,
        vault,
        who,
        amount,
        None,
        ArithmeticKind::Subtraction,
        kind,
    );
}

/// Giving back contributions of one kind, where the vault's new sums are put in
/// place.
proof fn refunding_keeps<T: Config>(
    world: World<T>,
    key: VaultKey,
    vault: Vault,
    kind: ChildStorageKind,
    cursor: Option<AccountId>,
    count: nat,
)
    requires
        sound::<T>(world.state.with_vault(key, vault)),
        world.state.vaults.contains_key(key),
        world.refund_from(vault, kind, cursor, count).2 is Ok,
    ensures
        ({
            let (after, changed, _) = world.refund_from(vault, kind, cursor, count);
            &&& keeps::<T>(world.state.with_vault(key, vault), after.state.with_vault(key, changed))
            &&& after.state.vaults == world.state.vaults
        }),
    decreases T::spec_constants().remove_keys_limit - count,
{
    let child = child_id::<T>(vault.trie_index, kind);
    let next = world.state.next_contributor(child, cursor);
    if next is Some && count < T::spec_constants().remove_keys_limit {
        let who = next->0;
        let amount = world.state.contribution(child, who).amount;
        refund_one_keeps::<T>(world, key, vault, who, kind, amount);
        let (paid, changed, _) = world.do_refund_for(who, vault, kind, amount);
        refunding_keeps::<T>(paid, key, changed, kind, Some(who), count + 1);
    }
}

/// Refunding a vault.
proof fn refund_keeps<T: Config>(
    world: World<T>,
    origin: Origin<T::OtherOrigin>,
    crowdloan: ParaId,
    lease_start: LeasePeriod,
    lease_end: LeasePeriod,
)
    requires
        world.refunded(origin, crowdloan, lease_start, lease_end).1 is Ok,
    ensures
        keeps::<T>(
            world.state,
            world.refunded(origin, crowdloan, lease_start, lease_end).0.state,
        ),
{
    let after = world.refunded(origin, crowdloan, lease_start, lease_end).0.state;
    let state = world.state;
    if sound::<T>(state) {
        let key = (crowdloan, lease_start, lease_end);
        let vault = state.vaults[key];
        in_place(state, key);
        refunding_keeps::<T>(world, key, vault, ChildStorageKind::Contributed, None, 0);
        let (w1, v1, r1) = world.refund_from(vault, ChildStorageKind::Contributed, None, 0);
        let (w, v, _) = world.refund_all(vault);
        if r1->Ok_0.1 {
            let count = r1->Ok_0.0;
            refunding_keeps::<T>(w1, key, v1, ChildStorageKind::Flying, None, count);
            let (w2, v2, r2) = w1.refund_from(v1, ChildStorageKind::Flying, None, count);
            if r2->Ok_0.1 {
                refunding_keeps::<T>(
                    w2,
                    key,
                    v2,
                    ChildStorageKind::Pending,
                    None,
                    r2->Ok_0.0,
                );
            }
        }
        same_holdings_keep::<T>(w.state.with_vault(key, v), after);
    }
}

/// Refunding one account.
proof fn user_refund_keeps<T: Config>(
    world: World<T>,
    origin: Origin<T::OtherOrigin>,
    dest: T::LookupSource,
    crowdloan: ParaId,
    kind: ChildStorageKind,
    amount: Balance,
    lease_start: LeasePeriod,
    lease_end: LeasePeriod,
)
    requires
        world.user_refunded(
            origin,
            dest,
            crowdloan,
            kind,
            amount,
            lease_start,
            lease_end,
        ).1 is Ok,
    ensures
        keeps::<T>(
            world.state,
            world.user_refunded(
                origin,
                dest,
                crowdloan,
                kind,
                amount,
                lease_start,
                lease_end,
            ).0.state,
        ),
{
    let after = world.user_refunded(
        origin,
        dest,
        crowdloan,
        kind,
        amount,
        lease_start,
        lease_end,
    ).0.state;
    let state = world.state;
    if sound::<T>(state) {
        let who = addressee(world.runtime.spec_lookup(dest))->Ok_0;
        let key = (crowdloan, lease_start, lease_end);
        let vault = state.vaults[key];
        in_place(state, key);
        refund_one_keeps::<T>(world, key, vault, who, kind, amount);
        let (w, v, _) = world.do_refund_for(who, vault, kind, amount);
        same_holdings_keep::<T>(w.state.with_vault(key, v), after);
    }
}

/// For which vault and which account a call claims.
pub open spec fn claimant<T: Config>(
    world: World<T>,
    origin: Origin<T::OtherOrigin>,
    call: Call<T::LookupSource>,
) -> Option<(VaultKey, AccountId)> {
    match call {
        Call::Claim { crowdloan, lease_start, lease_end } => match signer(origin) {
            Ok(who) => Some(((crowdloan, lease_start, lease_end), who)),
            Err(_) => None,
        },
        Call::ClaimFor { dest, crowdloan, lease_start, lease_end } => match addressee(
            world.begun().runtime.spec_lookup(dest),
        ) {
            Ok(who) => Some(((crowdloan, lease_start, lease_end), who)),
            Err(_) => None,
        },
        _ => None,
    }
}

/// What a call claims of the contributions to a vault.
pub open spec fn claimed_by<T: Config>(
    world: World<T>,
    origin: Origin<T::OtherOrigin>,
    call: Call<T::LookupSource>,
    key: VaultKey,
) -> nat {
    match claimant::<T>(world, origin, call) {
        Some((k, who)) => if k == key && world.dispatch(origin, call).1 is Ok {
            world.state.claimable::<T>(key, who) as nat
        } else {
            0
        },
        None => 0,
    }
}

/// What a call redeems at a vault.
pub open spec fn redeemed_by<T: Config>(
    world: World<T>,
    origin: Origin<T::OtherOrigin>,
    call: Call<T::LookupSource>,
    key: VaultKey,
) -> nat {
    match call {
        Call::Redeem { crowdloan, lease_start, lease_end, amount } => {
            if (crowdloan, lease_start, lease_end) == key && world.dispatch(origin, call).1 is Ok {
                amount as nat
            } else {
                0
            }
        },
        _ => 0,
    }
}

/// A call adds what it claims at a vault to the vault's surplus and takes away what it
/// redeems there; a new vault has none.
pub open spec fn surplus_follows<T: Config>(
    world: World<T>,
    origin: Origin<T::OtherOrigin>,
    call: Call<T::LookupSource>,
) -> bool {
    let after = world.dispatch(origin, call).0.state;
    forall|key: VaultKey| #[trigger]
        after.vaults.contains_key(key) ==> after.surplus::<T>(key) == (
        if world.state.vaults.contains_key(key) {
            world.state.surplus::<T>(key)
        } else {
            0
        }) + claimed_by::<T>(world, origin, call, key) - redeemed_by::<T>(
            world,
            origin,
            call,
            key,
        )
}

/// What each call does to a state in order.
proof fn call_keeps<T: Config>(
    world: World<T>,
    origin: Origin<T::OtherOrigin>,
    call: Call<T::LookupSource>,
)
    requires
        in_order::<T>(world.state),
    ensures
        sound::<T>(world.dispatch(origin, call).0.state),
        collision_free::<T>() ==> surplus_follows::<T>(world, origin, call),
{
    let begun = world.begun();
    let (after, result) = world.dispatch(origin, call);
    if result is Ok {
        match call {
            Call::CreateVault {
                crowdloan,
                ctoken,
                lease_start,
                lease_end,
                contribution_strategy,
                cap,
                end_block,
            } => {
                creation_keeps::<T>(
                    world.state,
                    crowdloan,
                    ctoken,
                    lease_start,
                    lease_end,
                    contribution_strategy,
                    cap,
                    end_block,
                );
            },
            Call::UpdateVault { crowdloan, new_cap, new_end_block, new_strategy } => {
                vault_update_keeps::<T>(
                    begun,
                    origin,
                    crowdloan,
                    new_cap,
                    new_end_block,
                    new_strategy,
                );
            },
            Call::Open { crowdloan } => {
                change_keeps::<T>(
                    begun,
                    crowdloan,
                    VaultPhase::Pending,
                    VaultChange::Enter(VaultPhase::Contributing),
                );
            },
            Call::Contribute { crowdloan, amount, referral_code } => {
                contributing_keeps::<T>(begun, origin, crowdloan, amount, referral_code);
            },
            Call::SetVrf { flag: _ } => {
                same_holdings_keep::<T>(world.state, after.state);
            },
            Call::Close { crowdloan } => {
                change_keeps::<T>(
                    begun,
                    crowdloan,
                    VaultPhase::Contributing,
                    VaultChange::Enter(VaultPhase::Closed),
                );
            },
            Call::Reopen { crowdloan } => {
                change_keeps::<T>(
                    begun,
                    crowdloan,
                    VaultPhase::Closed,
                    VaultChange::Enter(VaultPhase::Contributing),
                );
            },
            Call::AuctionSucceeded { crowdloan } => {
                change_keeps::<T>(
                    begun,
                    crowdloan,
                    VaultPhase::Closed,
                    VaultChange::Enter(VaultPhase::Succeeded),
                );
            },
            Call::AuctionFailed { crowdloan } => {
                change_keeps::<T>(
                    begun,
                    crowdloan,
                    VaultPhase::Closed,
                    VaultChange::Recall(VaultPhase::Failed),
                );
            },
            Call::Claim { crowdloan, lease_start, lease_end } => {
                claim_keeps::<T>(begun, signer(origin)->Ok_0, crowdloan, lease_start, lease_end);
            },
            Call::ClaimFor { dest, crowdloan, lease_start, lease_end } => {
                claim_keeps::<T>(
                    begun,
                    addressee(begun.runtime.spec_lookup(dest))->Ok_0,
                    crowdloan,
                    lease_start,
                    lease_end,
                );
            },
            Call::Withdraw { crowdloan, lease_start, lease_end } => {
                withdraw_keeps::<T>(begun, signer(origin)->Ok_0, crowdloan, lease_start, lease_end);
            },
            Call::WithdrawFor { dest, crowdloan, lease_start, lease_end } => {
                withdraw_keeps::<T>(
                    begun,
                    addressee(begun.runtime.spec_lookup(dest))->Ok_0,
                    crowdloan,
                    lease_start,
                    lease_end,
                );
            },
            Call::Redeem { crowdloan, lease_start, lease_end, amount } => {
                redeeming_keeps::<T>(begun, origin, crowdloan, lease_start, lease_end, amount);
            },
            Call::SlotExpired { crowdloan } => {
                change_keeps::<T>(
                    begun,
                    crowdloan,
                    VaultPhase::Succeeded,
                    VaultChange::Recall(VaultPhase::Expired),
                );
            },
            Call::MigratePending { crowdloan } => {
                migrate_pending_keeps::<T>(begun, origin, crowdloan);
            },
            Call::NotificationReceived { query_id, response } => {
                notification_keeps::<T>(begun, origin, query_id, response);
            },
            Call::Refund { crowdloan, lease_start, lease_end } => {
                refund_keeps::<T>(begun, origin, crowdloan, lease_start, lease_end);
            },
            Call::DissolveVault { crowdloan, lease_start, lease_end } => {
                dissolution_keeps::<T>(world.state, crowdloan, lease_start, lease_end);
            },
            Call::RefundFor { dest, crowdloan, kind, amount, lease_start, lease_end } => {
                user_refund_keeps::<T>(
                    begun,
                    origin,
                    dest,
                    crowdloan,
                    kind,
                    amount,
                    lease_start,
                    lease_end,
                );
            },
            Call::UpdateProxy { proxy_address: _ } => {
                same_holdings_keep::<T>(world.state, after.state);
            },
            Call::UpdateLeasesBonus { lease_start: _, lease_end: _, bonus_config: _ } => {
                same_holdings_keep::<T>(world.state, after.state);
            },
        }
    }
}

/// Sending on contributions that were held back asks nothing back.
proof fn migrating_keeps_recalls<T: Config>(
    world: World<T>,
    crowdloan: ParaId,
    vault: Vault,
    cursor: Option<AccountId>,
    count: nat,
)
    requires
        world.state.recalls_decide(),
    ensures
        world.migrate_from(crowdloan, vault, cursor, count).0.state.recalls_decide(),
    decreases T::spec_constants().migrate_keys_limit - count,
{
    let child = child_id::<T>(vault.trie_index, ChildStorageKind::Pending);
    let next = world.state.next_contributor(child, cursor);
    if next is Some && count < T::spec_constants().migrate_keys_limit {
        let (sent, changed, result) = world.migrate_one(next->0, crowdloan, vault);
        assert(sent.state.recalls_decide());
        if result is Ok {
            migrating_keeps_recalls::<T>(sent, crowdloan, changed, Some(next->0), count + 1);
        }
    }
}

/// Giving back contributions sends no message.
proof fn refunding_keeps_requests<T: Config>(
    world: World<T>,
    vault: Vault,
    kind: ChildStorageKind,
    cursor: Option<AccountId>,
    count: nat,
)
    ensures
        world.refund_from(vault, kind, cursor, count).0.state.xcm_requests
            == world.state.xcm_requests,
    decreases T::spec_constants().remove_keys_limit - count,
{
    let child = child_id::<T>(vault.trie_index, kind);
    let next = world.state.next_contributor(child, cursor);
    if next is Some && count < T::spec_constants().remove_keys_limit {
        let amount = world.state.contribution(child, next->0).amount;
        let (paid, changed, result) = world.do_refund_for(next->0, vault, kind, amount);
        if result is Ok {
            refunding_keeps_requests::<T>(paid, changed, kind, Some(next->0), count + 1);
        }
    }
}

/// Changing the vault that a crowdloan bids with.
proof fn change_keeps_recalls<T: Config>(
    world: World<T>,
    crowdloan: ParaId,
    phase: VaultPhase,
    change: VaultChange,
)
    requires
        world.state.recalls_decide(),
        change is Recall ==> change->Recall_0 == VaultPhase::Failed || change->Recall_0
            == VaultPhase::Expired,
    ensures
        world.try_mutate_vault(crowdloan, phase, change).0.state.recalls_decide(),
{
}

/// Contributing asks nothing back.
proof fn contributing_keeps_recalls<T: Config>(
    world: World<T>,
    origin: Origin<T::OtherOrigin>,
    crowdloan: ParaId,
    amount: Balance,
    referral_code: Seq<u8>,
)
    requires
        world.state.recalls_decide(),
    ensures
        world.contributed(origin, crowdloan, amount, referral_code).0.state.recalls_decide(),
{
}

/// Taking up a report asks nothing back.
proof fn notification_keeps_recalls<T: Config>(
    world: World<T>,
    origin: Origin<T::OtherOrigin>,
    query_id: QueryId,
    response: Response,
)
    requires
        world.state.recalls_decide(),
    ensures
        world.notified(origin, query_id, response).0.state.recalls_decide(),
{
}

/// Migrating asks nothing back.
proof fn migrate_pending_keeps_recalls<T: Config>(
    world: World<T>,
    origin: Origin<T::OtherOrigin>,
    crowdloan: ParaId,
)
    requires
        world.state.recalls_decide(),
    ensures
        world.pending_migrated(origin, crowdloan).0.state.recalls_decide(),
{
    let vault = world.state.current_vault(crowdloan);
    if vault is Some {
        migrating_keeps_recalls::<T>(world, crowdloan, vault->0, None, 0);
    }
}

/// Refunding sends no message.
proof fn refund_keeps_requests<T: Config>(
    world: World<T>,
    origin: Origin<T::OtherOrigin>,
    crowdloan: ParaId,
    lease_start: LeasePeriod,
    lease_end: LeasePeriod,
)
    ensures
        world.refunded(origin, crowdloan, lease_start, lease_end).0.state.xcm_requests
            == world.state.xcm_requests,
{
    let vault = world.state.vaults[(crowdloan, lease_start, lease_end)];
    let (w1, v1, r1) = world.refund_from(vault, ChildStorageKind::Contributed, None, 0);
    refunding_keeps_requests::<T>(world, vault, ChildStorageKind::Contributed, None, 0);
    if r1 is Ok {
        let count = r1->Ok_0.0;
        let (w2, v2, r2) = w1.refund_from(v1, ChildStorageKind::Flying, None, count);
        refunding_keeps_requests::<T>(w1, v1, ChildStorageKind::Flying, None, count);
        if r2 is Ok {
            refunding_keeps_requests::<T>(w2, v2, ChildStorageKind::Pending, None, r2->Ok_0.0);
        }
    }
}

/// Claiming, withdrawing, redeeming and refunding one account send no message.
proof fn payouts_keep_requests<T: Config>(
    world: World<T>,
    origin: Origin<T::OtherOrigin>,
    dest: T::LookupSource,
    who: AccountId,
    crowdloan: ParaId,
    kind: ChildStorageKind,
    amount: Balance,
    lease_start: LeasePeriod,
    lease_end: LeasePeriod,
)
    ensures
        world.do_claim_for(who, crowdloan, lease_start, lease_end).0.state.xcm_requests
            == world.state.xcm_requests,
        world.do_withdraw_for(who, crowdloan, lease_start, lease_end).0.state.xcm_requests
            == world.state.xcm_requests,
        world.redeemed(origin, crowdloan, lease_start, lease_end, amount).0.state.xcm_requests
            == world.state.xcm_requests,
        world.user_refunded(
            origin,
            dest,
            crowdloan,
            kind,
            amount,
            lease_start,
            lease_end,
        ).0.state.xcm_requests == world.state.xcm_requests,
{
}

/// No call asks contributions back for another end than failure or expiry.
#[verifier::spinoff_prover]
proof fn call_keeps_recalls<T: Config>(
    world: World<T>,
    origin: Origin<T::OtherOrigin>,
    call: Call<T::LookupSource>,
)
    requires
        world.state.recalls_decide(),
    ensures
        world.dispatch(origin, call).0.state.recalls_decide(),
{
    let begun = world.begun();
    let (after, result) = world.dispatch(origin, call);
    if result is Ok {
        match call {
            Call::Open { crowdloan } => {
                change_keeps_recalls::<T>(
                    begun,
                    crowdloan,
                    VaultPhase::Pending,
                    VaultChange::Enter(VaultPhase::Contributing),
                );
            },
            Call::Close { crowdloan } => {
                change_keeps_recalls::<T>(
                    begun,
                    crowdloan,
                    VaultPhase::Contributing,
                    VaultChange::Enter(VaultPhase::Closed),
                );
            },
            Call::Reopen { crowdloan } => {
                change_keeps_recalls::<T>(
                    begun,
                    crowdloan,
                    VaultPhase::Closed,
                    VaultChange::Enter(VaultPhase::Contributing),
                );
            },
            Call::AuctionSucceeded { crowdloan } => {
                change_keeps_recalls::<T>(
                    begun,
                    crowdloan,
                    VaultPhase::Closed,
                    VaultChange::Enter(VaultPhase::Succeeded),
                );
            },
            Call::AuctionFailed { crowdloan } => {
                change_keeps_recalls::<T>(
                    begun,
                    crowdloan,
                    VaultPhase::Closed,
                    VaultChange::Recall(VaultPhase::Failed),
                );
            },
            Call::SlotExpired { crowdloan } => {
                change_keeps_recalls::<T>(
                    begun,
                    crowdloan,
                    VaultPhase::Succeeded,
                    VaultChange::Recall(VaultPhase::Expired),
                );
            },
            Call::Contribute { crowdloan, amount, referral_code } => {
                contributing_keeps_recalls::<T>(begun, origin, crowdloan, amount, referral_code);
            },
            Call::NotificationReceived { query_id, response } => {
                notification_keeps_recalls::<T>(begun, origin, query_id, response);
            },
            Call::MigratePending { crowdloan } => {
                migrate_pending_keeps_recalls::<T>(begun, origin, crowdloan);
            },
            _ => {
                call_keeps_requests::<T>(world, origin, call);
            },
        }
    }
}

/// Calls that send no message and take up none.
#[verifier::spinoff_prover]
proof fn call_keeps_requests<T: Config>(
    world: World<T>,
    origin: Origin<T::OtherOrigin>,
    call: Call<T::LookupSource>,
)
    requires
        world.dispatch(origin, call).1 is Ok,
        !(call is Open || call is Close || call is Reopen || call is AuctionSucceeded
            || call is AuctionFailed || call is SlotExpired || call is Contribute
            || call is NotificationReceived || call is MigratePending),
    ensures
        world.dispatch(origin, call).0.state.xcm_requests == world.state.xcm_requests,
{
    let begun = world.begun();
    match call {
        Call::Claim { crowdloan, lease_start, lease_end } => {
            payouts_keep_requests::<T>(
                begun,
                origin,
                arbitrary(),
                signer(origin)->Ok_0,
                crowdloan,
                ChildStorageKind::Pending,
                0,
                lease_start,
                lease_end,
            );
        },
        Call::ClaimFor { dest, crowdloan, lease_start, lease_end } => {
            payouts_keep_requests::<T>(
                begun,
                origin,
                dest,
                addressee(begun.runtime.spec_lookup(dest))->Ok_0,
                crowdloan,
                ChildStorageKind::Pending,
                0,
                lease_start,
                lease_end,
            );
        },
        Call::Withdraw { crowdloan, lease_start, lease_end } => {
            payouts_keep_requests::<T>(
                begun,
                origin,
                arbitrary(),
                signer(origin)->Ok_0,
                crowdloan,
                ChildStorageKind::Pending,
                0,
                lease_start,
                lease_end,
            );
        },
        Call::WithdrawFor { dest, crowdloan, lease_start, lease_end } => {
            payouts_keep_requests::<T>(
                begun,
                origin,
                dest,
                addressee(begun.runtime.spec_lookup(dest))->Ok_0,
                crowdloan,
                ChildStorageKind::Pending,
                0,
                lease_start,
                lease_end,
            );
        },
        Call::Redeem { crowdloan, lease_start, lease_end, amount } => {
            payouts_keep_requests::<T>(
                begun,
                origin,
                arbitrary(),
                arbitrary(),
                crowdloan,
                ChildStorageKind::Pending,
                amount,
                lease_start,
                lease_end,
            );
        },
        Call::RefundFor { dest, crowdloan, kind, amount, lease_start, lease_end } => {
            payouts_keep_requests::<T>(
                begun,
                origin,
                dest,
                arbitrary(),
                crowdloan,
                kind,
                amount,
                lease_start,
                lease_end,
            );
        },
        Call::Refund { crowdloan, lease_start, lease_end } => {
            refund_keeps_requests::<T>(begun, origin, crowdloan, lease_start, lease_end);
        },
        _ => {},
    }
}

/// A new chain is in order.
pub proof fn new_chain_in_order<T: Config>()
    ensures
        in_order::<T>(State::empty()),
        State::empty().books_cover::<T>(),
{
}

/// Every call keeps the state in order, whatever its origin and whatever the
/// runtime answers: vaults stay under their own lease with an index of their own
/// and the derivative recorded for the lease, which no other lease has, a crowdloan
/// that bids has a vault, no entry of nothing is kept, and unless child tries
/// collide, what vaults say of contributions held back or on their way is what the
/// child tries hold, and so is what they say of confirmed ones until the auction is
/// decided.
pub proof fn every_call_keeps_order<T: Config>(
    world: World<T>,
    origin: Origin<T::OtherOrigin>,
    call: Call<T::LookupSource>,
)
    requires
        in_order::<T>(world.state),
    ensures
        in_order::<T>(world.dispatch(origin, call).0.state),
{
    call_keeps::<T>(world, origin, call);
    call_keeps_recalls::<T>(world, origin, call);
}

/// Unless child tries collide, no call but `redeem` makes a vault count less as
/// confirmed than its child trie holds. (Derivatives can be redeemed at any vault
/// of the same lease.)
pub proof fn confirmed_sums_stay_covered<T: Config>(
    world: World<T>,
    origin: Origin<T::OtherOrigin>,
    call: Call<T::LookupSource>,
)
    requires
        in_order::<T>(world.state),
        collision_free::<T>(),
        world.state.books_cover::<T>(),
        !(call is Redeem),
    ensures
        world.dispatch(origin, call).0.state.books_cover::<T>(),
{
    call_keeps::<T>(world, origin, call);
    let after = world.dispatch(origin, call).0.state;
    assert forall|key: VaultKey| #[trigger] after.vaults.contains_key(key) implies after.surplus::<T>(
        key,
    ) >= 0 by {
        if world.state.vaults.contains_key(key) {
            assert(world.state.surplus::<T>(key) >= 0);
        }
    }
}

/// Unless child tries collide, what a vault counts as confirmed beyond what its child
/// trie holds changes only by what is claimed from it and redeemed at it.
pub proof fn claims_and_redemptions_balance<T: Config>(
    world: World<T>,
    origin: Origin<T::OtherOrigin>,
    call: Call<T::LookupSource>,
)
    requires
        in_order::<T>(world.state),
        collision_free::<T>(),
    ensures
        surplus_follows::<T>(world, origin, call),
{
    call_keeps::<T>(world, origin, call);
}

/// A call that fails leaves the pallet as it was.
pub proof fn failed_call_changes_nothing<T: Config>(
    world: World<T>,
    origin: Origin<T::OtherOrigin>,
    call: Call<T::LookupSource>,
)
    requires
        world.dispatch(origin, call).1 is Err,
    ensures
        world.dispatch(origin, call).0.state == world.state,
{
}

} // verus!
