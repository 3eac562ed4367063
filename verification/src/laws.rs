//! What holds across calls.
use staging_xcm::v3::prelude::XcmError;
use vstd::prelude::*;

use crate::bytes::{precedes, precedes_irreflexive, precedes_total, precedes_transitive};
use crate::config::Config;
use crate::history::migrating_keeps_registries;
use crate::outside::{le_bytes, le_bytes_differ};
use crate::state::{child_id, child_seed, State, World};
use crate::tally::{collision_free, entry_at_most_total, same_but_sums, total, total_of_none};
use crate::types::{
    AccountId, ArithmeticKind, Balance, CallError, ChildStorageKind, ContributionKey, Error, Event,
    LeasePeriod, LookupError, Origin, ParaId, QueryId, RequiredOrigin, Response, TrieIndex, Vault,
    VaultId, VaultKey, VaultPhase, XcmRequest,
};
use crate::upkeep::{current_vault_in_place, every_call_keeps_order, in_order, Call};

verus! {

// ---- Child tries ----

/// Different vaults and different kinds are hashed from different seeds.
pub proof fn child_seeds_differ(
    i: TrieIndex,
    k: ChildStorageKind,
    j: TrieIndex,
    l: ChildStorageKind,
)
    requires
        child_seed(i, k) == child_seed(j, l),
    ensures
        i == j,
        k == l,
{
    let a = child_seed(i, k);
    let b = child_seed(j, l);
    assert(a.len() == b.len());
    assert(k == l);
    let n = a.len() - 4;
    assert(a.subrange(n, n + 4) =~= le_bytes(i));
    assert(b.subrange(n, n + 4) =~= le_bytes(j));
    le_bytes_differ(i, j);
}

/// What was added to a contribution can be taken away again: the vault and the
/// account's share are as they were, and no other entry was touched.
pub proof fn adding_can_be_undone(
    state: State,
    child: Seq<u8>,
    who: AccountId,
    vault: Vault,
    amount: Balance,
    referral_code: Option<Seq<u8>>,
    kind: ChildStorageKind,
)
    requires
        state.update_contribution(
            child,
            who,
            vault,
            amount,
            referral_code,
            ArithmeticKind::Addition,
            kind,
        ) is Ok,
    ensures
        ({
            let (more, changed, _) = state.update_contribution(
                child,
                who,
                vault,
                amount,
                referral_code,
                ArithmeticKind::Addition,
                kind,
            )->Ok_0;
            let back = more.update_contribution(
                child,
                who,
                changed,
                amount,
                None,
                ArithmeticKind::Subtraction,
                kind,
            );
            &&& back is Ok
            &&& back->Ok_0.1 == vault
            &&& back->Ok_0.0.contribution(child, who).amount == state.contribution(
                child,
                who,
            ).amount
            &&& forall|c: Seq<u8>, w: AccountId|
                c != child || w != who ==> back->Ok_0.0.contribution(c, w)
                    == #[trigger] state.contribution(c, w)
        }),
{
}

/// Moving a contribution from one kind to another changes neither the sum of all
/// contributions to the vault nor what the account has in both kinds together.
pub proof fn migration_conserves<T: Config>(
    state: State,
    who: AccountId,
    vault: Vault,
    amount: Balance,
    source: ChildStorageKind,
    destination: ChildStorageKind,
)
    requires
        source != destination,
        child_id::<T>(vault.trie_index, source) != child_id::<T>(vault.trie_index, destination),
        state.migrate_contribution::<T>(who, vault, amount, source, destination) is Ok,
    ensures
        ({
            let (after, changed) = state.migrate_contribution::<T>(
                who,
                vault,
                amount,
                source,
                destination,
            )->Ok_0;
            let s = child_id::<T>(vault.trie_index, source);
            let d = child_id::<T>(vault.trie_index, destination);
            &&& changed.grand_total() == vault.grand_total()
            &&& after.contribution(s, who).amount == state.contribution(s, who).amount - amount
            &&& after.contribution(d, who).amount == state.contribution(d, who).amount + amount
            &&& amount > 0 && state.contribution(s, who).amount >= amount ==> after.contribution(
                d,
                who,
            ).referral_code == state.contribution(s, who).referral_code
        }),
{
}

/// Sending on contributions changes neither the sum of all contributions to the vault
/// nor that of the confirmed ones.
proof fn migrating_conserves<T: Config>(
    world: World<T>,
    crowdloan: ParaId,
    vault: Vault,
    cursor: Option<AccountId>,
    count: nat,
)
    requires
        world.migrate_from(crowdloan, vault, cursor, count).2 is Ok,
    ensures
        ({
            let changed = world.migrate_from(crowdloan, vault, cursor, count).1;
            &&& changed.grand_total() == vault.grand_total()
            &&& changed.contributed == vault.contributed
            &&& same_but_sums(changed, vault)
        }),
    decreases T::spec_constants().migrate_keys_limit - count,
{
    let child = child_id::<T>(vault.trie_index, ChildStorageKind::Pending);
    let next = world.state.next_contributor(child, cursor);
    if next is Some && count < T::spec_constants().migrate_keys_limit {
        let (sent, changed, _) = world.migrate_one(next->0, crowdloan, vault);
        migrating_conserves::<T>(sent, crowdloan, changed, Some(next->0), count + 1);
    }
}

/// A call of `migrate_pending` changes nothing of the vault but how its contributions
/// divide into those held back and those on their way: the sum of all, the sum of the
/// confirmed ones, the phase and the terms stay.
pub proof fn migrate_pending_conserves<T: Config>(
    world: World<T>,
    origin: Origin<T::OtherOrigin>,
    crowdloan: ParaId,
)
    requires
        in_order::<T>(world.state),
        world.migrate_pending(origin, crowdloan).1 is Ok,
    ensures
        ({
            let before = world.state.current_vault(crowdloan);
            let after = world.migrate_pending(origin, crowdloan).0.state.current_vault(crowdloan);
            &&& before is Some && after is Some
            &&& (after->0).grand_total() == (before->0).grand_total()
            &&& after->0 == (Vault {
                pending: (after->0).pending,
                flying: (after->0).flying,
                ..before->0
            })
        }),
{
    current_vault_in_place(world.state, crowdloan);
    let vault = world.state.current_vault(crowdloan)->0;
    migrating_conserves::<T>(world.begun(), crowdloan, vault, None, 0);
    migrating_keeps_registries::<T>(world.begun(), crowdloan, vault, None, 0);
}

// ---- What a walk through a child trie leaves ----

/// Where a finite child trie has an entry behind the cursor, a walk comes to one.
pub proof fn walk_goes_on(state: State, child: Seq<u8>, cursor: Option<AccountId>, some: AccountId)
    requires
        state.contributions.dom().finite(),
        state.is_behind(child, cursor, some),
    ensures
        state.next_contributor(child, cursor) is Some,
        state.is_next(child, cursor, state.next_contributor(child, cursor)->0),
    decreases state.contributions.dom().len(),
{
    if exists|other: AccountId| #[trigger]
        state.is_behind(child, cursor, other) && precedes(other@, some@) {
        let other = choose|other: AccountId| #[trigger]
            state.is_behind(child, cursor, other) && precedes(other@, some@);
        let less = state.without_contribution(child, some);
        precedes_irreflexive(some@);
        assert(less.is_behind(child, cursor, other));
        assert(less.contributions.dom().len() < state.contributions.dom().len());
        walk_goes_on(less, child, cursor, other);
        let first = less.next_contributor(child, cursor)->0;
        assert forall|w: AccountId| #[trigger] state.is_behind(child, cursor, w) implies !precedes(
            w@,
            first@,
        ) by {
            if w == some {
                if precedes(some@, first@) {
                    precedes_transitive(other@, some@, first@);
                    assert(less.is_behind(child, cursor, other));
                }
            } else {
                assert(less.is_behind(child, cursor, w));
            }
        }
        assert(state.is_next(child, cursor, first));
    } else {
        assert(state.is_next(child, cursor, some));
    }
}

/// No entry of a child trie is left at or before the cursor.
spec fn swept(state: State, child: Seq<u8>, cursor: Option<AccountId>) -> bool {
    forall|who: AccountId| #[trigger]
        state.contributions.contains_key(ContributionKey { child, who }) ==> state.is_behind(
            child,
            cursor,
            who,
        )
}

/// Where the entry that a walk comes to is taken out and nothing is put in, the
/// child trie is swept up to there.
proof fn sweeping_goes_on(
    before: State,
    after: State,
    child: Seq<u8>,
    cursor: Option<AccountId>,
    who: AccountId,
)
    requires
        swept(before, child, cursor),
        before.is_next(child, cursor, who),
        !after.contributions.contains_key(ContributionKey { child, who }),
        forall|w: AccountId| #[trigger]
            after.contributions.contains_key(ContributionKey { child, who: w })
                ==> before.contributions.contains_key(ContributionKey { child, who: w }),
    ensures
        swept(after, child, Some(who)),
{
    assert forall|w: AccountId| #[trigger]
        after.contributions.contains_key(ContributionKey { child, who: w }) implies after.is_behind(
        child,
        Some(who),
        w,
    ) by {
        assert(before.is_behind(child, cursor, w));
        precedes_total(w@, who@);
        if w@ == who@ {
            assert(w =~= who);
        }
    }
}

/// `after` has no entry that `before` has not.
spec fn only_removed(before: State, after: State) -> bool {
    &&& after.contributions.dom().finite()
    &&& forall|k: ContributionKey<Seq<u8>>| #[trigger]
        after.contributions.contains_key(k) ==> before.contributions.contains_key(k)
}

/// A refund that says that none of a kind is left leaves none, and puts nothing
/// in.
proof fn refunding_sweeps<T: Config>(
    world: World<T>,
    vault: Vault,
    kind: ChildStorageKind,
    cursor: Option<AccountId>,
    count: nat,
)
    requires
        world.state.contributions.dom().finite(),
        swept(world.state, child_id::<T>(vault.trie_index, kind), cursor),
        world.refund_from(vault, kind, cursor, count).2 is Ok,
    ensures
        ({
            let (after, changed, result) = world.refund_from(vault, kind, cursor, count);
            &&& only_removed(world.state, after.state)
            &&& result->Ok_0.1 ==> !after.state.has_entries(child_id::<T>(vault.trie_index, kind))
            &&& same_but_sums(changed, vault)
        }),
    decreases T::spec_constants().remove_keys_limit - count,
{
    let child = child_id::<T>(vault.trie_index, kind);
    let next = world.state.next_contributor(child, cursor);
    if next is None {
        if world.state.has_entries(child) {
            let who = choose|who: AccountId| #[trigger]
                world.state.contributions.contains_key(ContributionKey { child, who });
            walk_goes_on(world.state, child, cursor, who);
        }
    } else if count < T::spec_constants().remove_keys_limit {
        let who = next->0;
        assert(world.state.is_next(child, cursor, who));
        let amount = world.state.contribution(child, who).amount;
        let (paid, changed, _) = world.do_refund_for(who, vault, kind, amount);
        sweeping_goes_on(world.state, paid.state, child, cursor, who);
        refunding_sweeps::<T>(paid, changed, kind, Some(who), count + 1);
    }
}

/// Refunds that leave nothing out leave nothing.
proof fn refunding_all_sweeps<T: Config>(world: World<T>, vault: Vault)
    requires
        world.state.contributions.dom().finite(),
        world.refund_all(vault).2 == Ok::<bool, CallError>(true),
    ensures
        !world.refund_all(vault).0.state.has_childstorage::<T>(vault.trie_index),
        same_but_sums(world.refund_all(vault).1, vault),
{
    refunding_sweeps::<T>(world, vault, ChildStorageKind::Contributed, None, 0);
    let (w1, v1, r1) = world.refund_from(vault, ChildStorageKind::Contributed, None, 0);
    let count = r1->Ok_0.0;
    refunding_sweeps::<T>(w1, v1, ChildStorageKind::Flying, None, count);
    let (w2, v2, r2) = w1.refund_from(v1, ChildStorageKind::Flying, None, count);
    refunding_sweeps::<T>(w2, v2, ChildStorageKind::Pending, None, r2->Ok_0.0);
    let (w3, v3, r3) = w2.refund_from(v2, ChildStorageKind::Pending, None, r2->Ok_0.0);
    emptiness_lasts(
        w1.state,
        w2.state,
        child_id::<T>(vault.trie_index, ChildStorageKind::Contributed),
    );
    emptiness_lasts(
        w2.state,
        w3.state,
        child_id::<T>(vault.trie_index, ChildStorageKind::Contributed),
    );
    emptiness_lasts(
        w2.state,
        w3.state,
        child_id::<T>(vault.trie_index, ChildStorageKind::Flying),
    );
}

/// Where nothing is put in, an empty child trie stays empty.
proof fn emptiness_lasts(before: State, after: State, child: Seq<u8>)
    requires
        only_removed(before, after),
        !before.has_entries(child),
    ensures
        !after.has_entries(child),
{
    if after.has_entries(child) {
        let who = choose|who: AccountId| #[trigger]
            after.contributions.contains_key(ContributionKey { child, who });
        assert(before.contributions.contains_key(ContributionKey { child, who }));
    }
}

/// A migration that says that nothing is held back any more leaves nothing held
/// back.
proof fn migrating_sweeps<T: Config>(
    world: World<T>,
    crowdloan: ParaId,
    vault: Vault,
    cursor: Option<AccountId>,
    count: nat,
)
    requires
        world.state.contributions.dom().finite(),
        child_id::<T>(vault.trie_index, ChildStorageKind::Pending) != child_id::<T>(
            vault.trie_index,
            ChildStorageKind::Flying,
        ),
        swept(world.state, child_id::<T>(vault.trie_index, ChildStorageKind::Pending), cursor),
        world.migrate_from(crowdloan, vault, cursor, count).2 == Ok::<bool, CallError>(true),
    ensures
        !world.migrate_from(crowdloan, vault, cursor, count).0.state.has_entries(
            child_id::<T>(vault.trie_index, ChildStorageKind::Pending),
        ),
        world.migrate_from(crowdloan, vault, cursor, count).1.trie_index == vault.trie_index,
    decreases T::spec_constants().migrate_keys_limit - count,
{
    let child = child_id::<T>(vault.trie_index, ChildStorageKind::Pending);
    let next = world.state.next_contributor(child, cursor);
    if next is None {
        if world.state.has_entries(child) {
            let who = choose|who: AccountId| #[trigger]
                world.state.contributions.contains_key(ContributionKey { child, who });
            walk_goes_on(world.state, child, cursor, who);
        }
    } else if count < T::spec_constants().migrate_keys_limit {
        let who = next->0;
        assert(world.state.is_next(child, cursor, who));
        let (sent, changed, _) = world.migrate_one(who, crowdloan, vault);
        sweeping_goes_on(world.state, sent.state, child, cursor, who);
        migrating_sweeps::<T>(sent, crowdloan, changed, Some(who), count + 1);
    }
}

/// When `refund` reports that all contributions to a vault were refunded, the
/// child tries of the vault are empty, and unless child tries collide, nothing is
/// held back or on its way any more.
pub proof fn all_refunded_leaves_nothing<T: Config>(
    world: World<T>,
    origin: Origin<T::OtherOrigin>,
    crowdloan: ParaId,
    lease_start: LeasePeriod,
    lease_end: LeasePeriod,
)
    requires
        in_order::<T>(world.state),
        ({
            let (after, result) = world.refund(origin, crowdloan, lease_start, lease_end);
            &&& result is Ok
            &&& after.state.events.last() == Event::<Seq<u8>>::AllRefunded(
                crowdloan,
                (lease_start, lease_end),
            )
        }),
    ensures
        ({
            let key = (crowdloan, lease_start, lease_end);
            let after = world.refund(origin, crowdloan, lease_start, lease_end).0.state;
            &&& after.vaults.contains_key(key)
            &&& after.vaults[key].trie_index == world.state.vaults[key].trie_index
            &&& after.vaults[key].phase == world.state.vaults[key].phase
            &&& !after.has_childstorage::<T>(after.vaults[key].trie_index)
            &&& collision_free::<T>() ==> after.vaults[key].pending == 0
                && after.vaults[key].flying == 0
            &&& collision_free::<T>() && after.vaults[key].phase == VaultPhase::Closed
                ==> after.vaults[key].grand_total() == 0
        }),
{
    let key = (crowdloan, lease_start, lease_end);
    let begun = world.begun();
    let vault = world.state.vaults[key];
    let after = world.refund(origin, crowdloan, lease_start, lease_end).0.state;
    refunding_all_sweeps::<T>(begun, vault);
    let paid = begun.refund_all(vault).0.state;
    let index = vault.trie_index;
    assert(after.contributions == paid.contributions);
    same_entries(paid, after, child_id::<T>(index, ChildStorageKind::Contributed));
    same_entries(paid, after, child_id::<T>(index, ChildStorageKind::Flying));
    same_entries(paid, after, child_id::<T>(index, ChildStorageKind::Pending));
    every_call_keeps_order::<T>(
        world,
        origin,
        Call::Refund { crowdloan, lease_start, lease_end },
    );
    assert(after.vaults.contains_key(key));
    if collision_free::<T>() {
        assert(after.books_agree::<T>());
        assert(after.vault_agrees::<T>(after.vaults[key]));
        empty_sums_to_nothing(after, child_id::<T>(index, ChildStorageKind::Contributed));
        empty_sums_to_nothing(after, child_id::<T>(index, ChildStorageKind::Flying));
        empty_sums_to_nothing(after, child_id::<T>(index, ChildStorageKind::Pending));
    }
}

/// Two states with the same contributions have entries in the same child tries.
proof fn same_entries(a: State, b: State, child: Seq<u8>)
    requires
        a.contributions == b.contributions,
    ensures
        a.has_entries(child) == b.has_entries(child),
{
}

/// A child trie without entries sums up to nothing.
proof fn empty_sums_to_nothing(state: State, child: Seq<u8>)
    requires
        !state.has_entries(child),
    ensures
        total(state.contributions, child) == 0,
{
    assert forall|k: ContributionKey<Seq<u8>>| state.contributions.contains_key(k) implies k.child
        != child by {
        if k.child == child {
            assert(state.contributions.contains_key(ContributionKey { child, who: k.who }));
        }
    }
    total_of_none(state.contributions, child);
}

/// A closed vault whose contributions were all refunded can be dissolved by
/// whoever has the privilege, unless child tries collide.
pub proof fn refunded_vault_can_be_dissolved<T: Config>(
    world: World<T>,
    origin: Origin<T::OtherOrigin>,
    crowdloan: ParaId,
    lease_start: LeasePeriod,
    lease_end: LeasePeriod,
    dissolver: Origin<T::OtherOrigin>,
)
    requires
        in_order::<T>(world.state),
        collision_free::<T>(),
        world.state.vaults[(crowdloan, lease_start, lease_end)].phase == VaultPhase::Closed,
        ({
            let (after, result) = world.refund(origin, crowdloan, lease_start, lease_end);
            &&& result is Ok
            &&& after.state.events.last() == Event::<Seq<u8>>::AllRefunded(
                crowdloan,
                (lease_start, lease_end),
            )
            &&& after.begun().authorized(RequiredOrigin::DissolveOrigin, dissolver)
        }),
    ensures
        ({
            let after = world.refund(origin, crowdloan, lease_start, lease_end).0;
            let (gone, result) = after.dissolve_vault(
                dissolver,
                crowdloan,
                lease_start,
                lease_end,
            );
            &&& result is Ok
            &&& !gone.state.vaults.contains_key((crowdloan, lease_start, lease_end))
        }),
{
    all_refunded_leaves_nothing::<T>(world, origin, crowdloan, lease_start, lease_end);
}

/// When `migrate_pending` reports that all contributions to the vault of a
/// crowdloan were migrated, none is held back any more, unless child tries collide.
pub proof fn all_migrated_leaves_nothing<T: Config>(
    world: World<T>,
    origin: Origin<T::OtherOrigin>,
    crowdloan: ParaId,
)
    requires
        in_order::<T>(world.state),
        collision_free::<T>(),
        ({
            let (after, result) = world.migrate_pending(origin, crowdloan);
            &&& result is Ok
            &&& after.state.events.last() is AllMigrated
        }),
    ensures
        ({
            let after = world.migrate_pending(origin, crowdloan).0.state;
            &&& after.current_vault(crowdloan) is Some
            &&& !after.has_entries(
                child_id::<T>(
                    (after.current_vault(crowdloan)->0).trie_index,
                    ChildStorageKind::Pending,
                ),
            )
            &&& (after.current_vault(crowdloan)->0).pending == 0
        }),
{
    let begun = world.begun();
    let id = world.state.leases_registry[crowdloan];
    let key = (crowdloan, id.0, id.1);
    let vault = world.state.current_vault(crowdloan)->0;
    assert(world.state.vaults.contains_key(key));
    let (sent, changed, _) = begun.migrate_from(crowdloan, vault, None, 0);
    let after = world.migrate_pending(origin, crowdloan).0.state;
    assert(child_id::<T>(vault.trie_index, ChildStorageKind::Pending) != child_id::<T>(
        vault.trie_index,
        ChildStorageKind::Flying,
    ));
    migrating_sweeps::<T>(begun, crowdloan, vault, None, 0);
    let child = child_id::<T>(vault.trie_index, ChildStorageKind::Pending);
    assert(after.contributions == sent.state.contributions);
    same_entries(sent.state, after, child);
    migrating_keeps_registries::<T>(begun, crowdloan, vault, None, 0);
    assert(after.vaults[key] == changed);
    every_call_keeps_order::<T>(world, origin, Call::MigratePending { crowdloan });
    assert(after.vaults.contains_key(key));
    assert(after.vault_agrees::<T>(after.vaults[key]));
    empty_sums_to_nothing(after, child);
}

// ---- Who may call ----

/// The privilege that a call asks for. Accounts of the group that automates the
/// life of vaults may make such a call too.
pub open spec fn privilege<S>(call: Call<S>) -> Option<RequiredOrigin> {
    match call {
        Call::CreateVault { .. } => Some(RequiredOrigin::CreateOrigin),
        Call::UpdateVault { .. } => Some(RequiredOrigin::UpdateOrigin),
        Call::Open { .. } => Some(RequiredOrigin::OpenCloseOrigin),
        Call::Close { .. } => Some(RequiredOrigin::OpenCloseOrigin),
        Call::Reopen { .. } => Some(RequiredOrigin::OpenCloseOrigin),
        Call::SetVrf { .. } => Some(RequiredOrigin::VrfOrigin),
        Call::AuctionSucceeded { .. } => Some(RequiredOrigin::AuctionSucceededFailedOrigin),
        Call::AuctionFailed { .. } => Some(RequiredOrigin::AuctionSucceededFailedOrigin),
        Call::SlotExpired { .. } => Some(RequiredOrigin::SlotExpiredOrigin),
        Call::MigratePending { .. } => Some(RequiredOrigin::MigrateOrigin),
        Call::Refund { .. } => Some(RequiredOrigin::RefundOrigin),
        Call::RefundFor { .. } => Some(RequiredOrigin::RefundOrigin),
        Call::DissolveVault { .. } => Some(RequiredOrigin::DissolveOrigin),
        Call::UpdateLeasesBonus { .. } => Some(RequiredOrigin::UpdateOrigin),
        _ => None,
    }
}

/// A call is turned away, and the pallet is as it was, where the origin lacks the
/// privilege that it asks for and is not an account of the automation group, where
/// it moves an account's assets and no account signed it, where it updates the proxy
/// address without the privilege to, and where it is a notification that neither
/// another chain sent nor somebody who may update vaults.
pub proof fn bad_origins_are_turned_away<T: Config>(
    world: World<T>,
    origin: Origin<T::OtherOrigin>,
    call: Call<T::LookupSource>,
)
    requires
        ({
            let begun = world.begun();
            match call {
                Call::Contribute { .. } => !(origin is Signed),
                Call::Claim { .. } => !(origin is Signed),
                Call::ClaimFor { .. } => !(origin is Signed),
                Call::Withdraw { .. } => !(origin is Signed),
                Call::WithdrawFor { .. } => !(origin is Signed),
                Call::Redeem { .. } => !(origin is Signed),
                Call::UpdateProxy { .. } => !begun.runtime.spec_ensure_origin(
                    RequiredOrigin::ProxyOrigin,
                    origin,
                ),
                Call::NotificationReceived { .. } => !(origin is Response)
                    && !begun.runtime.spec_ensure_origin(RequiredOrigin::UpdateOrigin, origin),
                _ => privilege(call) is Some && !begun.authorized(privilege(call)->0, origin),
            }
        }),
    ensures
        world.dispatch(origin, call).1 == Err::<(), CallError>(CallError::BadOrigin),
        world.dispatch(origin, call).0.state == world.state,
{
}

// ---- Limits of one call ----

/// As many contributions are given back as are counted, and where some are left,
/// as many as one call may.
proof fn refunding_counts<T: Config>(
    world: World<T>,
    vault: Vault,
    kind: ChildStorageKind,
    cursor: Option<AccountId>,
    count: nat,
)
    requires
        world.state.contributions.dom().finite(),
        count <= T::spec_constants().remove_keys_limit,
        world.refund_from(vault, kind, cursor, count).2 is Ok,
    ensures
        ({
            let (after, _, result) = world.refund_from(vault, kind, cursor, count);
            let (counted, all) = result->Ok_0;
            &&& after.state.contributions.dom().finite()
            &&& after.state.contributions.dom().len() + counted
                == world.state.contributions.dom().len() + count
            &&& count <= counted <= T::spec_constants().remove_keys_limit
            &&& !all ==> counted == T::spec_constants().remove_keys_limit
        }),
    decreases T::spec_constants().remove_keys_limit - count,
{
    let child = child_id::<T>(vault.trie_index, kind);
    let next = world.state.next_contributor(child, cursor);
    if next is Some && count < T::spec_constants().remove_keys_limit {
        let who = next->0;
        assert(world.state.is_next(child, cursor, who));
        assert(world.state.contributions.dom().contains(ContributionKey { child, who }));
        let amount = world.state.contribution(child, who).amount;
        let (paid, changed, _) = world.do_refund_for(who, vault, kind, amount);
        refunding_counts::<T>(paid, changed, kind, Some(who), count + 1);
    }
}

/// One call of `refund` gives back as many contributions as one call may, or all
/// that there are.
pub proof fn refund_is_limited<T: Config>(
    world: World<T>,
    origin: Origin<T::OtherOrigin>,
    crowdloan: ParaId,
    lease_start: LeasePeriod,
    lease_end: LeasePeriod,
)
    requires
        world.state.contributions.dom().finite(),
        world.refund(origin, crowdloan, lease_start, lease_end).1 is Ok,
    ensures
        ({
            let after = world.refund(origin, crowdloan, lease_start, lease_end).0.state;
            let id = (lease_start, lease_end);
            let given_back = world.state.contributions.dom().len()
                - after.contributions.dom().len();
            &&& 0 <= given_back <= T::spec_constants().remove_keys_limit
            &&& after.events.last() == Event::<Seq<u8>>::AllRefunded(crowdloan, id) || {
                &&& after.events.last() == Event::<Seq<u8>>::PartiallyRefunded(crowdloan, id)
                &&& given_back == T::spec_constants().remove_keys_limit
            }
        }),
{
    let begun = world.begun();
    let vault = world.state.vaults[(crowdloan, lease_start, lease_end)];
    refunding_counts::<T>(begun, vault, ChildStorageKind::Contributed, None, 0);
    let (w1, v1, r1) = begun.refund_from(vault, ChildStorageKind::Contributed, None, 0);
    if r1->Ok_0.1 {
        let count = r1->Ok_0.0;
        refunding_counts::<T>(w1, v1, ChildStorageKind::Flying, None, count);
        let (w2, v2, r2) = w1.refund_from(v1, ChildStorageKind::Flying, None, count);
        if r2->Ok_0.1 {
            refunding_counts::<T>(w2, v2, ChildStorageKind::Pending, None, r2->Ok_0.0);
        }
    }
}

/// No more messages are sent than contributions may be sent on.
proof fn migrating_counts<T: Config>(
    world: World<T>,
    crowdloan: ParaId,
    vault: Vault,
    cursor: Option<AccountId>,
    count: nat,
)
    requires
        count <= T::spec_constants().migrate_keys_limit,
        world.migrate_from(crowdloan, vault, cursor, count).2 is Ok,
    ensures
        ({
            let (after, _, result) = world.migrate_from(crowdloan, vault, cursor, count);
            let sent = after.state.events.len() - world.state.events.len();
            &&& 0 <= sent <= T::spec_constants().migrate_keys_limit - count
            &&& !result->Ok_0 ==> sent == T::spec_constants().migrate_keys_limit - count
            &&& forall|i: int|
                world.state.events.len() <= i < after.state.events.len()
                    ==> #[trigger] after.state.events[i] is VaultDoContributing
            &&& world.state.events.is_prefix_of(after.state.events)
        }),
    decreases T::spec_constants().migrate_keys_limit - count,
{
    let child = child_id::<T>(vault.trie_index, ChildStorageKind::Pending);
    let next = world.state.next_contributor(child, cursor);
    if next is Some && count < T::spec_constants().migrate_keys_limit {
        let (sent, changed, _) = world.migrate_one(next->0, crowdloan, vault);
        migrating_counts::<T>(sent, crowdloan, changed, Some(next->0), count + 1);
        let after = world.migrate_from(crowdloan, vault, cursor, count).0.state.events;
        let n = world.state.events.len() as int;
        assert(sent.state.events.drop_last() =~= world.state.events);
        assert(sent.state.events[n] is VaultDoContributing);
        assert(after[n] == sent.state.events[n]);
    }
}

/// One call of `migrate_pending` sends on as many contributions as one call may, or
/// all that there are.
pub proof fn migration_is_limited<T: Config>(
    world: World<T>,
    origin: Origin<T::OtherOrigin>,
    crowdloan: ParaId,
)
    requires
        world.migrate_pending(origin, crowdloan).1 is Ok,
    ensures
        ({
            let before = world.state.events;
            let after = world.migrate_pending(origin, crowdloan).0.state.events;
            let sent = after.len() - before.len() - 1;
            &&& 0 <= sent <= T::spec_constants().migrate_keys_limit
            &&& forall|i: int|
                before.len() <= i < before.len() + sent
                    ==> #[trigger] after[i] is VaultDoContributing
            &&& after.last() is AllMigrated || {
                &&& after.last() is PartiallyMigrated
                &&& sent == T::spec_constants().migrate_keys_limit
            }
        }),
{
    let vault = world.state.current_vault(crowdloan)->0;
    migrating_counts::<T>(world.begun(), crowdloan, vault, None, 0);
}

// ---- Contributing ----

/// A contribution that is accepted is all recorded, and the vault holds no more
/// than its cap then.
pub proof fn accepted_contribution_fits<T: Config>(
    world: World<T>,
    origin: Origin<T::OtherOrigin>,
    crowdloan: ParaId,
    amount: Balance,
    referral_code: Seq<u8>,
)
    requires
        in_order::<T>(world.state),
        world.contribute(origin, crowdloan, amount, referral_code).1 is Ok,
    ensures
        ({
            let before = world.state.current_vault(crowdloan);
            let after = world.contribute(
                origin,
                crowdloan,
                amount,
                referral_code,
            ).0.state.current_vault(crowdloan);
            &&& before is Some && after is Some
            &&& (after->0).grand_total() == (before->0).grand_total() + amount
            &&& (after->0).grand_total() <= (after->0).cap
            &&& amount >= T::spec_constants().min_contribution
        }),
{
    current_vault_in_place(world.state, crowdloan);
}

/// While the relay chain draws the end of an auction by lot, nothing is
/// contributed and nothing is sent on.
pub proof fn no_contributions_during_vrf<T: Config>(
    world: World<T>,
    origin: Origin<T::OtherOrigin>,
    crowdloan: ParaId,
    amount: Balance,
    referral_code: Seq<u8>,
)
    requires
        world.state.is_vrf,
    ensures
        world.contribute(origin, crowdloan, amount, referral_code).1 is Err,
        world.contribute(origin, crowdloan, amount, referral_code).0.state == world.state,
        world.migrate_pending(origin, crowdloan).1 is Err,
        world.migrate_pending(origin, crowdloan).0.state == world.state,
{
}

/// A contribution to an open vault is on its way until the relay chain reports
/// back: once it reports that it took the contribution, the contribution is
/// confirmed and no longer on its way.
pub proof fn confirmed_contribution_counts<T: Config>(
    world: World<T>,
    contributor: AccountId,
    crowdloan: ParaId,
    amount: Balance,
    referral_code: Seq<u8>,
    reporter: Origin<T::OtherOrigin>,
    query_id: QueryId,
)
    requires
        in_order::<T>(world.state),
        collision_free::<T>(),
        world.state.current_vault(crowdloan) is Some,
        (world.state.current_vault(crowdloan)->0).phase == VaultPhase::Contributing,
        ({
            let vault = world.state.current_vault(crowdloan)->0;
            let (sent, result) = world.contribute(
                Origin::Signed(contributor),
                crowdloan,
                amount,
                referral_code,
            );
            &&& result is Ok
            &&& sent.state.xcm_requests.contains_key(query_id)
            &&& sent.state.xcm_requests[query_id] == (XcmRequest::Contribute {
                crowdloan,
                vault_id: vault.id(),
                who: contributor,
                amount,
                referral_code,
            })
            &&& sent.notification_received(
                reporter,
                query_id,
                Response::ExecutionResult(None),
            ).1 is Ok
        }),
    ensures
        ({
            let vault = world.state.current_vault(crowdloan)->0;
            let sent = world.contribute(
                Origin::Signed(contributor),
                crowdloan,
                amount,
                referral_code,
            ).0;
            let after = sent.notification_received(
                reporter,
                query_id,
                Response::ExecutionResult(None),
            ).0.state;
            let flying = child_id::<T>(vault.trie_index, ChildStorageKind::Flying);
            let contributed = child_id::<T>(vault.trie_index, ChildStorageKind::Contributed);
            &&& after.current_vault(crowdloan) == Some(
                Vault { contributed: (vault.contributed + amount) as Balance, ..vault },
            )
            &&& after.contribution(contributed, contributor).amount == world.state.contribution(
                contributed,
                contributor,
            ).amount + amount
            &&& after.contribution(contributed, contributor).referral_code == referral_code
            &&& after.contribution(flying, contributor).amount == world.state.contribution(
                flying,
                contributor,
            ).amount
            &&& !after.xcm_requests.contains_key(query_id)
        }),
{
    current_vault_in_place(world.state, crowdloan);
    let vault = world.state.current_vault(crowdloan)->0;
    assert(child_id::<T>(vault.trie_index, ChildStorageKind::Flying) != child_id::<T>(
        vault.trie_index,
        ChildStorageKind::Contributed,
    ));
}

/// Once the relay chain reports that it did not take a contribution, the vaults
/// and what every account has in them are as they were before the contribution.
pub proof fn rejected_contribution_leaves_nothing<T: Config>(
    world: World<T>,
    contributor: AccountId,
    crowdloan: ParaId,
    amount: Balance,
    referral_code: Seq<u8>,
    reporter: Origin<T::OtherOrigin>,
    query_id: QueryId,
    error: (u32, XcmError),
)
    requires
        in_order::<T>(world.state),
        world.state.current_vault(crowdloan) is Some,
        (world.state.current_vault(crowdloan)->0).phase == VaultPhase::Contributing,
        ({
            let vault = world.state.current_vault(crowdloan)->0;
            let (sent, result) = world.contribute(
                Origin::Signed(contributor),
                crowdloan,
                amount,
                referral_code,
            );
            &&& result is Ok
            &&& sent.state.xcm_requests.contains_key(query_id)
            &&& sent.state.xcm_requests[query_id] == (XcmRequest::Contribute {
                crowdloan,
                vault_id: vault.id(),
                who: contributor,
                amount,
                referral_code,
            })
            &&& sent.notification_received(
                reporter,
                query_id,
                Response::ExecutionResult(Some(error)),
            ).1 is Ok
        }),
    ensures
        ({
            let sent = world.contribute(
                Origin::Signed(contributor),
                crowdloan,
                amount,
                referral_code,
            ).0;
            let after = sent.notification_received(
                reporter,
                query_id,
                Response::ExecutionResult(Some(error)),
            ).0.state;
            &&& after.vaults == world.state.vaults
            &&& forall|c: Seq<u8>, w: AccountId|
                (#[trigger] after.contribution(c, w)).amount == world.state.contribution(
                    c,
                    w,
                ).amount
        }),
{
    current_vault_in_place(world.state, crowdloan);
}

// ---- Phases ----

/// A vault that was closed can be opened again by whoever has the privilege, and then
/// all vaults, and the one that the crowdloan bids with, are as they were.
pub proof fn reopening_undoes_closing<T: Config>(
    world: World<T>,
    closer: Origin<T::OtherOrigin>,
    opener: Origin<T::OtherOrigin>,
    crowdloan: ParaId,
)
    requires
        in_order::<T>(world.state),
        world.close(closer, crowdloan).1 is Ok,
        world.close(closer, crowdloan).0.begun().authorized(
            RequiredOrigin::OpenCloseOrigin,
            opener,
        ),
    ensures
        ({
            let (after, result) = world.close(closer, crowdloan).0.reopen(opener, crowdloan);
            &&& result is Ok
            &&& after.state.vaults == world.state.vaults
            &&& after.state.current_vault(crowdloan) == world.state.current_vault(crowdloan)
        }),
{
    current_vault_in_place(world.state, crowdloan);
    let after = world.close(closer, crowdloan).0.reopen(opener, crowdloan).0.state;
    assert(after.vaults =~= world.state.vaults);
}

/// Asking contributions back does not change a vault: it fails or expires only
/// once the relay chain reports that it gave them back.
pub proof fn recalled_vault_waits<T: Config>(
    world: World<T>,
    origin: Origin<T::OtherOrigin>,
    crowdloan: ParaId,
)
    requires
        in_order::<T>(world.state),
    ensures
        world.auction_failed(origin, crowdloan).0.state.vaults == world.state.vaults,
        world.slot_expired(origin, crowdloan).0.state.vaults == world.state.vaults,
{
    if world.state.current_vault(crowdloan) is Some {
        current_vault_in_place(world.state, crowdloan);
    }
}

// ---- Payouts ----

/// Right after a claim there is nothing for the account to claim in this vault,
/// whatever happens to the rest of the chain.
pub proof fn second_claim_finds_nothing<T: Config>(
    world: World<T>,
    who: AccountId,
    crowdloan: ParaId,
    lease_start: LeasePeriod,
    lease_end: LeasePeriod,
    runtime: T,
)
    requires
        world.claim(Origin::Signed(who), crowdloan, lease_start, lease_end).1 is Ok,
    ensures
        ({
            let state = world.claim(Origin::Signed(who), crowdloan, lease_start, lease_end).0.state;
            World { runtime, state }.claim(Origin::Signed(who), crowdloan, lease_start, lease_end).1
                == Err::<(), CallError>(CallError::Module(Error::NoContributions))
        }),
{
}

/// Right after a withdrawal there is nothing for the account to withdraw from this
/// vault, whatever happens to the rest of the chain.
pub proof fn second_withdrawal_finds_nothing<T: Config>(
    world: World<T>,
    who: AccountId,
    crowdloan: ParaId,
    lease_start: LeasePeriod,
    lease_end: LeasePeriod,
    runtime: T,
)
    requires
        world.withdraw(Origin::Signed(who), crowdloan, lease_start, lease_end).1 is Ok,
    ensures
        ({
            let state = world.withdraw(
                Origin::Signed(who),
                crowdloan,
                lease_start,
                lease_end,
            ).0.state;
            World { runtime, state }.withdraw(
                Origin::Signed(who),
                crowdloan,
                lease_start,
                lease_end,
            ).1 == Err::<(), CallError>(CallError::Module(Error::NoContributions))
        }),
{
}

/// Claiming or withdrawing for somebody else does what it does when the account
/// does so itself.
pub proof fn for_others_as_for_oneself<T: Config>(
    world: World<T>,
    helper: AccountId,
    dest: T::LookupSource,
    who: AccountId,
    crowdloan: ParaId,
    lease_start: LeasePeriod,
    lease_end: LeasePeriod,
)
    requires
        world.begun().runtime.spec_lookup(dest) == Ok::<AccountId, LookupError>(who),
    ensures
        world.claim_for(Origin::Signed(helper), dest, crowdloan, lease_start, lease_end)
            == world.claim(Origin::Signed(who), crowdloan, lease_start, lease_end),
        world.withdraw_for(Origin::Signed(helper), dest, crowdloan, lease_start, lease_end)
            == world.withdraw(Origin::Signed(who), crowdloan, lease_start, lease_end),
{
}

/// Where every vault counts at least as much as confirmed as its child trie holds,
/// whoever has a confirmed contribution to a vault that failed can withdraw it, if
/// the relay chain's currency can be given out.
pub proof fn failed_vault_pays_back<T: Config>(
    world: World<T>,
    who: AccountId,
    crowdloan: ParaId,
    lease_start: LeasePeriod,
    lease_end: LeasePeriod,
)
    requires
        in_order::<T>(world.state),
        world.state.books_cover::<T>(),
        world.state.vaults.contains_key((crowdloan, lease_start, lease_end)),
        ({
            let vault = world.state.vaults[(crowdloan, lease_start, lease_end)];
            let amount = world.state.contribution(
                child_id::<T>(vault.trie_index, ChildStorageKind::Contributed),
                who,
            ).amount;
            &&& vault.phase == VaultPhase::Failed
            &&& amount > 0
            &&& world.begun().runtime.spec_mint_into(
                T::spec_constants().relay_currency,
                who,
                amount,
            ).1 is Ok
        }),
    ensures
        world.withdraw(Origin::Signed(who), crowdloan, lease_start, lease_end).1 is Ok,
{
    let key = (crowdloan, lease_start, lease_end);
    let vault = world.state.vaults[key];
    let child = child_id::<T>(vault.trie_index, ChildStorageKind::Contributed);
    entry_at_most_total(world.state.contributions, ContributionKey { child, who });
}

/// Whoever holds an amount of a derivative can redeem it at a vault of the lease that
/// expired and still counts as much as confirmed, where the derivative can be
/// destroyed and the relay chain's currency be given out: exactly that amount of the
/// one goes and of the other comes.
pub proof fn held_derivatives_can_be_redeemed<T: Config>(
    world: World<T>,
    who: AccountId,
    crowdloan: ParaId,
    lease_start: LeasePeriod,
    lease_end: LeasePeriod,
    amount: Balance,
)
    requires
        can_be_redeemed(world, who, (crowdloan, lease_start, lease_end), amount),
    ensures
        ({
            let key = (crowdloan, lease_start, lease_end);
            let vault = world.state.vaults[key];
            let (after, result) = world.redeem(
                Origin::Signed(who),
                crowdloan,
                lease_start,
                lease_end,
                amount,
            );
            &&& result is Ok
            &&& after.runtime == redeemed_runtime(
                world,
                who,
                (lease_start, lease_end),
                amount,
            ).spec_commit_transaction()
            &&& after.state.vaults == world.state.vaults.insert(
                key,
                Vault { contributed: (vault.contributed - amount) as Balance, ..vault },
            )
        }),
{
}

/// What it takes to redeem an amount of a derivative: the vault expired and counts the
/// amount, the account can spend it, and it can be destroyed and the relay chain's
/// currency be given out.
pub open spec fn can_be_redeemed<T: Config>(
    world: World<T>,
    who: AccountId,
    key: VaultKey,
    amount: Balance,
) -> bool {
    let begun = world.begun();
    let id = (key.1, key.2);
    let ctoken = world.state.ctokens_registry[id];
    let (burning, burnt) = begun.runtime.spec_burn_from(ctoken, who, amount);
    &&& world.state.ctokens_registry.contains_key(id)
    &&& world.state.vaults.contains_key(key)
    &&& world.state.vaults[key].phase == VaultPhase::Expired
    &&& world.state.vaults[key].contributed >= amount
    &&& begun.runtime.spec_reducible_balance(ctoken, who, false) >= amount
    &&& burnt is Ok
    &&& burning.spec_mint_into(T::spec_constants().relay_currency, who, amount).1 is Ok
}

/// The rest of the chain once an amount of the derivative of a lease was destroyed and
/// as much of the relay chain's currency was given out.
pub open spec fn redeemed_runtime<T: Config>(
    world: World<T>,
    who: AccountId,
    id: VaultId,
    amount: Balance,
) -> T {
    world.begun().runtime.spec_burn_from(
        world.state.ctokens_registry[id],
        who,
        amount,
    ).0.spec_mint_into(T::spec_constants().relay_currency, who, amount).0
}

/// More of a derivative than an account can spend is not redeemed.
pub proof fn no_more_is_redeemed_than_held<T: Config>(
    world: World<T>,
    who: AccountId,
    crowdloan: ParaId,
    lease_start: LeasePeriod,
    lease_end: LeasePeriod,
    amount: Balance,
)
    requires
        world.state.ctokens_registry.contains_key((lease_start, lease_end)),
        world.state.vaults.contains_key((crowdloan, lease_start, lease_end)),
        world.state.vaults[(crowdloan, lease_start, lease_end)].phase == VaultPhase::Expired,
        world.begun().runtime.spec_reducible_balance(
            world.state.ctokens_registry[(lease_start, lease_end)],
            who,
            false,
        ) < amount,
    ensures
        world.redeem(Origin::Signed(who), crowdloan, lease_start, lease_end, amount).1 == Err::<
            (),
            CallError,
        >(CallError::Module(Error::InsufficientBalance)),
        world.redeem(Origin::Signed(who), crowdloan, lease_start, lease_end, amount).0.state
            == world.state,
{
}

/// What an account has claimed it can redeem once the slot expired, whatever happened
/// to the rest of the chain between the calls: the claim gave it as much of the
/// derivative as it had contributed, and where it still has that and the derivative can
/// be destroyed and the relay chain's currency be given out, it gets exactly as much of
/// the relay chain's currency.
pub proof fn claimed_can_be_redeemed<T: Config>(
    world: World<T>,
    who: AccountId,
    crowdloan: ParaId,
    lease_start: LeasePeriod,
    lease_end: LeasePeriod,
    at_expiry: T,
    reporter: Origin<T::OtherOrigin>,
    at_report: T,
    notifier: Origin<T::OtherOrigin>,
    query_id: QueryId,
    at_redemption: T,
)
    requires
        in_order::<T>(world.state),
        world.state.books_cover::<T>(),
        world.claim(Origin::Signed(who), crowdloan, lease_start, lease_end).1 is Ok,
        ({
            let id = (lease_start, lease_end);
            let claimed = world.claim(Origin::Signed(who), crowdloan, lease_start, lease_end).0;
            let (asked, asking) = claimed.with_runtime(at_expiry).slot_expired(reporter, crowdloan);
            let (expired, expiring) = asked.with_runtime(at_report).notification_received(
                notifier,
                query_id,
                Response::ExecutionResult(None),
            );
            let key = (crowdloan, lease_start, lease_end);
            let amount = world.state.claimable::<T>(key, who);
            let begun = expired.with_runtime(at_redemption).begun();
            let ctoken = world.state.ctokens_registry[id];
            let (burning, burnt) = begun.runtime.spec_burn_from(ctoken, who, amount);
            &&& asking is Ok
            &&& asked.state.xcm_requests.contains_key(query_id)
            &&& asked.state.xcm_requests[query_id] == (XcmRequest::<Seq<u8>>::Withdraw {
                crowdloan,
                vault_id: id,
                amount: world.state.vaults[key].contributed,
                target_phase: VaultPhase::Expired,
            })
            &&& expiring is Ok
            &&& begun.runtime.spec_reducible_balance(ctoken, who, false) >= amount
            &&& burnt is Ok
            &&& burning.spec_mint_into(T::spec_constants().relay_currency, who, amount).1 is Ok
        }),
    ensures
        ({
            let id = (lease_start, lease_end);
            let key = (crowdloan, lease_start, lease_end);
            let amount = world.state.claimable::<T>(key, who);
            let claimed = world.claim(Origin::Signed(who), crowdloan, lease_start, lease_end).0;
            let asked = claimed.with_runtime(at_expiry).slot_expired(reporter, crowdloan).0;
            let expired = asked.with_runtime(at_report).notification_received(
                notifier,
                query_id,
                Response::ExecutionResult(None),
            ).0.with_runtime(at_redemption);
            let (after, result) = expired.redeem(
                Origin::Signed(who),
                crowdloan,
                lease_start,
                lease_end,
                amount,
            );
            &&& world.begun().runtime.spec_mint_into(
                world.state.ctokens_registry[id],
                who,
                amount,
            ).1 is Ok
            &&& amount > 0
            &&& result is Ok
            &&& expired.state.ctokens_registry[id] == world.state.ctokens_registry[id]
            &&& after.runtime == redeemed_runtime(
                expired,
                who,
                id,
                amount,
            ).spec_commit_transaction()
            &&& after.state.vaults[key].contributed == world.state.vaults[key].contributed - amount
        }),
{
    let key = (crowdloan, lease_start, lease_end);
    let child = child_id::<T>(
        world.state.vaults[key].trie_index,
        ChildStorageKind::Contributed,
    );
    let amount = world.state.claimable::<T>(key, who);
    let claimed = world.claim(Origin::Signed(who), crowdloan, lease_start, lease_end).0;
    let asked = claimed.with_runtime(at_expiry).slot_expired(reporter, crowdloan).0;
    entry_at_most_total(world.state.contributions, ContributionKey { child, who });
    assert(claimed.state.vaults == world.state.vaults);
    every_call_keeps_order::<T>(
        world,
        Origin::Signed(who),
        Call::Claim { crowdloan, lease_start, lease_end },
    );
    recalled_vault_waits::<T>(claimed.with_runtime(at_expiry), reporter, crowdloan);
    assert(asked.state.vaults == world.state.vaults);
    let expired = asked.with_runtime(at_report).notification_received(
        notifier,
        query_id,
        Response::ExecutionResult(None),
    ).0.with_runtime(at_redemption);
    assert(expired.state.vaults[key] == (Vault {
        phase: VaultPhase::Expired,
        ..world.state.vaults[key]
    }));
    held_derivatives_can_be_redeemed::<T>(
        expired,
        who,
        crowdloan,
        lease_start,
        lease_end,
        amount,
    );
}

} // verus!
