//! How the state changes from call to call.
use vstd::prelude::*;

use crate::config::Config;
use crate::payouts::addressee;
use crate::pallet::signer;
use crate::state::{child_id, State, World};
use crate::tally::same_but_sums;
use crate::types::{
    AccountId, Balance, BlockNumber, ChildStorageKind, ContributionStrategy, CurrencyId,
    LeasePeriod, Origin, ParaId, QueryId, Response, Vault, VaultId, VaultKey, VaultPhase,
    XcmRequest,
};
use crate::upkeep::{
    current_vault_in_place, every_call_keeps_order, in_order, new_chain_in_order, Call,
};
use crate::vaults::VaultChange;

verus! {

/// A vault is done with.
pub open spec fn is_done(phase: VaultPhase) -> bool {
    phase == VaultPhase::Failed || phase == VaultPhase::Expired
}

/// The phase that a vault can be in after a call, where it was in another before.
/// A vault fails or expires when the relay chain reports that it gave back what
/// was contributed, whatever happened to the vault since it was asked to.
pub open spec fn phase_follows(before: VaultPhase, after: VaultPhase) -> bool {
    ||| after == before
    ||| before == VaultPhase::Pending && after == VaultPhase::Contributing
    ||| before == VaultPhase::Contributing && after == VaultPhase::Closed
    ||| before == VaultPhase::Closed && after == VaultPhase::Contributing
    ||| before == VaultPhase::Closed && after == VaultPhase::Succeeded
    ||| is_done(after)
}

/// What a call can make of a vault: its lease, its derivative and its index stay.
pub open spec fn vault_follows(before: Vault, after: Vault) -> bool {
    &&& after.id() == before.id()
    &&& after.ctoken == before.ctoken
    &&& after.trie_index == before.trie_index
    &&& phase_follows(before.phase, after.phase)
}

/// What a call can do to the lease that a crowdloan bids for: nothing, or the
/// crowdloan bids with a new vault, where it was not bidding with one that is not
/// done with, or the vault is gone.
pub open spec fn lease_follows(before: State, after: State, crowdloan: ParaId) -> bool {
    let was = before.leases_registry;
    let now = after.leases_registry;
    ||| was.contains_key(crowdloan) == now.contains_key(crowdloan) && was[crowdloan]
        == now[crowdloan]
    ||| {
        &&& now.contains_key(crowdloan)
        &&& !before.vaults.contains_key((crowdloan, now[crowdloan].0, now[crowdloan].1))
        &&& !before.is_engaged(crowdloan)
    }
    ||| {
        &&& was.contains_key(crowdloan)
        &&& !now.contains_key(crowdloan)
        &&& !after.vaults.contains_key((crowdloan, was[crowdloan].0, was[crowdloan].1))
    }
}

/// What a call can make of the state.
pub open spec fn follows(before: State, after: State) -> bool {
    &&& before.events.is_prefix_of(after.events)
    &&& before.next_trie_index <= after.next_trie_index
    &&& forall|id: VaultId| #[trigger]
        before.ctokens_registry.contains_key(id) ==> after.ctokens_registry.contains_key(id)
            && after.ctokens_registry[id] == before.ctokens_registry[id]
    &&& forall|key: VaultKey|
        #![trigger after.vaults.contains_key(key)]
        before.vaults.contains_key(key) && after.vaults.contains_key(key) ==> vault_follows(
            before.vaults[key],
            after.vaults[key],
        )
    &&& forall|key: VaultKey| #[trigger]
        after.vaults.contains_key(key) && !before.vaults.contains_key(key) ==> {
            &&& after.vaults[key].trie_index == before.next_trie_index
            &&& after.vaults[key].phase == VaultPhase::Pending
            &&& after.vaults[key].grand_total() == 0
            &&& after.leases_registry.contains_key(key.0)
            &&& after.leases_registry[key.0] == (key.1, key.2)
        }
    &&& forall|key: VaultKey| #[trigger]
        before.vaults.contains_key(key) && !after.vaults.contains_key(key) ==> {
            &&& before.vaults[key].phase == VaultPhase::Closed || is_done(before.vaults[key].phase)
            &&& before.vaults[key].grand_total() == 0
        }
    &&& forall|crowdloan: ParaId| #[trigger] lease_follows(before, after, crowdloan)
}

/// No lease, derivative or index differs, and events were only added.
pub open spec fn same_registries(before: State, after: State) -> bool {
    &&& before.events.is_prefix_of(after.events)
    &&& after.next_trie_index == before.next_trie_index
    &&& after.ctokens_registry == before.ctokens_registry
    &&& after.leases_registry == before.leases_registry
}

/// No vault goes.
spec fn none_goes(before: State, after: State) -> bool {
    forall|key: VaultKey| #[trigger]
        before.vaults.contains_key(key) ==> after.vaults.contains_key(key)
}

/// No derivative and no phase differs.
spec fn steady(before: State, after: State) -> bool {
    &&& after.ctokens_registry == before.ctokens_registry
    &&& same_phases(before, after)
}

/// No vault that stays changes its phase.
spec fn same_phases(before: State, after: State) -> bool {
    forall|key: VaultKey|
        #![trigger after.vaults.contains_key(key)]
        before.vaults.contains_key(key) && after.vaults.contains_key(key)
            ==> after.vaults[key].phase == before.vaults[key].phase
}

/// Where no vault changes, what can be made of the state is made of it.
proof fn unchanged_follows(before: State, after: State)
    requires
        same_registries(before, after),
        after.vaults == before.vaults,
    ensures
        follows(before, after),
        steady(before, after),
        none_goes(before, after),
{
    assert forall|crowdloan: ParaId| #[trigger] lease_follows(before, after, crowdloan) by {}
}

/// One vault changes as it can.
proof fn replaced_follows(before: State, after: State, key: VaultKey, vault: Vault)
    requires
        same_registries(before, after),
        before.vaults.contains_key(key),
        after.vaults == before.vaults.insert(key, vault),
        vault_follows(before.vaults[key], vault),
    ensures
        follows(before, after),
        vault.phase == before.vaults[key].phase ==> steady(before, after),
        none_goes(before, after),
{
    assert forall|crowdloan: ParaId| #[trigger] lease_follows(before, after, crowdloan) by {}
}

/// Changing the vault that a crowdloan bids with.
proof fn change_follows<T: Config>(
    world: World<T>,
    crowdloan: ParaId,
    phase: VaultPhase,
    change: VaultChange,
)
    requires
        world.state.consistent(),
        world.try_mutate_vault(crowdloan, phase, change).1 is Ok,
        change is Enter ==> phase_follows(phase, change->Enter_0),
    ensures
        follows(world.state, world.try_mutate_vault(crowdloan, phase, change).0.state),
        ({
            let after = world.try_mutate_vault(crowdloan, phase, change).0.state;
            &&& after.ctokens_registry == world.state.ctokens_registry
            &&& change is Recall ==> same_phases(world.state, after)
            &&& forall|key: VaultKey| #[trigger]
                after.vaults.contains_key(key) ==> after.vaults[key].phase
                    == world.state.vaults[key].phase || key.0 == crowdloan
                    && world.state.vaults[key].phase == phase && change == VaultChange::Enter(
                    after.vaults[key].phase,
                )
        }),
        none_goes(world.state, world.try_mutate_vault(crowdloan, phase, change).0.state),
{
    let after = world.try_mutate_vault(crowdloan, phase, change).0.state;
    current_vault_in_place(world.state, crowdloan);
    let vault = world.state.current_vault(crowdloan)->0;
    let key = (crowdloan, vault.lease_start, vault.lease_end);
    let changed = match change {
        VaultChange::Enter(now) => Vault { phase: now, ..vault },
        VaultChange::Recall(_) => vault,
    };
    replaced_follows(world.state, after, key, changed);
}

/// Contributing.
proof fn contributing_follows<T: Config>(
    world: World<T>,
    origin: Origin<T::OtherOrigin>,
    crowdloan: ParaId,
    amount: Balance,
    referral_code: Seq<u8>,
)
    requires
        world.state.consistent(),
        world.contributed(origin, crowdloan, amount, referral_code).1 is Ok,
    ensures
        follows(
            world.state,
            world.contributed(origin, crowdloan, amount, referral_code).0.state,
        ),
        steady(
            world.state,
            world.contributed(origin, crowdloan, amount, referral_code).0.state,
        ),
        none_goes(
            world.state,
            world.contributed(origin, crowdloan, amount, referral_code).0.state,
        ),
{
    let after = world.contributed(origin, crowdloan, amount, referral_code).0.state;
    current_vault_in_place(world.state, crowdloan);
    let vault = world.state.current_vault(crowdloan)->0;
    let key = (crowdloan, vault.lease_start, vault.lease_end);
    replaced_follows(world.state, after, key, after.vaults[key]);
}

/// Sending on contributions that were held back.
pub(crate) proof fn migrating_keeps_registries<T: Config>(
    world: World<T>,
    crowdloan: ParaId,
    vault: Vault,
    cursor: Option<AccountId>,
    count: nat,
)
    requires
        world.migrate_from(crowdloan, vault, cursor, count).2 is Ok,
    ensures
        ({
            let (after, changed, _) = world.migrate_from(crowdloan, vault, cursor, count);
            &&& same_registries(world.state, after.state)
            &&& after.state.vaults == world.state.vaults
            &&& same_but_sums(changed, vault)
        }),
    decreases T::spec_constants().migrate_keys_limit - count,
{
    let child = child_id::<T>(vault.trie_index, ChildStorageKind::Pending);
    let next = world.state.next_contributor(child, cursor);
    if next is Some && count < T::spec_constants().migrate_keys_limit {
        let (sent, changed, _) = world.migrate_one(next->0, crowdloan, vault);
        migrating_keeps_registries::<T>(sent, crowdloan, changed, Some(next->0), count + 1);
    }
}

/// Migrating contributions.
proof fn migration_follows<T: Config>(
    world: World<T>,
    origin: Origin<T::OtherOrigin>,
    crowdloan: ParaId,
)
    requires
        world.state.consistent(),
        world.pending_migrated(origin, crowdloan).1 is Ok,
    ensures
        follows(world.state, world.pending_migrated(origin, crowdloan).0.state),
        steady(world.state, world.pending_migrated(origin, crowdloan).0.state),
        none_goes(world.state, world.pending_migrated(origin, crowdloan).0.state),
{
    let after = world.pending_migrated(origin, crowdloan).0.state;
    current_vault_in_place(world.state, crowdloan);
    let vault = world.state.current_vault(crowdloan)->0;
    let key = (crowdloan, vault.lease_start, vault.lease_end);
    migrating_keeps_registries::<T>(world, crowdloan, vault, None, 0);
    let (sent, changed, _) = world.migrate_from(crowdloan, vault, None, 0);
    replaced_follows(world.state, after, key, changed);
}

/// Giving back contributions of one kind.
proof fn refunding_keeps_registries<T: Config>(
    world: World<T>,
    vault: Vault,
    kind: ChildStorageKind,
    cursor: Option<AccountId>,
    count: nat,
)
    requires
        world.refund_from(vault, kind, cursor, count).2 is Ok,
    ensures
        ({
            let (after, changed, _) = world.refund_from(vault, kind, cursor, count);
            &&& same_registries(world.state, after.state)
            &&& after.state.vaults == world.state.vaults
            &&& same_but_sums(changed, vault)
        }),
    decreases T::spec_constants().remove_keys_limit - count,
{
    let child = child_id::<T>(vault.trie_index, kind);
    let next = world.state.next_contributor(child, cursor);
    if next is Some && count < T::spec_constants().remove_keys_limit {
        let amount = world.state.contribution(child, next->0).amount;
        let (paid, changed, _) = world.do_refund_for(next->0, vault, kind, amount);
        refunding_keeps_registries::<T>(paid, changed, kind, Some(next->0), count + 1);
    }
}

/// Refunding a vault.
proof fn refund_follows<T: Config>(
    world: World<T>,
    origin: Origin<T::OtherOrigin>,
    crowdloan: ParaId,
    lease_start: LeasePeriod,
    lease_end: LeasePeriod,
)
    requires
        world.refunded(origin, crowdloan, lease_start, lease_end).1 is Ok,
    ensures
        follows(world.state, world.refunded(origin, crowdloan, lease_start, lease_end).0.state),
        steady(world.state, world.refunded(origin, crowdloan, lease_start, lease_end).0.state),
        none_goes(world.state, world.refunded(origin, crowdloan, lease_start, lease_end).0.state),
{
    let after = world.refunded(origin, crowdloan, lease_start, lease_end).0.state;
    let key = (crowdloan, lease_start, lease_end);
    let vault = world.state.vaults[key];
    refunding_keeps_registries::<T>(world, vault, ChildStorageKind::Contributed, None, 0);
    let (w1, v1, r1) = world.refund_from(vault, ChildStorageKind::Contributed, None, 0);
    if r1->Ok_0.1 {
        let count = r1->Ok_0.0;
        refunding_keeps_registries::<T>(w1, v1, ChildStorageKind::Flying, None, count);
        let (w2, v2, r2) = w1.refund_from(v1, ChildStorageKind::Flying, None, count);
        if r2->Ok_0.1 {
            refunding_keeps_registries::<T>(w2, v2, ChildStorageKind::Pending, None, r2->Ok_0.0);
        }
    }
    let (paid, changed, _) = world.refund_all(vault);
    assert(same_registries(world.state, paid.state));
    replaced_follows(world.state, after, key, changed);
}

/// Refunding one account.
proof fn user_refund_follows<T: Config>(
    world: World<T>,
    origin: Origin<T::OtherOrigin>,
    dest: T::LookupSource,
    crowdloan: ParaId,
    kind: ChildStorageKind,
    amount: Balance,
    lease_start: LeasePeriod,
    lease_end: LeasePeriod,
)
    requires
        world.user_refunded(origin, dest, crowdloan, kind, amount, lease_start, lease_end).1 is Ok,
    ensures
        follows(
            world.state,
            world.user_refunded(
                origin,
                dest,
                crowdloan,
                kind,
                amount,
                lease_start,
                lease_end,
            ).0.state,
        ),
        steady(
            world.state,
            world.user_refunded(
                origin,
                dest,
                crowdloan,
                kind,
                amount,
                lease_start,
                lease_end,
            ).0.state,
        ),
        none_goes(
            world.state,
            world.user_refunded(
                origin,
                dest,
                crowdloan,
                kind,
                amount,
                lease_start,
                lease_end,
            ).0.state,
        ),
{
    let after = world.user_refunded(
        origin,
        dest,
        crowdloan,
        kind,
        amount,
        lease_start,
        lease_end,
    ).0.state;
    let key = (crowdloan, lease_start, lease_end);
    replaced_follows(world.state, after, key, after.vaults[key]);
}

/// Claiming.
proof fn claim_follows<T: Config>(
    world: World<T>,
    who: AccountId,
    crowdloan: ParaId,
    lease_start: LeasePeriod,
    lease_end: LeasePeriod,
)
    requires
        world.do_claim_for(who, crowdloan, lease_start, lease_end).1 is Ok,
    ensures
        follows(world.state, world.do_claim_for(who, crowdloan, lease_start, lease_end).0.state),
        steady(world.state, world.do_claim_for(who, crowdloan, lease_start, lease_end).0.state),
        none_goes(world.state, world.do_claim_for(who, crowdloan, lease_start, lease_end).0.state),
{
    unchanged_follows(
        world.state,
        world.do_claim_for(who, crowdloan, lease_start, lease_end).0.state,
    );
}

/// Withdrawing.
proof fn withdraw_follows<T: Config>(
    world: World<T>,
    who: AccountId,
    crowdloan: ParaId,
    lease_start: LeasePeriod,
    lease_end: LeasePeriod,
)
    requires
        world.do_withdraw_for(who, crowdloan, lease_start, lease_end).1 is Ok,
    ensures
        follows(world.state, world.do_withdraw_for(who, crowdloan, lease_start, lease_end).0.state),
        steady(world.state, world.do_withdraw_for(who, crowdloan, lease_start, lease_end).0.state),
        none_goes(world.state, world.do_withdraw_for(who, crowdloan, lease_start, lease_end).0.state),
{
    let after = world.do_withdraw_for(who, crowdloan, lease_start, lease_end).0.state;
    let key = (crowdloan, lease_start, lease_end);
    replaced_follows(world.state, after, key, after.vaults[key]);
}

/// Redeeming.
proof fn redeeming_follows<T: Config>(
    world: World<T>,
    origin: Origin<T::OtherOrigin>,
    crowdloan: ParaId,
    lease_start: LeasePeriod,
    lease_end: LeasePeriod,
    amount: Balance,
)
    requires
        world.redeemed(origin, crowdloan, lease_start, lease_end, amount).1 is Ok,
    ensures
        follows(
            world.state,
            world.redeemed(origin, crowdloan, lease_start, lease_end, amount).0.state,
        ),
        steady(
            world.state,
            world.redeemed(origin, crowdloan, lease_start, lease_end, amount).0.state,
        ),
        none_goes(
            world.state,
            world.redeemed(origin, crowdloan, lease_start, lease_end, amount).0.state,
        ),
{
    let after = world.redeemed(origin, crowdloan, lease_start, lease_end, amount).0.state;
    let key = (crowdloan, lease_start, lease_end);
    replaced_follows(world.state, after, key, after.vaults[key]);
}

/// Being notified.
proof fn notification_follows<T: Config>(
    world: World<T>,
    origin: Origin<T::OtherOrigin>,
    query_id: QueryId,
    response: Response,
)
    requires
        world.state.recalls_decide(),
        world.notified(origin, query_id, response).1 is Ok,
    ensures
        follows(world.state, world.notified(origin, query_id, response).0.state),
        ({
            let after = world.notified(origin, query_id, response).0.state;
            &&& after.ctokens_registry == world.state.ctokens_registry
            &&& forall|key: VaultKey| #[trigger]
                after.vaults.contains_key(key) ==> after.vaults[key].phase
                    == world.state.vaults[key].phase || is_done(after.vaults[key].phase)
        }),
        none_goes(world.state, world.notified(origin, query_id, response).0.state),
{
    let after = world.notified(origin, query_id, response).0.state;
    if response is ExecutionResult && world.state.xcm_requests.contains_key(query_id) {
        match world.state.xcm_requests[query_id] {
            XcmRequest::Contribute { crowdloan, vault_id, .. } => {
                let key = (crowdloan, vault_id.0, vault_id.1);
                replaced_follows(world.state, after, key, after.vaults[key]);
            },
            XcmRequest::Withdraw { crowdloan, vault_id, target_phase, .. } => {
                let key = (crowdloan, vault_id.0, vault_id.1);
                if response->ExecutionResult_0 is None {
                    replaced_follows(world.state, after, key, after.vaults[key]);
                } else {
                    unchanged_follows(world.state, after);
                }
            },
        }
    } else {
        unchanged_follows(world.state, after);
    }
}

/// Updating the vault that a crowdloan bids with.
proof fn vault_update_follows<T: Config>(
    world: World<T>,
    origin: Origin<T::OtherOrigin>,
    crowdloan: ParaId,
    cap: Option<Balance>,
    end_block: Option<BlockNumber>,
    contribution_strategy: Option<ContributionStrategy>,
)
    requires
        world.state.consistent(),
        world.vault_updated(origin, crowdloan, cap, end_block, contribution_strategy).1 is Ok,
    ensures
        follows(
            world.state,
            world.vault_updated(origin, crowdloan, cap, end_block, contribution_strategy).0.state,
        ),
        steady(
            world.state,
            world.vault_updated(origin, crowdloan, cap, end_block, contribution_strategy).0.state,
        ),
        none_goes(
            world.state,
            world.vault_updated(origin, crowdloan, cap, end_block, contribution_strategy).0.state,
        ),
{
    let after = world.vault_updated(
        origin,
        crowdloan,
        cap,
        end_block,
        contribution_strategy,
    ).0.state;
    current_vault_in_place(world.state, crowdloan);
    let vault = world.state.current_vault(crowdloan)->0;
    let key = (crowdloan, vault.lease_start, vault.lease_end);
    replaced_follows(world.state, after, key, after.vaults[key]);
}

/// Creating a vault.
proof fn creation_follows<T: Config>(
    world: World<T>,
    origin: Origin<T::OtherOrigin>,
    crowdloan: ParaId,
    ctoken: CurrencyId,
    lease_start: LeasePeriod,
    lease_end: LeasePeriod,
    contribution_strategy: ContributionStrategy,
    cap: Balance,
    end_block: BlockNumber,
)
    requires
        world.creation_refusal(
            origin,
            crowdloan,
            ctoken,
            lease_start,
            lease_end,
            cap,
            end_block,
        ) is None,
    ensures
        follows(
            world.state,
            world.state.with_new_vault(
                crowdloan,
                ctoken,
                lease_start,
                lease_end,
                contribution_strategy,
                cap,
                end_block,
            ),
        ),
        same_phases(
            world.state,
            world.state.with_new_vault(
                crowdloan,
                ctoken,
                lease_start,
                lease_end,
                contribution_strategy,
                cap,
                end_block,
            ),
        ),
{
    let after = world.state.with_new_vault(
        crowdloan,
        ctoken,
        lease_start,
        lease_end,
        contribution_strategy,
        cap,
        end_block,
    );
    assert forall|c: ParaId| #[trigger] lease_follows(world.state, after, c) by {
        if c == crowdloan {
            assert(after.leases_registry[c] == (lease_start, lease_end));
        }
    }
}

/// Dissolving a vault.
proof fn dissolution_follows<T: Config>(
    world: World<T>,
    origin: Origin<T::OtherOrigin>,
    crowdloan: ParaId,
    lease_start: LeasePeriod,
    lease_end: LeasePeriod,
)
    requires
        world.dissolution_refusal(origin, crowdloan, lease_start, lease_end) is None,
    ensures
        follows(world.state, world.state.without_vault(crowdloan, lease_start, lease_end)),
        steady(world.state, world.state.without_vault(crowdloan, lease_start, lease_end)),
{
    let after = world.state.without_vault(crowdloan, lease_start, lease_end);
    assert forall|c: ParaId| #[trigger] lease_follows(world.state, after, c) by {}
}

/// The call under which a vault can change its phase: of the calls that change the
/// phase of the vault of a crowdloan, each does one change, and a vault fails or
/// expires only by a notification.
pub open spec fn phase_led<S>(
    call: Call<S>,
    key: VaultKey,
    before: VaultPhase,
    after: VaultPhase,
) -> bool {
    after == before || match call {
        Call::Open { crowdloan } => {
            &&& crowdloan == key.0
            &&& before == VaultPhase::Pending
            &&& after == VaultPhase::Contributing
        },
        Call::Close { crowdloan } => {
            &&& crowdloan == key.0
            &&& before == VaultPhase::Contributing
            &&& after == VaultPhase::Closed
        },
        Call::Reopen { crowdloan } => {
            &&& crowdloan == key.0
            &&& before == VaultPhase::Closed
            &&& after == VaultPhase::Contributing
        },
        Call::AuctionSucceeded { crowdloan } => {
            &&& crowdloan == key.0
            &&& before == VaultPhase::Closed
            &&& after == VaultPhase::Succeeded
        },
        Call::NotificationReceived { .. } => is_done(after),
        _ => false,
    }
}

/// The derivatives that a call leaves: those that there were, and where it creates a
/// vault, the one that it names.
pub open spec fn derivatives_led<S>(call: Call<S>, before: State, after: State) -> bool {
    after.ctokens_registry == before.ctokens_registry || match call {
        Call::CreateVault { ctoken, lease_start, lease_end, .. } => after.ctokens_registry
            == before.ctokens_registry.insert((lease_start, lease_end), ctoken),
        _ => false,
    }
}

/// Whatever is called, by whomever and whatever the runtime answers: events are
/// only added, indices only go up, the derivative of a lease stays, a vault keeps
/// its lease, its derivative and its index and changes its phase only as phases
/// follow each other, a new vault is empty, has an index that no vault had, and
/// takes the place of one that is done with, and a vault goes only when nothing is
/// left in it and it is closed or done with.
pub proof fn every_call_follows<T: Config>(
    world: World<T>,
    origin: Origin<T::OtherOrigin>,
    call: Call<T::LookupSource>,
)
    requires
        in_order::<T>(world.state),
    ensures
        follows(world.state, world.dispatch(origin, call).0.state),
{
    call_leads::<T>(world, origin, call);
}

/// Every call leads where it can.
proof fn call_leads<T: Config>(
    world: World<T>,
    origin: Origin<T::OtherOrigin>,
    call: Call<T::LookupSource>,
)
    requires
        in_order::<T>(world.state),
    ensures
        ({
            let after = world.dispatch(origin, call).0.state;
            &&& follows(world.state, after)
            &&& derivatives_led(call, world.state, after)
            &&& forall|key: VaultKey| #[trigger]
                world.state.vaults.contains_key(key) && !after.vaults.contains_key(key)
                    ==> dissolves::<T>(world, origin, call, key)
            &&& forall|key: VaultKey|
                #![trigger after.vaults.contains_key(key)]
                world.state.vaults.contains_key(key) && after.vaults.contains_key(key)
                    ==> phase_led(
                    call,
                    key,
                    world.state.vaults[key].phase,
                    after.vaults[key].phase,
                )
        }),
{
    let begun = world.begun();
    let (after, result) = world.dispatch(origin, call);
    if result is Err {
        unchanged_follows(world.state, after.state);
    } else {
        match call {
            Call::CreateVault {
                crowdloan,
                ctoken,
                lease_start,
                lease_end,
                contribution_strategy,
                cap,
                end_block,
            } => {
                creation_follows::<T>(
                    begun,
                    origin,
                    crowdloan,
                    ctoken,
                    lease_start,
                    lease_end,
                    contribution_strategy,
                    cap,
                    end_block,
                );
            },
            Call::UpdateVault { crowdloan, new_cap, new_end_block, new_strategy } => {
                vault_update_follows::<T>(
                    begun,
                    origin,
                    crowdloan,
                    new_cap,
                    new_end_block,
                    new_strategy,
                );
            },
            Call::Open { crowdloan } => {
                change_follows::<T>(
                    begun,
                    crowdloan,
                    VaultPhase::Pending,
                    VaultChange::Enter(VaultPhase::Contributing),
                );
            },
            Call::Contribute { crowdloan, amount, referral_code } => {
                contributing_follows::<T>(begun, origin, crowdloan, amount, referral_code);
            },
            Call::Close { crowdloan } => {
                change_follows::<T>(
                    begun,
                    crowdloan,
                    VaultPhase::Contributing,
                    VaultChange::Enter(VaultPhase::Closed),
                );
            },
            Call::Reopen { crowdloan } => {
                change_follows::<T>(
                    begun,
                    crowdloan,
                    VaultPhase::Closed,
                    VaultChange::Enter(VaultPhase::Contributing),
                );
            },
            Call::AuctionSucceeded { crowdloan } => {
                change_follows::<T>(
                    begun,
                    crowdloan,
                    VaultPhase::Closed,
                    VaultChange::Enter(VaultPhase::Succeeded),
                );
            },
            Call::AuctionFailed { crowdloan } => {
                change_follows::<T>(
                    begun,
                    crowdloan,
                    VaultPhase::Closed,
                    VaultChange::Recall(VaultPhase::Failed),
                );
            },
            Call::SlotExpired { crowdloan } => {
                change_follows::<T>(
                    begun,
                    crowdloan,
                    VaultPhase::Succeeded,
                    VaultChange::Recall(VaultPhase::Expired),
                );
            },
            Call::Claim { crowdloan, lease_start, lease_end } => {
                claim_follows::<T>(
                    begun,
                    signer(origin)->Ok_0,
                    crowdloan,
                    lease_start,
                    lease_end,
                );
            },
            Call::ClaimFor { dest, crowdloan, lease_start, lease_end } => {
                let who = addressee(begun.runtime.spec_lookup(dest))->Ok_0;
                claim_follows::<T>(begun, who, crowdloan, lease_start, lease_end);
            },
            Call::Withdraw { crowdloan, lease_start, lease_end } => {
                withdraw_follows::<T>(
                    begun,
                    signer(origin)->Ok_0,
                    crowdloan,
                    lease_start,
                    lease_end,
                );
            },
            Call::WithdrawFor { dest, crowdloan, lease_start, lease_end } => {
                let who = addressee(begun.runtime.spec_lookup(dest))->Ok_0;
                withdraw_follows::<T>(begun, who, crowdloan, lease_start, lease_end);
            },
            Call::Redeem { crowdloan, lease_start, lease_end, amount } => {
                redeeming_follows::<T>(begun, origin, crowdloan, lease_start, lease_end, amount);
            },
            Call::MigratePending { crowdloan } => {
                migration_follows::<T>(begun, origin, crowdloan);
            },
            Call::NotificationReceived { query_id, response } => {
                notification_follows::<T>(begun, origin, query_id, response);
            },
            Call::Refund { crowdloan, lease_start, lease_end } => {
                refund_follows::<T>(begun, origin, crowdloan, lease_start, lease_end);
            },
            Call::RefundFor { dest, crowdloan, kind, amount, lease_start, lease_end } => {
                user_refund_follows::<T>(
                    begun,
                    origin,
                    dest,
                    crowdloan,
                    kind,
                    amount,
                    lease_start,
                    lease_end,
                );
            },
            Call::DissolveVault { crowdloan, lease_start, lease_end } => {
                dissolution_follows::<T>(begun, origin, crowdloan, lease_start, lease_end);
            },
            Call::SetVrf { .. } => {
                unchanged_follows(world.state, after.state);
            },
            Call::UpdateProxy { .. } => {
                unchanged_follows(world.state, after.state);
            },
            Call::UpdateLeasesBonus { .. } => {
                unchanged_follows(world.state, after.state);
            },
        }
    }
}

/// A vault changes its phase only by the call for this: only `reopen` of its crowdloan
/// leads from closed back to contributing, only `open`, `close` and `auction_succeeded`
/// of its crowdloan lead on, and only a notification leads to its end.
pub proof fn phases_change_by_their_call<T: Config>(
    world: World<T>,
    origin: Origin<T::OtherOrigin>,
    call: Call<T::LookupSource>,
    key: VaultKey,
)
    requires
        in_order::<T>(world.state),
        world.state.vaults.contains_key(key),
        world.dispatch(origin, call).0.state.vaults.contains_key(key),
    ensures
        phase_led(
            call,
            key,
            world.state.vaults[key].phase,
            world.dispatch(origin, call).0.state.vaults[key].phase,
        ),
{
    call_leads::<T>(world, origin, call);
}

/// A call dissolves a vault and has every right to.
pub open spec fn dissolves<T: Config>(
    world: World<T>,
    origin: Origin<T::OtherOrigin>,
    call: Call<T::LookupSource>,
    key: VaultKey,
) -> bool {
    &&& call == (Call::<T::LookupSource>::DissolveVault {
        crowdloan: key.0,
        lease_start: key.1,
        lease_end: key.2,
    })
    &&& world.begun().dissolution_refusal(origin, key.0, key.1, key.2) is None
}

/// A vault goes only by a call that dissolves it and is not refused: nothing is left in
/// its child tries and in its sums then.
pub proof fn only_dissolution_removes<T: Config>(
    world: World<T>,
    origin: Origin<T::OtherOrigin>,
    call: Call<T::LookupSource>,
    key: VaultKey,
)
    requires
        in_order::<T>(world.state),
        world.state.vaults.contains_key(key),
        !world.dispatch(origin, call).0.state.vaults.contains_key(key),
    ensures
        dissolves::<T>(world, origin, call, key),
        !world.state.has_childstorage::<T>(world.state.vaults[key].trie_index),
        world.state.vaults[key].grand_total() == 0,
{
    call_leads::<T>(world, origin, call);
}

/// How far a vault in a phase has come in its life.
pub open spec fn progress(phase: VaultPhase) -> nat {
    match phase {
        VaultPhase::Pending => 0,
        VaultPhase::Contributing => 1,
        VaultPhase::Closed => 1,
        VaultPhase::Succeeded => 2,
        VaultPhase::Failed => 3,
        VaultPhase::Expired => 3,
    }
}

/// No call leads a vault back in its life: from contributing to pending, from a
/// decided auction to an undecided one, or from done with to not done with.
pub proof fn phases_do_not_go_back<T: Config>(
    world: World<T>,
    origin: Origin<T::OtherOrigin>,
    call: Call<T::LookupSource>,
    key: VaultKey,
)
    requires
        in_order::<T>(world.state),
        world.state.vaults.contains_key(key),
        world.dispatch(origin, call).0.state.vaults.contains_key(key),
    ensures
        progress(world.state.vaults[key].phase) <= progress(
            world.dispatch(origin, call).0.state.vaults[key].phase,
        ),
{
    every_call_follows::<T>(world, origin, call);
}

/// Of the vaults of a crowdloan, at most the one that it bids with is not done
/// with.
pub open spec fn others_are_done(state: State) -> bool {
    forall|key: VaultKey| #[trigger]
        state.vaults.contains_key(key) && !is_done(state.vaults[key].phase) ==> {
            &&& state.leases_registry.contains_key(key.0)
            &&& state.leases_registry[key.0] == (key.1, key.2)
        }
}

/// A crowdloan never gets a second vault while it has one that is not done with.
pub proof fn one_vault_at_a_time<T: Config>(
    world: World<T>,
    origin: Origin<T::OtherOrigin>,
    call: Call<T::LookupSource>,
)
    requires
        in_order::<T>(world.state),
        others_are_done(world.state),
    ensures
        others_are_done(world.dispatch(origin, call).0.state),
        others_are_done(State::empty()),
{
    every_call_follows::<T>(world, origin, call);
    let before = world.state;
    let after = world.dispatch(origin, call).0.state;
    assert forall|key: VaultKey| #[trigger]
        after.vaults.contains_key(key) && !is_done(after.vaults[key].phase) implies {
        &&& after.leases_registry.contains_key(key.0)
        &&& after.leases_registry[key.0] == (key.1, key.2)
    } by {
        assert(lease_follows(before, after, key.0));
        if before.vaults.contains_key(key) {
            assert(vault_follows(before.vaults[key], after.vaults[key]));
            assert(before.current_vault(key.0) == Some(before.vaults[key]));
        }
    }
}

/// A call, together with the rest of the chain at the time and who makes it.
pub struct Step<T: Config> {
    pub runtime: T,
    pub origin: Origin<T::OtherOrigin>,
    pub call: Call<T::LookupSource>,
}

/// What the pallet keeps on a new chain after some calls. Between the calls the
/// rest of the chain may change in any way.
pub open spec fn state_after<T: Config>(steps: Seq<Step<T>>) -> State
    decreases steps.len(),
{
    if steps.len() == 0 {
        State::empty()
    } else {
        let step = steps.last();
        World { runtime: step.runtime, state: state_after(steps.drop_last()) }.dispatch(
            step.origin,
            step.call,
        ).0.state
    }
}

/// Whatever was called since the chain began, the state is in order, and no
/// crowdloan has two vaults that are not done with.
pub proof fn reached_states_are_in_order<T: Config>(steps: Seq<Step<T>>)
    ensures
        in_order::<T>(state_after(steps)),
        others_are_done(state_after(steps)),
    decreases steps.len(),
{
    if steps.len() == 0 {
        new_chain_in_order::<T>();
    } else {
        let step = steps.last();
        let world = World { runtime: step.runtime, state: state_after(steps.drop_last()) };
        reached_states_are_in_order::<T>(steps.drop_last());
        every_call_keeps_order::<T>(world, step.origin, step.call);
        one_vault_at_a_time::<T>(world, step.origin, step.call);
    }
}

/// Once a lease has a derivative, it has this one for good, whatever is called
/// later.
pub proof fn derivatives_last<T: Config>(steps: Seq<Step<T>>, earlier: nat, id: VaultId)
    requires
        earlier <= steps.len(),
        state_after(steps.take(earlier as int)).ctokens_registry.contains_key(id),
    ensures
        state_after(steps).ctoken_of(id) == state_after(steps.take(earlier as int)).ctoken_of(id),
    decreases steps.len(),
{
    if earlier == steps.len() {
        assert(steps.take(earlier as int) =~= steps);
    } else {
        let step = steps.last();
        let before = steps.drop_last();
        assert(before.take(earlier as int) =~= steps.take(earlier as int));
        derivatives_last::<T>(before, earlier, id);
        reached_states_are_in_order::<T>(before);
        every_call_follows::<T>(
            World { runtime: step.runtime, state: state_after(before) },
            step.origin,
            step.call,
        );
    }
}

/// The index of a vault that a chain ever had is below all that are given out later.
pub proof fn index_given_out<T: Config>(steps: Seq<Step<T>>, earlier: nat, key: VaultKey)
    requires
        earlier <= steps.len(),
        state_after(steps.take(earlier as int)).vaults.contains_key(key),
    ensures
        state_after(steps.take(earlier as int)).vaults[key].trie_index < state_after(
            steps,
        ).next_trie_index,
    decreases steps.len(),
{
    if earlier == steps.len() {
        assert(steps.take(earlier as int) =~= steps);
        reached_states_are_in_order::<T>(steps);
    } else {
        let step = steps.last();
        let before = steps.drop_last();
        assert(before.take(earlier as int) =~= steps.take(earlier as int));
        index_given_out::<T>(before, earlier, key);
        reached_states_are_in_order::<T>(before);
        every_call_follows::<T>(
            World { runtime: step.runtime, state: state_after(before) },
            step.origin,
            step.call,
        );
    }
}

/// No two leases of crowdloans ever have vaults with the same index: a vault that has
/// the index of an earlier one stands under the same crowdloan and lease.
pub proof fn indices_are_not_used_again<T: Config>(
    steps: Seq<Step<T>>,
    earlier: nat,
    a: VaultKey,
    b: VaultKey,
)
    requires
        earlier <= steps.len(),
        state_after(steps.take(earlier as int)).vaults.contains_key(a),
        state_after(steps).vaults.contains_key(b),
        state_after(steps.take(earlier as int)).vaults[a].trie_index
            == state_after(steps).vaults[b].trie_index,
    ensures
        a == b,
    decreases steps.len(),
{
    if earlier == steps.len() {
        assert(steps.take(earlier as int) =~= steps);
        reached_states_are_in_order::<T>(steps);
    } else {
        let step = steps.last();
        let before = steps.drop_last();
        let world = World { runtime: step.runtime, state: state_after(before) };
        assert(before.take(earlier as int) =~= steps.take(earlier as int));
        reached_states_are_in_order::<T>(before);
        every_call_follows::<T>(world, step.origin, step.call);
        index_given_out::<T>(before, earlier, a);
        if state_after(before).vaults.contains_key(b) {
            indices_are_not_used_again::<T>(before, earlier, a, b);
        }
    }
}

/// A vault that a call creates has a larger index than every vault that the chain ever
/// had before, also than one that was dissolved under the same crowdloan and lease.
pub proof fn new_vaults_have_larger_indices<T: Config>(
    steps: Seq<Step<T>>,
    earlier: nat,
    old_key: VaultKey,
    new_key: VaultKey,
)
    requires
        earlier < steps.len(),
        state_after(steps.take(earlier as int)).vaults.contains_key(old_key),
        !state_after(steps.drop_last()).vaults.contains_key(new_key),
        state_after(steps).vaults.contains_key(new_key),
    ensures
        state_after(steps.take(earlier as int)).vaults[old_key].trie_index < state_after(
            steps,
        ).vaults[new_key].trie_index,
{
    let step = steps.last();
    let before = steps.drop_last();
    assert(before.take(earlier as int) =~= steps.take(earlier as int));
    index_given_out::<T>(before, earlier, old_key);
    reached_states_are_in_order::<T>(before);
    every_call_follows::<T>(
        World { runtime: step.runtime, state: state_after(before) },
        step.origin,
        step.call,
    );
}

/// No two leases have the same derivative, whatever was called since the chain began.
pub proof fn derivatives_are_unique<T: Config>(
    steps: Seq<Step<T>>,
    asset_id: CurrencyId,
    a: VaultId,
    b: VaultId,
)
    requires
        state_after(steps).bears(asset_id, a),
        state_after(steps).bears(asset_id, b),
    ensures
        a == b,
{
    reached_states_are_in_order::<T>(steps);
    assert(state_after(steps).ctokens_registry.contains_key(a));
    assert(state_after(steps).ctokens_registry.contains_key(b));
}

/// Every lease that has a vault or a derivative ends in a later period than it begins.
pub proof fn leases_end_after_they_begin<T: Config>(steps: Seq<Step<T>>, key: VaultKey, id: VaultId)
    ensures
        state_after(steps).vaults.contains_key(key) ==> key.1 < key.2,
        state_after(steps).ctokens_registry.contains_key(id) ==> id.0 < id.1,
{
    reached_states_are_in_order::<T>(steps);
}

/// The `n`th of some calls creates a vault for a lease with a derivative, and succeeds.
pub open spec fn names_derivative<T: Config>(
    steps: Seq<Step<T>>,
    n: int,
    asset_id: CurrencyId,
    id: VaultId,
) -> bool {
    let step = steps[n];
    &&& 0 <= n < steps.len()
    &&& match step.call {
        Call::CreateVault { ctoken, lease_start, lease_end, .. } => ctoken == asset_id && (
            lease_start,
            lease_end,
        ) == id,
        _ => false,
    }
    &&& World { runtime: step.runtime, state: state_after(steps.take(n)) }.dispatch(
        step.origin,
        step.call,
    ).1 is Ok
}

/// Every derivative of a lease was named by a call that created a vault, and every one
/// that was named is the derivative of its lease.
pub proof fn derivatives_come_from_vaults<T: Config>(
    steps: Seq<Step<T>>,
    asset_id: CurrencyId,
    id: VaultId,
)
    ensures
        state_after(steps).bears(asset_id, id) <==> exists|n: int| #[trigger]
            names_derivative::<T>(steps, n, asset_id, id),
    decreases steps.len(),
{
    if steps.len() > 0 {
        let step = steps.last();
        let before = steps.drop_last();
        let last = steps.len() - 1;
        let world = World { runtime: step.runtime, state: state_after(before) };
        derivatives_come_from_vaults::<T>(before, asset_id, id);
        reached_states_are_in_order::<T>(before);
        call_leads::<T>(world, step.origin, step.call);
        assert(steps.take(last) =~= before);
        if state_after(before).bears(asset_id, id) {
            let n = choose|n: int| #[trigger] names_derivative::<T>(before, n, asset_id, id);
            assert(before.take(n) =~= steps.take(n));
            assert(names_derivative::<T>(steps, n, asset_id, id));
        } else if state_after(steps).bears(asset_id, id) {
            assert(names_derivative::<T>(steps, last, asset_id, id));
        }
        if exists|n: int| #[trigger] names_derivative::<T>(steps, n, asset_id, id) {
            let n = choose|n: int| #[trigger] names_derivative::<T>(steps, n, asset_id, id);
            if n < last {
                assert(before.take(n) =~= steps.take(n));
                assert(names_derivative::<T>(before, n, asset_id, id));
            }
        }
    }
}

} // verus!
