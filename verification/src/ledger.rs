//! What was claimed and redeemed in the course of a chain's life.
use vstd::prelude::*;

use crate::config::Config;
use crate::funding::entry_kind;
use crate::history::{
    derivatives_last, every_call_follows, only_dissolution_removes, reached_states_are_in_order,
    state_after, Step,
};
use crate::laws::{held_derivatives_can_be_redeemed, redeemed_runtime};
use crate::pallet::signer;
use crate::payouts::addressee;
use crate::rollback::{failed_call_leaves_the_chain, transactional};
use crate::state::{child_id, State, World};
use crate::tally::{collision_free, entry_at_most_total, total, total_of_none};
use crate::types::{
    AccountId, Balance, CallError, ChildStorageKind, ContributionKey, Error, LeasePeriod, Origin,
    ParaId, QueryId, Response, TrieIndex, Vault, VaultKey, VaultPhase, XcmRequest,
};
use crate::upkeep::{
    claimant, claimed_by, claims_and_redemptions_balance, every_call_keeps_order, in_order,
    redeemed_by, Call,
};
use crate::vaults::VaultChange;

verus! {

// ---- Who has something to claim ----

/// A call takes up the report that a contribution of an account to a vault was taken.
pub open spec fn confirms<T: Config>(
    world: World<T>,
    call: Call<T::LookupSource>,
    key: VaultKey,
    who: AccountId,
) -> bool {
    match call {
        Call::NotificationReceived { query_id, response: Response::ExecutionResult(None) } => {
            &&& world.state.xcm_requests.contains_key(query_id)
            &&& match world.state.xcm_requests[query_id] {
                XcmRequest::Contribute { crowdloan, vault_id, who: contributor, .. } => {
                    &&& (crowdloan, vault_id.0, vault_id.1) == key
                    &&& contributor == who
                },
                _ => false,
            }
        },
        _ => false,
    }
}

/// An account has no more to claim of its contributions to a vault than before, and
/// nothing of a new vault.
pub open spec fn no_more_claimable<T: Config>(
    before: State,
    after: State,
    key: VaultKey,
    who: AccountId,
) -> bool {
    after.vaults.contains_key(key) ==> if before.vaults.contains_key(key) {
        after.claimable::<T>(key, who) <= before.claimable::<T>(key, who)
    } else {
        after.claimable::<T>(key, who) == 0
    }
}

/// Sending on contributions touches only what is held back and what is on its way.
proof fn migrating_leaves<T: Config>(
    world: World<T>,
    crowdloan: ParaId,
    vault: Vault,
    cursor: Option<AccountId>,
    count: nat,
    child: Seq<u8>,
    who: AccountId,
)
    requires
        child != child_id::<T>(vault.trie_index, ChildStorageKind::Pending),
        child != child_id::<T>(vault.trie_index, ChildStorageKind::Flying),
        world.migrate_from(crowdloan, vault, cursor, count).2 is Ok,
    ensures
        world.migrate_from(crowdloan, vault, cursor, count).0.state.contribution(child, who)
            == world.state.contribution(child, who),
    decreases T::spec_constants().migrate_keys_limit - count,
{
    let pending = child_id::<T>(vault.trie_index, ChildStorageKind::Pending);
    let next = world.state.next_contributor(pending, cursor);
    if next is Some && count < T::spec_constants().migrate_keys_limit {
        let (sent, changed, _) = world.migrate_one(next->0, crowdloan, vault);
        assert(sent.state.contribution(child, who) == world.state.contribution(child, who));
        migrating_leaves::<T>(sent, crowdloan, changed, Some(next->0), count + 1, child, who);
    }
}

/// Giving back contributions adds to none.
proof fn refunding_adds_nothing<T: Config>(
    world: World<T>,
    vault: Vault,
    kind: ChildStorageKind,
    cursor: Option<AccountId>,
    count: nat,
    child: Seq<u8>,
    who: AccountId,
)
    requires
        world.refund_from(vault, kind, cursor, count).2 is Ok,
    ensures
        world.refund_from(vault, kind, cursor, count).0.state.contribution(child, who).amount
            <= world.state.contribution(child, who).amount,
    decreases T::spec_constants().remove_keys_limit - count,
{
    let c = child_id::<T>(vault.trie_index, kind);
    let next = world.state.next_contributor(c, cursor);
    if next is Some && count < T::spec_constants().remove_keys_limit {
        let amount = world.state.contribution(c, next->0).amount;
        let (paid, changed, _) = world.do_refund_for(next->0, vault, kind, amount);
        assert(paid.state.contribution(child, who).amount <= world.state.contribution(
            child,
            who,
        ).amount);
        refunding_adds_nothing::<T>(
            paid,
            changed,
            kind,
            Some(next->0),
            count + 1,
            child,
            who,
        );
    }
}

/// Refunding a vault adds to no contribution.
proof fn refund_adds_nothing<T: Config>(
    world: World<T>,
    origin: Origin<T::OtherOrigin>,
    crowdloan: ParaId,
    lease_start: LeasePeriod,
    lease_end: LeasePeriod,
    child: Seq<u8>,
    who: AccountId,
)
    requires
        world.refunded(origin, crowdloan, lease_start, lease_end).1 is Ok,
    ensures
        world.refunded(origin, crowdloan, lease_start, lease_end).0.state.contribution(
            child,
            who,
        ).amount <= world.state.contribution(child, who).amount,
{
    let vault = world.state.vaults[(crowdloan, lease_start, lease_end)];
    let contributed = ChildStorageKind::Contributed;
    let flying = ChildStorageKind::Flying;
    let pending = ChildStorageKind::Pending;
    refunding_adds_nothing::<T>(world, vault, contributed, None, 0, child, who);
    let (w1, v1, r1) = world.refund_from(vault, contributed, None, 0);
    if r1->Ok_0.1 {
        refunding_adds_nothing::<T>(w1, v1, flying, None, r1->Ok_0.0, child, who);
        let (w2, v2, r2) = w1.refund_from(v1, flying, None, r1->Ok_0.0);
        if r2->Ok_0.1 {
            refunding_adds_nothing::<T>(w2, v2, pending, None, r2->Ok_0.0, child, who);
        }
    }
    let paid = world.refund_all(vault).0.state;
    let after = world.refunded(origin, crowdloan, lease_start, lease_end).0.state;
    assert(after.contributions == paid.contributions);
}

/// A notification adds to the confirmed contributions of an account only where it
/// reports one.
proof fn notification_adds_nothing<T: Config>(
    world: World<T>,
    origin: Origin<T::OtherOrigin>,
    query_id: QueryId,
    response: Response,
    key: VaultKey,
    who: AccountId,
)
    requires
        in_order::<T>(world.state),
        collision_free::<T>(),
        world.notified(origin, query_id, response).1 is Ok,
        world.state.vaults.contains_key(key),
        !confirms::<T>(world, Call::NotificationReceived { query_id, response }, key, who),
    ensures
        ({
            let child = child_id::<T>(
                world.state.vaults[key].trie_index,
                ChildStorageKind::Contributed,
            );
            world.notified(origin, query_id, response).0.state.contribution(child, who)
                == world.state.contribution(child, who)
        }),
{
    let child = child_id::<T>(world.state.vaults[key].trie_index, ChildStorageKind::Contributed);
    let after = world.notified(origin, query_id, response).0.state;
    if response is ExecutionResult && world.state.xcm_requests.contains_key(query_id) {
        match world.state.xcm_requests[query_id] {
            XcmRequest::Contribute { crowdloan, vault_id, who: contributor, .. } => {
                let other = (crowdloan, vault_id.0, vault_id.1);
                assert(world.state.vaults.contains_key(other));
                let index = world.state.vaults[other].trie_index;
                let flying = child_id::<T>(index, ChildStorageKind::Flying);
                let contributed = child_id::<T>(index, ChildStorageKind::Contributed);
                assert(flying != child);
                if other != key {
                    assert(index != world.state.vaults[key].trie_index);
                    assert(contributed != child);
                }
            },
            XcmRequest::Withdraw { .. } => {},
        }
    }
}

/// Contributing adds to what is held back or on its way.
proof fn contributing_leaves<T: Config>(
    world: World<T>,
    origin: Origin<T::OtherOrigin>,
    crowdloan: ParaId,
    amount: Balance,
    referral_code: Seq<u8>,
    index: TrieIndex,
    who: AccountId,
)
    requires
        collision_free::<T>(),
        world.contributed(origin, crowdloan, amount, referral_code).1 is Ok,
    ensures
        ({
            let child = child_id::<T>(index, ChildStorageKind::Contributed);
            world.contributed(origin, crowdloan, amount, referral_code).0.state.contribution(
                child,
                who,
            ) == world.state.contribution(child, who)
        }),
{
    let vault = world.state.current_vault(crowdloan)->0;
    assert(child_id::<T>(vault.trie_index, entry_kind(vault)) != child_id::<T>(
        index,
        ChildStorageKind::Contributed,
    ));
}

/// Migrating contributions touches only what is held back and what is on its way.
proof fn migration_leaves<T: Config>(
    world: World<T>,
    origin: Origin<T::OtherOrigin>,
    crowdloan: ParaId,
    index: TrieIndex,
    who: AccountId,
)
    requires
        collision_free::<T>(),
        world.pending_migrated(origin, crowdloan).1 is Ok,
    ensures
        ({
            let child = child_id::<T>(index, ChildStorageKind::Contributed);
            world.pending_migrated(origin, crowdloan).0.state.contribution(child, who)
                == world.state.contribution(child, who)
        }),
{
    let child = child_id::<T>(index, ChildStorageKind::Contributed);
    let vault = world.state.current_vault(crowdloan)->0;
    assert(child_id::<T>(vault.trie_index, ChildStorageKind::Pending) != child);
    assert(child_id::<T>(vault.trie_index, ChildStorageKind::Flying) != child);
    migrating_leaves::<T>(world, crowdloan, vault, None, 0, child, who);
    let sent = world.migrate_from(crowdloan, vault, None, 0).0.state;
    let after = world.pending_migrated(origin, crowdloan).0.state;
    assert(after.contributions == sent.contributions);
}

/// Claiming and withdrawing add to no contribution.
proof fn payouts_add_nothing<T: Config>(
    world: World<T>,
    payee: AccountId,
    crowdloan: ParaId,
    lease_start: LeasePeriod,
    lease_end: LeasePeriod,
    child: Seq<u8>,
    who: AccountId,
)
    ensures
        world.do_claim_for(payee, crowdloan, lease_start, lease_end).0.state.contribution(
            child,
            who,
        ).amount <= world.state.contribution(child, who).amount,
        world.do_withdraw_for(payee, crowdloan, lease_start, lease_end).0.state.contribution(
            child,
            who,
        ).amount <= world.state.contribution(child, who).amount,
{
}

/// Refunding one account adds to no contribution.
proof fn user_refund_adds_nothing<T: Config>(
    world: World<T>,
    origin: Origin<T::OtherOrigin>,
    dest: T::LookupSource,
    crowdloan: ParaId,
    kind: ChildStorageKind,
    amount: Balance,
    lease_start: LeasePeriod,
    lease_end: LeasePeriod,
    child: Seq<u8>,
    who: AccountId,
)
    ensures
        world.user_refunded(
            origin,
            dest,
            crowdloan,
            kind,
            amount,
            lease_start,
            lease_end,
        ).0.state.contribution(child, who).amount <= world.state.contribution(child, who).amount,
{
}

/// Changing the vault of a crowdloan touches no contribution.
proof fn changes_leave<T: Config>(
    world: World<T>,
    crowdloan: ParaId,
    phase: VaultPhase,
    change: VaultChange,
)
    ensures
        world.try_mutate_vault(crowdloan, phase, change).0.state.contributions
            == world.state.contributions,
{
}

/// The calls that touch no contribution.
proof fn others_leave<T: Config>(
    world: World<T>,
    origin: Origin<T::OtherOrigin>,
    call: Call<T::LookupSource>,
)
    requires
        match call {
            Call::Contribute { .. } => false,
            Call::MigratePending { .. } => false,
            Call::NotificationReceived { .. } => false,
            Call::Claim { .. } => false,
            Call::ClaimFor { .. } => false,
            Call::Withdraw { .. } => false,
            Call::WithdrawFor { .. } => false,
            Call::Refund { .. } => false,
            Call::RefundFor { .. } => false,
            _ => true,
        },
    ensures
        world.dispatch(origin, call).0.state.contributions == world.state.contributions,
{
    let begun = world.begun();
    match call {
        Call::Open { crowdloan } => {
            changes_leave::<T>(
                begun,
                crowdloan,
                VaultPhase::Pending,
                VaultChange::Enter(VaultPhase::Contributing),
            );
        },
        Call::Close { crowdloan } => {
            changes_leave::<T>(
                begun,
                crowdloan,
                VaultPhase::Contributing,
                VaultChange::Enter(VaultPhase::Closed),
            );
        },
        Call::Reopen { crowdloan } => {
            changes_leave::<T>(
                begun,
                crowdloan,
                VaultPhase::Closed,
                VaultChange::Enter(VaultPhase::Contributing),
            );
        },
        Call::AuctionSucceeded { crowdloan } => {
            changes_leave::<T>(
                begun,
                crowdloan,
                VaultPhase::Closed,
                VaultChange::Enter(VaultPhase::Succeeded),
            );
        },
        Call::AuctionFailed { crowdloan } => {
            changes_leave::<T>(
                begun,
                crowdloan,
                VaultPhase::Closed,
                VaultChange::Recall(VaultPhase::Failed),
            );
        },
        Call::SlotExpired { crowdloan } => {
            changes_leave::<T>(
                begun,
                crowdloan,
                VaultPhase::Succeeded,
                VaultChange::Recall(VaultPhase::Expired),
            );
        },
        _ => {},
    }
}

/// No call adds to the confirmed contributions of an account to a vault but one that
/// confirms one.
proof fn calls_add_nothing<T: Config>(
    world: World<T>,
    origin: Origin<T::OtherOrigin>,
    call: Call<T::LookupSource>,
    key: VaultKey,
    who: AccountId,
)
    requires
        in_order::<T>(world.state),
        collision_free::<T>(),
        world.state.vaults.contains_key(key),
        !confirms::<T>(world, call, key, who),
    ensures
        ({
            let child = child_id::<T>(
                world.state.vaults[key].trie_index,
                ChildStorageKind::Contributed,
            );
            world.dispatch(origin, call).0.state.contribution(child, who).amount
                <= world.state.contribution(child, who).amount
        }),
{
    let begun = world.begun();
    let index = world.state.vaults[key].trie_index;
    let child = child_id::<T>(index, ChildStorageKind::Contributed);
    if world.dispatch(origin, call).1 is Ok {
        match call {
            Call::Contribute { crowdloan, amount, referral_code } => {
                contributing_leaves::<T>(
                    begun,
                    origin,
                    crowdloan,
                    amount,
                    referral_code,
                    index,
                    who,
                );
            },
            Call::MigratePending { crowdloan } => {
                migration_leaves::<T>(begun, origin, crowdloan, index, who);
            },
            Call::NotificationReceived { query_id, response } => {
                notification_adds_nothing::<T>(begun, origin, query_id, response, key, who);
            },
            Call::Claim { crowdloan, lease_start, lease_end } => {
                payouts_add_nothing::<T>(
                    begun,
                    signer(origin)->Ok_0,
                    crowdloan,
                    lease_start,
                    lease_end,
                    child,
                    who,
                );
            },
            Call::ClaimFor { dest, crowdloan, lease_start, lease_end } => {
                let payee = addressee(begun.runtime.spec_lookup(dest))->Ok_0;
                payouts_add_nothing::<T>(
                    begun,
                    payee,
                    crowdloan,
                    lease_start,
                    lease_end,
                    child,
                    who,
                );
            },
            Call::Withdraw { crowdloan, lease_start, lease_end } => {
                payouts_add_nothing::<T>(
                    begun,
                    signer(origin)->Ok_0,
                    crowdloan,
                    lease_start,
                    lease_end,
                    child,
                    who,
                );
            },
            Call::WithdrawFor { dest, crowdloan, lease_start, lease_end } => {
                let payee = addressee(begun.runtime.spec_lookup(dest))->Ok_0;
                payouts_add_nothing::<T>(
                    begun,
                    payee,
                    crowdloan,
                    lease_start,
                    lease_end,
                    child,
                    who,
                );
            },
            Call::Refund { crowdloan, lease_start, lease_end } => {
                refund_adds_nothing::<T>(
                    begun,
                    origin,
                    crowdloan,
                    lease_start,
                    lease_end,
                    child,
                    who,
                );
            },
            Call::RefundFor { dest, crowdloan, kind, amount, lease_start, lease_end } => {
                user_refund_adds_nothing::<T>(
                    begun,
                    origin,
                    dest,
                    crowdloan,
                    kind,
                    amount,
                    lease_start,
                    lease_end,
                    child,
                    who,
                );
            },
            _ => {
                others_leave::<T>(world, origin, call);
            },
        }
    }
}

/// A vault that appears is one that a call created, and no call that creates a vault
/// touches contributions.
proof fn new_vault_is_empty<T: Config>(
    world: World<T>,
    origin: Origin<T::OtherOrigin>,
    call: Call<T::LookupSource>,
    key: VaultKey,
    who: AccountId,
)
    requires
        in_order::<T>(world.state),
        collision_free::<T>(),
        !world.state.vaults.contains_key(key),
        world.dispatch(origin, call).0.state.vaults.contains_key(key),
    ensures
        world.dispatch(origin, call).0.state.claimable::<T>(key, who) == 0,
{
    let before = world.state;
    let after = world.dispatch(origin, call).0.state;
    claims_and_redemptions_balance::<T>(world, origin, call);
    every_call_follows::<T>(world, origin, call);
    every_call_keeps_order::<T>(world, origin, call);
    let child = child_id::<T>(after.vaults[key].trie_index, ChildStorageKind::Contributed);
    assert(after.vault_agrees::<T>(after.vaults[key]));
    assert(total(after.contributions, child) == 0);
    if after.contributions.contains_key(ContributionKey { child, who }) {
        entry_at_most_total(after.contributions, ContributionKey { child, who });
    }
}

/// Unless child tries collide, an account gets something to claim from a vault only by a
/// report that its contribution to this vault was taken.
pub proof fn claims_come_from_confirmations<T: Config>(
    world: World<T>,
    origin: Origin<T::OtherOrigin>,
    call: Call<T::LookupSource>,
    key: VaultKey,
    who: AccountId,
)
    requires
        in_order::<T>(world.state),
        collision_free::<T>(),
        !confirms::<T>(world, call, key, who),
    ensures
        no_more_claimable::<T>(world.state, world.dispatch(origin, call).0.state, key, who),
{
    if world.dispatch(origin, call).0.state.vaults.contains_key(key) {
        if world.state.vaults.contains_key(key) {
            every_call_follows::<T>(world, origin, call);
            calls_add_nothing::<T>(world, origin, call, key, who);
        } else {
            new_vault_is_empty::<T>(world, origin, call, key, who);
        }
    }
}

// ---- Paid out once ----

/// The chain when the `n`th of some calls was made.
pub open spec fn world_at<T: Config>(steps: Seq<Step<T>>, n: int) -> World<T> {
    World { runtime: steps[n].runtime, state: state_after(steps.take(n)) }
}

/// The `n`th of some calls takes up the report that a contribution of an account to a
/// vault was taken.
pub open spec fn confirms_at<T: Config>(
    steps: Seq<Step<T>>,
    n: int,
    key: VaultKey,
    who: AccountId,
) -> bool {
    confirms::<T>(world_at(steps, n), steps[n].call, key, who)
}

/// For which vault and which account a call withdraws.
pub open spec fn withdrawer<T: Config>(
    world: World<T>,
    origin: Origin<T::OtherOrigin>,
    call: Call<T::LookupSource>,
) -> Option<(VaultKey, AccountId)> {
    match call {
        Call::Withdraw { crowdloan, lease_start, lease_end } => match signer(origin) {
            Ok(who) => Some(((crowdloan, lease_start, lease_end), who)),
            Err(_) => None,
        },
        Call::WithdrawFor { dest, crowdloan, lease_start, lease_end } => match addressee(
            world.begun().runtime.spec_lookup(dest),
        ) {
            Ok(who) => Some(((crowdloan, lease_start, lease_end), who)),
            Err(_) => None,
        },
        _ => None,
    }
}

/// The `n`th of some calls pays an account out what it contributed to a vault: it claims
/// or withdraws, for itself or by the help of another, and succeeds.
pub open spec fn pays_out_at<T: Config>(
    steps: Seq<Step<T>>,
    n: int,
    key: VaultKey,
    who: AccountId,
) -> bool {
    let step = steps[n];
    let world = world_at(steps, n);
    &&& claimant::<T>(world, step.origin, step.call) == Some((key, who)) || withdrawer::<T>(
        world,
        step.origin,
        step.call,
    ) == Some((key, who))
    &&& world.dispatch(step.origin, step.call).1 is Ok
}

/// Claiming or withdrawing leaves nothing to claim.
proof fn payout_leaves_nothing<T: Config>(
    world: World<T>,
    who: AccountId,
    crowdloan: ParaId,
    lease_start: LeasePeriod,
    lease_end: LeasePeriod,
)
    ensures
        ({
            let key = (crowdloan, lease_start, lease_end);
            let (claimed, claim) = world.do_claim_for(who, crowdloan, lease_start, lease_end);
            let (withdrew, withdrawal) = world.do_withdraw_for(
                who,
                crowdloan,
                lease_start,
                lease_end,
            );
            &&& claim is Ok ==> claimed.state.claimable::<T>(key, who) == 0
            &&& withdrawal is Ok ==> withdrew.state.claimable::<T>(key, who) == 0
        }),
{
}

/// The part of a chain's life before its last call is the same seen from there.
proof fn same_past<T: Config>(steps: Seq<Step<T>>, n: int)
    requires
        0 <= n < steps.len() - 1,
    ensures
        world_at(steps.drop_last(), n) == world_at(steps, n),
        steps.drop_last()[n] == steps[n],
{
    assert(steps.drop_last().take(n) =~= steps.take(n));
}

/// After a payout an account has nothing to claim until a contribution is confirmed.
proof fn nothing_claimable_after<T: Config>(
    steps: Seq<Step<T>>,
    paid_at: int,
    key: VaultKey,
    who: AccountId,
)
    requires
        collision_free::<T>(),
        0 <= paid_at < steps.len(),
        pays_out_at::<T>(steps, paid_at, key, who),
        forall|n: int|
            paid_at < n < steps.len() ==> !#[trigger] confirms_at::<T>(steps, n, key, who),
    ensures
        state_after(steps).vaults.contains_key(key) ==> state_after(steps).claimable::<T>(key, who)
            == 0,
    decreases steps.len(),
{
    let last = steps.len() - 1;
    let step = steps[last];
    let before = steps.drop_last();
    let world = world_at(steps, last);
    assert(steps.take(last) =~= before);
    if paid_at == last {
        payout_leaves_nothing::<T>(world.begun(), who, key.0, key.1, key.2);
    } else {
        same_past::<T>(steps, paid_at);
        assert forall|n: int| paid_at < n < before.len() implies !#[trigger] confirms_at::<T>(
            before,
            n,
            key,
            who,
        ) by {
            same_past::<T>(steps, n);
            assert(!confirms_at::<T>(steps, n, key, who));
        }
        nothing_claimable_after::<T>(before, paid_at, key, who);
        reached_states_are_in_order::<T>(before);
        assert(!confirms_at::<T>(steps, last, key, who));
        claims_come_from_confirmations::<T>(world, step.origin, step.call, key, who);
    }
}

/// Unless child tries collide, a contribution is claimed at most once: after a claim of
/// an account at a vault, whatever is called later, as long as no further contribution
/// of the account to this vault is confirmed, a claim while the auction counts as won
/// finds no contributions and changes nothing, nor of the rest of the chain where the
/// runtime takes back what it is told to.
pub proof fn claimed_once<T: Config>(
    steps: Seq<Step<T>>,
    paid_at: int,
    crowdloan: ParaId,
    lease_start: LeasePeriod,
    lease_end: LeasePeriod,
    who: AccountId,
    later: T,
)
    requires
        collision_free::<T>(),
        0 <= paid_at < steps.len(),
        pays_out_at::<T>(steps, paid_at, (crowdloan, lease_start, lease_end), who),
        forall|n: int|
            paid_at < n < steps.len() ==> !#[trigger] confirms_at::<T>(
                steps,
                n,
                (crowdloan, lease_start, lease_end),
                who,
            ),
        state_after(steps).vaults.contains_key((crowdloan, lease_start, lease_end)),
        state_after(steps).vaults[(crowdloan, lease_start, lease_end)].phase
            == VaultPhase::Succeeded,
    ensures
        ({
            let world = World { runtime: later, state: state_after(steps) };
            let (after, result) = world.claim(
                Origin::Signed(who),
                crowdloan,
                lease_start,
                lease_end,
            );
            &&& result == Err::<(), CallError>(CallError::Module(Error::NoContributions))
            &&& after.state == world.state
            &&& transactional::<T>() ==> after == world
        }),
{
    let key = (crowdloan, lease_start, lease_end);
    let world = World { runtime: later, state: state_after(steps) };
    nothing_claimable_after::<T>(steps, paid_at, key, who);
    reached_states_are_in_order::<T>(steps);
    assert(world.state.ctoken_of((lease_start, lease_end)) is Some);
    if transactional::<T>() {
        failed_call_leaves_the_chain::<T>(
            world,
            Origin::Signed(who),
            Call::Claim { crowdloan, lease_start, lease_end },
        );
    }
}

/// Unless child tries collide, a contribution is withdrawn at most once: after a
/// withdrawal of an account from a vault, whatever is called later, as long as no further
/// contribution of the account to this vault is confirmed, a withdrawal while the auction
/// counts as lost finds no contributions and changes nothing, nor of the rest of the
/// chain where the runtime takes back what it is told to.
pub proof fn withdrawn_once<T: Config>(
    steps: Seq<Step<T>>,
    paid_at: int,
    crowdloan: ParaId,
    lease_start: LeasePeriod,
    lease_end: LeasePeriod,
    who: AccountId,
    later: T,
)
    requires
        collision_free::<T>(),
        0 <= paid_at < steps.len(),
        pays_out_at::<T>(steps, paid_at, (crowdloan, lease_start, lease_end), who),
        forall|n: int|
            paid_at < n < steps.len() ==> !#[trigger] confirms_at::<T>(
                steps,
                n,
                (crowdloan, lease_start, lease_end),
                who,
            ),
        state_after(steps).vaults.contains_key((crowdloan, lease_start, lease_end)),
        state_after(steps).vaults[(crowdloan, lease_start, lease_end)].phase == VaultPhase::Failed,
    ensures
        ({
            let world = World { runtime: later, state: state_after(steps) };
            let (after, result) = world.withdraw(
                Origin::Signed(who),
                crowdloan,
                lease_start,
                lease_end,
            );
            &&& result == Err::<(), CallError>(CallError::Module(Error::NoContributions))
            &&& after.state == world.state
            &&& transactional::<T>() ==> after == world
        }),
{
    let key = (crowdloan, lease_start, lease_end);
    let world = World { runtime: later, state: state_after(steps) };
    nothing_claimable_after::<T>(steps, paid_at, key, who);
    if transactional::<T>() {
        failed_call_leaves_the_chain::<T>(
            world,
            Origin::Signed(who),
            Call::Withdraw { crowdloan, lease_start, lease_end },
        );
    }
}

// ---- Claimed and redeemed ----

/// There is a vault under a key, and it has a given index.
pub open spec fn stands(state: State, key: VaultKey, index: TrieIndex) -> bool {
    state.vaults.contains_key(key) && state.vaults[key].trie_index == index
}

/// What was claimed from the vault with a given index in the course of some calls.
pub open spec fn claimed_in<T: Config>(
    steps: Seq<Step<T>>,
    key: VaultKey,
    index: TrieIndex,
) -> nat
    decreases steps.len(),
{
    if steps.len() == 0 {
        0
    } else {
        let step = steps.last();
        let world = World { runtime: step.runtime, state: state_after(steps.drop_last()) };
        claimed_in(steps.drop_last(), key, index) + if stands(world.state, key, index) {
            claimed_by::<T>(world, step.origin, step.call, key)
        } else {
            0
        }
    }
}

/// What was redeemed at the vault with a given index in the course of some calls.
pub open spec fn redeemed_in<T: Config>(
    steps: Seq<Step<T>>,
    key: VaultKey,
    index: TrieIndex,
) -> nat
    decreases steps.len(),
{
    if steps.len() == 0 {
        0
    } else {
        let step = steps.last();
        let world = World { runtime: step.runtime, state: state_after(steps.drop_last()) };
        redeemed_in(steps.drop_last(), key, index) + if stands(world.state, key, index) {
            redeemed_by::<T>(world, step.origin, step.call, key)
        } else {
            0
        }
    }
}

/// A vault that goes leaves no surplus behind.
proof fn dissolved_without_surplus<T: Config>(
    world: World<T>,
    origin: Origin<T::OtherOrigin>,
    call: Call<T::LookupSource>,
    key: VaultKey,
)
    requires
        in_order::<T>(world.state),
        collision_free::<T>(),
        world.state.vaults.contains_key(key),
        !world.dispatch(origin, call).0.state.vaults.contains_key(key),
    ensures
        world.state.surplus::<T>(key) == 0,
        claimed_by::<T>(world, origin, call, key) == 0,
        redeemed_by::<T>(world, origin, call, key) == 0,
{
    only_dissolution_removes::<T>(world, origin, call, key);
    let child = child_id::<T>(
        world.state.vaults[key].trie_index,
        ChildStorageKind::Contributed,
    );
    assert(!world.state.has_entries(child));
    assert forall|k: ContributionKey<Seq<u8>>|
        world.state.contributions.contains_key(k) implies k.child != child by {
        if k.child == child {
            assert(world.state.contributions.contains_key(ContributionKey { child, who: k.who }));
        }
    }
    total_of_none(world.state.contributions, child);
}

/// Unless child tries collide, the books of a vault balance in the course of all calls:
/// what it counts as confirmed is what its child trie holds, and what was claimed from
/// it, less what was redeemed at it. Once the vault is gone, as much was redeemed at it
/// as was claimed from it.
pub proof fn books_balance<T: Config>(steps: Seq<Step<T>>, key: VaultKey, index: TrieIndex)
    requires
        collision_free::<T>(),
    ensures
        ({
            let state = state_after(steps);
            let vault = state.vaults[key];
            let claimed = claimed_in::<T>(steps, key, index);
            let redeemed = redeemed_in::<T>(steps, key, index);
            if stands(state, key, index) {
                vault.contributed + redeemed == total(
                    state.contributions,
                    child_id::<T>(index, ChildStorageKind::Contributed),
                ) + claimed
            } else {
                claimed == redeemed
            }
        }),
    decreases steps.len(),
{
    if steps.len() > 0 {
        let step = steps.last();
        let past = steps.drop_last();
        let world = World { runtime: step.runtime, state: state_after(past) };
        let after = world.dispatch(step.origin, step.call).0.state;
        books_balance::<T>(past, key, index);
        reached_states_are_in_order::<T>(past);
        every_call_follows::<T>(world, step.origin, step.call);
        claims_and_redemptions_balance::<T>(world, step.origin, step.call);
        if stands(world.state, key, index) {
            if !after.vaults.contains_key(key) {
                dissolved_without_surplus::<T>(world, step.origin, step.call, key);
            }
        } else if stands(after, key, index) {
            assert(!world.state.vaults.contains_key(key));
            nothing_paid_without_vault::<T>(world, step.origin, step.call, key);
        }
    }
}

/// Nothing is claimed from or redeemed at a vault that is not there.
proof fn nothing_paid_without_vault<T: Config>(
    world: World<T>,
    origin: Origin<T::OtherOrigin>,
    call: Call<T::LookupSource>,
    key: VaultKey,
)
    requires
        !world.state.vaults.contains_key(key),
    ensures
        claimed_by::<T>(world, origin, call, key) == 0,
        redeemed_by::<T>(world, origin, call, key) == 0,
{
}

/// What an account claims counts among what was claimed from the vault.
pub proof fn claims_are_counted<T: Config>(
    steps: Seq<Step<T>>,
    claimed_at: int,
    key: VaultKey,
    who: AccountId,
)
    requires
        0 <= claimed_at < steps.len(),
        claimant::<T>(
            world_at(steps, claimed_at),
            steps[claimed_at].origin,
            steps[claimed_at].call,
        ) == Some((key, who)),
        world_at(steps, claimed_at).dispatch(
            steps[claimed_at].origin,
            steps[claimed_at].call,
        ).1 is Ok,
    ensures
        ({
            let state = state_after(steps.take(claimed_at));
            let index = state.vaults[key].trie_index;
            &&& stands(state, key, index)
            &&& claimed_in::<T>(steps, key, index) >= state.claimable::<T>(key, who)
        }),
    decreases steps.len(),
{
    let last = steps.len() - 1;
    assert(steps.take(last) =~= steps.drop_last());
    if claimed_at < last {
        same_past::<T>(steps, claimed_at);
        assert(steps.drop_last().take(claimed_at) =~= steps.take(claimed_at));
        claims_are_counted::<T>(steps.drop_last(), claimed_at, key, who);
    } else {
        assert(world_at(steps, last).state == state_after(steps.drop_last()));
    }
}

/// Unless child tries collide, what an account claimed it can redeem once the vault
/// expired, whatever was called in between, as long as no more was redeemed at the vault
/// than others claimed from it: the vault is still there and counts the amount, and where
/// the account has as much of the derivative that it got, and this can be destroyed and
/// the relay chain's currency be given out, exactly that amount of the one goes and of the
/// other comes.
pub proof fn claimed_can_be_redeemed_later<T: Config>(
    steps: Seq<Step<T>>,
    claimed_at: int,
    crowdloan: ParaId,
    lease_start: LeasePeriod,
    lease_end: LeasePeriod,
    who: AccountId,
    later: T,
)
    requires
        collision_free::<T>(),
        0 <= claimed_at < steps.len(),
        claimant::<T>(
            world_at(steps, claimed_at),
            steps[claimed_at].origin,
            steps[claimed_at].call,
        ) == Some(((crowdloan, lease_start, lease_end), who)),
        world_at(steps, claimed_at).dispatch(
            steps[claimed_at].origin,
            steps[claimed_at].call,
        ).1 is Ok,
        ({
            let key = (crowdloan, lease_start, lease_end);
            let before = state_after(steps.take(claimed_at));
            let index = before.vaults[key].trie_index;
            let amount = before.claimable::<T>(key, who);
            let ctoken = before.ctokens_registry[(lease_start, lease_end)];
            let world = World { runtime: later, state: state_after(steps) };
            let (burning, burnt) = world.begun().runtime.spec_burn_from(ctoken, who, amount);
            &&& redeemed_in::<T>(steps, key, index) <= claimed_in::<T>(steps, key, index) - amount
            &&& world.state.vaults[key].phase == VaultPhase::Expired
            &&& world.begun().runtime.spec_reducible_balance(ctoken, who, false) >= amount
            &&& burnt is Ok
            &&& burning.spec_mint_into(T::spec_constants().relay_currency, who, amount).1 is Ok
        }),
    ensures
        ({
            let key = (crowdloan, lease_start, lease_end);
            let before = state_after(steps.take(claimed_at));
            let amount = before.claimable::<T>(key, who);
            let world = World { runtime: later, state: state_after(steps) };
            let vault = world.state.vaults[key];
            let (after, result) = world.redeem(
                Origin::Signed(who),
                crowdloan,
                lease_start,
                lease_end,
                amount,
            );
            &&& amount > 0
            &&& stands(world.state, key, before.vaults[key].trie_index)
            &&& vault.contributed >= amount
            &&& result is Ok
            &&& world.state.ctokens_registry[(lease_start, lease_end)]
                == before.ctokens_registry[(lease_start, lease_end)]
            &&& after.runtime == redeemed_runtime(
                world,
                who,
                (lease_start, lease_end),
                amount,
            ).spec_commit_transaction()
            &&& after.state.vaults[key] == (Vault {
                contributed: (vault.contributed - amount) as Balance,
                ..vault
            })
        }),
{
    let key = (crowdloan, lease_start, lease_end);
    let id = (lease_start, lease_end);
    let before = state_after(steps.take(claimed_at));
    let index = before.vaults[key].trie_index;
    let amount = before.claimable::<T>(key, who);
    assert(amount > 0 && before.ctokens_registry.contains_key(id));
    books_balance::<T>(steps, key, index);
    derivatives_last::<T>(steps, claimed_at as nat, id);
    held_derivatives_can_be_redeemed::<T>(
        World { runtime: later, state: state_after(steps) },
        who,
        crowdloan,
        lease_start,
        lease_end,
        amount,
    );
}

} // verus!
