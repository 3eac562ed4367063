//! What a failed call leaves of the rest of the chain.
use vstd::prelude::*;

use crate::config::Config;
use crate::pallet::signer;
use crate::payouts::addressee;
use crate::state::{child_id, World};
use crate::types::{
    AccountId, Balance, CallError, ChildStorageKind, CurrencyId, LeasePeriod, NotificationCall,
    Origin, ParaId, QueryId, RequiredOrigin, Response, Timestamp, Vault, VaultPhase,
};
use crate::upkeep::Call;
use crate::vaults::VaultChange;

verus! {

/// The runtime takes back what it is told to: a transaction that begins saves the
/// state, the services that the pallet asks for leave alone what is saved, going back
/// leads to the state saved last, and keeping the changes forgets that state.
pub open spec fn transactional<T: Config>() -> bool {
    &&& forall|r: T| (#[trigger] r.spec_start_transaction()).spec_saved() == r.spec_saved().push(r)
    &&& forall|r: T|
        r.spec_saved().len() > 0 ==> #[trigger] r.spec_rollback_transaction()
            == r.spec_saved().last()
    &&& forall|r: T|
        r.spec_saved().len() > 0 ==> (#[trigger] r.spec_commit_transaction()).spec_saved()
            == r.spec_saved().drop_last()
    &&& forall|r: T, asset: CurrencyId, source: AccountId, dest: AccountId, amount: Balance, k: bool|
        (#[trigger] r.spec_transfer(asset, source, dest, amount, k)).0.spec_saved()
            == r.spec_saved()
    &&& forall|r: T, asset: CurrencyId, who: AccountId, amount: Balance|
        (#[trigger] r.spec_mint_into(asset, who, amount)).0.spec_saved() == r.spec_saved()
    &&& forall|r: T, asset: CurrencyId, who: AccountId, amount: Balance|
        (#[trigger] r.spec_burn_from(asset, who, amount)).0.spec_saved() == r.spec_saved()
    &&& forall|r: T, crowdloan: ParaId, amount: Balance, who: AccountId, call: NotificationCall|
        (#[trigger] r.spec_xcm_contribute(crowdloan, amount, who, call)).0.spec_saved()
            == r.spec_saved()
    &&& forall|r: T, crowdloan: ParaId, amount: Balance, proxy: AccountId, call: NotificationCall|
        (#[trigger] r.spec_xcm_proxy_contribute(crowdloan, amount, proxy, call)).0.spec_saved()
            == r.spec_saved()
    &&& forall|r: T, crowdloan: ParaId, who: AccountId, call: NotificationCall|
        (#[trigger] r.spec_xcm_withdraw(crowdloan, who, call)).0.spec_saved() == r.spec_saved()
    &&& forall|
        r: T,
        sender: AccountId,
        recipient: AccountId,
        amount: Balance,
        asset: CurrencyId,
        start_time: Timestamp,
        end_time: Timestamp,
        cancellable: bool,
    |
        (#[trigger] r.spec_create_stream(
            sender,
            recipient,
            amount,
            asset,
            start_time,
            end_time,
            cancellable,
        )).0.spec_saved() == r.spec_saved()
}

/// What is saved is the same.
spec fn same_saved<T: Config>(before: World<T>, after: World<T>) -> bool {
    after.runtime.spec_saved() == before.runtime.spec_saved()
}

/// Sending on contributions.
proof fn migrating_saves<T: Config>(
    world: World<T>,
    crowdloan: ParaId,
    vault: Vault,
    cursor: Option<AccountId>,
    count: nat,
)
    requires
        transactional::<T>(),
    ensures
        same_saved(world, world.migrate_from(crowdloan, vault, cursor, count).0),
    decreases T::spec_constants().migrate_keys_limit - count,
{
    let child = child_id::<T>(vault.trie_index, ChildStorageKind::Pending);
    let next = world.state.next_contributor(child, cursor);
    if next is Some && count < T::spec_constants().migrate_keys_limit {
        let (sent, changed, result) = world.migrate_one(next->0, crowdloan, vault);
        if result is Ok {
            migrating_saves::<T>(sent, crowdloan, changed, Some(next->0), count + 1);
        }
    }
}

/// Giving back contributions of one kind.
proof fn refunding_saves<T: Config>(
    world: World<T>,
    vault: Vault,
    kind: ChildStorageKind,
    cursor: Option<AccountId>,
    count: nat,
)
    requires
        transactional::<T>(),
    ensures
        same_saved(world, world.refund_from(vault, kind, cursor, count).0),
    decreases T::spec_constants().remove_keys_limit - count,
{
    let child = child_id::<T>(vault.trie_index, kind);
    let next = world.state.next_contributor(child, cursor);
    if next is Some && count < T::spec_constants().remove_keys_limit {
        let amount = world.state.contribution(child, next->0).amount;
        let (paid, changed, result) = world.do_refund_for(next->0, vault, kind, amount);
        if result is Ok {
            refunding_saves::<T>(paid, changed, kind, Some(next->0), count + 1);
        }
    }
}

/// Refunding a vault.
proof fn refund_saves<T: Config>(
    world: World<T>,
    origin: Origin<T::OtherOrigin>,
    crowdloan: ParaId,
    lease_start: LeasePeriod,
    lease_end: LeasePeriod,
)
    requires
        transactional::<T>(),
    ensures
        same_saved(world, world.refunded(origin, crowdloan, lease_start, lease_end).0),
{
    let vault = world.state.vaults[(crowdloan, lease_start, lease_end)];
    refunding_saves::<T>(world, vault, ChildStorageKind::Contributed, None, 0);
    let (w1, v1, r1) = world.refund_from(vault, ChildStorageKind::Contributed, None, 0);
    if r1 is Ok {
        refunding_saves::<T>(w1, v1, ChildStorageKind::Flying, None, r1->Ok_0.0);
        let (w2, v2, r2) = w1.refund_from(v1, ChildStorageKind::Flying, None, r1->Ok_0.0);
        if r2 is Ok {
            refunding_saves::<T>(w2, v2, ChildStorageKind::Pending, None, r2->Ok_0.0);
        }
    }
}

/// Refunding one account.
proof fn user_refund_saves<T: Config>(
    world: World<T>,
    origin: Origin<T::OtherOrigin>,
    dest: T::LookupSource,
    crowdloan: ParaId,
    kind: ChildStorageKind,
    amount: Balance,
    lease_start: LeasePeriod,
    lease_end: LeasePeriod,
)
    requires
        transactional::<T>(),
    ensures
        same_saved(
            world,
            world.user_refunded(
                origin,
                dest,
                crowdloan,
                kind,
                amount,
                lease_start,
                lease_end,
            ).0,
        ),
{
}

/// Changing the vault that a crowdloan bids with.
proof fn change_saves<T: Config>(
    world: World<T>,
    crowdloan: ParaId,
    phase: VaultPhase,
    change: VaultChange,
)
    requires
        transactional::<T>(),
    ensures
        same_saved(world, world.try_mutate_vault(crowdloan, phase, change).0),
{
}

/// Contributing.
proof fn contributing_saves<T: Config>(
    world: World<T>,
    origin: Origin<T::OtherOrigin>,
    crowdloan: ParaId,
    amount: Balance,
    referral_code: Seq<u8>,
)
    requires
        transactional::<T>(),
    ensures
        same_saved(world, world.contributed(origin, crowdloan, amount, referral_code).0),
{
}

/// Migrating contributions.
proof fn migration_saves<T: Config>(
    world: World<T>,
    origin: Origin<T::OtherOrigin>,
    crowdloan: ParaId,
)
    requires
        transactional::<T>(),
    ensures
        same_saved(world, world.pending_migrated(origin, crowdloan).0),
{
    if world.state.current_vault(crowdloan) is Some {
        migrating_saves::<T>(
            world,
            crowdloan,
            world.state.current_vault(crowdloan)->0,
            None,
            0,
        );
    }
}

/// Claiming.
proof fn claim_saves<T: Config>(
    world: World<T>,
    who: AccountId,
    crowdloan: ParaId,
    lease_start: LeasePeriod,
    lease_end: LeasePeriod,
)
    requires
        transactional::<T>(),
    ensures
        same_saved(world, world.do_claim_for(who, crowdloan, lease_start, lease_end).0),
{
}

/// Withdrawing.
proof fn withdraw_saves<T: Config>(
    world: World<T>,
    who: AccountId,
    crowdloan: ParaId,
    lease_start: LeasePeriod,
    lease_end: LeasePeriod,
)
    requires
        transactional::<T>(),
    ensures
        same_saved(world, world.do_withdraw_for(who, crowdloan, lease_start, lease_end).0),
{
}

/// Redeeming.
proof fn redeeming_saves<T: Config>(
    world: World<T>,
    origin: Origin<T::OtherOrigin>,
    crowdloan: ParaId,
    lease_start: LeasePeriod,
    lease_end: LeasePeriod,
    amount: Balance,
)
    requires
        transactional::<T>(),
    ensures
        same_saved(world, world.redeemed(origin, crowdloan, lease_start, lease_end, amount).0),
{
}

/// Being notified.
proof fn notification_saves<T: Config>(
    world: World<T>,
    origin: Origin<T::OtherOrigin>,
    query_id: QueryId,
    response: Response,
)
    requires
        transactional::<T>(),
    ensures
        same_saved(world, world.notified(origin, query_id, response).0),
{
}

/// A call ends with as much saved as it began with, and where it failed everything is
/// as it was.
spec fn restores<T: Config>(
    world: World<T>,
    outcome: (World<T>, Result<(), CallError>),
) -> bool {
    &&& same_saved(world, outcome.0)
    &&& outcome.1 is Err ==> outcome.0 == world
}

/// Where the body of a call leaves alone what is saved, the call does, and where it
/// fails everything is as it was.
proof fn settling_restores<T: Config>(
    world: World<T>,
    body: (World<T>, Result<(), CallError>),
)
    requires
        transactional::<T>(),
        same_saved(world.begun(), body.0),
    ensures
        restores(world, world.settled(body)),
{
    assert(world.begun().runtime.spec_saved() == world.runtime.spec_saved().push(world.runtime));
    assert(world.runtime.spec_saved().push(world.runtime).drop_last()
        =~= world.runtime.spec_saved());
}

/// A call that changes the vault of a crowdloan.
proof fn change_restores<T: Config>(
    world: World<T>,
    required: RequiredOrigin,
    origin: Origin<T::OtherOrigin>,
    crowdloan: ParaId,
    phase: VaultPhase,
    change: VaultChange,
)
    requires
        transactional::<T>(),
    ensures
        restores(world, world.change_vault(required, origin, crowdloan, phase, change)),
{
    let begun = world.begun();
    change_saves::<T>(begun, crowdloan, phase, change);
    settling_restores::<T>(
        world,
        if begun.authorized(required, origin) {
            begun.try_mutate_vault(crowdloan, phase, change)
        } else {
            (begun, Err(CallError::BadOrigin))
        },
    );
}

/// A call that claims or withdraws, where `body` is what it does once it is known
/// for whom.
proof fn payout_restores<T: Config>(
    world: World<T>,
    recipient: Result<AccountId, CallError>,
    body: (World<T>, Result<(), CallError>),
)
    requires
        transactional::<T>(),
        same_saved(world.begun(), body.0),
    ensures
        restores(
            world,
            world.settled(
                match recipient {
                    Err(e) => (world.begun(), Err(e)),
                    Ok(_) => body,
                },
            ),
        ),
{
    settling_restores::<T>(
        world,
        match recipient {
            Err(e) => (world.begun(), Err(e)),
            Ok(_) => body,
        },
    );
}

/// Every call restores what it has to.
proof fn call_restores<T: Config>(
    world: World<T>,
    origin: Origin<T::OtherOrigin>,
    call: Call<T::LookupSource>,
)
    requires
        transactional::<T>(),
    ensures
        restores(world, world.dispatch(origin, call)),
{
    let begun = world.begun();
    match call {
        Call::CreateVault {
            crowdloan,
            ctoken,
            lease_start,
            lease_end,
            contribution_strategy,
            cap,
            end_block,
        } => {
            settling_restores::<T>(
                world,
                begun.vault_created(
                    origin,
                    crowdloan,
                    ctoken,
                    lease_start,
                    lease_end,
                    contribution_strategy,
                    cap,
                    end_block,
                ),
            );
        },
        Call::UpdateVault { crowdloan, new_cap, new_end_block, new_strategy } => {
            settling_restores::<T>(
                world,
                begun.vault_updated(origin, crowdloan, new_cap, new_end_block, new_strategy),
            );
        },
        Call::Open { crowdloan } => {
            change_restores::<T>(
                world,
                RequiredOrigin::OpenCloseOrigin,
                origin,
                crowdloan,
                VaultPhase::Pending,
                VaultChange::Enter(VaultPhase::Contributing),
            );
        },
        Call::Close { crowdloan } => {
            change_restores::<T>(
                world,
                RequiredOrigin::OpenCloseOrigin,
                origin,
                crowdloan,
                VaultPhase::Contributing,
                VaultChange::Enter(VaultPhase::Closed),
            );
        },
        Call::Reopen { crowdloan } => {
            change_restores::<T>(
                world,
                RequiredOrigin::OpenCloseOrigin,
                origin,
                crowdloan,
                VaultPhase::Closed,
                VaultChange::Enter(VaultPhase::Contributing),
            );
        },
        Call::AuctionSucceeded { crowdloan } => {
            change_restores::<T>(
                world,
                RequiredOrigin::AuctionSucceededFailedOrigin,
                origin,
                crowdloan,
                VaultPhase::Closed,
                VaultChange::Enter(VaultPhase::Succeeded),
            );
        },
        Call::AuctionFailed { crowdloan } => {
            change_restores::<T>(
                world,
                RequiredOrigin::AuctionSucceededFailedOrigin,
                origin,
                crowdloan,
                VaultPhase::Closed,
                VaultChange::Recall(VaultPhase::Failed),
            );
        },
        Call::SlotExpired { crowdloan } => {
            change_restores::<T>(
                world,
                RequiredOrigin::SlotExpiredOrigin,
                origin,
                crowdloan,
                VaultPhase::Succeeded,
                VaultChange::Recall(VaultPhase::Expired),
            );
        },
        Call::Contribute { crowdloan, amount, referral_code } => {
            contributing_saves::<T>(begun, origin, crowdloan, amount, referral_code);
            settling_restores::<T>(
                world,
                begun.contributed(origin, crowdloan, amount, referral_code),
            );
        },
        Call::MigratePending { crowdloan } => {
            migration_saves::<T>(begun, origin, crowdloan);
            settling_restores::<T>(world, begun.pending_migrated(origin, crowdloan));
        },
        Call::NotificationReceived { query_id, response } => {
            notification_saves::<T>(begun, origin, query_id, response);
            settling_restores::<T>(world, begun.notified(origin, query_id, response));
        },
        Call::Redeem { crowdloan, lease_start, lease_end, amount } => {
            redeeming_saves::<T>(begun, origin, crowdloan, lease_start, lease_end, amount);
            settling_restores::<T>(
                world,
                begun.redeemed(origin, crowdloan, lease_start, lease_end, amount),
            );
        },
        Call::Refund { crowdloan, lease_start, lease_end } => {
            refund_saves::<T>(begun, origin, crowdloan, lease_start, lease_end);
            settling_restores::<T>(
                world,
                begun.refunded(origin, crowdloan, lease_start, lease_end),
            );
        },
        Call::RefundFor { dest, crowdloan, kind, amount, lease_start, lease_end } => {
            user_refund_saves::<T>(
                begun,
                origin,
                dest,
                crowdloan,
                kind,
                amount,
                lease_start,
                lease_end,
            );
            settling_restores::<T>(
                world,
                begun.user_refunded(
                    origin,
                    dest,
                    crowdloan,
                    kind,
                    amount,
                    lease_start,
                    lease_end,
                ),
            );
        },
        Call::DissolveVault { crowdloan, lease_start, lease_end } => {
            settling_restores::<T>(
                world,
                begun.vault_dissolved(origin, crowdloan, lease_start, lease_end),
            );
        },
        Call::Claim { crowdloan, lease_start, lease_end } => {
            let who = signer(origin)->Ok_0;
            claim_saves::<T>(begun, who, crowdloan, lease_start, lease_end);
            payout_restores::<T>(
                world,
                signer(origin),
                begun.do_claim_for(who, crowdloan, lease_start, lease_end),
            );
        },
        Call::ClaimFor { dest, crowdloan, lease_start, lease_end } => {
            let recipient = helped(origin, addressee(begun.runtime.spec_lookup(dest)));
            claim_saves::<T>(begun, recipient->Ok_0, crowdloan, lease_start, lease_end);
            payout_restores::<T>(
                world,
                recipient,
                begun.do_claim_for(recipient->Ok_0, crowdloan, lease_start, lease_end),
            );
        },
        Call::Withdraw { crowdloan, lease_start, lease_end } => {
            let who = signer(origin)->Ok_0;
            withdraw_saves::<T>(begun, who, crowdloan, lease_start, lease_end);
            payout_restores::<T>(
                world,
                signer(origin),
                begun.do_withdraw_for(who, crowdloan, lease_start, lease_end),
            );
        },
        Call::WithdrawFor { dest, crowdloan, lease_start, lease_end } => {
            let recipient = helped(origin, addressee(begun.runtime.spec_lookup(dest)));
            withdraw_saves::<T>(begun, recipient->Ok_0, crowdloan, lease_start, lease_end);
            payout_restores::<T>(
                world,
                recipient,
                begun.do_withdraw_for(recipient->Ok_0, crowdloan, lease_start, lease_end),
            );
        },
        Call::SetVrf { flag } => {
            setting_restores::<T>(world, world.set_vrf(origin, flag));
        },
        Call::UpdateProxy { proxy_address } => {
            setting_restores::<T>(world, world.update_proxy(origin, proxy_address));
        },
        Call::UpdateLeasesBonus { lease_start, lease_end, bonus_config } => {
            setting_restores::<T>(
                world,
                world.update_leases_bonus(origin, lease_start, lease_end, bonus_config),
            );
        },
    }
}

/// For whom a call is made that somebody signed for another account.
spec fn helped<O>(origin: Origin<O>, found: Result<AccountId, CallError>) -> Result<
    AccountId,
    CallError,
> {
    match signer(origin) {
        Err(e) => Err(e),
        Ok(_) => found,
    }
}

/// A call that asks nothing of the runtime.
proof fn setting_restores<T: Config>(
    world: World<T>,
    outcome: (World<T>, Result<(), CallError>),
)
    requires
        transactional::<T>(),
        outcome.0.runtime == (if outcome.1 is Ok {
            world.begun().runtime.spec_commit_transaction()
        } else {
            world.begun().runtime.spec_rollback_transaction()
        }),
        outcome.1 is Err ==> outcome.0.state == world.state,
    ensures
        restores(world, outcome),
{
    settling_restores::<T>(world, (world.begun(), outcome.1));
}

/// Where the runtime takes back what it is told to, a call that fails leaves the
/// pallet and the rest of the chain as they were.
pub proof fn failed_call_leaves_the_chain<T: Config>(
    world: World<T>,
    origin: Origin<T::OtherOrigin>,
    call: Call<T::LookupSource>,
)
    requires
        transactional::<T>(),
        world.dispatch(origin, call).1 is Err,
    ensures
        world.dispatch(origin, call).0 == world,
{
    call_restores::<T>(world, origin, call);
}

/// Where the runtime takes back what it is told to, every call ends the transaction
/// that it began, and no other.
pub proof fn calls_end_their_transaction<T: Config>(
    world: World<T>,
    origin: Origin<T::OtherOrigin>,
    call: Call<T::LookupSource>,
)
    requires
        transactional::<T>(),
    ensures
        world.dispatch(origin, call).0.runtime.spec_saved() == world.runtime.spec_saved(),
{
    call_restores::<T>(world, origin, call);
}

} // verus!
