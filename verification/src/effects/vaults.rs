//! What the calls do that lead a vault through its life, and the settings.
use vstd::prelude::*;

use crate::config::Config;
use crate::effects::plain::{bid_key, bids, blank_report, is_empty, may};
use crate::state::{child_id, State, World};
use crate::types::{
    AccountId, ArithmeticError, Balance, BlockNumber, BonusConfig, CallError, ChildStorageKind,
    ContributionStrategy, CurrencyId, Error, Event, LeasePeriod, Origin, ParaId, RequiredOrigin,
    TrieIndex, Vault, VaultId, VaultPhase, XcmRequest,
};
use crate::upkeep::in_order;
use crate::vaults::VaultChange;

verus! {

/// A vault is created exactly where the caller may, the cap is not zero, the lease ends
/// after it begins, the derivative is that of this lease and of no other, there is no such
/// vault yet, the crowdloan has none that is not over, the end block is not past and an
/// index is left. It is empty, not open, has the terms given and the next index, the
/// crowdloan bids with it, and the derivative is recorded. Nothing else changes.
pub proof fn creating_a_vault<T: Config>(
    world: World<T>,
    origin: Origin<T::OtherOrigin>,
    crowdloan: ParaId,
    ctoken: CurrencyId,
    lease_start: LeasePeriod,
    lease_end: LeasePeriod,
    contribution_strategy: ContributionStrategy,
    cap: Balance,
    end_block: BlockNumber,
)
    ensures
        ({
            let r = world.runtime.spec_start_transaction();
            let s = world.state;
            let id = (lease_start, lease_end);
            let key = (crowdloan, lease_start, lease_end);
            let (after, result) = world.create_vault(
                origin,
                crowdloan,
                ctoken,
                lease_start,
                lease_end,
                contribution_strategy,
                cap,
                end_block,
            );
            let allowed = may(r, RequiredOrigin::CreateOrigin, origin);
            let foreign = s.ctokens_registry.contains_key(id) && s.ctokens_registry[id] != ctoken
                || exists|other: VaultId| #[trigger]
                s.ctokens_registry.contains_key(other) && other != id && s.ctokens_registry[other]
                    == ctoken;
            let busy = bids(s, crowdloan) && s.vaults[bid_key(s, crowdloan)].phase
                != VaultPhase::Failed && s.vaults[bid_key(s, crowdloan)].phase
                != VaultPhase::Expired;
            let past = r.spec_current_block_number() > end_block;
            &&& result == (if !allowed {
                Err(CallError::BadOrigin)
            } else if cap == 0 {
                Err(CallError::Module(Error::InvalidCap))
            } else if lease_start >= lease_end {
                Err(CallError::Module(Error::LastPeriodBeforeFirstPeriod))
            } else if foreign {
                Err(CallError::Module(Error::InvalidCToken))
            } else if s.vaults.contains_key(key) {
                Err(CallError::Module(Error::VaultAlreadyExists))
            } else if busy {
                Err(CallError::Module(Error::VaultNotEnded))
            } else if past {
                Err(CallError::Module(Error::EndBlockExceeded))
            } else if s.next_trie_index == u32::MAX {
                Err(CallError::Arithmetic(ArithmeticError::Overflow))
            } else {
                Ok::<(), CallError>(())
            })
            &&& result is Err ==> after.state == s
            &&& result is Ok ==> after.runtime == r.spec_commit_transaction() && after.state == (
            State {
                vaults: s.vaults.insert(
                    key,
                    Vault {
                        lease_start,
                        lease_end,
                        ctoken,
                        phase: VaultPhase::Pending,
                        contribution_strategy,
                        cap,
                        end_block,
                        trie_index: s.next_trie_index,
                        contributed: 0,
                        pending: 0,
                        flying: 0,
                    },
                ),
                ctokens_registry: s.ctokens_registry.insert(id, ctoken),
                leases_registry: s.leases_registry.insert(crowdloan, id),
                next_trie_index: (s.next_trie_index + 1) as TrieIndex,
                events: s.events.push(
                    Event::VaultCreated(
                        crowdloan,
                        id,
                        ctoken,
                        VaultPhase::Pending,
                        contribution_strategy,
                        cap,
                        end_block,
                        s.next_trie_index,
                    ),
                ),
                ..s
            })
        }),
{
    let s = world.state;
    let id = (lease_start, lease_end);
    assert(s.is_taken(ctoken, id) <==> exists|other: VaultId| #[trigger]
        s.ctokens_registry.contains_key(other) && other != id && s.ctokens_registry[other]
            == ctoken) by {
        if s.is_taken(ctoken, id) {
            let other = choose|other: VaultId| other != id && #[trigger] s.bears(ctoken, other);
            assert(s.ctokens_registry.contains_key(other));
        }
        if exists|other: VaultId| #[trigger]
            s.ctokens_registry.contains_key(other) && other != id && s.ctokens_registry[other]
                == ctoken {
            let other = choose|other: VaultId| #[trigger]
                s.ctokens_registry.contains_key(other) && other != id
                    && s.ctokens_registry[other] == ctoken;
            assert(s.bears(ctoken, other));
        }
    }
}

/// Updating a vault changes of the vault that the crowdloan bids with exactly the terms
/// that are given, where the caller may, the cap is not zero and the end block is not
/// past. Nothing else changes.
pub proof fn updating_a_vault<T: Config>(
    world: World<T>,
    origin: Origin<T::OtherOrigin>,
    crowdloan: ParaId,
    cap: Option<Balance>,
    end_block: Option<BlockNumber>,
    contribution_strategy: Option<ContributionStrategy>,
)
    requires
        in_order::<T>(world.state),
    ensures
        ({
            let r = world.runtime.spec_start_transaction();
            let s = world.state;
            let key = bid_key(s, crowdloan);
            let v = s.vaults[key];
            let (after, result) = world.update_vault(
                origin,
                crowdloan,
                cap,
                end_block,
                contribution_strategy,
            );
            let new_cap = if cap is Some {
                cap->0
            } else {
                v.cap
            };
            let new_end = if end_block is Some {
                end_block->0
            } else {
                v.end_block
            };
            let new_strategy = if contribution_strategy is Some {
                contribution_strategy->0
            } else {
                v.contribution_strategy
            };
            &&& result == (if !may(r, RequiredOrigin::UpdateOrigin, origin) {
                Err(CallError::BadOrigin)
            } else if !bids(s, crowdloan) {
                Err(CallError::Module(Error::VaultDoesNotExist))
            } else if cap is Some && cap->0 == 0 {
                Err(CallError::Module(Error::InvalidCap))
            } else if end_block is Some && r.spec_current_block_number() > end_block->0 {
                Err(CallError::Module(Error::EndBlockExceeded))
            } else {
                Ok::<(), CallError>(())
            })
            &&& result is Err ==> after.state == s
            &&& result is Ok ==> after.runtime == r.spec_commit_transaction() && after.state == (
            State {
                vaults: s.vaults.insert(
                    key,
                    Vault {
                        cap: new_cap,
                        end_block: new_end,
                        contribution_strategy: new_strategy,
                        ..v
                    },
                ),
                events: s.events.push(
                    Event::VaultUpdated(crowdloan, (key.1, key.2), new_strategy, new_cap, new_end),
                ),
                ..s
            })
        }),
{
    if bids(world.state, crowdloan) {
        assert(world.state.vaults.contains_key(bid_key(world.state, crowdloan)));
    }
}

/// A call leads the vault of a crowdloan from one phase to another: it does where the
/// caller may and the vault is in the one phase, and changes nothing but the phase.
pub open spec fn leads_on<T: Config>(
    world: World<T>,
    required: RequiredOrigin,
    origin: Origin<T::OtherOrigin>,
    crowdloan: ParaId,
    from: VaultPhase,
    to: VaultPhase,
    outcome: (World<T>, Result<(), CallError>),
) -> bool {
    let r = world.runtime.spec_start_transaction();
    let s = world.state;
    let key = bid_key(s, crowdloan);
    let (after, result) = outcome;
    &&& result == (if !may(r, required, origin) {
        Err(CallError::BadOrigin)
    } else if !bids(s, crowdloan) {
        Err(CallError::Module(Error::VaultDoesNotExist))
    } else if s.vaults[key].phase != from {
        Err(CallError::Module(Error::IncorrectVaultPhase))
    } else {
        Ok::<(), CallError>(())
    })
    &&& result is Err ==> after.state == s
    &&& result is Ok ==> after.runtime == r.spec_commit_transaction() && after.state == (State {
        vaults: s.vaults.insert(key, Vault { phase: to, ..s.vaults[key] }),
        events: s.events.push(Event::VaultPhaseUpdated(crowdloan, (key.1, key.2), from, to)),
        ..s
    })
}

/// `open` leads from pending to contributing, `close` from contributing to closed,
/// `reopen` from closed to contributing, `auction_succeeded` from closed to succeeded.
pub proof fn leading_a_vault_on<T: Config>(
    world: World<T>,
    origin: Origin<T::OtherOrigin>,
    crowdloan: ParaId,
)
    requires
        in_order::<T>(world.state),
    ensures
        leads_on(
            world,
            RequiredOrigin::OpenCloseOrigin,
            origin,
            crowdloan,
            VaultPhase::Pending,
            VaultPhase::Contributing,
            world.open_vault(origin, crowdloan),
        ),
        leads_on(
            world,
            RequiredOrigin::OpenCloseOrigin,
            origin,
            crowdloan,
            VaultPhase::Contributing,
            VaultPhase::Closed,
            world.close(origin, crowdloan),
        ),
        leads_on(
            world,
            RequiredOrigin::OpenCloseOrigin,
            origin,
            crowdloan,
            VaultPhase::Closed,
            VaultPhase::Contributing,
            world.reopen(origin, crowdloan),
        ),
        leads_on(
            world,
            RequiredOrigin::AuctionSucceededFailedOrigin,
            origin,
            crowdloan,
            VaultPhase::Closed,
            VaultPhase::Succeeded,
            world.auction_succeeded(origin, crowdloan),
        ),
{
    if bids(world.state, crowdloan) {
        assert(world.state.vaults.contains_key(bid_key(world.state, crowdloan)));
    }
}

/// A call asks the relay chain to give back what the vault of a crowdloan contributed, in
/// the name of the parachain's account: the answer is awaited under the number that the
/// runtime gives, and the vault is as it was. It does so where the caller may, the vault
/// is in a given phase and the message can be sent.
pub open spec fn asks_back<T: Config>(
    world: World<T>,
    required: RequiredOrigin,
    origin: Origin<T::OtherOrigin>,
    crowdloan: ParaId,
    from: VaultPhase,
    to: VaultPhase,
    outcome: (World<T>, Result<(), CallError>),
) -> bool {
    let r = world.runtime.spec_start_transaction();
    let s = world.state;
    let key = bid_key(s, crowdloan);
    let id = (key.1, key.2);
    let v = s.vaults[key];
    let (sending, sent) = r.spec_xcm_withdraw(
        crowdloan,
        World::<T>::para_account_id(),
        blank_report(),
    );
    let (after, result) = outcome;
    &&& result == (if !may(r, required, origin) {
        Err(CallError::BadOrigin)
    } else if !bids(s, crowdloan) {
        Err(CallError::Module(Error::VaultDoesNotExist))
    } else if v.phase != from {
        Err(CallError::Module(Error::IncorrectVaultPhase))
    } else if sent is Err {
        Err(CallError::Service(sent->Err_0))
    } else {
        Ok::<(), CallError>(())
    })
    &&& result is Err ==> after.state == s
    &&& result is Ok ==> after.runtime == sending.spec_commit_transaction() && after.state == (
    State {
        xcm_requests: s.xcm_requests.insert(
            sent->Ok_0,
            XcmRequest::Withdraw {
                crowdloan,
                vault_id: id,
                amount: v.contributed,
                target_phase: to,
            },
        ),
        events: s.events.push(Event::VaultDoWithdrawing(crowdloan, id, v.contributed, to)),
        ..s
    })
}

/// `auction_failed` asks contributions back from a closed vault, which is to fail, and
/// `slot_expired` from one whose auction was won, which is to expire.
pub proof fn asking_contributions_back<T: Config>(
    world: World<T>,
    origin: Origin<T::OtherOrigin>,
    crowdloan: ParaId,
)
    requires
        in_order::<T>(world.state),
    ensures
        asks_back(
            world,
            RequiredOrigin::AuctionSucceededFailedOrigin,
            origin,
            crowdloan,
            VaultPhase::Closed,
            VaultPhase::Failed,
            world.auction_failed(origin, crowdloan),
        ),
        asks_back(
            world,
            RequiredOrigin::SlotExpiredOrigin,
            origin,
            crowdloan,
            VaultPhase::Succeeded,
            VaultPhase::Expired,
            world.slot_expired(origin, crowdloan),
        ),
{
    let s = world.state;
    if bids(s, crowdloan) {
        let key = bid_key(s, crowdloan);
        assert(s.vaults.contains_key(key));
        assert(s.vaults.insert(key, s.vaults[key]) =~= s.vaults);
    }
}

/// What `try_mutate_vault` does to the vault of a crowdloan: in the phase asked for it
/// enters the phase given, or its contributions are asked back; in no other.
pub proof fn changing_a_vault<T: Config>(
    world: World<T>,
    crowdloan: ParaId,
    phase: VaultPhase,
    change: VaultChange,
)
    requires
        in_order::<T>(world.state),
    ensures
        ({
            let s = world.state;
            let key = bid_key(s, crowdloan);
            let id = (key.1, key.2);
            let v = s.vaults[key];
            let (sending, sent) = world.runtime.spec_xcm_withdraw(
                crowdloan,
                World::<T>::para_account_id(),
                blank_report(),
            );
            let (after, result) = world.try_mutate_vault(crowdloan, phase, change);
            &&& result == (if !bids(s, crowdloan) {
                Err(CallError::Module(Error::VaultDoesNotExist))
            } else if v.phase != phase {
                Err(CallError::Module(Error::IncorrectVaultPhase))
            } else if change is Recall && sent is Err {
                Err(CallError::Service(sent->Err_0))
            } else {
                Ok::<(), CallError>(())
            })
            &&& result is Err ==> after.state == s
            &&& result is Ok && change is Enter ==> after.runtime == world.runtime && after.state
                == (State {
                vaults: s.vaults.insert(key, Vault { phase: change->Enter_0, ..v }),
                events: s.events.push(
                    Event::VaultPhaseUpdated(crowdloan, id, phase, change->Enter_0),
                ),
                ..s
            })
            &&& result is Ok && change is Recall ==> after.runtime == sending && after.state == (
            State {
                xcm_requests: s.xcm_requests.insert(
                    sent->Ok_0,
                    XcmRequest::Withdraw {
                        crowdloan,
                        vault_id: id,
                        amount: v.contributed,
                        target_phase: change->Recall_0,
                    },
                ),
                events: s.events.push(
                    Event::VaultDoWithdrawing(crowdloan, id, v.contributed, change->Recall_0),
                ),
                ..s
            })
        }),
{
    let s = world.state;
    if bids(s, crowdloan) {
        let key = bid_key(s, crowdloan);
        assert(s.vaults.contains_key(key));
        assert(s.vaults.insert(key, s.vaults[key]) =~= s.vaults);
    }
}

/// A vault is dissolved exactly where the caller may, it is closed, failed or expired, no
/// account has anything in its three child tries and its three sums are zero. Then it is
/// gone, and the crowdloan bids no more where it bid with it. Nothing else changes.
pub proof fn dissolving_a_vault<T: Config>(
    world: World<T>,
    origin: Origin<T::OtherOrigin>,
    crowdloan: ParaId,
    lease_start: LeasePeriod,
    lease_end: LeasePeriod,
)
    ensures
        ({
            let r = world.runtime.spec_start_transaction();
            let s = world.state;
            let id = (lease_start, lease_end);
            let key = (crowdloan, lease_start, lease_end);
            let v = s.vaults[key];
            let (after, result) = world.dissolve_vault(origin, crowdloan, lease_start, lease_end);
            let over = v.phase == VaultPhase::Closed || v.phase == VaultPhase::Failed || v.phase
                == VaultPhase::Expired;
            let bare = is_empty(
                s.contributions,
                child_id::<T>(v.trie_index, ChildStorageKind::Contributed),
            ) && is_empty(s.contributions, child_id::<T>(v.trie_index, ChildStorageKind::Flying))
                && is_empty(s.contributions, child_id::<T>(v.trie_index, ChildStorageKind::Pending));
            let sum = v.contributed + v.flying + v.pending;
            &&& result == (if !may(r, RequiredOrigin::DissolveOrigin, origin) {
                Err(CallError::BadOrigin)
            } else if !s.vaults.contains_key(key) {
                Err(CallError::Module(Error::VaultDoesNotExist))
            } else if !over {
                Err(CallError::Module(Error::IncorrectVaultPhase))
            } else if !bare {
                Err(CallError::Module(Error::NotReadyToDissolve))
            } else if sum > u128::MAX {
                Err(CallError::Arithmetic(ArithmeticError::Overflow))
            } else if sum != 0 {
                Err(CallError::Module(Error::NotReadyToDissolve))
            } else {
                Ok::<(), CallError>(())
            })
            &&& result is Err ==> after.state == s
            &&& result is Ok ==> after.runtime == r.spec_commit_transaction() && after.state == (
            State {
                vaults: s.vaults.remove(key),
                leases_registry: if s.leases_registry.contains_key(crowdloan)
                    && s.leases_registry[crowdloan] == id {
                    s.leases_registry.remove(crowdloan)
                } else {
                    s.leases_registry
                },
                events: s.events.push(Event::VaultDissolved(crowdloan, id)),
                ..s
            })
        }),
{
}

/// The flag is set, the proxy address is kept, the bonus of a lease is kept, where the
/// caller may. The proxy address asks for its own privilege, which the automation group
/// does not stand in for. A bonus is for a lease that ends after it begins, and has to be
/// acceptable. Nothing else changes.
pub proof fn changing_settings<T: Config>(
    world: World<T>,
    origin: Origin<T::OtherOrigin>,
    flag: bool,
    proxy_address: AccountId,
    lease_start: LeasePeriod,
    lease_end: LeasePeriod,
    bonus_config: BonusConfig,
)
    ensures
        ({
            let r = world.runtime.spec_start_transaction();
            let s = world.state;
            let (after, result) = world.set_vrf(origin, flag);
            &&& result == (if may(r, RequiredOrigin::VrfOrigin, origin) {
                Ok(())
            } else {
                Err(CallError::BadOrigin)
            })
            &&& result is Err ==> after.state == s
            &&& result is Ok ==> after.runtime == r.spec_commit_transaction() && after.state == (
            State { is_vrf: flag, events: s.events.push(Event::VrfUpdated(flag)), ..s })
        }),
        ({
            let r = world.runtime.spec_start_transaction();
            let s = world.state;
            let (after, result) = world.update_proxy(origin, proxy_address);
            &&& result == (if r.spec_ensure_origin(RequiredOrigin::ProxyOrigin, origin) {
                Ok(())
            } else {
                Err(CallError::BadOrigin)
            })
            &&& result is Err ==> after.state == s
            &&& result is Ok ==> after.runtime == r.spec_commit_transaction() && after.state == (
            State {
                proxy_address: Some(proxy_address),
                events: s.events.push(Event::ProxyUpdated(proxy_address)),
                ..s
            })
        }),
        ({
            let r = world.runtime.spec_start_transaction();
            let s = world.state;
            let id = (lease_start, lease_end);
            let (after, result) = world.update_leases_bonus(
                origin,
                lease_start,
                lease_end,
                bonus_config,
            );
            &&& result == (if !may(r, RequiredOrigin::UpdateOrigin, origin) {
                Err(CallError::BadOrigin)
            } else if lease_start >= lease_end {
                Err(CallError::Module(Error::LastPeriodBeforeFirstPeriod))
            } else if !T::spec_check_bonus(bonus_config) {
                Err(CallError::Module(Error::WrongBonusConfig))
            } else {
                Ok::<(), CallError>(())
            })
            &&& result is Err ==> after.state == s
            &&& result is Ok ==> after.runtime == r.spec_commit_transaction() && after.state == (
            State {
                leases_bonus: s.leases_bonus.insert(id, bonus_config),
                events: s.events.push(Event::LeasesBonusUpdated(id, bonus_config)),
                ..s
            })
        }),
{
}

} // verus!
