//! What contributing does.
use vstd::prelude::*;

use crate::config::Config;
use crate::contributions::half_updated;
use crate::effects::plain::{amount_in, bid_key, bids, code_in, message, with_amount};
use crate::state::{child_id, State, World};
use crate::tally::{collision_free, entry_at_most_total};
use crate::types::{
    AccountId, ArithmeticError, ArithmeticKind, Balance, CallError, ChildStorageKind, Contribution,
    ContributionKey, ContributionStrategy, Error, Event, Origin, ParaId, Vault, VaultPhase,
    XcmRequest,
};
use crate::upkeep::in_order;

verus! {

/// The vault of a crowdloan takes a contribution: one that is signed, not zero and not
/// below the least, to a vault that is not open yet or open, not after its end block, not
/// during the draw, and not beyond the cap.
pub open spec fn takes<T: Config>(
    runtime: T,
    state: State,
    crowdloan: ParaId,
    amount: Balance,
) -> bool {
    let v = state.vaults[bid_key(state, crowdloan)];
    &&& bids(state, crowdloan)
    &&& amount > 0
    &&& amount >= T::spec_constants().min_contribution
    &&& runtime.spec_current_block_number() <= v.end_block
    &&& v.phase == VaultPhase::Pending || v.phase == VaultPhase::Contributing
    &&& !state.is_vrf
    &&& v.contributed + v.flying + v.pending + amount <= v.cap
}

/// A contribution that succeeds was taken, its assets went from the contributor to the
/// account that collects them, and it is recorded under the contributor with its referral
/// code. To a vault that is not open yet it is held back. To an open one it is on its way:
/// the message of the vault's own strategy was sent, and the message that is awaited under
/// the number that the runtime gave names the contributor, the crowdloan, the lease, the
/// amount and the referral code, whichever way it went. Nothing else changes.
pub proof fn contributing<T: Config>(
    world: World<T>,
    origin: Origin<T::OtherOrigin>,
    crowdloan: ParaId,
    amount: Balance,
    referral_code: Seq<u8>,
)
    requires
        in_order::<T>(world.state),
        world.contribute(origin, crowdloan, amount, referral_code).1 is Ok,
    ensures
        origin is Signed,
        ({
            let who = origin->Signed_0;
            let r = world.runtime.spec_start_transaction();
            let s = world.state;
            let after = world.contribute(origin, crowdloan, amount, referral_code).0;
            let key = bid_key(s, crowdloan);
            let id = (key.1, key.2);
            let v = s.vaults[key];
            let (moving, moved) = r.spec_transfer(
                T::spec_constants().relay_currency,
                who,
                World::<T>::account_id(),
                amount,
                false,
            );
            let (sending, sent) = message(
                moving,
                v.contribution_strategy,
                s.proxy_address,
                crowdloan,
                amount,
                who,
            );
            let pending = child_id::<T>(v.trie_index, ChildStorageKind::Pending);
            let flying = child_id::<T>(v.trie_index, ChildStorageKind::Flying);
            &&& takes(r, s, crowdloan, amount)
            &&& moved is Ok
            &&& v.phase == VaultPhase::Pending ==> after.runtime
                == moving.spec_commit_transaction() && after.state == (State {
                contributions: s.contributions.insert(
                    ContributionKey { child: pending, who },
                    Contribution {
                        amount: (amount_in(s.contributions, pending, who) + amount) as Balance,
                        referral_code,
                    },
                ),
                vaults: s.vaults.insert(
                    key,
                    Vault { pending: (v.pending + amount) as Balance, ..v },
                ),
                ..s
            })
            &&& v.phase == VaultPhase::Contributing ==> {
                &&& sent is Ok
                &&& v.contribution_strategy == ContributionStrategy::XCMPROXY
                    ==> s.proxy_address is Some
                &&& after.runtime == sending.spec_commit_transaction()
                &&& after.state == (State {
                    contributions: s.contributions.insert(
                        ContributionKey { child: flying, who },
                        Contribution {
                            amount: (amount_in(s.contributions, flying, who) + amount) as Balance,
                            referral_code,
                        },
                    ),
                    vaults: s.vaults.insert(
                        key,
                        Vault { flying: (v.flying + amount) as Balance, ..v },
                    ),
                    xcm_requests: s.xcm_requests.insert(
                        sent->Ok_0,
                        XcmRequest::Contribute {
                            crowdloan,
                            vault_id: id,
                            who,
                            amount,
                            referral_code,
                        },
                    ),
                    events: s.events.push(
                        Event::VaultDoContributing(crowdloan, id, who, amount, referral_code),
                    ),
                    ..s
                })
            }
        }),
{
    if bids(world.state, crowdloan) {
        assert(world.state.vaults.contains_key(bid_key(world.state, crowdloan)));
    }
}

/// A contribution that is taken succeeds, unless child tries collide, where the assets can
/// be moved and, to an open vault, the message can be sent, for which a vault of the proxy
/// strategy needs a proxy address. Where one of these fails the call says which.
pub proof fn contributing_succeeds<T: Config>(
    world: World<T>,
    who: AccountId,
    crowdloan: ParaId,
    amount: Balance,
    referral_code: Seq<u8>,
)
    requires
        in_order::<T>(world.state),
        collision_free::<T>(),
        takes(world.runtime.spec_start_transaction(), world.state, crowdloan, amount),
    ensures
        ({
            let s = world.state;
            let v = s.vaults[bid_key(s, crowdloan)];
            let (moving, moved) = world.runtime.spec_start_transaction().spec_transfer(
                T::spec_constants().relay_currency,
                who,
                World::<T>::account_id(),
                amount,
                false,
            );
            let open = v.phase == VaultPhase::Contributing;
            let sent = message(
                moving,
                v.contribution_strategy,
                s.proxy_address,
                crowdloan,
                amount,
                who,
            ).1;
            world.contribute(Origin::Signed(who), crowdloan, amount, referral_code).1 == (
            if moved is Err {
                Err(CallError::Service(moved->Err_0))
            } else if open && v.contribution_strategy == ContributionStrategy::XCMPROXY
                && s.proxy_address is None {
                Err(CallError::Module(Error::EmptyProxyAddress))
            } else if open && sent is Err {
                Err(CallError::Service(sent->Err_0))
            } else {
                Ok::<(), CallError>(())
            })
        }),
{
    let s = world.state;
    let key = bid_key(s, crowdloan);
    let v = s.vaults[key];
    assert(s.vaults.contains_key(key));
    assert(s.vault_agrees::<T>(v));
    let pending = child_id::<T>(v.trie_index, ChildStorageKind::Pending);
    let flying = child_id::<T>(v.trie_index, ChildStorageKind::Flying);
    if s.contributions.contains_key(ContributionKey { child: pending, who }) {
        entry_at_most_total(s.contributions, ContributionKey { child: pending, who });
    }
    if s.contributions.contains_key(ContributionKey { child: flying, who }) {
        entry_at_most_total(s.contributions, ContributionKey { child: flying, who });
    }
}

/// A contribution that is not taken is refused, with the first reason that applies: it is
/// not signed, there is no vault, it is zero, the end block is past, the vault is in
/// another phase, it is below the least, the end of the auction is drawn, the sum of all
/// contributions cannot be counted, or it goes beyond the cap.
pub proof fn contributions_refused<T: Config>(
    world: World<T>,
    origin: Origin<T::OtherOrigin>,
    crowdloan: ParaId,
    amount: Balance,
    referral_code: Seq<u8>,
)
    requires
        !(origin is Signed) || !takes(
            world.runtime.spec_start_transaction(),
            world.state,
            crowdloan,
            amount,
        ),
    ensures
        ({
            let r = world.runtime.spec_start_transaction();
            let s = world.state;
            let v = s.vaults[bid_key(s, crowdloan)];
            let sum = v.contributed + v.flying + v.pending + amount;
            let (after, result) = world.contribute(origin, crowdloan, amount, referral_code);
            &&& after.state == s
            &&& result == Err::<(), CallError>(
                if !(origin is Signed) {
                    CallError::BadOrigin
                } else if !bids(s, crowdloan) {
                    CallError::Module(Error::VaultDoesNotExist)
                } else if amount == 0 {
                    CallError::Module(Error::InvalidParams)
                } else if r.spec_current_block_number() > v.end_block {
                    CallError::Module(Error::EndBlockExceeded)
                } else if v.phase != VaultPhase::Contributing && v.phase != VaultPhase::Pending {
                    CallError::Module(Error::IncorrectVaultPhase)
                } else if amount < T::spec_constants().min_contribution {
                    CallError::Module(Error::InsufficientContribution)
                } else if s.is_vrf {
                    CallError::Module(Error::VrfDelayInProgress)
                } else if sum > u128::MAX {
                    CallError::Arithmetic(ArithmeticError::Overflow)
                } else {
                    CallError::Module(Error::CapExceeded)
                },
            )
        }),
{
}

/// The sum of all contributions to a vault is the sum of its three sums.
pub proof fn three_sums_make_the_total(vault: Vault)
    ensures
        vault.grand_total() == vault.pending + vault.flying + vault.contributed,
        vault.sum_of(ChildStorageKind::Pending) == vault.pending,
        vault.sum_of(ChildStorageKind::Flying) == vault.flying,
        vault.sum_of(ChildStorageKind::Contributed) == vault.contributed,
{
}

/// An amount that cannot be added to or taken from what an account has leaves the state as
/// it is, and of the vault only the sum may have moved by it, where that can be counted. One
/// that cannot move from one kind to another may have left the first, and is then missing
/// from what the account has of it and from the vault's sum of it.
pub proof fn failed_changes<T: Config>(
    state: State,
    who: AccountId,
    vault: Vault,
    amount: Balance,
    arithmetic: ArithmeticKind,
)
    ensures
        ({
            let sum = if arithmetic is Addition {
                vault.flying + amount
            } else {
                vault.flying - amount
            };
            let pending = child_id::<T>(vault.trie_index, ChildStorageKind::Pending);
            let held = amount_in(state.contributions, pending, who);
            let (left, less) = state.half_migrated::<T>(
                who,
                vault,
                amount,
                ChildStorageKind::Pending,
                ChildStorageKind::Flying,
            );
            &&& half_updated(vault, amount, arithmetic, ChildStorageKind::Flying) == (if 0 <= sum
                <= u128::MAX {
                Vault { flying: sum as Balance, ..vault }
            } else {
                vault
            })
            &&& vault.pending < amount ==> left == state && less == vault
            &&& vault.pending >= amount ==> less.pending == vault.pending - amount
            &&& vault.pending >= amount && held < amount ==> left == state
            &&& vault.pending >= amount && held >= amount ==> {
                &&& left.contributions == with_amount(
                    state.contributions,
                    pending,
                    who,
                    held - amount,
                    code_in(state.contributions, pending, who),
                )
                &&& left == (State { contributions: left.contributions, ..state })
                &&& less.flying == if vault.flying + amount <= u128::MAX {
                    vault.flying + amount
                } else {
                    vault.flying as int
                }
            }
            &&& less == (Vault { pending: less.pending, flying: less.flying, ..vault })
        }),
{
}

} // verus!
