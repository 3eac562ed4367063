//! What the reports of the relay chain do.
use staging_xcm::v3::prelude::XcmError;
use staging_xcm::v3::{Junctions, MultiLocation};
use vstd::prelude::*;

use crate::config::Config;
use crate::effects::funding::contributing;
use crate::effects::plain::{amount_in, bid_key, bids, blank_report, code_in, with_amount};
use crate::state::{child_id, State, World};
use crate::tally::{collision_free, entry_at_most_total};
use crate::types::{
    AccountId, ArithmeticError, Balance, CallError, ChildStorageKind, ContributionKey,
    ContributionStrategy, Error, Event, Origin, ParaId, QueryId, RequiredOrigin, Response, Vault,
    VaultId, VaultPhase, XcmRequest,
};
use crate::upkeep::in_order;

verus! {

/// Where a report comes from: from the place that answered, or from here where somebody
/// made it who may update vaults.
pub open spec fn source<T: Config>(runtime: T, origin: Origin<T::OtherOrigin>) -> Option<
    MultiLocation,
> {
    match origin {
        Origin::Response(location) => Some(location),
        _ => if runtime.spec_ensure_origin(RequiredOrigin::UpdateOrigin, origin) {
            Some(MultiLocation { parents: 0, interior: Junctions::Here })
        } else {
            None
        },
    }
}

/// A report that comes from elsewhere is turned away. One that is not on how a message was
/// executed does nothing. One on a message that is not awaited is recorded, and so is one
/// that contributions could not be given back; the message stays awaited.
pub proof fn reports_that_change_nothing<T: Config>(
    world: World<T>,
    origin: Origin<T::OtherOrigin>,
    query_id: QueryId,
    response: Response,
)
    ensures
        ({
            let r = world.runtime.spec_start_transaction();
            let s = world.state;
            let place = source(r, origin);
            let (after, result) = world.notification_received(origin, query_id, response);
            let stays = !s.xcm_requests.contains_key(query_id)
                || s.xcm_requests[query_id] is Withdraw && response->ExecutionResult_0 is Some;
            &&& place is None ==> result == Err::<(), CallError>(CallError::BadOrigin)
                && after.state == s
            &&& place is Some && !(response is ExecutionResult) ==> {
                &&& result is Ok
                &&& after.state == s
                &&& after.runtime == r.spec_commit_transaction()
            }
            &&& place is Some && response is ExecutionResult && stays ==> {
                &&& result is Ok
                &&& after.runtime == r.spec_commit_transaction()
                &&& after.state == (State {
                    events: s.events.push(
                        Event::NotificationReceived(
                            Box::new(place->0),
                            query_id,
                            response->ExecutionResult_0,
                        ),
                    ),
                    ..s
                })
            }
        }),
{
}

/// A report that contributions were given back leads the vault to the phase that was meant
/// for it, whatever phase it is in, and the message is no longer awaited. It is refused
/// where the vault is gone. Nothing else changes.
pub proof fn report_of_a_withdrawal<T: Config>(
    world: World<T>,
    origin: Origin<T::OtherOrigin>,
    query_id: QueryId,
    crowdloan: ParaId,
    vault_id: VaultId,
    amount: Balance,
    target_phase: VaultPhase,
)
    requires
        source(world.runtime.spec_start_transaction(), origin) is Some,
        world.state.xcm_requests.contains_key(query_id),
        world.state.xcm_requests[query_id] == (XcmRequest::<Seq<u8>>::Withdraw {
            crowdloan,
            vault_id,
            amount,
            target_phase,
        }),
    ensures
        ({
            let r = world.runtime.spec_start_transaction();
            let s = world.state;
            let key = (crowdloan, vault_id.0, vault_id.1);
            let v = s.vaults[key];
            let (after, result) = world.notification_received(
                origin,
                query_id,
                Response::ExecutionResult(None),
            );
            &&& result == (if s.vaults.contains_key(key) {
                Ok(())
            } else {
                Err(CallError::Module(Error::VaultDoesNotExist))
            })
            &&& result is Err ==> after.state == s
            &&& result is Ok ==> after.runtime == r.spec_commit_transaction() && after.state == (
            State {
                vaults: s.vaults.insert(key, Vault { phase: target_phase, ..v }),
                xcm_requests: s.xcm_requests.remove(query_id),
                events: s.events.push(
                    Event::VaultPhaseUpdated(crowdloan, vault_id, v.phase, target_phase),
                ).push(
                    Event::NotificationReceived(
                        Box::new(source(r, origin)->0),
                        query_id,
                        None,
                    ),
                ),
                ..s
            })
        }),
{
}

/// A report that a contribution was taken: as much as was contributed is destroyed in the
/// account that collects contributions, moves from what the contributor has on its way to
/// what it has confirmed, with the referral code that it has on its way, and from the one
/// sum of the vault to the other, in whatever phase the vault is. The message is no longer
/// awaited. It fails where the vault is gone, the assets cannot be destroyed, there is not
/// as much on its way, or more confirmed than can be counted.
pub proof fn report_of_a_taken_contribution<T: Config>(
    world: World<T>,
    origin: Origin<T::OtherOrigin>,
    query_id: QueryId,
    crowdloan: ParaId,
    vault_id: VaultId,
    who: AccountId,
    amount: Balance,
    referral_code: Seq<u8>,
)
    requires
        collision_free::<T>(),
        source(world.runtime.spec_start_transaction(), origin) is Some,
        world.state.xcm_requests.contains_key(query_id),
        world.state.xcm_requests[query_id] == (XcmRequest::Contribute {
            crowdloan,
            vault_id,
            who,
            amount,
            referral_code,
        }),
    ensures
        ({
            let r = world.runtime.spec_start_transaction();
            let s = world.state;
            let key = (crowdloan, vault_id.0, vault_id.1);
            let v = s.vaults[key];
            let flying = child_id::<T>(v.trie_index, ChildStorageKind::Flying);
            let contributed = child_id::<T>(v.trie_index, ChildStorageKind::Contributed);
            let on_its_way = amount_in(s.contributions, flying, who);
            let confirmed = amount_in(s.contributions, contributed, who);
            let code = code_in(s.contributions, flying, who);
            let (burning, burnt) = r.spec_burn_from(
                T::spec_constants().relay_currency,
                World::<T>::account_id(),
                amount,
            );
            let (after, result) = world.notification_received(
                origin,
                query_id,
                Response::ExecutionResult(None),
            );
            &&& result == (if !s.vaults.contains_key(key) {
                Err(CallError::Module(Error::VaultDoesNotExist))
            } else if burnt is Err {
                Err(CallError::Service(burnt->Err_0))
            } else if v.flying < amount || on_its_way < amount {
                Err(CallError::Arithmetic(ArithmeticError::Underflow))
            } else if v.contributed + amount > u128::MAX || confirmed + amount > u128::MAX {
                Err(CallError::Arithmetic(ArithmeticError::Overflow))
            } else {
                Ok::<(), CallError>(())
            })
            &&& result is Err ==> after.state == s
            &&& result is Ok ==> after.runtime == burning.spec_commit_transaction()
                && after.state == (State {
                contributions: with_amount(
                    with_amount(s.contributions, flying, who, on_its_way - amount, code),
                    contributed,
                    who,
                    confirmed + amount,
                    code,
                ),
                vaults: s.vaults.insert(
                    key,
                    Vault {
                        flying: (v.flying - amount) as Balance,
                        contributed: (v.contributed + amount) as Balance,
                        ..v
                    },
                ),
                xcm_requests: s.xcm_requests.remove(query_id),
                events: s.events.push(
                    Event::VaultContributed(crowdloan, vault_id, who, amount, referral_code),
                ).push(
                    Event::NotificationReceived(
                        Box::new(source(r, origin)->0),
                        query_id,
                        None,
                    ),
                ),
                ..s
            })
        }),
{
    let v = world.state.vaults[(crowdloan, vault_id.0, vault_id.1)];
    assert(child_id::<T>(v.trie_index, ChildStorageKind::Flying) != child_id::<T>(
        v.trie_index,
        ChildStorageKind::Contributed,
    ));
}

/// A report that a contribution was not taken pays it back, in whatever phase the vault
/// is: exactly its amount of the relay chain's currency goes from the account that
/// collects contributions to the contributor, and as much leaves what the contributor has
/// on its way and the vault's sum of that. The message stays awaited. It fails where the
/// vault is gone, the assets cannot be moved, or there is not as much on its way.
pub proof fn report_of_a_rejected_contribution<T: Config>(
    world: World<T>,
    origin: Origin<T::OtherOrigin>,
    query_id: QueryId,
    error: (u32, XcmError),
    crowdloan: ParaId,
    vault_id: VaultId,
    who: AccountId,
    amount: Balance,
    referral_code: Seq<u8>,
)
    requires
        source(world.runtime.spec_start_transaction(), origin) is Some,
        world.state.xcm_requests.contains_key(query_id),
        world.state.xcm_requests[query_id] == (XcmRequest::Contribute {
            crowdloan,
            vault_id,
            who,
            amount,
            referral_code,
        }),
    ensures
        ({
            let r = world.runtime.spec_start_transaction();
            let s = world.state;
            let key = (crowdloan, vault_id.0, vault_id.1);
            let v = s.vaults[key];
            let flying = child_id::<T>(v.trie_index, ChildStorageKind::Flying);
            let on_its_way = amount_in(s.contributions, flying, who);
            let code = code_in(s.contributions, flying, who);
            let (moving, moved) = r.spec_transfer(
                T::spec_constants().relay_currency,
                World::<T>::account_id(),
                who,
                amount,
                false,
            );
            let (after, result) = world.notification_received(
                origin,
                query_id,
                Response::ExecutionResult(Some(error)),
            );
            &&& result == (if !s.vaults.contains_key(key) {
                Err(CallError::Module(Error::VaultDoesNotExist))
            } else if moved is Err {
                Err(CallError::Service(moved->Err_0))
            } else if v.flying < amount || on_its_way < amount {
                Err(CallError::Arithmetic(ArithmeticError::Underflow))
            } else {
                Ok::<(), CallError>(())
            })
            &&& result is Err ==> after.state == s
            &&& result is Ok ==> moved is Ok && after.runtime == moving.spec_commit_transaction()
                && after.state == (State {
                contributions: with_amount(
                    s.contributions,
                    flying,
                    who,
                    on_its_way - amount,
                    code,
                ),
                vaults: s.vaults.insert(
                    key,
                    Vault { flying: (v.flying - amount) as Balance, ..v },
                ),
                events: s.events.push(
                    Event::NotificationReceived(
                        Box::new(source(r, origin)->0),
                        query_id,
                        Some(error),
                    ),
                ),
                ..s
            })
        }),
{
}

/// The number that the runtime gives the message of a contribution to an open vault, sent
/// in the contributor's name or through the proxy account, once the assets were moved.
pub open spec fn number_given<T: Config>(
    world: World<T>,
    who: AccountId,
    crowdloan: ParaId,
    amount: Balance,
) -> QueryId {
    let moving = world.runtime.spec_start_transaction().spec_transfer(
        T::spec_constants().relay_currency,
        who,
        World::<T>::account_id(),
        amount,
        false,
    ).0;
    let v = world.state.vaults[bid_key(world.state, crowdloan)];
    (match v.contribution_strategy {
        ContributionStrategy::XCM => moving.spec_xcm_contribute(
            crowdloan,
            amount,
            who,
            blank_report(),
        ),
        ContributionStrategy::XCMPROXY => moving.spec_xcm_proxy_contribute(
            crowdloan,
            amount,
            world.state.proxy_address->0,
            blank_report(),
        ),
    }).1->Ok_0
}

/// A contribution to an open vault is awaited under the number that the runtime gave its
/// message, by either strategy, in the contributor's name. A report under that number that
/// it was taken succeeds where the assets can be destroyed and as much can be counted. Then
/// the contributor has as much more confirmed, under the referral code of the contribution,
/// and as much on its way as before, the vault counts as much more as confirmed, and the
/// message is no longer awaited.
pub proof fn contributions_are_confirmed<T: Config>(
    world: World<T>,
    contributor: AccountId,
    crowdloan: ParaId,
    amount: Balance,
    referral_code: Seq<u8>,
    reporter: Origin<T::OtherOrigin>,
)
    requires
        in_order::<T>(world.state),
        collision_free::<T>(),
        bids(world.state, crowdloan),
        world.state.vaults[bid_key(world.state, crowdloan)].phase == VaultPhase::Contributing,
        world.contribute(Origin::Signed(contributor), crowdloan, amount, referral_code).1 is Ok,
    ensures
        ({
            let s = world.state;
            let key = bid_key(s, crowdloan);
            let v = s.vaults[key];
            let number = number_given(world, contributor, crowdloan, amount);
            let sent = world.contribute(
                Origin::Signed(contributor),
                crowdloan,
                amount,
                referral_code,
            ).0;
            let r = sent.runtime.spec_start_transaction();
            let (burning, burnt) = r.spec_burn_from(
                T::spec_constants().relay_currency,
                World::<T>::account_id(),
                amount,
            );
            let (after, result) = sent.notification_received(
                reporter,
                number,
                Response::ExecutionResult(None),
            );
            let flying = child_id::<T>(v.trie_index, ChildStorageKind::Flying);
            let contributed = child_id::<T>(v.trie_index, ChildStorageKind::Contributed);
            let m = s.contributions;
            let n = after.state.contributions;
            &&& sent.state.xcm_requests.contains_key(number)
            &&& sent.state.xcm_requests[number] == (XcmRequest::Contribute {
                crowdloan,
                vault_id: (key.1, key.2),
                who: contributor,
                amount,
                referral_code,
            })
            &&& result is Ok <==> source(r, reporter) is Some && burnt is Ok && v.contributed
                + amount <= u128::MAX
            &&& result is Ok ==> {
                &&& after.runtime == burning.spec_commit_transaction()
                &&& after.state.vaults == s.vaults.insert(
                    key,
                    Vault { contributed: (v.contributed + amount) as Balance, ..v },
                )
                &&& amount_in(n, contributed, contributor) == amount_in(
                    m,
                    contributed,
                    contributor,
                ) + amount
                &&& code_in(n, contributed, contributor) == referral_code
                &&& amount_in(n, flying, contributor) == amount_in(m, flying, contributor)
                &&& forall|k: ContributionKey<Seq<u8>>|
                    !(k.who == contributor && (k.child == flying || k.child == contributed)) ==> {
                        &&& #[trigger] n.contains_key(k) <==> m.contains_key(k)
                        &&& n.contains_key(k) ==> n[k] == m[k]
                    }
                &&& after.state.xcm_requests == s.xcm_requests.remove(number)
            }
        }),
{
    let origin = Origin::<T::OtherOrigin>::Signed(contributor);
    contributing::<T>(world, origin, crowdloan, amount, referral_code);
    let s = world.state;
    let key = bid_key(s, crowdloan);
    let v = s.vaults[key];
    let number = number_given(world, contributor, crowdloan, amount);
    let sent = world.contribute(origin, crowdloan, amount, referral_code).0;
    let flying = child_id::<T>(v.trie_index, ChildStorageKind::Flying);
    let contributed = child_id::<T>(v.trie_index, ChildStorageKind::Contributed);
    assert(flying != contributed);
    assert(s.vaults.contains_key(key));
    assert(s.vault_agrees::<T>(v));
    let k = ContributionKey { child: contributed, who: contributor };
    if s.contributions.contains_key(k) {
        entry_at_most_total(s.contributions, k);
    }
    let f = ContributionKey { child: flying, who: contributor };
    if s.contributions.contains_key(f) {
        entry_at_most_total(s.contributions, f);
    }
    if source(sent.runtime.spec_start_transaction(), reporter) is Some {
        report_of_a_taken_contribution::<T>(
            sent,
            reporter,
            number,
            crowdloan,
            (key.1, key.2),
            contributor,
            amount,
            referral_code,
        );
        let after = sent.notification_received(
            reporter,
            number,
            Response::ExecutionResult(None),
        ).0.state;
        assert(s.vaults.insert(key, sent.state.vaults[key]).insert(key, after.vaults[key])
            =~= s.vaults.insert(key, after.vaults[key]));
        assert(s.xcm_requests.insert(number, sent.state.xcm_requests[number]).remove(number)
            =~= s.xcm_requests.remove(number));
    } else {
        reports_that_change_nothing::<T>(
            sent,
            reporter,
            number,
            Response::ExecutionResult(None),
        );
    }
}

/// A report, under the number that the runtime gave its message, that a contribution was
/// not taken pays the contributor back exactly its amount, by either strategy, where the
/// assets can be moved. Then every account has as much in every child trie, and every vault
/// counts as much, as before the contribution.
pub proof fn rejected_contributions_are_paid_back<T: Config>(
    world: World<T>,
    contributor: AccountId,
    crowdloan: ParaId,
    amount: Balance,
    referral_code: Seq<u8>,
    reporter: Origin<T::OtherOrigin>,
    error: (u32, XcmError),
)
    requires
        in_order::<T>(world.state),
        bids(world.state, crowdloan),
        world.state.vaults[bid_key(world.state, crowdloan)].phase == VaultPhase::Contributing,
        world.contribute(Origin::Signed(contributor), crowdloan, amount, referral_code).1 is Ok,
    ensures
        ({
            let s = world.state;
            let number = number_given(world, contributor, crowdloan, amount);
            let sent = world.contribute(
                Origin::Signed(contributor),
                crowdloan,
                amount,
                referral_code,
            ).0;
            let r = sent.runtime.spec_start_transaction();
            let (moving, moved) = r.spec_transfer(
                T::spec_constants().relay_currency,
                World::<T>::account_id(),
                contributor,
                amount,
                false,
            );
            let (after, result) = sent.notification_received(
                reporter,
                number,
                Response::ExecutionResult(Some(error)),
            );
            &&& result is Ok <==> source(r, reporter) is Some && moved is Ok
            &&& result is Ok ==> {
                &&& after.runtime == moving.spec_commit_transaction()
                &&& after.state.vaults == s.vaults
                &&& forall|child: Seq<u8>, who: AccountId| #[trigger]
                    amount_in(after.state.contributions, child, who) == amount_in(
                        s.contributions,
                        child,
                        who,
                    )
            }
        }),
{
    let origin = Origin::<T::OtherOrigin>::Signed(contributor);
    contributing::<T>(world, origin, crowdloan, amount, referral_code);
    let s = world.state;
    let key = bid_key(s, crowdloan);
    let v = s.vaults[key];
    let number = number_given(world, contributor, crowdloan, amount);
    let sent = world.contribute(origin, crowdloan, amount, referral_code).0;
    assert(s.vaults.contains_key(key));
    if source(sent.runtime.spec_start_transaction(), reporter) is Some {
        report_of_a_rejected_contribution::<T>(
            sent,
            reporter,
            number,
            error,
            crowdloan,
            (key.1, key.2),
            contributor,
            amount,
            referral_code,
        );
        let after = sent.notification_received(
            reporter,
            number,
            Response::ExecutionResult(Some(error)),
        ).0.state;
        assert(s.vaults.insert(key, sent.state.vaults[key]).insert(key, v) =~= s.vaults);
    } else {
        reports_that_change_nothing::<T>(
            sent,
            reporter,
            number,
            Response::ExecutionResult(Some(error)),
        );
    }
}

} // verus!
