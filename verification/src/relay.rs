//! What is exchanged with the relay chain.
use staging_xcm::v3::prelude::XcmError;
use staging_xcm::v3::{Junctions, MultiLocation};
use vstd::prelude::*;

use crate::bytes::bytes_copy;
use crate::config::Config;
use crate::pallet::{refuse, Pallet};
use crate::state::{child_id, State, World};
use crate::types::{
    AccountId, ArithmeticKind, Balance, CallError, CallResult, ChildStorageKind,
    ContributionStrategy, Error, Event, NotificationCall, Origin, ParaId, QueryId, RequiredOrigin,
    Response, Vault, VaultId, VaultPhase, XcmRequest,
};

verus! {

/// The call with which the relay chain is to report back, before the query it
/// answers and its answer are filled in.
pub open spec fn placeholder() -> NotificationCall {
    NotificationCall { query_id: 0, response: Response::Null }
}

/// The location of this chain.
pub open spec fn here() -> MultiLocation {
    MultiLocation { parents: 0, interior: Junctions::Here }
}

impl<T: Config> World<T> {
    /// A contribution is sent to the relay chain: on the contributor's behalf or
    /// through the proxy account, as the strategy says. It is kept until the relay
    /// chain reports back.
    pub open spec fn do_contribute(
        self,
        who: AccountId,
        crowdloan: ParaId,
        vault_id: VaultId,
        contribution_strategy: ContributionStrategy,
        amount: Balance,
        referral_code: Seq<u8>,
    ) -> (World<T>, Result<(), CallError>) {
        if contribution_strategy is XCMPROXY && self.state.proxy_address is None {
            self.refused(Error::EmptyProxyAddress)
        } else {
            let (runtime, sent) = match contribution_strategy {
                ContributionStrategy::XCM => {
                    self.runtime.spec_xcm_contribute(crowdloan, amount, who, placeholder())
                },
                ContributionStrategy::XCMPROXY => self.runtime.spec_xcm_proxy_contribute(
                    crowdloan,
                    amount,
                    self.state.proxy_address->0,
                    placeholder(),
                ),
            };
            match sent {
                Err(e) => (self.with_runtime(runtime), Err(CallError::Service(e))),
                Ok(query_id) => (
                    World {
                        runtime,
                        state: self.state.with_request(
                            query_id,
                            XcmRequest::Contribute {
                                crowdloan,
                                vault_id,
                                who,
                                amount,
                                referral_code,
                            },
                        ).emit(
                            Event::VaultDoContributing(
                                crowdloan,
                                vault_id,
                                who,
                                amount,
                                referral_code,
                            ),
                        ),
                    },
                    Ok(()),
                ),
            }
        }
    }

    /// The relay chain is asked to give back what the parachain contributed. Once
    /// it reports that it did, the vault enters `target_phase`.
    pub open spec fn do_withdraw(
        self,
        crowdloan: ParaId,
        vault_id: VaultId,
        amount: Balance,
        target_phase: VaultPhase,
    ) -> (World<T>, Result<(), CallError>) {
        let (runtime, sent) = self.runtime.spec_xcm_withdraw(
            crowdloan,
            World::<T>::para_account_id(),
            placeholder(),
        );
        match sent {
            Err(e) => (self.with_runtime(runtime), Err(CallError::Service(e))),
            Ok(query_id) => (
                World {
                    runtime,
                    state: self.state.with_request(
                        query_id,
                        XcmRequest::Withdraw { crowdloan, vault_id, amount, target_phase },
                    ).emit(Event::VaultDoWithdrawing(crowdloan, vault_id, amount, target_phase)),
                },
                Ok(()),
            ),
        }
    }

    /// The relay chain reports that it took a contribution: the assets leave the
    /// account that collected them, and the contribution counts as confirmed.
    pub open spec fn contribution_confirmed(
        self,
        crowdloan: ParaId,
        vault_id: VaultId,
        who: AccountId,
        amount: Balance,
        referral_code: Seq<u8>,
    ) -> (World<T>, Result<(), CallError>) {
        let key = (crowdloan, vault_id.0, vault_id.1);
        match self.state.vault(key) {
            None => self.refused(Error::VaultDoesNotExist),
            Some(vault) => {
                let (runtime, burnt) = self.runtime.spec_burn_from(
                    T::spec_constants().relay_currency,
                    World::<T>::account_id(),
                    amount,
                );
                let burning = self.with_runtime(runtime);
                match burnt {
                    Err(e) => (burning, Err(CallError::Service(e))),
                    Ok(_) => match self.state.migrate_contribution::<T>(
                        who,
                        vault,
                        amount,
                        ChildStorageKind::Flying,
                        ChildStorageKind::Contributed,
                    ) {
                        Err(e) => (
                            burning.with_state(
                                self.state.half_migrated::<T>(
                                    who,
                                    vault,
                                    amount,
                                    ChildStorageKind::Flying,
                                    ChildStorageKind::Contributed,
                                ).0,
                            ),
                            Err(CallError::Arithmetic(e)),
                        ),
                        Ok((state, changed)) => (
                            burning.with_state(
                                state.with_vault(key, changed).emit(
                                    Event::VaultContributed(
                                        crowdloan,
                                        vault_id,
                                        who,
                                        amount,
                                        referral_code,
                                    ),
                                ),
                            ),
                            Ok(()),
                        ),
                    },
                }
            },
        }
    }

    /// The relay chain reports that it did not take a contribution: the assets go
    /// back to the contributor, and the contribution is forgotten.
    pub open spec fn contribution_rejected(
        self,
        crowdloan: ParaId,
        vault_id: VaultId,
        who: AccountId,
        amount: Balance,
    ) -> (World<T>, Result<(), CallError>) {
        let key = (crowdloan, vault_id.0, vault_id.1);
        match self.state.vault(key) {
            None => self.refused(Error::VaultDoesNotExist),
            Some(vault) => {
                let (runtime, moved) = self.runtime.spec_transfer(
                    T::spec_constants().relay_currency,
                    World::<T>::account_id(),
                    who,
                    amount,
                    false,
                );
                let moving = self.with_runtime(runtime);
                match moved {
                    Err(e) => (moving, Err(CallError::Service(e))),
                    Ok(_) => match self.state.update_contribution(
                        child_id::<T>(vault.trie_index, ChildStorageKind::Flying),
                        who,
                        vault,
                        amount,
                        None,
                        ArithmeticKind::Subtraction,
                        ChildStorageKind::Flying,
                    ) {
                        Err(e) => (moving, Err(CallError::Arithmetic(e))),
                        Ok((state, changed, _)) => (
                            moving.with_state(state.with_vault(key, changed)),
                            Ok(()),
                        ),
                    },
                }
            },
        }
    }

    /// The relay chain reports that it gave back what the parachain contributed.
    pub open spec fn withdrawal_confirmed(
        self,
        crowdloan: ParaId,
        vault_id: VaultId,
        target_phase: VaultPhase,
    ) -> (World<T>, Result<(), CallError>) {
        let key = (crowdloan, vault_id.0, vault_id.1);
        match self.state.vault(key) {
            None => self.refused(Error::VaultDoesNotExist),
            Some(vault) => (
                self.with_state(
                    self.state.with_vault(
                        key,
                        Vault { phase: target_phase, ..vault },
                    ).emit(
                        Event::VaultPhaseUpdated(crowdloan, vault_id, vault.phase, target_phase),
                    ),
                ),
                Ok(()),
            ),
        }
    }

    /// The relay chain reports how a message was executed. A message that was
    /// executed is not awaited any more; one that failed is kept.
    pub open spec fn do_notification_received(
        self,
        query_id: QueryId,
        request: XcmRequest<Seq<u8>>,
        res: Option<(u32, XcmError)>,
    ) -> (World<T>, Result<(), CallError>) {
        let executed = res is None;
        let (world, result) = match request {
            XcmRequest::Contribute { crowdloan, vault_id, who, amount, referral_code } => {
                if executed {
                    self.contribution_confirmed(crowdloan, vault_id, who, amount, referral_code)
                } else {
                    self.contribution_rejected(crowdloan, vault_id, who, amount)
                }
            },
            XcmRequest::Withdraw { crowdloan, vault_id, amount: _, target_phase } => {
                if executed {
                    self.withdrawal_confirmed(crowdloan, vault_id, target_phase)
                } else {
                    (self, Ok(()))
                }
            },
        };
        if result is Ok && executed {
            (
                world.with_state(
                    State { xcm_requests: world.state.xcm_requests.remove(query_id), ..world.state },
                ),
                result,
            )
        } else {
            (world, result)
        }
    }

    /// Who a notification comes from: another chain, or somebody who may update
    /// vaults.
    pub open spec fn responder(self, origin: Origin<T::OtherOrigin>) -> Result<
        MultiLocation,
        CallError,
    > {
        match origin {
            Origin::Response(location) => Ok(location),
            _ => if self.runtime.spec_ensure_origin(RequiredOrigin::UpdateOrigin, origin) {
                Ok(here())
            } else {
                Err(CallError::BadOrigin)
            },
        }
    }

    /// What a notification does.
    pub open spec fn notified(
        self,
        origin: Origin<T::OtherOrigin>,
        query_id: QueryId,
        response: Response,
    ) -> (World<T>, Result<(), CallError>) {
        match self.responder(origin) {
            Err(e) => (self, Err(e)),
            Ok(responder) => match response {
                Response::ExecutionResult(res) => {
                    let (world, result) = if self.state.xcm_requests.contains_key(query_id) {
                        self.do_notification_received(
                            query_id,
                            self.state.xcm_requests[query_id],
                            res,
                        )
                    } else {
                        (self, Ok(()))
                    };
                    match result {
                        Err(e) => (world, Err(e)),
                        Ok(_) => (
                            world.with_state(
                                world.state.emit(
                                    Event::NotificationReceived(Box::new(responder), query_id, res),
                                ),
                            ),
                            Ok(()),
                        ),
                    }
                },
                _ => (self, Ok(())),
            },
        }
    }

    /// The call `notification_received`.
    pub open spec fn notification_received(
        self,
        origin: Origin<T::OtherOrigin>,
        query_id: QueryId,
        response: Response,
    ) -> (World<T>, Result<(), CallError>) {
        self.settled(self.begun().notified(origin, query_id, response))
    }
}

/// The call with which the relay chain is to report back.
pub fn notify_placeholder() -> (r: NotificationCall)
    ensures
        r == placeholder(),
{
    NotificationCall { query_id: 0, response: Response::Null }
}

impl<T: Config> Pallet<T> {
    /// Sends a contribution to the relay chain.
    pub fn do_contribute(
        &mut self,
        who: &AccountId,
        crowdloan: ParaId,
        vault_id: VaultId,
        contribution_strategy: ContributionStrategy,
        amount: Balance,
        referral_code: Vec<u8>,
    ) -> (r: CallResult)
        ensures
            (final(self)@, r) == old(self)@.do_contribute(
                *who,
                crowdloan,
                vault_id,
                contribution_strategy,
                amount,
                referral_code@,
            ),
    {
        let sent = match contribution_strategy {
            ContributionStrategy::XCM => {
                self.runtime.xcm_contribute(crowdloan, amount, who, notify_placeholder())
            },
            ContributionStrategy::XCMPROXY => match self.proxy_address() {
                None => {
                    return refuse(Error::EmptyProxyAddress);
                },
                Some(proxy_address) => self.runtime.xcm_proxy_contribute(
                    crowdloan,
                    amount,
                    &proxy_address,
                    notify_placeholder(),
                ),
            },
        };
        let query_id: QueryId = match sent {
            Err(e) => {
                return Err(CallError::Service(e));
            },
            Ok(query_id) => query_id,
        };
        let request = XcmRequest::Contribute {
            crowdloan,
            vault_id,
            who: *who,
            amount,
            referral_code: bytes_copy(&referral_code),
        };
        self.storage.xcm_requests.insert(query_id, request);
        self.deposit_event(
            Event::VaultDoContributing(crowdloan, vault_id, *who, amount, referral_code),
        );
        Ok(())
    }

    /// Asks the relay chain to give back what the parachain contributed.
    pub fn do_withdraw(
        &mut self,
        crowdloan: ParaId,
        vault_id: VaultId,
        amount: Balance,
        target_phase: VaultPhase,
    ) -> (r: CallResult)
        ensures
            (final(self)@, r) == old(self)@.do_withdraw(crowdloan, vault_id, amount, target_phase),
    {
        let sent = self.runtime.xcm_withdraw(
            crowdloan,
            &Self::para_account_id(),
            notify_placeholder(),
        );
        let query_id: QueryId = match sent {
            Err(e) => {
                return Err(CallError::Service(e));
            },
            Ok(query_id) => query_id,
        };
        let request = XcmRequest::Withdraw { crowdloan, vault_id, amount, target_phase };
        self.storage.xcm_requests.insert(query_id, request);
        self.deposit_event(Event::VaultDoWithdrawing(crowdloan, vault_id, amount, target_phase));
        Ok(())
    }

    /// Takes up a report that a contribution was taken.
    fn contribution_confirmed(
        &mut self,
        crowdloan: ParaId,
        vault_id: VaultId,
        who: &AccountId,
        amount: Balance,
        referral_code: Vec<u8>,
    ) -> (r: CallResult)
        ensures
            (final(self)@, r) == old(self)@.contribution_confirmed(
                crowdloan,
                vault_id,
                *who,
                amount,
                referral_code@,
            ),
    {
        let key = (crowdloan, vault_id.0, vault_id.1);
        let mut vault = match self.vaults(key) {
            None => {
                return refuse(Error::VaultDoesNotExist);
            },
            Some(vault) => vault,
        };
        if let Err(e) = self.runtime.burn_from(
            T::constants().relay_currency,
            &Self::account_id(),
            amount,
        ) {
            return Err(CallError::Service(e));
        }
        if let Err(e) = self.do_migrate_contribution(
            who,
            &mut vault,
            amount,
            ChildStorageKind::Flying,
            ChildStorageKind::Contributed,
        ) {
            return Err(CallError::Arithmetic(e));
        }
        self.put_vault(key, vault);
        self.deposit_event(
            Event::VaultContributed(crowdloan, vault_id, *who, amount, referral_code),
        );
        Ok(())
    }

    /// Takes up a report that a contribution was not taken.
    fn contribution_rejected(
        &mut self,
        crowdloan: ParaId,
        vault_id: VaultId,
        who: &AccountId,
        amount: Balance,
    ) -> (r: CallResult)
        ensures
            (final(self)@, r) == old(self)@.contribution_rejected(crowdloan, vault_id, *who, amount),
    {
        let key = (crowdloan, vault_id.0, vault_id.1);
        let mut vault = match self.vaults(key) {
            None => {
                return refuse(Error::VaultDoesNotExist);
            },
            Some(vault) => vault,
        };
        if let Err(e) = self.runtime.transfer(
            T::constants().relay_currency,
            &Self::account_id(),
            who,
            amount,
            false,
        ) {
            return Err(CallError::Service(e));
        }
        if let Err(e) = self.do_update_contribution(
            who,
            &mut vault,
            amount,
            None,
            ArithmeticKind::Subtraction,
            ChildStorageKind::Flying,
        ) {
            return Err(CallError::Arithmetic(e));
        }
        self.put_vault(key, vault);
        Ok(())
    }

    /// Takes up a report that contributions were given back.
    fn withdrawal_confirmed(
        &mut self,
        crowdloan: ParaId,
        vault_id: VaultId,
        target_phase: VaultPhase,
    ) -> (r: CallResult)
        ensures
            (final(self)@, r) == old(self)@.withdrawal_confirmed(crowdloan, vault_id, target_phase),
    {
        let key = (crowdloan, vault_id.0, vault_id.1);
        let mut vault = match self.vaults(key) {
            None => {
                return refuse(Error::VaultDoesNotExist);
            },
            Some(vault) => vault,
        };
        let pre_phase = vault.phase;
        vault.phase = target_phase;
        self.put_vault(key, vault);
        self.deposit_event(Event::VaultPhaseUpdated(crowdloan, vault_id, pre_phase, target_phase));
        Ok(())
    }

    /// Takes up a report on how a message was executed.
    pub fn do_notification_received(
        &mut self,
        query_id: QueryId,
        request: XcmRequest,
        res: Option<(u32, XcmError)>,
    ) -> (r: CallResult)
        ensures
            (final(self)@, r) == old(self)@.do_notification_received(query_id, request@, res),
    {
        let executed = res.is_none();
        match request {
            XcmRequest::Contribute { crowdloan, vault_id, who, amount, referral_code } => {
                if executed {
                    self.contribution_confirmed(crowdloan, vault_id, &who, amount, referral_code)?;
                } else {
                    self.contribution_rejected(crowdloan, vault_id, &who, amount)?;
                }
            },
            XcmRequest::Withdraw { crowdloan, vault_id, amount: _, target_phase } => {
                if executed {
                    self.withdrawal_confirmed(crowdloan, vault_id, target_phase)?;
                }
            },
        }
        if executed {
            self.storage.xcm_requests.remove(&query_id);
        }
        Ok(())
    }

    /// What a notification does, before it is settled.
    fn notified(
        &mut self,
        origin: &Origin<T::OtherOrigin>,
        query_id: QueryId,
        response: Response,
    ) -> (r: CallResult)
        ensures
            (final(self)@, r) == old(self)@.notified(*origin, query_id, response),
    {
        let responder = match origin {
            Origin::Response(location) => *location,
            _ => {
                if self.runtime.ensure_origin(RequiredOrigin::UpdateOrigin, origin) {
                    MultiLocation::here()
                } else {
                    return Err(CallError::BadOrigin);
                }
            },
        };
        if let Response::ExecutionResult(res) = response {
            if let Some(request) = self.xcm_request(query_id) {
                self.do_notification_received(query_id, request, res)?;
            }
            self.deposit_event(Event::NotificationReceived(Box::new(responder), query_id, res));
        }
        Ok(())
    }

    /// The relay chain reports how a message was executed.
    pub fn notification_received(
        &mut self,
        origin: Origin<T::OtherOrigin>,
        query_id: QueryId,
        response: Response,
    ) -> (r: CallResult)
        ensures
            (final(self)@, r) == old(self)@.notification_received(origin, query_id, response),
    {
        let saved = self.begin();
        let result = self.notified(&origin, query_id, response);
        self.settle(saved, result)
    }
}

} // verus!
