//! How contributions are accepted and passed on.
use vstd::prelude::*;

use crate::bytes::bytes_copy;
use crate::config::Config;
use crate::pallet::{ensure_signed, refuse, signer, Pallet};
use crate::state::{child_id, World};
use crate::types::{
    AccountId, ArithmeticError, ArithmeticKind, Balance, CallError, CallResult, ChildStorageKind,
    Error, Event, Origin, ParaId, RequiredOrigin, Vault, VaultPhase,
};

verus! {

/// Where a contribution goes: it is sent on at once where the vault is open, and
/// held back where it is not.
pub open spec fn entry_kind(vault: Vault) -> ChildStorageKind {
    if vault.phase == VaultPhase::Contributing {
        ChildStorageKind::Flying
    } else {
        ChildStorageKind::Pending
    }
}

impl<T: Config> World<T> {
    /// Why a vault does not take a contribution.
    pub open spec fn contribution_refusal(self, vault: Vault, amount: Balance) -> Option<
        CallError,
    > {
        if amount == 0 {
            Some(CallError::Module(Error::InvalidParams))
        } else if self.runtime.spec_current_block_number() > vault.end_block {
            Some(CallError::Module(Error::EndBlockExceeded))
        } else if vault.phase != VaultPhase::Contributing && vault.phase != VaultPhase::Pending {
            Some(CallError::Module(Error::IncorrectVaultPhase))
        } else if amount < T::spec_constants().min_contribution {
            Some(CallError::Module(Error::InsufficientContribution))
        } else if self.state.is_vrf {
            Some(CallError::Module(Error::VrfDelayInProgress))
        } else if vault.grand_total() + amount > Balance::MAX {
            Some(CallError::Arithmetic(ArithmeticError::Overflow))
        } else if vault.grand_total() + amount > vault.cap {
            Some(CallError::Module(Error::CapExceeded))
        } else {
            None
        }
    }

    /// What contributing does: the assets go to the account that collects them,
    /// the contribution is recorded, and where the vault is open it is sent on.
    pub open spec fn contributed(
        self,
        origin: Origin<T::OtherOrigin>,
        crowdloan: ParaId,
        amount: Balance,
        referral_code: Seq<u8>,
    ) -> (World<T>, Result<(), CallError>) {
        match signer(origin) {
            Err(e) => (self, Err(e)),
            Ok(who) => match self.state.current_vault(crowdloan) {
                None => self.refused(Error::VaultDoesNotExist),
                Some(vault) => match self.contribution_refusal(vault, amount) {
                    Some(e) => (self, Err(e)),
                    None => {
                        let (runtime, moved) = self.runtime.spec_transfer(
                            T::spec_constants().relay_currency,
                            who,
                            World::<T>::account_id(),
                            amount,
                            false,
                        );
                        match moved {
                            Err(e) => (self.with_runtime(runtime), Err(CallError::Service(e))),
                            Ok(_) => self.with_runtime(runtime).contribution_recorded(
                                who,
                                crowdloan,
                                vault,
                                amount,
                                referral_code,
                            ),
                        }
                    },
                },
            },
        }
    }

    /// What is recorded of a contribution, and sent on.
    pub open spec fn contribution_recorded(
        self,
        who: AccountId,
        crowdloan: ParaId,
        vault: Vault,
        amount: Balance,
        referral_code: Seq<u8>,
    ) -> (World<T>, Result<(), CallError>) {
        let kind = entry_kind(vault);
        let key = (crowdloan, vault.lease_start, vault.lease_end);
        match self.state.update_contribution(
            child_id::<T>(vault.trie_index, kind),
            who,
            vault,
            amount,
            Some(referral_code),
            ArithmeticKind::Addition,
            kind,
        ) {
            Err(e) => (self, Err(CallError::Arithmetic(e))),
            Ok((state, changed, _)) => {
                let recorded = self.with_state(state);
                let (world, result) = if kind is Flying {
                    recorded.do_contribute(
                        who,
                        crowdloan,
                        vault.id(),
                        vault.contribution_strategy,
                        amount,
                        referral_code,
                    )
                } else {
                    (recorded, Ok(()))
                };
                match result {
                    Err(e) => (world, Err(e)),
                    Ok(_) => (world.with_state(world.state.with_vault(key, changed)), Ok(())),
                }
            },
        }
    }

    /// The call `contribute`.
    pub open spec fn contribute(
        self,
        origin: Origin<T::OtherOrigin>,
        crowdloan: ParaId,
        amount: Balance,
        referral_code: Seq<u8>,
    ) -> (World<T>, Result<(), CallError>) {
        self.settled(self.begun().contributed(origin, crowdloan, amount, referral_code))
    }

    /// One contribution that was held back is sent on.
    pub open spec fn migrate_one(
        self,
        who: AccountId,
        crowdloan: ParaId,
        vault: Vault,
    ) -> (World<T>, Vault, Result<(), CallError>) {
        let held = self.state.contribution(
            child_id::<T>(vault.trie_index, ChildStorageKind::Pending),
            who,
        );
        match self.state.migrate_contribution::<T>(
            who,
            vault,
            held.amount,
            ChildStorageKind::Pending,
            ChildStorageKind::Flying,
        ) {
            Err(e) => {
                let (state, less) = self.state.half_migrated::<T>(
                    who,
                    vault,
                    held.amount,
                    ChildStorageKind::Pending,
                    ChildStorageKind::Flying,
                );
                (self.with_state(state), less, Err(CallError::Arithmetic(e)))
            },
            Ok((state, changed)) => {
                let (world, result) = self.with_state(state).do_contribute(
                    who,
                    crowdloan,
                    vault.id(),
                    vault.contribution_strategy,
                    held.amount,
                    held.referral_code,
                );
                (world, changed, result)
            },
        }
    }

    /// The contributions of the accounts behind `cursor` that were held back are
    /// sent on, in the order of keys, until there are no more or the limit of one
    /// call is reached; `count` of them were sent on before. The result says
    /// whether none is left.
    pub open spec fn migrate_from(
        self,
        crowdloan: ParaId,
        vault: Vault,
        cursor: Option<AccountId>,
        count: nat,
    ) -> (World<T>, Vault, Result<bool, CallError>)
        decreases T::spec_constants().migrate_keys_limit - count,
    {
        match self.state.next_contributor(
            child_id::<T>(vault.trie_index, ChildStorageKind::Pending),
            cursor,
        ) {
            None => (self, vault, Ok(true)),
            Some(who) => if count >= T::spec_constants().migrate_keys_limit {
                (self, vault, Ok(false))
            } else {
                let (world, changed, result) = self.migrate_one(who, crowdloan, vault);
                match result {
                    Err(e) => (world, changed, Err(e)),
                    Ok(_) => world.migrate_from(crowdloan, changed, Some(who), count + 1),
                }
            },
        }
    }

    /// What migrating contributions does.
    pub open spec fn pending_migrated(self, origin: Origin<T::OtherOrigin>, crowdloan: ParaId) -> (
        World<T>,
        Result<(), CallError>,
    ) {
        if !self.authorized(RequiredOrigin::MigrateOrigin, origin) {
            (self, Err(CallError::BadOrigin))
        } else {
            match self.state.current_vault(crowdloan) {
                None => self.refused(Error::VaultDoesNotExist),
                Some(vault) => if vault.phase != VaultPhase::Pending && vault.phase
                    != VaultPhase::Contributing {
                    self.refused(Error::IncorrectVaultPhase)
                } else if self.state.is_vrf {
                    self.refused(Error::VrfDelayInProgress)
                } else {
                    let (world, changed, result) = self.migrate_from(crowdloan, vault, None, 0);
                    match result {
                        Err(e) => (world, Err(e)),
                        Ok(all_migrated) => (
                            world.with_state(
                                world.state.with_vault(
                                    (crowdloan, vault.lease_start, vault.lease_end),
                                    changed,
                                ).emit(
                                    if all_migrated {
                                        Event::AllMigrated(crowdloan, vault.id())
                                    } else {
                                        Event::PartiallyMigrated(crowdloan, vault.id())
                                    },
                                ),
                            ),
                            Ok(()),
                        ),
                    }
                },
            }
        }
    }

    /// The call `migrate_pending`.
    pub open spec fn migrate_pending(self, origin: Origin<T::OtherOrigin>, crowdloan: ParaId) -> (
        World<T>,
        Result<(), CallError>,
    ) {
        self.settled(self.begun().pending_migrated(origin, crowdloan))
    }
}

impl<T: Config> Pallet<T> {
    /// Contribute `amount` to the vault of `crowdloan` and receive some
    /// shares from it
    pub fn contribute(
        &mut self,
        origin: Origin<T::OtherOrigin>,
        crowdloan: ParaId,
        amount: Balance,
        referral_code: Vec<u8>,
    ) -> (r: CallResult)
        ensures
            (final(self)@, r) == old(self)@.contribute(
                origin,
                crowdloan,
                amount,
                referral_code@,
            ),
    {
        let saved = self.begin();
        let result = self.contributed(&origin, crowdloan, amount, referral_code);
        self.settle(saved, result)
    }

    /// Contributes, before this is settled.
    fn contributed(
        &mut self,
        origin: &Origin<T::OtherOrigin>,
        crowdloan: ParaId,
        amount: Balance,
        referral_code: Vec<u8>,
    ) -> (r: CallResult)
        ensures
            (final(self)@, r) == old(self)@.contributed(*origin, crowdloan, amount, referral_code@),
    {
        let who = ensure_signed(origin)?;
        let mut vault = match self.current_vault(crowdloan) {
            None => {
                return refuse(Error::VaultDoesNotExist);
            },
            Some(vault) => vault,
        };
        if amount == 0 {
            return refuse(Error::InvalidParams);
        }
        if self.runtime.current_block_number() > vault.end_block {
            return refuse(Error::EndBlockExceeded);
        }
        if vault.phase != VaultPhase::Contributing && vault.phase != VaultPhase::Pending {
            return refuse(Error::IncorrectVaultPhase);
        }
        if amount < T::constants().min_contribution {
            return refuse(Error::InsufficientContribution);
        }
        if self.is_vrf() {
            return refuse(Error::VrfDelayInProgress);
        }
        let total: Balance = match Self::total_contribution(&vault) {
            Err(e) => {
                return Err(CallError::Arithmetic(e));
            },
            Ok(total) => total,
        };
        match total.checked_add(amount) {
            None => {
                return Err(CallError::Arithmetic(ArithmeticError::Overflow));
            },
            Some(new_total) => {
                if new_total > vault.cap {
                    return refuse(Error::CapExceeded);
                }
            },
        }
        if let Err(e) = self.runtime.transfer(
            T::constants().relay_currency,
            &who,
            &Self::account_id(),
            amount,
            false,
        ) {
            return Err(CallError::Service(e));
        }
        let key = (crowdloan, vault.lease_start, vault.lease_end);
        let flying = vault.phase == VaultPhase::Contributing;
        let kind = if flying {
            ChildStorageKind::Flying
        } else {
            ChildStorageKind::Pending
        };
        if let Err(e) = self.do_update_contribution(
            &who,
            &mut vault,
            amount,
            Some(bytes_copy(&referral_code)),
            ArithmeticKind::Addition,
            kind,
        ) {
            return Err(CallError::Arithmetic(e));
        }
        if flying {
            self.do_contribute(
                &who,
                crowdloan,
                (vault.lease_start, vault.lease_end),
                vault.contribution_strategy,
                amount,
                referral_code,
            )?;
        }
        self.put_vault(key, vault);
        Ok(())
    }

    /// Sends on one contribution that was held back.
    fn migrate_one(&mut self, who: &AccountId, crowdloan: ParaId, vault: &mut Vault) -> (r:
        CallResult)
        ensures
            ({
                let (world, changed, result) = old(self)@.migrate_one(
                    *who,
                    crowdloan,
                    *old(vault),
                );
                &&& (final(self)@, r) == (world, result)
                &&& *final(vault) == changed
            }),
    {
        let held = self.contribution_get(vault.trie_index, who, ChildStorageKind::Pending);
        if let Err(e) = self.do_migrate_contribution(
            who,
            vault,
            held.amount,
            ChildStorageKind::Pending,
            ChildStorageKind::Flying,
        ) {
            return Err(CallError::Arithmetic(e));
        }
        self.do_contribute(
            who,
            crowdloan,
            (vault.lease_start, vault.lease_end),
            vault.contribution_strategy,
            held.amount,
            held.referral_code,
        )
    }

    /// Sends on contributions that were held back, as many as one call may.
    fn migrate_some(&mut self, crowdloan: ParaId, vault: &mut Vault) -> (r: Result<
        bool,
        CallError,
    >)
        ensures
            ({
                let (world, changed, result) = old(self)@.migrate_from(
                    crowdloan,
                    *old(vault),
                    None,
                    0,
                );
                &&& (final(self)@, r) == (world, result)
                &&& *final(vault) == changed
            }),
    {
        let limit: u32 = T::constants().migrate_keys_limit;
        let child: Vec<u8> = Self::id_from_index(vault.trie_index, ChildStorageKind::Pending);
        let mut cursor: Option<AccountId> = None;
        let mut migrated_count: u32 = 0;
        let ghost end = self@.migrate_from(crowdloan, *vault, None, 0);
        loop
            invariant
                limit == T::spec_constants().migrate_keys_limit,
                migrated_count <= limit,
                child@ == child_id::<T>(vault.trie_index, ChildStorageKind::Pending),
                end == self@.migrate_from(crowdloan, *vault, cursor, migrated_count as nat),
                end == old(self)@.migrate_from(crowdloan, *old(vault), None, 0),
            decreases limit - migrated_count,
        {
            let who = match self.next_contributor(&child, &cursor) {
                None => {
                    return Ok(true);
                },
                Some(who) => who,
            };
            if migrated_count >= limit {
                return Ok(false);
            }
            self.migrate_one(&who, crowdloan, vault)?;
            cursor = Some(who);
            migrated_count += 1;
        }
    }

    /// Migrate pending contribution by sending xcm
    pub fn migrate_pending(&mut self, origin: Origin<T::OtherOrigin>, crowdloan: ParaId) -> (r:
        CallResult)
        ensures
            (final(self)@, r) == old(self)@.migrate_pending(origin, crowdloan),
    {
        let saved = self.begin();
        let result = self.pending_migrated(&origin, crowdloan);
        self.settle(saved, result)
    }

    /// Migrates contributions, before this is settled.
    fn pending_migrated(&mut self, origin: &Origin<T::OtherOrigin>, crowdloan: ParaId) -> (r:
        CallResult)
        ensures
            (final(self)@, r) == old(self)@.pending_migrated(*origin, crowdloan),
    {
        self.authorize(RequiredOrigin::MigrateOrigin, origin)?;
        let mut vault = match self.current_vault(crowdloan) {
            None => {
                return refuse(Error::VaultDoesNotExist);
            },
            Some(vault) => vault,
        };
        if vault.phase != VaultPhase::Pending && vault.phase != VaultPhase::Contributing {
            return refuse(Error::IncorrectVaultPhase);
        }
        if self.is_vrf() {
            return refuse(Error::VrfDelayInProgress);
        }
        let key = (crowdloan, vault.lease_start, vault.lease_end);
        let id = (vault.lease_start, vault.lease_end);
        let all_migrated = self.migrate_some(crowdloan, &mut vault)?;
        self.put_vault(key, vault);
        if all_migrated {
            self.deposit_event(Event::AllMigrated(crowdloan, id));
        } else {
            self.deposit_event(Event::PartiallyMigrated(crowdloan, id));
        }
        Ok(())
    }
}

} // verus!
