//! How contributions are turned into derivatives or given back.
use vstd::prelude::*;

use crate::config::Config;
use crate::contributions::half_updated;
use crate::pallet::{ensure_signed, refuse, signer, Pallet};
use crate::rates::{product, saturating_product};
use crate::state::{child_id, World};
use crate::types::{
    AccountId, ArithmeticError, ArithmeticKind, Balance, CallError, CallResult, ChildStorageKind,
    Error, Event, LeasePeriod, LookupError, Origin, ParaId, RequiredOrigin, Vault, VaultId,
    VaultPhase,
};

verus! {

/// The account that an address stands for.
pub open spec fn addressee(found: Result<AccountId, LookupError>) -> Result<AccountId, CallError> {
    match found {
        Ok(who) => Ok(who),
        Err(_) => Err(CallError::CannotLookup),
    }
}

impl<T: Config> World<T> {
    /// What the contribution of an amount earns on top, in the native currency.
    /// Where that cannot be computed it is nothing.
    pub open spec fn bonus_for(self, id: VaultId, amount: Balance) -> Balance {
        match self.normalized_amount(product(amount, self.state.leases_bonus(id).bonus_per_token)) {
            Some(bonus) => bonus,
            None => 0,
        }
    }

    /// The bonus for an amount is paid out over time, if there is any.
    pub open spec fn bonus_streamed(self, who: AccountId, id: VaultId, amount: Balance) -> (
        World<T>,
        Result<(), CallError>,
    ) {
        let bonus = self.bonus_for(id, amount);
        let bonus_config = self.state.leases_bonus(id);
        if bonus == 0 {
            (self, Ok(()))
        } else {
            let (runtime, created) = self.runtime.spec_create_stream(
                World::<T>::account_id(),
                who,
                bonus,
                T::spec_constants().native_currency,
                bonus_config.start_time,
                bonus_config.end_time,
                false,
            );
            match created {
                Err(e) => (self.with_runtime(runtime), Err(CallError::Service(e))),
                Ok(_) => (self.with_runtime(runtime), Ok(())),
            }
        }
    }

    /// What claiming does: the contribution becomes as much of the derivative, and
    /// earns a bonus.
    pub open spec fn do_claim_for(
        self,
        who: AccountId,
        crowdloan: ParaId,
        lease_start: LeasePeriod,
        lease_end: LeasePeriod,
    ) -> (World<T>, Result<(), CallError>) {
        let id = (lease_start, lease_end);
        match self.state.ctoken_of(id) {
            None => self.refused(Error::CTokenDoesNotExist),
            Some(ctoken) => match self.state.vault((crowdloan, lease_start, lease_end)) {
                None => self.refused(Error::VaultDoesNotExist),
                Some(vault) => {
                    let child = child_id::<T>(vault.trie_index, ChildStorageKind::Contributed);
                    let amount = self.state.contribution(child, who).amount;
                    if vault.phase != VaultPhase::Succeeded {
                        self.refused(Error::IncorrectVaultPhase)
                    } else if amount == 0 {
                        self.refused(Error::NoContributions)
                    } else {
                        let (runtime, minted) = self.runtime.spec_mint_into(ctoken, who, amount);
                        match minted {
                            Err(e) => (self.with_runtime(runtime), Err(CallError::Service(e))),
                            Ok(_) => {
                                let (world, result) = World {
                                    runtime,
                                    state: self.state.without_contribution(child, who),
                                }.bonus_streamed(who, id, amount);
                                match result {
                                    Err(e) => (world, Err(e)),
                                    Ok(_) => (
                                        world.with_state(
                                            world.state.emit(
                                                Event::VaultClaimed(
                                                    crowdloan,
                                                    id,
                                                    ctoken,
                                                    who,
                                                    amount,
                                                    VaultPhase::Succeeded,
                                                ),
                                            ),
                                        ),
                                        Ok(()),
                                    ),
                                }
                            },
                        }
                    }
                },
            },
        }
    }

    /// The call `claim`.
    pub open spec fn claim(
        self,
        origin: Origin<T::OtherOrigin>,
        crowdloan: ParaId,
        lease_start: LeasePeriod,
        lease_end: LeasePeriod,
    ) -> (World<T>, Result<(), CallError>) {
        let begun = self.begun();
        self.settled(
            match signer(origin) {
                Err(e) => (begun, Err(e)),
                Ok(who) => begun.do_claim_for(who, crowdloan, lease_start, lease_end),
            },
        )
    }

    /// The call `claim_for`.
    pub open spec fn claim_for(
        self,
        origin: Origin<T::OtherOrigin>,
        dest: T::LookupSource,
        crowdloan: ParaId,
        lease_start: LeasePeriod,
        lease_end: LeasePeriod,
    ) -> (World<T>, Result<(), CallError>) {
        let begun = self.begun();
        self.settled(
            match signer(origin) {
                Err(e) => (begun, Err(e)),
                Ok(_) => match addressee(begun.runtime.spec_lookup(dest)) {
                    Err(e) => (begun, Err(e)),
                    Ok(who) => begun.do_claim_for(who, crowdloan, lease_start, lease_end),
                },
            },
        )
    }

    /// What withdrawing does: the contributor gets back the confirmed contribution
    /// to a vault that failed.
    pub open spec fn do_withdraw_for(
        self,
        who: AccountId,
        crowdloan: ParaId,
        lease_start: LeasePeriod,
        lease_end: LeasePeriod,
    ) -> (World<T>, Result<(), CallError>) {
        let id = (lease_start, lease_end);
        let key = (crowdloan, lease_start, lease_end);
        match self.state.vault(key) {
            None => self.refused(Error::VaultDoesNotExist),
            Some(vault) => {
                let child = child_id::<T>(vault.trie_index, ChildStorageKind::Contributed);
                let amount = self.state.contribution(child, who).amount;
                if vault.phase != VaultPhase::Failed {
                    self.refused(Error::IncorrectVaultPhase)
                } else if amount == 0 {
                    self.refused(Error::NoContributions)
                } else if vault.contributed < amount {
                    (
                        self.with_state(self.state.without_contribution(child, who)),
                        Err(CallError::Arithmetic(ArithmeticError::Underflow)),
                    )
                } else {
                    let (runtime, minted) = self.runtime.spec_mint_into(
                        T::spec_constants().relay_currency,
                        who,
                        amount,
                    );
                    match minted {
                        Err(e) => (
                            World { runtime, state: self.state.without_contribution(child, who) },
                            Err(CallError::Service(e)),
                        ),
                        Ok(_) => (
                            World {
                                runtime,
                                state: self.state.without_contribution(child, who).with_vault(
                                    key,
                                    Vault {
                                        contributed: (vault.contributed - amount) as Balance,
                                        ..vault
                                    },
                                ).emit(
                                    Event::VaultWithdrew(
                                        crowdloan,
                                        id,
                                        who,
                                        amount,
                                        VaultPhase::Failed,
                                    ),
                                ),
                            },
                            Ok(()),
                        ),
                    }
                }
            },
        }
    }

    /// The call `withdraw`.
    pub open spec fn withdraw(
        self,
        origin: Origin<T::OtherOrigin>,
        crowdloan: ParaId,
        lease_start: LeasePeriod,
        lease_end: LeasePeriod,
    ) -> (World<T>, Result<(), CallError>) {
        let begun = self.begun();
        self.settled(
            match signer(origin) {
                Err(e) => (begun, Err(e)),
                Ok(who) => begun.do_withdraw_for(who, crowdloan, lease_start, lease_end),
            },
        )
    }

    /// The call `withdraw_for`.
    pub open spec fn withdraw_for(
        self,
        origin: Origin<T::OtherOrigin>,
        dest: T::LookupSource,
        crowdloan: ParaId,
        lease_start: LeasePeriod,
        lease_end: LeasePeriod,
    ) -> (World<T>, Result<(), CallError>) {
        let begun = self.begun();
        self.settled(
            match signer(origin) {
                Err(e) => (begun, Err(e)),
                Ok(_) => match addressee(begun.runtime.spec_lookup(dest)) {
                    Err(e) => (begun, Err(e)),
                    Ok(who) => begun.do_withdraw_for(who, crowdloan, lease_start, lease_end),
                },
            },
        )
    }

    /// Why an amount of a derivative cannot be redeemed.
    pub open spec fn redemption_refusal(
        self,
        who: AccountId,
        crowdloan: ParaId,
        lease_start: LeasePeriod,
        lease_end: LeasePeriod,
        amount: Balance,
    ) -> Option<CallError> {
        match self.state.ctoken_of((lease_start, lease_end)) {
            None => Some(CallError::Module(Error::CTokenDoesNotExist)),
            Some(ctoken) => match self.state.vault((crowdloan, lease_start, lease_end)) {
                None => Some(CallError::Module(Error::VaultDoesNotExist)),
                Some(vault) => if vault.phase != VaultPhase::Expired {
                    Some(CallError::Module(Error::IncorrectVaultPhase))
                } else if self.runtime.spec_reducible_balance(ctoken, who, false) < amount {
                    Some(CallError::Module(Error::InsufficientBalance))
                } else if vault.contributed < amount {
                    Some(CallError::Arithmetic(ArithmeticError::Underflow))
                } else {
                    None
                },
            },
        }
    }

    /// What redeeming does: an amount of the derivative is turned into as much of
    /// the relay chain's currency.
    pub open spec fn redeemed(
        self,
        origin: Origin<T::OtherOrigin>,
        crowdloan: ParaId,
        lease_start: LeasePeriod,
        lease_end: LeasePeriod,
        amount: Balance,
    ) -> (World<T>, Result<(), CallError>) {
        let id = (lease_start, lease_end);
        let key = (crowdloan, lease_start, lease_end);
        match signer(origin) {
            Err(e) => (self, Err(e)),
            Ok(who) => match self.redemption_refusal(
                who,
                crowdloan,
                lease_start,
                lease_end,
                amount,
            ) {
                Some(e) => (self, Err(e)),
                None => {
                    let ctoken = self.state.ctokens_registry[id];
                    let vault = self.state.vaults[key];
                    let (burning, burnt) = self.runtime.spec_burn_from(ctoken, who, amount);
                    match burnt {
                        Err(e) => (self.with_runtime(burning), Err(CallError::Service(e))),
                        Ok(_) => {
                            let (runtime, minted) = burning.spec_mint_into(
                                T::spec_constants().relay_currency,
                                who,
                                amount,
                            );
                            match minted {
                                Err(e) => (self.with_runtime(runtime), Err(CallError::Service(e))),
                                Ok(_) => (
                                    World {
                                        runtime,
                                        state: self.state.with_vault(
                                            key,
                                            Vault {
                                                contributed: (vault.contributed
                                                    - amount) as Balance,
                                                ..vault
                                            },
                                        ).emit(
                                            Event::VaultRedeemed(
                                                crowdloan,
                                                id,
                                                ctoken,
                                                who,
                                                amount,
                                                VaultPhase::Expired,
                                            ),
                                        ),
                                    },
                                    Ok(()),
                                ),
                            }
                        },
                    }
                },
            },
        }
    }

    /// The call `redeem`.
    pub open spec fn redeem(
        self,
        origin: Origin<T::OtherOrigin>,
        crowdloan: ParaId,
        lease_start: LeasePeriod,
        lease_end: LeasePeriod,
        amount: Balance,
    ) -> (World<T>, Result<(), CallError>) {
        self.settled(self.begun().redeemed(origin, crowdloan, lease_start, lease_end, amount))
    }

    /// An amount of what an account contributed is given back. What was confirmed
    /// comes back from the relay chain, so it is created here; the rest is still
    /// in the account that collects contributions.
    pub open spec fn do_refund_for(
        self,
        who: AccountId,
        vault: Vault,
        kind: ChildStorageKind,
        amount: Balance,
    ) -> (World<T>, Vault, Result<(), CallError>) {
        let relay_currency = T::spec_constants().relay_currency;
        let (runtime, paid) = if kind is Contributed {
            self.runtime.spec_mint_into(relay_currency, who, amount)
        } else {
            self.runtime.spec_transfer(
                relay_currency,
                World::<T>::account_id(),
                who,
                amount,
                false,
            )
        };
        let paying = self.with_runtime(runtime);
        match paid {
            Err(e) => (paying, vault, Err(CallError::Service(e))),
            Ok(_) => match self.state.update_contribution(
                child_id::<T>(vault.trie_index, kind),
                who,
                vault,
                amount,
                None,
                ArithmeticKind::Subtraction,
                kind,
            ) {
                Err(e) => (
                    paying,
                    half_updated(vault, amount, ArithmeticKind::Subtraction, kind),
                    Err(CallError::Arithmetic(e)),
                ),
                Ok((state, changed, _)) => (paying.with_state(state), changed, Ok(())),
            },
        }
    }

    /// The contributions of one kind of the accounts behind `cursor` are given
    /// back, in the order of keys, until there are no more or the limit of one
    /// call is reached; `count` of them were given back before. The result says
    /// how many were given back in all and whether none of this kind is left.
    pub open spec fn refund_from(
        self,
        vault: Vault,
        kind: ChildStorageKind,
        cursor: Option<AccountId>,
        count: nat,
    ) -> (World<T>, Vault, Result<(nat, bool), CallError>)
        decreases T::spec_constants().remove_keys_limit - count,
    {
        let child = child_id::<T>(vault.trie_index, kind);
        match self.state.next_contributor(child, cursor) {
            None => (self, vault, Ok((count, true))),
            Some(who) => if count >= T::spec_constants().remove_keys_limit {
                (self, vault, Ok((count, false)))
            } else {
                let (world, changed, result) = self.do_refund_for(
                    who,
                    vault,
                    kind,
                    self.state.contribution(child, who).amount,
                );
                match result {
                    Err(e) => (world, changed, Err(e)),
                    Ok(_) => world.refund_from(changed, kind, Some(who), count + 1),
                }
            },
        }
    }

    /// The contributions of all kinds are given back, as many as one call may: the
    /// confirmed ones first, then those on their way, then those held back.
    pub open spec fn refund_all(self, vault: Vault) -> (World<T>, Vault, Result<bool, CallError>) {
        let (w1, v1, r1) = self.refund_from(vault, ChildStorageKind::Contributed, None, 0);
        match r1 {
            Err(e) => (w1, v1, Err(e)),
            Ok((count, all)) => if !all {
                (w1, v1, Ok(false))
            } else {
                let (w2, v2, r2) = w1.refund_from(v1, ChildStorageKind::Flying, None, count);
                match r2 {
                    Err(e) => (w2, v2, Err(e)),
                    Ok((count, all)) => if !all {
                        (w2, v2, Ok(false))
                    } else {
                        let (w3, v3, r3) = w2.refund_from(
                            v2,
                            ChildStorageKind::Pending,
                            None,
                            count,
                        );
                        match r3 {
                            Err(e) => (w3, v3, Err(e)),
                            Ok((_, all)) => (w3, v3, Ok(all)),
                        }
                    },
                }
            },
        }
    }

    /// What refunding a vault does.
    pub open spec fn refunded(
        self,
        origin: Origin<T::OtherOrigin>,
        crowdloan: ParaId,
        lease_start: LeasePeriod,
        lease_end: LeasePeriod,
    ) -> (World<T>, Result<(), CallError>) {
        let id = (lease_start, lease_end);
        let key = (crowdloan, lease_start, lease_end);
        if !self.authorized(RequiredOrigin::RefundOrigin, origin) {
            (self, Err(CallError::BadOrigin))
        } else {
            match self.state.vault(key) {
                None => self.refused(Error::VaultDoesNotExist),
                Some(vault) => if vault.phase != VaultPhase::Closed && vault.phase
                    != VaultPhase::Failed {
                    self.refused(Error::IncorrectVaultPhase)
                } else {
                    let (world, changed, result) = self.refund_all(vault);
                    match result {
                        Err(e) => (world, Err(e)),
                        Ok(all_refunded) => (
                            world.with_state(
                                world.state.with_vault(key, changed).emit(
                                    if all_refunded {
                                        Event::AllRefunded(crowdloan, id)
                                    } else {
                                        Event::PartiallyRefunded(crowdloan, id)
                                    },
                                ),
                            ),
                            Ok(()),
                        ),
                    }
                },
            }
        }
    }

    /// The call `refund`.
    pub open spec fn refund(
        self,
        origin: Origin<T::OtherOrigin>,
        crowdloan: ParaId,
        lease_start: LeasePeriod,
        lease_end: LeasePeriod,
    ) -> (World<T>, Result<(), CallError>) {
        self.settled(self.begun().refunded(origin, crowdloan, lease_start, lease_end))
    }

    /// What refunding one account does.
    pub open spec fn user_refunded(
        self,
        origin: Origin<T::OtherOrigin>,
        dest: T::LookupSource,
        crowdloan: ParaId,
        kind: ChildStorageKind,
        amount: Balance,
        lease_start: LeasePeriod,
        lease_end: LeasePeriod,
    ) -> (World<T>, Result<(), CallError>) {
        let id = (lease_start, lease_end);
        let key = (crowdloan, lease_start, lease_end);
        if !self.authorized(RequiredOrigin::RefundOrigin, origin) {
            (self, Err(CallError::BadOrigin))
        } else {
            match addressee(self.runtime.spec_lookup(dest)) {
                Err(e) => (self, Err(e)),
                Ok(who) => match self.state.vault(key) {
                    None => self.refused(Error::VaultDoesNotExist),
                    Some(vault) => if vault.phase != VaultPhase::Closed {
                        self.refused(Error::IncorrectVaultPhase)
                    } else if self.state.contribution(
                        child_id::<T>(vault.trie_index, kind),
                        who,
                    ).amount < amount {
                        self.refused(Error::InsufficientContribution)
                    } else {
                        let (world, changed, result) = self.do_refund_for(who, vault, kind, amount);
                        match result {
                            Err(e) => (world, Err(e)),
                            Ok(_) => (
                                world.with_state(
                                    world.state.with_vault(key, changed).emit(
                                        Event::UserRefunded(crowdloan, id, who, kind, amount),
                                    ),
                                ),
                                Ok(()),
                            ),
                        }
                    },
                },
            }
        }
    }

    /// The call `refund_for`.
    pub open spec fn refund_for(
        self,
        origin: Origin<T::OtherOrigin>,
        dest: T::LookupSource,
        crowdloan: ParaId,
        kind: ChildStorageKind,
        amount: Balance,
        lease_start: LeasePeriod,
        lease_end: LeasePeriod,
    ) -> (World<T>, Result<(), CallError>) {
        self.settled(
            self.begun().user_refunded(
                origin,
                dest,
                crowdloan,
                kind,
                amount,
                lease_start,
                lease_end,
            ),
        )
    }
}

impl<T: Config> Pallet<T> {
    /// The account that an address stands for.
    fn find(&self, dest: &T::LookupSource) -> (r: Result<AccountId, CallError>)
        ensures
            r == addressee(self@.runtime.spec_lookup(*dest)),
    {
        match self.runtime.lookup(dest) {
            Ok(who) => Ok(who),
            Err(_) => Err(CallError::CannotLookup),
        }
    }

    /// Pays out the bonus for an amount, if there is any.
    fn bonus_streamed(&mut self, who: &AccountId, id: VaultId, amount: Balance) -> (r: CallResult)
        ensures
            (final(self)@, r) == old(self)@.bonus_streamed(*who, id, amount),
    {
        let bonus_config = self.leases_bonus(id);
        let bonus_amount: Balance = saturating_product(amount, bonus_config.bonus_per_token);
        let normalized_amount: Balance = match self.normalized_amount(bonus_amount) {
            Some(x) => x,
            None => 0,
        };
        if normalized_amount != 0 {
            if let Err(e) = self.runtime.create_stream(
                &Self::account_id(),
                who,
                normalized_amount,
                T::constants().native_currency,
                bonus_config.start_time,
                bonus_config.end_time,
                false,
            ) {
                return Err(CallError::Service(e));
            }
        }
        Ok(())
    }

    /// Turns the contribution of an account into derivatives.
    pub fn do_claim_for(
        &mut self,
        who: AccountId,
        crowdloan: ParaId,
        lease_start: LeasePeriod,
        lease_end: LeasePeriod,
    ) -> (r: CallResult)
        ensures
            (final(self)@, r) == old(self)@.do_claim_for(who, crowdloan, lease_start, lease_end),
    {
        let id = (lease_start, lease_end);
        let ctoken = match self.ctoken_of(id) {
            None => {
                return refuse(Error::CTokenDoesNotExist);
            },
            Some(ctoken) => ctoken,
        };
        let vault = match self.vaults((crowdloan, lease_start, lease_end)) {
            None => {
                return refuse(Error::VaultDoesNotExist);
            },
            Some(vault) => vault,
        };
        if vault.phase != VaultPhase::Succeeded {
            return refuse(Error::IncorrectVaultPhase);
        }
        let amount: Balance = self.contribution_get(
            vault.trie_index,
            &who,
            ChildStorageKind::Contributed,
        ).amount;
        if amount == 0 {
            return refuse(Error::NoContributions);
        }
        if let Err(e) = self.runtime.mint_into(ctoken, &who, amount) {
            return Err(CallError::Service(e));
        }
        self.contribution_kill(vault.trie_index, &who, ChildStorageKind::Contributed);
        self.bonus_streamed(&who, id, amount)?;
        self.deposit_event(
            Event::VaultClaimed(crowdloan, id, ctoken, who, amount, VaultPhase::Succeeded),
        );
        Ok(())
    }

    /// If a `crowdloan` succeeded, claim the liquid derivatives of the
    /// contributed assets
    pub fn claim(
        &mut self,
        origin: Origin<T::OtherOrigin>,
        crowdloan: ParaId,
        lease_start: LeasePeriod,
        lease_end: LeasePeriod,
    ) -> (r: CallResult)
        ensures
            (final(self)@, r) == old(self)@.claim(origin, crowdloan, lease_start, lease_end),
    {
        let saved = self.begin();
        let result = match ensure_signed(&origin) {
            Ok(who) => self.do_claim_for(who, crowdloan, lease_start, lease_end),
            Err(e) => Err(e),
        };
        self.settle(saved, result)
    }

    /// If a `crowdloan` succeeded, claim the liquid derivatives of the
    /// contributed assets for others
    pub fn claim_for(
        &mut self,
        origin: Origin<T::OtherOrigin>,
        dest: T::LookupSource,
        crowdloan: ParaId,
        lease_start: LeasePeriod,
        lease_end: LeasePeriod,
    ) -> (r: CallResult)
        ensures
            (final(self)@, r) == old(self)@.claim_for(
                origin,
                dest,
                crowdloan,
                lease_start,
                lease_end,
            ),
    {
        let saved = self.begin();
        let result = match ensure_signed(&origin) {
            Ok(_) => match self.find(&dest) {
                Ok(who) => self.do_claim_for(who, crowdloan, lease_start, lease_end),
                Err(e) => Err(e),
            },
            Err(e) => Err(e),
        };
        self.settle(saved, result)
    }

    /// Gives back the confirmed contribution of an account to a vault that failed.
    pub fn do_withdraw_for(
        &mut self,
        who: AccountId,
        crowdloan: ParaId,
        lease_start: LeasePeriod,
        lease_end: LeasePeriod,
    ) -> (r: CallResult)
        ensures
            (final(self)@, r) == old(self)@.do_withdraw_for(who, crowdloan, lease_start, lease_end),
    {
        let key = (crowdloan, lease_start, lease_end);
        let mut vault = match self.vaults(key) {
            None => {
                return refuse(Error::VaultDoesNotExist);
            },
            Some(vault) => vault,
        };
        if vault.phase != VaultPhase::Failed {
            return refuse(Error::IncorrectVaultPhase);
        }
        let amount: Balance = self.contribution_get(
            vault.trie_index,
            &who,
            ChildStorageKind::Contributed,
        ).amount;
        if amount == 0 {
            return refuse(Error::NoContributions);
        }
        self.contribution_kill(vault.trie_index, &who, ChildStorageKind::Contributed);
        vault.contributed = match vault.contributed.checked_sub(amount) {
            Some(contributed) => contributed,
            None => {
                return Err(CallError::Arithmetic(ArithmeticError::Underflow));
            },
        };
        // the parachain's account on the relay chain must have withdrawn the
        // contribution
        if let Err(e) = self.runtime.mint_into(T::constants().relay_currency, &who, amount) {
            return Err(CallError::Service(e));
        }
        self.put_vault(key, vault);
        self.deposit_event(
            Event::VaultWithdrew(
                crowdloan,
                (lease_start, lease_end),
                who,
                amount,
                VaultPhase::Failed,
            ),
        );
        Ok(())
    }

    /// If a `crowdloan` failed, withdraw the contributed assets
    pub fn withdraw(
        &mut self,
        origin: Origin<T::OtherOrigin>,
        crowdloan: ParaId,
        lease_start: LeasePeriod,
        lease_end: LeasePeriod,
    ) -> (r: CallResult)
        ensures
            (final(self)@, r) == old(self)@.withdraw(origin, crowdloan, lease_start, lease_end),
    {
        let saved = self.begin();
        let result = match ensure_signed(&origin) {
            Ok(who) => self.do_withdraw_for(who, crowdloan, lease_start, lease_end),
            Err(e) => Err(e),
        };
        self.settle(saved, result)
    }

    /// If a `crowdloan` failed, withdraw the contributed assets for others
    pub fn withdraw_for(
        &mut self,
        origin: Origin<T::OtherOrigin>,
        dest: T::LookupSource,
        crowdloan: ParaId,
        lease_start: LeasePeriod,
        lease_end: LeasePeriod,
    ) -> (r: CallResult)
        ensures
            (final(self)@, r) == old(self)@.withdraw_for(
                origin,
                dest,
                crowdloan,
                lease_start,
                lease_end,
            ),
    {
        let saved = self.begin();
        let result = match ensure_signed(&origin) {
            Ok(_) => match self.find(&dest) {
                Ok(who) => self.do_withdraw_for(who, crowdloan, lease_start, lease_end),
                Err(e) => Err(e),
            },
            Err(e) => Err(e),
        };
        self.settle(saved, result)
    }

    /// If a `crowdloan` expired, redeem the contributed assets
    /// using ctoken
    pub fn redeem(
        &mut self,
        origin: Origin<T::OtherOrigin>,
        crowdloan: ParaId,
        lease_start: LeasePeriod,
        lease_end: LeasePeriod,
        amount: Balance,
    ) -> (r: CallResult)
        ensures
            (final(self)@, r) == old(self)@.redeem(
                origin,
                crowdloan,
                lease_start,
                lease_end,
                amount,
            ),
    {
        let saved = self.begin();
        let result = self.redeemed(&origin, crowdloan, lease_start, lease_end, amount);
        self.settle(saved, result)
    }

    /// Redeems, before this is settled.
    fn redeemed(
        &mut self,
        origin: &Origin<T::OtherOrigin>,
        crowdloan: ParaId,
        lease_start: LeasePeriod,
        lease_end: LeasePeriod,
        amount: Balance,
    ) -> (r: CallResult)
        ensures
            (final(self)@, r) == old(self)@.redeemed(*origin, crowdloan, lease_start, lease_end, amount),
    {
        let who = ensure_signed(origin)?;
        let id = (lease_start, lease_end);
        let key = (crowdloan, lease_start, lease_end);
        let ctoken = match self.ctoken_of(id) {
            None => {
                return refuse(Error::CTokenDoesNotExist);
            },
            Some(ctoken) => ctoken,
        };
        let mut vault = match self.vaults(key) {
            None => {
                return refuse(Error::VaultDoesNotExist);
            },
            Some(vault) => vault,
        };
        if vault.phase != VaultPhase::Expired {
            return refuse(Error::IncorrectVaultPhase);
        }
        let ctoken_balance: Balance = self.runtime.reducible_balance(ctoken, &who, false);
        if ctoken_balance < amount {
            return refuse(Error::InsufficientBalance);
        }
        vault.contributed = match vault.contributed.checked_sub(amount) {
            Some(contributed) => contributed,
            None => {
                return Err(CallError::Arithmetic(ArithmeticError::Underflow));
            },
        };
        if let Err(e) = self.runtime.burn_from(ctoken, &who, amount) {
            return Err(CallError::Service(e));
        }
        // the parachain's account on the relay chain must have withdrawn the
        // contribution
        if let Err(e) = self.runtime.mint_into(T::constants().relay_currency, &who, amount) {
            return Err(CallError::Service(e));
        }
        self.put_vault(key, vault);
        self.deposit_event(
            Event::VaultRedeemed(crowdloan, id, ctoken, who, amount, VaultPhase::Expired),
        );
        Ok(())
    }

    /// Gives back an amount of what an account contributed.
    pub fn do_refund_for(
        &mut self,
        who: &AccountId,
        vault: &mut Vault,
        kind: ChildStorageKind,
        amount: Balance,
    ) -> (r: CallResult)
        ensures
            ({
                let (world, changed, result) = old(self)@.do_refund_for(
                    *who,
                    *old(vault),
                    kind,
                    amount,
                );
                &&& (final(self)@, r) == (world, result)
                &&& *final(vault) == changed
            }),
    {
        let relay_currency = T::constants().relay_currency;
        let paid = if kind == ChildStorageKind::Contributed {
            // the parachain's account on the relay chain must have withdrawn the
            // contribution
            self.runtime.mint_into(relay_currency, who, amount)
        } else {
            self.runtime.transfer(relay_currency, &Self::account_id(), who, amount, false)
        };
        if let Err(e) = paid {
            return Err(CallError::Service(e));
        }
        match self.do_update_contribution(
            who,
            vault,
            amount,
            None,
            ArithmeticKind::Subtraction,
            kind,
        ) {
            Err(e) => Err(CallError::Arithmetic(e)),
            Ok(_) => Ok(()),
        }
    }

    /// Gives back contributions of one kind, as many as one call may, where
    /// `refund_count` were given back before. The result says how many were given
    /// back in all and whether none of this kind is left.
    fn refund_some(&mut self, vault: &mut Vault, kind: ChildStorageKind, refund_count: u32) -> (r:
        Result<(u32, bool), CallError>)
        requires
            refund_count <= T::spec_constants().remove_keys_limit,
        ensures
            ({
                let (world, changed, result) = old(self)@.refund_from(
                    *old(vault),
                    kind,
                    None,
                    refund_count as nat,
                );
                &&& final(self)@ == world
                &&& *final(vault) == changed
                &&& match (r, result) {
                    (Ok((count, all)), Ok((c, a))) => {
                        &&& count == c
                        &&& all == a
                        &&& count <= T::spec_constants().remove_keys_limit
                    },
                    (Err(e), Err(f)) => e == f,
                    _ => false,
                }
            }),
    {
        let limit: u32 = T::constants().remove_keys_limit;
        let child: Vec<u8> = Self::id_from_index(vault.trie_index, kind);
        let mut cursor: Option<AccountId> = None;
        let mut count: u32 = refund_count;
        let ghost end = self@.refund_from(*vault, kind, None, refund_count as nat);
        loop
            invariant
                limit == T::spec_constants().remove_keys_limit,
                count <= limit,
                child@ == child_id::<T>(vault.trie_index, kind),
                end == self@.refund_from(*vault, kind, cursor, count as nat),
                end == old(self)@.refund_from(*old(vault), kind, None, refund_count as nat),
            decreases limit - count,
        {
            let who = match self.next_contributor(&child, &cursor) {
                None => {
                    return Ok((count, true));
                },
                Some(who) => who,
            };
            if count >= limit {
                return Ok((count, false));
            }
            count += 1;
            let amount: Balance = self.contribution_get(vault.trie_index, &who, kind).amount;
            self.do_refund_for(&who, vault, kind, amount)?;
            cursor = Some(who);
        }
    }

    /// Gives back contributions of all kinds, as many as one call may.
    fn refund_all(&mut self, vault: &mut Vault) -> (r: Result<bool, CallError>)
        ensures
            ({
                let (world, changed, result) = old(self)@.refund_all(*old(vault));
                &&& (final(self)@, r) == (world, result)
                &&& *final(vault) == changed
            }),
    {
        let (count, all) = self.refund_some(vault, ChildStorageKind::Contributed, 0)?;
        if !all {
            return Ok(false);
        }
        let (count, all) = self.refund_some(vault, ChildStorageKind::Flying, count)?;
        if !all {
            return Ok(false);
        }
        let (_, all) = self.refund_some(vault, ChildStorageKind::Pending, count)?;
        Ok(all)
    }

    /// Refund contributions
    pub fn refund(
        &mut self,
        origin: Origin<T::OtherOrigin>,
        crowdloan: ParaId,
        lease_start: LeasePeriod,
        lease_end: LeasePeriod,
    ) -> (r: CallResult)
        ensures
            (final(self)@, r) == old(self)@.refund(origin, crowdloan, lease_start, lease_end),
    {
        let saved = self.begin();
        let result = self.refunded(&origin, crowdloan, lease_start, lease_end);
        self.settle(saved, result)
    }

    /// Refunds a vault, before this is settled.
    fn refunded(
        &mut self,
        origin: &Origin<T::OtherOrigin>,
        crowdloan: ParaId,
        lease_start: LeasePeriod,
        lease_end: LeasePeriod,
    ) -> (r: CallResult)
        ensures
            (final(self)@, r) == old(self)@.refunded(*origin, crowdloan, lease_start, lease_end),
    {
        self.authorize(RequiredOrigin::RefundOrigin, origin)?;
        let key = (crowdloan, lease_start, lease_end);
        let mut vault = match self.vaults(key) {
            None => {
                return refuse(Error::VaultDoesNotExist);
            },
            Some(vault) => vault,
        };
        if vault.phase != VaultPhase::Closed && vault.phase != VaultPhase::Failed {
            return refuse(Error::IncorrectVaultPhase);
        }
        let all_refunded = self.refund_all(&mut vault)?;
        self.put_vault(key, vault);
        if all_refunded {
            self.deposit_event(Event::AllRefunded(crowdloan, (lease_start, lease_end)));
        } else {
            self.deposit_event(Event::PartiallyRefunded(crowdloan, (lease_start, lease_end)));
        }
        Ok(())
    }

    /// Refund contributions for single user
    ///
    /// Once relaychain is in vrf but parachain didn't update vrf in time.
    /// Contributions received during this period should be refund to users,
    /// especially for those succeeded parachains.
    pub fn refund_for(
        &mut self,
        origin: Origin<T::OtherOrigin>,
        dest: T::LookupSource,
        crowdloan: ParaId,
        kind: ChildStorageKind,
        amount: Balance,
        lease_start: LeasePeriod,
        lease_end: LeasePeriod,
    ) -> (r: CallResult)
        ensures
            (final(self)@, r) == old(self)@.refund_for(
                origin,
                dest,
                crowdloan,
                kind,
                amount,
                lease_start,
                lease_end,
            ),
    {
        let saved = self.begin();
        let result = self.user_refunded(
            &origin,
            &dest,
            crowdloan,
            kind,
            amount,
            lease_start,
            lease_end,
        );
        self.settle(saved, result)
    }

    /// Refunds one account, before this is settled.
    fn user_refunded(
        &mut self,
        origin: &Origin<T::OtherOrigin>,
        dest: &T::LookupSource,
        crowdloan: ParaId,
        kind: ChildStorageKind,
        amount: Balance,
        lease_start: LeasePeriod,
        lease_end: LeasePeriod,
    ) -> (r: CallResult)
        ensures
            (final(self)@, r) == old(self)@.user_refunded(
                *origin,
                *dest,
                crowdloan,
                kind,
                amount,
                lease_start,
                lease_end,
            ),
    {
        self.authorize(RequiredOrigin::RefundOrigin, origin)?;
        let who = self.find(dest)?;
        let key = (crowdloan, lease_start, lease_end);
        let mut vault = match self.vaults(key) {
            None => {
                return refuse(Error::VaultDoesNotExist);
            },
            Some(vault) => vault,
        };
        if vault.phase != VaultPhase::Closed {
            return refuse(Error::IncorrectVaultPhase);
        }
        let contribution: Balance = self.contribution_get(vault.trie_index, &who, kind).amount;
        if contribution < amount {
            return refuse(Error::InsufficientContribution);
        }
        self.do_refund_for(&who, &mut vault, kind, amount)?;
        self.put_vault(key, vault);
        self.deposit_event(
            Event::UserRefunded(crowdloan, (lease_start, lease_end), who, kind, amount),
        );
        Ok(())
    }
}

} // verus!
