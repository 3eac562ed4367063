//! The life of a vault, and the settings of the pallet.
use vstd::prelude::*;

use crate::config::Config;
use crate::pallet::{refuse, Pallet};
use crate::state::{State, World};
use crate::types::{
    AccountId, ArithmeticError, Balance, BlockNumber, BonusConfig, CallError, CallResult,
    ContributionStrategy, CurrencyId, Error, Event, LeasePeriod, Origin, ParaId, RequiredOrigin,
    TrieIndex, Vault, VaultId, VaultPhase,
};

verus! {

/// What is done to the vault that a crowdloan bids with.
#[derive(Debug, Clone, Copy, PartialEq, Eq, Structural)]
pub enum VaultChange {
    /// It enters a phase.
    Enter(VaultPhase),
    /// Its contributions are asked back, so that it can enter a phase.
    Recall(VaultPhase),
}

impl State {
    /// The state with a new vault: it becomes the one that the crowdloan bids
    /// with, and the derivative is recorded for its lease.
    pub open spec fn with_new_vault(
        self,
        crowdloan: ParaId,
        ctoken: CurrencyId,
        lease_start: LeasePeriod,
        lease_end: LeasePeriod,
        contribution_strategy: ContributionStrategy,
        cap: Balance,
        end_block: BlockNumber,
    ) -> State {
        let id = (lease_start, lease_end);
        let vault = Vault::fresh(
            lease_start,
            lease_end,
            ctoken,
            contribution_strategy,
            cap,
            end_block,
            self.next_trie_index,
        );
        State {
            next_trie_index: (self.next_trie_index + 1) as TrieIndex,
            vaults: self.vaults.insert((crowdloan, lease_start, lease_end), vault),
            ctokens_registry: self.ctokens_registry.insert(id, ctoken),
            leases_registry: self.leases_registry.insert(crowdloan, id),
            ..self
        }.emit(
            Event::VaultCreated(
                crowdloan,
                id,
                ctoken,
                VaultPhase::Pending,
                contribution_strategy,
                cap,
                end_block,
                self.next_trie_index,
            ),
        )
    }

    /// The state without a vault. Where the crowdloan bid with it, it bids with
    /// none now.
    pub open spec fn without_vault(
        self,
        crowdloan: ParaId,
        lease_start: LeasePeriod,
        lease_end: LeasePeriod,
    ) -> State {
        let id = (lease_start, lease_end);
        State {
            vaults: self.vaults.remove((crowdloan, lease_start, lease_end)),
            leases_registry: if self.leases_registry.contains_key(crowdloan)
                && self.leases_registry[crowdloan] == id {
                self.leases_registry.remove(crowdloan)
            } else {
                self.leases_registry
            },
            ..self
        }.emit(Event::VaultDissolved(crowdloan, id))
    }

    /// A derivative is that of another lease.
    pub open spec fn is_taken(self, ctoken: CurrencyId, id: VaultId) -> bool {
        exists|other: VaultId| other != id && #[trigger] self.bears(ctoken, other)
    }

    /// A crowdloan has a vault that is not done with.
    pub open spec fn is_engaged(self, crowdloan: ParaId) -> bool {
        match self.current_vault(crowdloan) {
            Some(vault) => vault.phase != VaultPhase::Failed && vault.phase != VaultPhase::Expired,
            None => false,
        }
    }
}

/// A vault with those terms changed that are given.
pub open spec fn with_terms(
    vault: Vault,
    cap: Option<Balance>,
    end_block: Option<BlockNumber>,
    contribution_strategy: Option<ContributionStrategy>,
) -> Vault {
    Vault {
        cap: match cap {
            Some(cap) => cap,
            None => vault.cap,
        },
        end_block: match end_block {
            Some(end_block) => end_block,
            None => vault.end_block,
        },
        contribution_strategy: match contribution_strategy {
            Some(contribution_strategy) => contribution_strategy,
            None => vault.contribution_strategy,
        },
        ..vault
    }
}

impl<T: Config> World<T> {
    /// Why a vault cannot be created.
    pub open spec fn creation_refusal(
        self,
        origin: Origin<T::OtherOrigin>,
        crowdloan: ParaId,
        ctoken: CurrencyId,
        lease_start: LeasePeriod,
        lease_end: LeasePeriod,
        cap: Balance,
        end_block: BlockNumber,
    ) -> Option<CallError> {
        let id = (lease_start, lease_end);
        if !self.authorized(RequiredOrigin::CreateOrigin, origin) {
            Some(CallError::BadOrigin)
        } else if cap == 0 {
            Some(CallError::Module(Error::InvalidCap))
        } else if lease_start >= lease_end {
            Some(CallError::Module(Error::LastPeriodBeforeFirstPeriod))
        } else if self.state.ctokens_registry.contains_key(id) && self.state.ctokens_registry[id]
            != ctoken {
            Some(CallError::Module(Error::InvalidCToken))
        } else if self.state.is_taken(ctoken, id) {
            Some(CallError::Module(Error::InvalidCToken))
        } else if self.state.vaults.contains_key((crowdloan, lease_start, lease_end)) {
            Some(CallError::Module(Error::VaultAlreadyExists))
        } else if self.state.is_engaged(crowdloan) {
            Some(CallError::Module(Error::VaultNotEnded))
        } else if self.runtime.spec_current_block_number() > end_block {
            Some(CallError::Module(Error::EndBlockExceeded))
        } else if self.state.next_trie_index == TrieIndex::MAX {
            Some(CallError::Arithmetic(ArithmeticError::Overflow))
        } else {
            None
        }
    }

    /// What creating a vault does.
    pub open spec fn vault_created(
        self,
        origin: Origin<T::OtherOrigin>,
        crowdloan: ParaId,
        ctoken: CurrencyId,
        lease_start: LeasePeriod,
        lease_end: LeasePeriod,
        contribution_strategy: ContributionStrategy,
        cap: Balance,
        end_block: BlockNumber,
    ) -> (World<T>, Result<(), CallError>) {
        match self.creation_refusal(
            origin,
            crowdloan,
            ctoken,
            lease_start,
            lease_end,
            cap,
            end_block,
        ) {
            Some(e) => (self, Err(e)),
            None => (
                self.with_state(
                    self.state.with_new_vault(
                        crowdloan,
                        ctoken,
                        lease_start,
                        lease_end,
                        contribution_strategy,
                        cap,
                        end_block,
                    ),
                ),
                Ok(()),
            ),
        }
    }

    /// The call `create_vault`.
    pub open spec fn create_vault(
        self,
        origin: Origin<T::OtherOrigin>,
        crowdloan: ParaId,
        ctoken: CurrencyId,
        lease_start: LeasePeriod,
        lease_end: LeasePeriod,
        contribution_strategy: ContributionStrategy,
        cap: Balance,
        end_block: BlockNumber,
    ) -> (World<T>, Result<(), CallError>) {
        self.settled(
            self.begun().vault_created(
                origin,
                crowdloan,
                ctoken,
                lease_start,
                lease_end,
                contribution_strategy,
                cap,
                end_block,
            ),
        )
    }

    /// What updating a vault does.
    pub open spec fn vault_updated(
        self,
        origin: Origin<T::OtherOrigin>,
        crowdloan: ParaId,
        cap: Option<Balance>,
        end_block: Option<BlockNumber>,
        contribution_strategy: Option<ContributionStrategy>,
    ) -> (World<T>, Result<(), CallError>) {
        if !self.authorized(RequiredOrigin::UpdateOrigin, origin) {
            (self, Err(CallError::BadOrigin))
        } else {
            match self.state.current_vault(crowdloan) {
                None => self.refused(Error::VaultDoesNotExist),
                Some(vault) => if cap == Some(0 as Balance) {
                    self.refused(Error::InvalidCap)
                } else if end_block is Some && self.runtime.spec_current_block_number()
                    > end_block->0 {
                    self.refused(Error::EndBlockExceeded)
                } else {
                    let changed = with_terms(vault, cap, end_block, contribution_strategy);
                    (
                        self.with_state(
                            self.state.with_vault(
                                (crowdloan, vault.lease_start, vault.lease_end),
                                changed,
                            ).emit(
                                Event::VaultUpdated(
                                    crowdloan,
                                    vault.id(),
                                    changed.contribution_strategy,
                                    changed.cap,
                                    changed.end_block,
                                ),
                            ),
                        ),
                        Ok(()),
                    )
                },
            }
        }
    }

    /// The call `update_vault`.
    pub open spec fn update_vault(
        self,
        origin: Origin<T::OtherOrigin>,
        crowdloan: ParaId,
        cap: Option<Balance>,
        end_block: Option<BlockNumber>,
        contribution_strategy: Option<ContributionStrategy>,
    ) -> (World<T>, Result<(), CallError>) {
        self.settled(
            self.begun().vault_updated(origin, crowdloan, cap, end_block, contribution_strategy),
        )
    }

    /// The vault that a crowdloan bids with is changed, if it is in the phase that
    /// this asks for.
    pub open spec fn try_mutate_vault(
        self,
        crowdloan: ParaId,
        phase: VaultPhase,
        change: VaultChange,
    ) -> (World<T>, Result<(), CallError>) {
        match self.state.current_vault(crowdloan) {
            None => self.refused(Error::VaultDoesNotExist),
            Some(vault) => if vault.phase != phase {
                self.refused(Error::IncorrectVaultPhase)
            } else {
                let key = (crowdloan, vault.lease_start, vault.lease_end);
                match change {
                    VaultChange::Enter(now) => (
                        self.with_state(
                            self.state.with_vault(key, Vault { phase: now, ..vault }).emit(
                                Event::VaultPhaseUpdated(crowdloan, vault.id(), phase, now),
                            ),
                        ),
                        Ok(()),
                    ),
                    VaultChange::Recall(target_phase) => {
                        let (world, result) = self.do_withdraw(
                            crowdloan,
                            vault.id(),
                            vault.contributed,
                            target_phase,
                        );
                        match result {
                            Err(e) => (world, Err(e)),
                            Ok(_) => (world.with_state(world.state.with_vault(key, vault)), Ok(())),
                        }
                    },
                }
            },
        }
    }

    /// A call that changes the vault of a crowdloan in a given phase and asks for
    /// a privilege.
    pub open spec fn change_vault(
        self,
        required: RequiredOrigin,
        origin: Origin<T::OtherOrigin>,
        crowdloan: ParaId,
        phase: VaultPhase,
        change: VaultChange,
    ) -> (World<T>, Result<(), CallError>) {
        let begun = self.begun();
        self.settled(
            if begun.authorized(required, origin) {
                begun.try_mutate_vault(crowdloan, phase, change)
            } else {
                (begun, Err(CallError::BadOrigin))
            },
        )
    }

    /// The call `open`: from `Pending` to `Contributing`.
    pub open spec fn open_vault(self, origin: Origin<T::OtherOrigin>, crowdloan: ParaId) -> (
        World<T>,
        Result<(), CallError>,
    ) {
        self.change_vault(
            RequiredOrigin::OpenCloseOrigin,
            origin,
            crowdloan,
            VaultPhase::Pending,
            VaultChange::Enter(VaultPhase::Contributing),
        )
    }

    /// The call `close`: from `Contributing` to `Closed`.
    pub open spec fn close(self, origin: Origin<T::OtherOrigin>, crowdloan: ParaId) -> (
        World<T>,
        Result<(), CallError>,
    ) {
        self.change_vault(
            RequiredOrigin::OpenCloseOrigin,
            origin,
            crowdloan,
            VaultPhase::Contributing,
            VaultChange::Enter(VaultPhase::Closed),
        )
    }

    /// The call `reopen`: from `Closed` to `Contributing`.
    pub open spec fn reopen(self, origin: Origin<T::OtherOrigin>, crowdloan: ParaId) -> (
        World<T>,
        Result<(), CallError>,
    ) {
        self.change_vault(
            RequiredOrigin::OpenCloseOrigin,
            origin,
            crowdloan,
            VaultPhase::Closed,
            VaultChange::Enter(VaultPhase::Contributing),
        )
    }

    /// The call `auction_succeeded`: from `Closed` to `Succeeded`.
    pub open spec fn auction_succeeded(self, origin: Origin<T::OtherOrigin>, crowdloan: ParaId) -> (
        World<T>,
        Result<(), CallError>,
    ) {
        self.change_vault(
            RequiredOrigin::AuctionSucceededFailedOrigin,
            origin,
            crowdloan,
            VaultPhase::Closed,
            VaultChange::Enter(VaultPhase::Succeeded),
        )
    }

    /// The call `auction_failed`: contributions are asked back, from `Closed` to
    /// `Failed`.
    pub open spec fn auction_failed(self, origin: Origin<T::OtherOrigin>, crowdloan: ParaId) -> (
        World<T>,
        Result<(), CallError>,
    ) {
        self.change_vault(
            RequiredOrigin::AuctionSucceededFailedOrigin,
            origin,
            crowdloan,
            VaultPhase::Closed,
            VaultChange::Recall(VaultPhase::Failed),
        )
    }

    /// The call `slot_expired`: contributions are asked back, from `Succeeded` to
    /// `Expired`.
    pub open spec fn slot_expired(self, origin: Origin<T::OtherOrigin>, crowdloan: ParaId) -> (
        World<T>,
        Result<(), CallError>,
    ) {
        self.change_vault(
            RequiredOrigin::SlotExpiredOrigin,
            origin,
            crowdloan,
            VaultPhase::Succeeded,
            VaultChange::Recall(VaultPhase::Expired),
        )
    }

    /// Why a vault cannot be dissolved.
    pub open spec fn dissolution_refusal(
        self,
        origin: Origin<T::OtherOrigin>,
        crowdloan: ParaId,
        lease_start: LeasePeriod,
        lease_end: LeasePeriod,
    ) -> Option<CallError> {
        if !self.authorized(RequiredOrigin::DissolveOrigin, origin) {
            Some(CallError::BadOrigin)
        } else {
            match self.state.vault((crowdloan, lease_start, lease_end)) {
                None => Some(CallError::Module(Error::VaultDoesNotExist)),
                Some(vault) => if vault.phase != VaultPhase::Closed && vault.phase
                    != VaultPhase::Failed && vault.phase != VaultPhase::Expired {
                    Some(CallError::Module(Error::IncorrectVaultPhase))
                } else if self.state.has_childstorage::<T>(vault.trie_index) {
                    Some(CallError::Module(Error::NotReadyToDissolve))
                } else if vault.grand_total() > Balance::MAX {
                    Some(CallError::Arithmetic(ArithmeticError::Overflow))
                } else if vault.grand_total() != 0 {
                    Some(CallError::Module(Error::NotReadyToDissolve))
                } else {
                    None
                },
            }
        }
    }

    /// What dissolving a vault does.
    pub open spec fn vault_dissolved(
        self,
        origin: Origin<T::OtherOrigin>,
        crowdloan: ParaId,
        lease_start: LeasePeriod,
        lease_end: LeasePeriod,
    ) -> (World<T>, Result<(), CallError>) {
        match self.dissolution_refusal(origin, crowdloan, lease_start, lease_end) {
            Some(e) => (self, Err(e)),
            None => (
                self.with_state(self.state.without_vault(crowdloan, lease_start, lease_end)),
                Ok(()),
            ),
        }
    }

    /// The call `dissolve_vault`.
    pub open spec fn dissolve_vault(
        self,
        origin: Origin<T::OtherOrigin>,
        crowdloan: ParaId,
        lease_start: LeasePeriod,
        lease_end: LeasePeriod,
    ) -> (World<T>, Result<(), CallError>) {
        self.settled(self.begun().vault_dissolved(origin, crowdloan, lease_start, lease_end))
    }

    /// The call `set_vrf`.
    pub open spec fn set_vrf(self, origin: Origin<T::OtherOrigin>, flag: bool) -> (
        World<T>,
        Result<(), CallError>,
    ) {
        let begun = self.begun();
        self.settled(
            if begun.authorized(RequiredOrigin::VrfOrigin, origin) {
                (
                    begun.with_state(
                        State { is_vrf: flag, ..self.state }.emit(Event::VrfUpdated(flag)),
                    ),
                    Ok(()),
                )
            } else {
                (begun, Err(CallError::BadOrigin))
            },
        )
    }

    /// The call `update_proxy`. Membership of the group that automates the life of
    /// vaults is not enough for this.
    pub open spec fn update_proxy(
        self,
        origin: Origin<T::OtherOrigin>,
        proxy_address: AccountId,
    ) -> (World<T>, Result<(), CallError>) {
        let begun = self.begun();
        self.settled(
            if begun.runtime.spec_ensure_origin(RequiredOrigin::ProxyOrigin, origin) {
                (
                    begun.with_state(
                        State { proxy_address: Some(proxy_address), ..self.state }.emit(
                            Event::ProxyUpdated(proxy_address),
                        ),
                    ),
                    Ok(()),
                )
            } else {
                (begun, Err(CallError::BadOrigin))
            },
        )
    }

    /// The call `update_leases_bonus`.
    pub open spec fn update_leases_bonus(
        self,
        origin: Origin<T::OtherOrigin>,
        lease_start: LeasePeriod,
        lease_end: LeasePeriod,
        bonus_config: BonusConfig,
    ) -> (World<T>, Result<(), CallError>) {
        let begun = self.begun();
        let id = (lease_start, lease_end);
        self.settled(
            if !begun.authorized(RequiredOrigin::UpdateOrigin, origin) {
                (begun, Err(CallError::BadOrigin))
            } else if lease_start >= lease_end {
                begun.refused(Error::LastPeriodBeforeFirstPeriod)
            } else if !T::spec_check_bonus(bonus_config) {
                begun.refused(Error::WrongBonusConfig)
            } else {
                (
                    begun.with_state(
                        State {
                            leases_bonus: self.state.leases_bonus.insert(id, bonus_config),
                            ..self.state
                        }.emit(Event::LeasesBonusUpdated(id, bonus_config)),
                    ),
                    Ok(()),
                )
            },
        )
    }
}

impl<T: Config> Pallet<T> {
    /// Create a new vault via a governance decision
    ///
    /// - `crowdloan`: parachain id of the crowdloan, should be consistent with relaychain
    /// - `ctoken`: ctoken is used for the vault, no other lease may have it
    /// - `lease_start`: lease start index
    /// - `lease_end`: lease end index
    /// - `contribution_strategy`: by which way contributions reach the relaychain
    /// - `cap`: the capacity limit for the vault
    /// - `end_block`: the crowdloan end block for the vault
    pub fn create_vault(
        &mut self,
        origin: Origin<T::OtherOrigin>,
        crowdloan: ParaId,
        ctoken: CurrencyId,
        lease_start: LeasePeriod,
        lease_end: LeasePeriod,
        contribution_strategy: ContributionStrategy,
        cap: Balance,
        end_block: BlockNumber,
    ) -> (r: CallResult)
        ensures
            (final(self)@, r) == old(self)@.create_vault(
                origin,
                crowdloan,
                ctoken,
                lease_start,
                lease_end,
                contribution_strategy,
                cap,
                end_block,
            ),
    {
        let saved = self.begin();
        let result = self.vault_created(
            &origin,
            crowdloan,
            ctoken,
            lease_start,
            lease_end,
            contribution_strategy,
            cap,
            end_block,
        );
        self.settle(saved, result)
    }

    /// Whether a derivative is that of another lease.
    fn is_taken(&self, ctoken: CurrencyId, id: VaultId) -> (r: bool)
        ensures
            r == self@.state.is_taken(ctoken, id),
    {
        let ghost state = self@.state;
        let n: usize = self.storage.ctokens_registry.len();
        let mut i: usize = 0;
        while i < n
            invariant
                i <= n,
                n == self.storage.ctokens_registry.count(),
                state == self@.state,
                forall|j: int|
                    0 <= j < n ==> {
                        &&& state.ctokens_registry.contains_key(
                            (#[trigger] self.storage.ctokens_registry.entry(j)).0,
                        )
                        &&& state.ctokens_registry[self.storage.ctokens_registry.entry(j).0]
                            == self.storage.ctokens_registry.entry(j).1
                    },
                forall|j: int|
                    0 <= j < i && (#[trigger] self.storage.ctokens_registry.entry(j)).0 != id
                        ==> !state.bears(ctoken, self.storage.ctokens_registry.entry(j).0),
            decreases n - i,
        {
            let other: VaultId = *self.storage.ctokens_registry.key_at(i);
            let taken: CurrencyId = *self.storage.ctokens_registry.value_at(i);
            assert(other == self.storage.ctokens_registry.entry(i as int).0);
            if taken == ctoken && (other.0 != id.0 || other.1 != id.1) {
                assert(state.bears(ctoken, other));
                return true;
            }
            i += 1;
        }
        proof {
            assert forall|other: VaultId| other != id implies !#[trigger] state.bears(
                ctoken,
                other,
            ) by {
                if state.bears(ctoken, other) {
                    assert(self.storage.ctokens_registry@.contains_key(other));
                    let j = choose|j: int|
                        0 <= j < n && (#[trigger] self.storage.ctokens_registry.entry(j)).0 == other;
                }
            }
        }
        false
    }

    /// Creates a vault, before this is settled.
    fn vault_created(
        &mut self,
        origin: &Origin<T::OtherOrigin>,
        crowdloan: ParaId,
        ctoken: CurrencyId,
        lease_start: LeasePeriod,
        lease_end: LeasePeriod,
        contribution_strategy: ContributionStrategy,
        cap: Balance,
        end_block: BlockNumber,
    ) -> (r: CallResult)
        ensures
            (final(self)@, r) == old(self)@.vault_created(
                *origin,
                crowdloan,
                ctoken,
                lease_start,
                lease_end,
                contribution_strategy,
                cap,
                end_block,
            ),
    {
        self.authorize(RequiredOrigin::CreateOrigin, origin)?;
        if cap == 0 {
            return refuse(Error::InvalidCap);
        }
        if lease_start >= lease_end {
            return refuse(Error::LastPeriodBeforeFirstPeriod);
        }
        if let Some(c) = self.ctoken_of((lease_start, lease_end)) {
            if c != ctoken {
                return refuse(Error::InvalidCToken);
            }
        }
        if self.is_taken(ctoken, (lease_start, lease_end)) {
            return refuse(Error::InvalidCToken);
        }
        if self.storage.vaults.contains_key(&(crowdloan, lease_start, lease_end)) {
            return refuse(Error::VaultAlreadyExists);
        }
        // a new vault is not created while the previous one is not finished
        if let Some(vault) = self.current_vault(crowdloan) {
            if vault.phase != VaultPhase::Failed && vault.phase != VaultPhase::Expired {
                return refuse(Error::VaultNotEnded);
            }
        }
        if self.runtime.current_block_number() > end_block {
            return refuse(Error::EndBlockExceeded);
        }
        let trie_index: TrieIndex = self.next_trie_index();
        let next_trie_index: TrieIndex = match trie_index.checked_add(1) {
            Some(next) => next,
            None => {
                return Err(CallError::Arithmetic(ArithmeticError::Overflow));
            },
        };
        let new_vault = Vault::new(
            lease_start,
            lease_end,
            ctoken,
            contribution_strategy,
            cap,
            end_block,
            trie_index,
        );
        self.storage.next_trie_index = next_trie_index;
        self.storage.vaults.insert((crowdloan, lease_start, lease_end), new_vault);
        self.storage.ctokens_registry.insert((lease_start, lease_end), ctoken);
        self.storage.leases_registry.insert(crowdloan, (lease_start, lease_end));
        self.deposit_event(
            Event::VaultCreated(
                crowdloan,
                (lease_start, lease_end),
                ctoken,
                VaultPhase::Pending,
                contribution_strategy,
                cap,
                end_block,
                trie_index,
            ),
        );
        Ok(())
    }

    /// Update an existing vault via a governance decision
    pub fn update_vault(
        &mut self,
        origin: Origin<T::OtherOrigin>,
        crowdloan: ParaId,
        cap: Option<Balance>,
        end_block: Option<BlockNumber>,
        contribution_strategy: Option<ContributionStrategy>,
    ) -> (r: CallResult)
        ensures
            (final(self)@, r) == old(self)@.update_vault(
                origin,
                crowdloan,
                cap,
                end_block,
                contribution_strategy,
            ),
    {
        let saved = self.begin();
        let result = self.vault_updated(&origin, crowdloan, cap, end_block, contribution_strategy);
        self.settle(saved, result)
    }

    /// Updates a vault, before this is settled.
    fn vault_updated(
        &mut self,
        origin: &Origin<T::OtherOrigin>,
        crowdloan: ParaId,
        cap: Option<Balance>,
        end_block: Option<BlockNumber>,
        contribution_strategy: Option<ContributionStrategy>,
    ) -> (r: CallResult)
        ensures
            (final(self)@, r) == old(self)@.vault_updated(
                *origin,
                crowdloan,
                cap,
                end_block,
                contribution_strategy,
            ),
    {
        self.authorize(RequiredOrigin::UpdateOrigin, origin)?;
        let mut vault = match self.current_vault(crowdloan) {
            None => {
                return refuse(Error::VaultDoesNotExist);
            },
            Some(vault) => vault,
        };
        if let Some(cap) = cap {
            if cap == 0 {
                return refuse(Error::InvalidCap);
            }
            vault.cap = cap;
        }
        if let Some(end_block) = end_block {
            if self.runtime.current_block_number() > end_block {
                return refuse(Error::EndBlockExceeded);
            }
            vault.end_block = end_block;
        }
        if let Some(contribution_strategy) = contribution_strategy {
            vault.contribution_strategy = contribution_strategy;
        }
        self.put_vault((crowdloan, vault.lease_start, vault.lease_end), vault);
        self.deposit_event(
            Event::VaultUpdated(
                crowdloan,
                (vault.lease_start, vault.lease_end),
                vault.contribution_strategy,
                vault.cap,
                vault.end_block,
            ),
        );
        Ok(())
    }

    /// Changes the vault that a crowdloan bids with, if it is in the phase that
    /// this asks for.
    pub fn try_mutate_vault(
        &mut self,
        crowdloan: ParaId,
        phase: VaultPhase,
        change: VaultChange,
    ) -> (r: CallResult)
        ensures
            (final(self)@, r) == old(self)@.try_mutate_vault(crowdloan, phase, change),
    {
        let mut vault = match self.current_vault(crowdloan) {
            None => {
                return refuse(Error::VaultDoesNotExist);
            },
            Some(vault) => vault,
        };
        if vault.phase != phase {
            return refuse(Error::IncorrectVaultPhase);
        }
        let key = (crowdloan, vault.lease_start, vault.lease_end);
        let id = (vault.lease_start, vault.lease_end);
        match change {
            VaultChange::Enter(now) => {
                vault.phase = now;
                self.deposit_event(Event::VaultPhaseUpdated(crowdloan, id, phase, now));
            },
            VaultChange::Recall(target_phase) => {
                self.do_withdraw(crowdloan, id, vault.contributed, target_phase)?;
            },
        }
        self.put_vault(key, vault);
        Ok(())
    }

    /// Makes a call that changes the vault of a crowdloan.
    fn change_vault(
        &mut self,
        required: RequiredOrigin,
        origin: &Origin<T::OtherOrigin>,
        crowdloan: ParaId,
        phase: VaultPhase,
        change: VaultChange,
    ) -> (r: CallResult)
        ensures
            (final(self)@, r) == old(self)@.change_vault(
                required,
                *origin,
                crowdloan,
                phase,
                change,
            ),
    {
        let saved = self.begin();
        let result = match self.authorize(required, origin) {
            Ok(_) => self.try_mutate_vault(crowdloan, phase, change),
            Err(e) => Err(e),
        };
        self.settle(saved, result)
    }

    /// Mark the associated vault as ready for real contributions on the relaychain
    pub fn open(&mut self, origin: Origin<T::OtherOrigin>, crowdloan: ParaId) -> (r: CallResult)
        ensures
            (final(self)@, r) == old(self)@.open_vault(origin, crowdloan),
    {
        self.change_vault(
            RequiredOrigin::OpenCloseOrigin,
            &origin,
            crowdloan,
            VaultPhase::Pending,
            VaultChange::Enter(VaultPhase::Contributing),
        )
    }

    /// Mark the associated vault as `Closed` and stop accepting contributions
    pub fn close(&mut self, origin: Origin<T::OtherOrigin>, crowdloan: ParaId) -> (r: CallResult)
        ensures
            (final(self)@, r) == old(self)@.close(origin, crowdloan),
    {
        self.change_vault(
            RequiredOrigin::OpenCloseOrigin,
            &origin,
            crowdloan,
            VaultPhase::Contributing,
            VaultChange::Enter(VaultPhase::Closed),
        )
    }

    /// Mark the associated vault as `Contributing` and continue to accept contributions
    pub fn reopen(&mut self, origin: Origin<T::OtherOrigin>, crowdloan: ParaId) -> (r: CallResult)
        ensures
            (final(self)@, r) == old(self)@.reopen(origin, crowdloan),
    {
        self.change_vault(
            RequiredOrigin::OpenCloseOrigin,
            &origin,
            crowdloan,
            VaultPhase::Closed,
            VaultChange::Enter(VaultPhase::Contributing),
        )
    }

    /// Mark the associated vault as `Succeed` if vault is `Closed`
    pub fn auction_succeeded(&mut self, origin: Origin<T::OtherOrigin>, crowdloan: ParaId) -> (r:
        CallResult)
        ensures
            (final(self)@, r) == old(self)@.auction_succeeded(origin, crowdloan),
    {
        self.change_vault(
            RequiredOrigin::AuctionSucceededFailedOrigin,
            &origin,
            crowdloan,
            VaultPhase::Closed,
            VaultChange::Enter(VaultPhase::Succeeded),
        )
    }

    /// If a `crowdloan` failed, get the coins back and mark the vault as ready
    /// for distribution
    pub fn auction_failed(&mut self, origin: Origin<T::OtherOrigin>, crowdloan: ParaId) -> (r:
        CallResult)
        ensures
            (final(self)@, r) == old(self)@.auction_failed(origin, crowdloan),
    {
        self.change_vault(
            RequiredOrigin::AuctionSucceededFailedOrigin,
            &origin,
            crowdloan,
            VaultPhase::Closed,
            VaultChange::Recall(VaultPhase::Failed),
        )
    }

    /// If a `crowdloan` succeeded and its slot expired, claim back the funds lent
    /// to the parachain
    pub fn slot_expired(&mut self, origin: Origin<T::OtherOrigin>, crowdloan: ParaId) -> (r:
        CallResult)
        ensures
            (final(self)@, r) == old(self)@.slot_expired(origin, crowdloan),
    {
        self.change_vault(
            RequiredOrigin::SlotExpiredOrigin,
            &origin,
            crowdloan,
            VaultPhase::Succeeded,
            VaultChange::Recall(VaultPhase::Expired),
        )
    }

    /// Dissolve vault
    pub fn dissolve_vault(
        &mut self,
        origin: Origin<T::OtherOrigin>,
        crowdloan: ParaId,
        lease_start: LeasePeriod,
        lease_end: LeasePeriod,
    ) -> (r: CallResult)
        ensures
            (final(self)@, r) == old(self)@.dissolve_vault(
                origin,
                crowdloan,
                lease_start,
                lease_end,
            ),
    {
        let saved = self.begin();
        let result = self.vault_dissolved(&origin, crowdloan, lease_start, lease_end);
        self.settle(saved, result)
    }

    /// Dissolves a vault, before this is settled.
    fn vault_dissolved(
        &mut self,
        origin: &Origin<T::OtherOrigin>,
        crowdloan: ParaId,
        lease_start: LeasePeriod,
        lease_end: LeasePeriod,
    ) -> (r: CallResult)
        ensures
            (final(self)@, r) == old(self)@.vault_dissolved(*origin, crowdloan, lease_start, lease_end),
    {
        self.authorize(RequiredOrigin::DissolveOrigin, origin)?;
        let vault = match self.vaults((crowdloan, lease_start, lease_end)) {
            None => {
                return refuse(Error::VaultDoesNotExist);
            },
            Some(vault) => vault,
        };
        if vault.phase != VaultPhase::Closed && vault.phase != VaultPhase::Failed && vault.phase
            != VaultPhase::Expired {
            return refuse(Error::IncorrectVaultPhase);
        }
        if self.has_childstorage(&vault) {
            return refuse(Error::NotReadyToDissolve);
        }
        match Self::total_contribution(&vault) {
            Err(e) => {
                return Err(CallError::Arithmetic(e));
            },
            Ok(total) => {
                if total != 0 {
                    return refuse(Error::NotReadyToDissolve);
                }
            },
        }
        self.storage.vaults.remove(&(crowdloan, lease_start, lease_end));
        if let Some(vault_id) = self.current_lease(crowdloan) {
            if vault_id.0 == lease_start && vault_id.1 == lease_end {
                self.storage.leases_registry.remove(&crowdloan);
            }
        }
        self.deposit_event(Event::VaultDissolved(crowdloan, (lease_start, lease_end)));
        Ok(())
    }

    /// Set crowdloans which entered vrf period
    pub fn set_vrf(&mut self, origin: Origin<T::OtherOrigin>, flag: bool) -> (r: CallResult)
        ensures
            (final(self)@, r) == old(self)@.set_vrf(origin, flag),
    {
        let saved = self.begin();
        let result = self.authorize(RequiredOrigin::VrfOrigin, &origin);
        if result.is_ok() {
            self.storage.is_vrf = flag;
            self.deposit_event(Event::VrfUpdated(flag));
        }
        self.settle(saved, result)
    }

    /// Update crowdloans proxy address in relaychain
    pub fn update_proxy(&mut self, origin: Origin<T::OtherOrigin>, proxy_address: AccountId) -> (r:
        CallResult)
        ensures
            (final(self)@, r) == old(self)@.update_proxy(origin, proxy_address),
    {
        let saved = self.begin();
        let result = if self.runtime.ensure_origin(RequiredOrigin::ProxyOrigin, &origin) {
            self.storage.proxy_address = Some(proxy_address);
            self.deposit_event(Event::ProxyUpdated(proxy_address));
            Ok(())
        } else {
            Err(CallError::BadOrigin)
        };
        self.settle(saved, result)
    }

    /// Update the bonus of a lease
    pub fn update_leases_bonus(
        &mut self,
        origin: Origin<T::OtherOrigin>,
        lease_start: LeasePeriod,
        lease_end: LeasePeriod,
        bonus_config: BonusConfig,
    ) -> (r: CallResult)
        ensures
            (final(self)@, r) == old(self)@.update_leases_bonus(
                origin,
                lease_start,
                lease_end,
                bonus_config,
            ),
    {
        let saved = self.begin();
        let result = match self.authorize(RequiredOrigin::UpdateOrigin, &origin) {
            Err(e) => Err(e),
            Ok(_) => if lease_start >= lease_end {
                refuse(Error::LastPeriodBeforeFirstPeriod)
            } else if !T::check_bonus(&bonus_config) {
                refuse(Error::WrongBonusConfig)
            } else {
                self.storage.leases_bonus.insert((lease_start, lease_end), bonus_config);
                self.deposit_event(
                    Event::LeasesBonusUpdated((lease_start, lease_end), bonus_config),
                );
                Ok(())
            },
        };
        self.settle(saved, result)
    }
}

} // verus!
