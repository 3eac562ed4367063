//! The pallet: its storage and what all calls have in common.
use vstd::prelude::*;

use crate::config::Config;
use crate::outside::{le_bytes, pallet_account, parachain_account};
use crate::state::{account_of_its_bytes, State, World};
use crate::storage_map::{Stored, StorageMap};
use crate::types::{
    AccountId, BonusConfig, CallError, CallResult, Contribution, ContributionKey, CurrencyId,
    Error, Event, Origin, ParaId, QueryId, RequiredOrigin, TrieIndex, Vault, VaultId, VaultKey,
    XcmRequest,
};

verus! {

/// What the pallet keeps.
pub struct Storage {
    /// The vaults, by crowdloan and lease.
    pub vaults: StorageMap<VaultKey, Vault>,
    /// Whether the relay chain draws the end of an auction by lot.
    pub is_vrf: bool,
    /// The derivative of each lease.
    pub ctokens_registry: StorageMap<VaultId, CurrencyId>,
    /// The lease that each crowdloan bids for at present.
    pub leases_registry: StorageMap<ParaId, VaultId>,
    /// The index that the next vault gets.
    pub next_trie_index: TrieIndex,
    /// The messages that are on their way.
    pub xcm_requests: StorageMap<QueryId, XcmRequest>,
    /// The account through which contributions can be sent.
    pub proxy_address: Option<AccountId>,
    /// The bonus of each lease.
    pub leases_bonus: StorageMap<VaultId, BonusConfig>,
    /// The contributions in all child tries.
    pub contributions: StorageMap<ContributionKey, Contribution>,
    /// What happened and was not taken yet.
    pub events: Vec<Event>,
}

/// The events that a list of events stands for.
pub open spec fn events_view(events: Seq<Event>) -> Seq<Event<Seq<u8>>> {
    events.map_values(|e: Event| e@)
}

impl View for Storage {
    type V = State;

    open spec fn view(&self) -> State {
        State {
            vaults: self.vaults@,
            is_vrf: self.is_vrf,
            ctokens_registry: self.ctokens_registry@,
            leases_registry: self.leases_registry@,
            next_trie_index: self.next_trie_index,
            xcm_requests: self.xcm_requests@,
            proxy_address: self.proxy_address,
            leases_bonus: self.leases_bonus@,
            contributions: self.contributions@,
            events: events_view(self.events@),
        }
    }
}

impl Stored for Storage {
    fn duplicate(&self) -> (r: Self) {
        let mut events: Vec<Event> = Vec::new();
        let mut i: usize = 0;
        while i < self.events.len()
            invariant
                i <= self.events@.len(),
                events@.len() == i,
                forall|j: int| 0 <= j < i ==> (#[trigger] events@[j])@ == self.events@[j]@,
            decreases self.events@.len() - i,
        {
            events.push(self.events[i].duplicate());
            i += 1;
        }
        assert(events_view(events@) =~= events_view(self.events@));
        Storage {
            vaults: self.vaults.duplicate(),
            is_vrf: self.is_vrf,
            ctokens_registry: self.ctokens_registry.duplicate(),
            leases_registry: self.leases_registry.duplicate(),
            next_trie_index: self.next_trie_index,
            xcm_requests: self.xcm_requests.duplicate(),
            proxy_address: self.proxy_address,
            leases_bonus: self.leases_bonus.duplicate(),
            contributions: self.contributions.duplicate(),
            events,
        }
    }
}

/// The crowdloans pallet in a runtime.
pub struct Pallet<T: Config> {
    /// The rest of the chain.
    pub runtime: T,
    /// What the pallet keeps.
    pub storage: Storage,
}

impl<T: Config> View for Pallet<T> {
    type V = World<T>;

    open spec fn view(&self) -> World<T> {
        World { runtime: self.runtime, state: self.storage@ }
    }
}

impl<T: Config> Pallet<T> {
    /// The pallet on a new chain.
    pub fn new(runtime: T) -> (r: Self)
        ensures
            r@ == (World { runtime, state: State::empty() }),
    {
        let storage = Storage {
            vaults: StorageMap::new(),
            is_vrf: false,
            ctokens_registry: StorageMap::new(),
            leases_registry: StorageMap::new(),
            next_trie_index: 0,
            xcm_requests: StorageMap::new(),
            proxy_address: None,
            leases_bonus: StorageMap::new(),
            contributions: StorageMap::new(),
            events: Vec::new(),
        };
        assert(storage@ =~= State::empty());
        Pallet { runtime, storage }
    }

    /// Crowdloans vault account
    pub fn account_id() -> (r: AccountId)
        ensures
            r == World::<T>::account_id(),
            r@.take(4) == seq![109u8, 111u8, 100u8, 108u8],
            r@.subrange(4, 12) == T::spec_constants().pallet_id@,
            forall|i: int| 12 <= i < 32 ==> r@[i] == 0,
    {
        let r: AccountId = pallet_account(T::constants().pallet_id);
        proof {
            account_of_its_bytes(r);
        }
        r
    }

    /// Parachain's sovereign account on relaychain
    pub fn para_account_id() -> (r: AccountId)
        ensures
            r == World::<T>::para_account_id(),
            r@.take(4) == seq![112u8, 97u8, 114u8, 97u8],
            r@.subrange(4, 8) == le_bytes(T::spec_constants().self_para_id),
            forall|i: int| 8 <= i < 32 ==> r@[i] == 0,
    {
        let r: AccountId = parachain_account(T::constants().self_para_id);
        proof {
            account_of_its_bytes(r);
        }
        r
    }

    /// The vault of a crowdloan for a lease.
    pub fn vaults(&self, key: VaultKey) -> (r: Option<Vault>)
        ensures
            r == self@.state.vault(key),
    {
        self.storage.vaults.get(&key)
    }

    /// Whether contributions are suspended.
    pub fn is_vrf(&self) -> (r: bool)
        ensures
            r == self@.state.is_vrf,
    {
        self.storage.is_vrf
    }

    /// The derivative of a lease.
    pub fn ctoken_of(&self, id: VaultId) -> (r: Option<CurrencyId>)
        ensures
            r == self@.state.ctoken_of(id),
    {
        self.storage.ctokens_registry.get(&id)
    }

    /// The lease that a crowdloan bids for at present.
    pub fn current_lease(&self, crowdloan: ParaId) -> (r: Option<VaultId>)
        ensures
            match r {
                Some(id) => self@.state.leases_registry.contains_key(crowdloan)
                    && self@.state.leases_registry[crowdloan] == id,
                None => !self@.state.leases_registry.contains_key(crowdloan),
            },
    {
        self.storage.leases_registry.get(&crowdloan)
    }

    /// The index that the next vault gets.
    pub fn next_trie_index(&self) -> (r: TrieIndex)
        ensures
            r == self@.state.next_trie_index,
    {
        self.storage.next_trie_index
    }

    /// The message that an answer belongs to.
    pub fn xcm_request(&self, query_id: QueryId) -> (r: Option<XcmRequest>)
        ensures
            match r {
                Some(request) => self@.state.xcm_requests.contains_key(query_id)
                    && self@.state.xcm_requests[query_id] == request@,
                None => !self@.state.xcm_requests.contains_key(query_id),
            },
    {
        self.storage.xcm_requests.get(&query_id)
    }

    /// The account through which contributions can be sent.
    pub fn proxy_address(&self) -> (r: Option<AccountId>)
        ensures
            r == self@.state.proxy_address,
    {
        self.storage.proxy_address
    }

    /// The bonus of a lease.
    pub fn leases_bonus(&self, id: VaultId) -> (r: BonusConfig)
        ensures
            r == self@.state.leases_bonus(id),
    {
        match self.storage.leases_bonus.get(&id) {
            Some(bonus_config) => bonus_config,
            None => BonusConfig::default(),
        }
    }

    /// The vault that a crowdloan bids with at present.
    pub fn current_vault(&self, crowdloan: ParaId) -> (r: Option<Vault>)
        ensures
            r == self@.state.current_vault(crowdloan),
    {
        match self.current_lease(crowdloan) {
            Some(id) => self.vaults((crowdloan, id.0, id.1)),
            None => None,
        }
    }

    /// Hands over the events since the last time.
    pub fn take_events(&mut self) -> (r: Vec<Event>)
        ensures
            events_view(r@) == old(self)@.state.events,
            final(self)@ == old(self)@.with_state(
                (State { events: Seq::empty(), ..old(self)@.state }),
            ),
    {
        let mut r: Vec<Event> = Vec::new();
        std::mem::swap(&mut r, &mut self.storage.events);
        assert(events_view(self.storage.events@) =~= Seq::empty());
        r
    }

    /// Records an event.
    pub(crate) fn deposit_event(&mut self, event: Event)
        ensures
            final(self)@ == old(self)@.with_state(old(self)@.state.emit(event@)),
    {
        self.storage.events.push(event);
        assert(events_view(self.storage.events@) =~= old(self)@.state.events.push(event@));
    }

    /// Keeps a vault under a key.
    pub(crate) fn put_vault(&mut self, key: VaultKey, vault: Vault)
        ensures
            final(self)@ == old(self)@.with_state(old(self)@.state.with_vault(key, vault)),
    {
        self.storage.vaults.insert(key, vault);
    }

    /// Takes up a call; what the pallet keeps is saved.
    pub(crate) fn begin(&mut self) -> (saved: Storage)
        ensures
            saved@ == old(self)@.state,
            final(self)@ == old(self)@.begun(),
    {
        self.runtime.start_transaction();
        self.storage.duplicate()
    }

    /// Ends a call that was taken up when the pallet kept `saved`.
    pub(crate) fn settle(&mut self, saved: Storage, result: CallResult) -> (r: CallResult)
        ensures
            forall|before: World<T>|
                before.state == saved@ ==> (final(self)@, r) == #[trigger] before.settled(
                    (old(self)@, result),
                ),
    {
        match result {
            Ok(_) => {
                self.runtime.commit_transaction();
            },
            Err(_) => {
                self.runtime.rollback_transaction();
                self.storage = saved;
            },
        }
        result
    }

    /// Lets a call pass that asks for a privilege.
    pub(crate) fn authorize(
        &self,
        required: RequiredOrigin,
        origin: &Origin<T::OtherOrigin>,
    ) -> (r: CallResult)
        ensures
            r == (if self@.authorized(required, *origin) {
                Ok(())
            } else {
                Err(CallError::BadOrigin)
            }),
    {
        if self.runtime.ensure_origin(required, origin) {
            return Ok(());
        }
        let who = ensure_signed(origin)?;
        if self.runtime.is_member(&who) {
            Ok(())
        } else {
            Err(CallError::BadOrigin)
        }
    }
}

/// The account that signed a call.
pub open spec fn signer<O>(origin: Origin<O>) -> Result<AccountId, CallError> {
    match origin {
        Origin::Signed(who) => Ok(who),
        _ => Err(CallError::BadOrigin),
    }
}

/// The account that signed a call; a call that nobody signed is turned away.
pub(crate) fn ensure_signed<O>(origin: &Origin<O>) -> (r: Result<AccountId, CallError>)
    ensures
        r == signer(*origin),
{
    match origin {
        Origin::Signed(who) => Ok(*who),
        _ => Err(CallError::BadOrigin),
    }
}

/// The call is refused with an error of the pallet.
pub(crate) fn refuse(error: Error) -> (r: CallResult)
    ensures
        r == Err::<(), CallError>(CallError::Module(error)),
{
    Err(CallError::Module(error))
}

} // verus!
