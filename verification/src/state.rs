//! The model: what the pallet keeps, together with the rest of the chain.
use vstd::prelude::*;

use crate::bytes::precedes;
use crate::config::Config;
use crate::outside::{le_bytes, pallet_tag, parachain_tag, tagged_account};
use crate::types::{
    AccountId, Balance, BonusConfig, CallError, ChildStorageKind, Contribution, ContributionKey,
    CurrencyId, Error, Event, Origin, ParaId, QueryId, RequiredOrigin, TrieIndex, Vault, VaultId,
    VaultKey, XcmRequest,
};

verus! {

/// What the pallet keeps.
#[verifier::ext_equal]
pub struct State {
    /// The vaults, by crowdloan and lease.
    pub vaults: Map<VaultKey, Vault>,
    /// Whether the relay chain draws the end of an auction by lot.
    pub is_vrf: bool,
    /// The derivative of each lease.
    pub ctokens_registry: Map<VaultId, CurrencyId>,
    /// The lease that each crowdloan bids for at present.
    pub leases_registry: Map<ParaId, VaultId>,
    /// The index that the next vault gets.
    pub next_trie_index: TrieIndex,
    /// The messages that are on their way.
    pub xcm_requests: Map<QueryId, XcmRequest<Seq<u8>>>,
    /// The account through which contributions can be sent.
    pub proxy_address: Option<AccountId>,
    /// The bonus of each lease.
    pub leases_bonus: Map<VaultId, BonusConfig>,
    /// The contributions in all child tries.
    pub contributions: Map<ContributionKey<Seq<u8>>, Contribution<Seq<u8>>>,
    /// What happened so far.
    pub events: Seq<Event<Seq<u8>>>,
}

impl State {
    /// The state of a new chain.
    pub open spec fn empty() -> State {
        State {
            vaults: Map::empty(),
            is_vrf: false,
            ctokens_registry: Map::empty(),
            leases_registry: Map::empty(),
            next_trie_index: 0,
            xcm_requests: Map::empty(),
            proxy_address: None,
            leases_bonus: Map::empty(),
            contributions: Map::empty(),
            events: Seq::empty(),
        }
    }

    /// The vault under a key.
    pub open spec fn vault(self, key: VaultKey) -> Option<Vault> {
        if self.vaults.contains_key(key) {
            Some(self.vaults[key])
        } else {
            None
        }
    }

    /// The derivative of a lease.
    pub open spec fn ctoken_of(self, id: VaultId) -> Option<CurrencyId> {
        if self.ctokens_registry.contains_key(id) {
            Some(self.ctokens_registry[id])
        } else {
            None
        }
    }

    /// The vault that a crowdloan bids with at present.
    pub open spec fn current_vault(self, crowdloan: ParaId) -> Option<Vault> {
        if self.leases_registry.contains_key(crowdloan) {
            let id = self.leases_registry[crowdloan];
            self.vault((crowdloan, id.0, id.1))
        } else {
            None
        }
    }

    /// The bonus of a lease.
    pub open spec fn leases_bonus(self, id: VaultId) -> BonusConfig {
        if self.leases_bonus.contains_key(id) {
            self.leases_bonus[id]
        } else {
            BonusConfig::none()
        }
    }

    /// The state with a vault put under a key.
    pub open spec fn with_vault(self, key: VaultKey, vault: Vault) -> State {
        State { vaults: self.vaults.insert(key, vault), ..self }
    }

    /// The state with one more event.
    pub open spec fn emit(self, event: Event<Seq<u8>>) -> State {
        State { events: self.events.push(event), ..self }
    }

    /// The state with a message on its way.
    pub open spec fn with_request(self, query_id: QueryId, request: XcmRequest<Seq<u8>>) -> State {
        State { xcm_requests: self.xcm_requests.insert(query_id, request), ..self }
    }

    /// What an account has in a child trie: nothing, where it has no entry.
    pub open spec fn contribution(self, child: Seq<u8>, who: AccountId) -> Contribution<Seq<u8>> {
        let key = ContributionKey { child, who };
        if self.contributions.contains_key(key) {
            self.contributions[key]
        } else {
            Contribution { amount: 0, referral_code: Seq::empty() }
        }
    }

    /// The state with an account's entry in a child trie set. An entry of nothing
    /// is not kept.
    pub open spec fn with_contribution(
        self,
        child: Seq<u8>,
        who: AccountId,
        amount: Balance,
        referral_code: Seq<u8>,
    ) -> State {
        if amount == 0 {
            self.without_contribution(child, who)
        } else {
            self.put_contribution(child, who, amount, referral_code)
        }
    }

    /// The state with an entry written.
    pub open spec fn put_contribution(
        self,
        child: Seq<u8>,
        who: AccountId,
        amount: Balance,
        referral_code: Seq<u8>,
    ) -> State {
        State {
            contributions: self.contributions.insert(
                ContributionKey { child, who },
                Contribution { amount, referral_code },
            ),
            ..self
        }
    }

    /// The state without an account's entry in a child trie.
    pub open spec fn without_contribution(self, child: Seq<u8>, who: AccountId) -> State {
        State { contributions: self.contributions.remove(ContributionKey { child, who }), ..self }
    }

    /// `who` has an entry in a child trie, behind `cursor`.
    pub open spec fn is_behind(
        self,
        child: Seq<u8>,
        cursor: Option<AccountId>,
        who: AccountId,
    ) -> bool {
        &&& self.contributions.contains_key(ContributionKey { child, who })
        &&& cursor is Some ==> precedes((cursor->0)@, who@)
    }

    /// `who` is the first that has an entry in a child trie behind `cursor`, in
    /// the order of keys.
    pub open spec fn is_next(
        self,
        child: Seq<u8>,
        cursor: Option<AccountId>,
        who: AccountId,
    ) -> bool {
        &&& self.is_behind(child, cursor, who)
        &&& forall|other: AccountId|
            #[trigger] self.is_behind(child, cursor, other) ==> !precedes(other@, who@)
    }

    /// The account that a walk through a child trie comes to behind `cursor`.
    pub open spec fn next_contributor(self, child: Seq<u8>, cursor: Option<AccountId>) -> Option<
        AccountId,
    > {
        if exists|who: AccountId| self.is_next(child, cursor, who) {
            Some(choose|who: AccountId| self.is_next(child, cursor, who))
        } else {
            None
        }
    }

    /// Some account has an entry in a child trie.
    pub open spec fn has_entries(self, child: Seq<u8>) -> bool {
        exists|who: AccountId|
            #[trigger] self.contributions.contains_key(ContributionKey { child, who })
    }
}

/// The pallet's state together with the rest of the chain.
pub struct World<T> {
    pub runtime: T,
    pub state: State,
}

/// The name under which a kind of contributions is hashed: "crowdloan:pending",
/// "crowdloan:flying" or "crowdloan:contributed".
pub open spec fn kind_name(kind: ChildStorageKind) -> Seq<u8> {
    match kind {
        ChildStorageKind::Pending => seq![
            99u8, 114u8, 111u8, 119u8, 100u8, 108u8, 111u8, 97u8, 110u8, 58u8,
            112u8, 101u8, 110u8, 100u8, 105u8, 110u8, 103u8,
        ],
        ChildStorageKind::Flying => seq![
            99u8, 114u8, 111u8, 119u8, 100u8, 108u8, 111u8, 97u8, 110u8, 58u8,
            102u8, 108u8, 121u8, 105u8, 110u8, 103u8,
        ],
        ChildStorageKind::Contributed => seq![
            99u8, 114u8, 111u8, 119u8, 100u8, 108u8, 111u8, 97u8, 110u8, 58u8,
            99u8, 111u8, 110u8, 116u8, 114u8, 105u8, 98u8, 117u8, 116u8, 101u8, 100u8,
        ],
    }
}

/// What is hashed to get the storage key of a child trie.
pub open spec fn child_seed(index: TrieIndex, kind: ChildStorageKind) -> Seq<u8> {
    kind_name(kind) + le_bytes(index)
}

/// The storage key of the child trie that holds the contributions of one kind to
/// the vault with a given index.
pub open spec fn child_id<T: Config>(index: TrieIndex, kind: ChildStorageKind) -> Seq<u8> {
    T::spec_hash(child_seed(index, kind))
}

impl<T: Config> World<T> {
    /// The same chain with another state of the pallet.
    pub open spec fn with_state(self, state: State) -> World<T> {
        World { state, ..self }
    }

    /// The same pallet state in another state of the rest of the chain.
    pub open spec fn with_runtime(self, runtime: T) -> World<T> {
        World { runtime, ..self }
    }

    /// The call ends with an error of the pallet here.
    pub open spec fn refused(self, error: Error) -> (World<T>, Result<(), CallError>) {
        (self, Err(CallError::Module(error)))
    }

    /// The chain once a call was taken up, so that what it does can be taken back.
    pub open spec fn begun(self) -> World<T> {
        World { runtime: self.runtime.spec_start_transaction(), ..self }
    }

    /// How a call that was taken up here ends, where `body` is what it did: a call
    /// that fails leaves the pallet as it was.
    pub open spec fn settled(self, body: (World<T>, Result<(), CallError>)) -> (
        World<T>,
        Result<(), CallError>,
    ) {
        match body.1 {
            Ok(_) => (
                World {
                    runtime: body.0.runtime.spec_commit_transaction(),
                    state: body.0.state,
                },
                body.1,
            ),
            Err(_) => (
                World {
                    runtime: body.0.runtime.spec_rollback_transaction(),
                    state: self.state,
                },
                body.1,
            ),
        }
    }

    /// An origin may make a call that asks for a privilege: it has the privilege,
    /// or it is an account of the group that automates the life of vaults.
    pub open spec fn authorized(
        self,
        required: RequiredOrigin,
        origin: Origin<T::OtherOrigin>,
    ) -> bool {
        ||| self.runtime.spec_ensure_origin(required, origin)
        ||| origin is Signed && self.runtime.spec_is_member(origin->Signed_0)
    }

    /// The account that collects contributions.
    pub open spec fn account_id() -> AccountId {
        account_of(
            tagged_account(pallet_tag(), T::spec_constants().pallet_id@),
        )
    }

    /// The parachain's account on the relay chain.
    pub open spec fn para_account_id() -> AccountId {
        account_of(
            tagged_account(parachain_tag(), le_bytes(T::spec_constants().self_para_id)),
        )
    }
}

/// The account with the given bytes.
pub open spec fn account_of(bytes: Seq<u8>) -> AccountId {
    choose|a: AccountId| a@ == bytes
}

/// An account is the one with its bytes.
pub proof fn account_of_its_bytes(a: AccountId)
    ensures
        account_of(a@) == a,
{
    assert(account_of(a@) =~= a);
}

} // verus!
