//! What the pallet asks of the runtime that it is part of.
use sp_runtime::DispatchError;
use vstd::prelude::*;

use crate::types::{
    AccountId, Balance, BlockNumber, BonusConfig, Constants, CurrencyId, LookupError,
    NotificationCall, Origin, ParaId, QueryId, RequiredOrigin, Timestamp,
};

verus! {

/// The runtime that the pallet is configured for.
///
/// A value of an implementing type stands for the rest of the chain. What the
/// runtime answers depends on that state alone, as it does on every node that
/// executes the same block, and a call that changes the rest of the chain changes
/// the value. For each call the trait names the answer and the state that follows;
/// it says nothing of either. `rollback::transactional` says what it takes for a
/// failed call to leave the rest of the chain as it was.
///
/// A runtime that is verified itself defines the names; one that is not need not.
pub trait Config: Sized {
    /// What accounts can be addressed by.
    type LookupSource;

    /// The origins of calls that the runtime adds to those named in `Origin`.
    type OtherOrigin;

    /// What the runtime fixes once and for all.
    closed spec fn spec_constants() -> Constants {
        arbitrary()
    }

    fn constants() -> (r: Constants)
        ensures
            r == Self::spec_constants(),
    ;

    /// The hash function of the chain.
    closed spec fn spec_hash(bytes: Seq<u8>) -> Seq<u8> {
        arbitrary()
    }

    fn hash(bytes: &[u8]) -> (r: Vec<u8>)
        ensures
            r@ == Self::spec_hash(bytes@),
    ;

    /// Whether an origin has a privilege.
    closed spec fn spec_ensure_origin(
        &self,
        required: RequiredOrigin,
        origin: Origin<Self::OtherOrigin>,
    ) -> bool {
        arbitrary()
    }

    fn ensure_origin(&self, required: RequiredOrigin, origin: &Origin<Self::OtherOrigin>) -> (r:
        bool)
        ensures
            r == self.spec_ensure_origin(required, *origin),
    ;

    /// Whether an account belongs to the group that automates the life of vaults.
    closed spec fn spec_is_member(&self, who: AccountId) -> bool {
        arbitrary()
    }

    fn is_member(&self, who: &AccountId) -> (r: bool)
        ensures
            r == self.spec_is_member(*who),
    ;

    /// The account that an address stands for.
    closed spec fn spec_lookup(&self, source: Self::LookupSource) -> Result<AccountId, LookupError> {
        arbitrary()
    }

    fn lookup(&self, source: &Self::LookupSource) -> (r: Result<AccountId, LookupError>)
        ensures
            r == self.spec_lookup(*source),
    ;

    /// The block height of the relay chain.
    closed spec fn spec_current_block_number(&self) -> BlockNumber {
        arbitrary()
    }

    fn current_block_number(&self) -> (r: BlockNumber)
        ensures
            r == self.spec_current_block_number(),
    ;

    /// The number of decimals of a currency.
    closed spec fn spec_get_decimal(&self, currency: CurrencyId) -> Option<u8> {
        arbitrary()
    }

    fn get_decimal(&self, currency: CurrencyId) -> (r: Option<u8>)
        ensures
            r == self.spec_get_decimal(currency),
    ;

    /// Whether a bonus is acceptable.
    closed spec fn spec_check_bonus(bonus_config: BonusConfig) -> bool {
        arbitrary()
    }

    fn check_bonus(bonus_config: &BonusConfig) -> (r: bool)
        ensures
            r == Self::spec_check_bonus(*bonus_config),
    ;

    /// What an account can spend of a currency.
    closed spec fn spec_reducible_balance(
        &self,
        asset: CurrencyId,
        who: AccountId,
        keep_alive: bool,
    ) -> Balance {
        arbitrary()
    }

    fn reducible_balance(&self, asset: CurrencyId, who: &AccountId, keep_alive: bool) -> (r:
        Balance)
        ensures
            r == self.spec_reducible_balance(asset, *who, keep_alive),
    ;

    /// Moves assets from one account to another.
    closed spec fn spec_transfer(
        self,
        asset: CurrencyId,
        source: AccountId,
        dest: AccountId,
        amount: Balance,
        keep_alive: bool,
    ) -> (Self, Result<(), DispatchError>) {
        arbitrary()
    }

    fn transfer(
        &mut self,
        asset: CurrencyId,
        source: &AccountId,
        dest: &AccountId,
        amount: Balance,
        keep_alive: bool,
    ) -> (r: Result<(), DispatchError>)
        ensures
            (*final(self), r) == old(self).spec_transfer(asset, *source, *dest, amount, keep_alive),
    ;

    /// Creates assets in an account.
    closed spec fn spec_mint_into(self, asset: CurrencyId, who: AccountId, amount: Balance) -> (
        Self,
        Result<(), DispatchError>,
    ) {
        arbitrary()
    }

    fn mint_into(&mut self, asset: CurrencyId, who: &AccountId, amount: Balance) -> (r: Result<
        (),
        DispatchError,
    >)
        ensures
            (*final(self), r) == old(self).spec_mint_into(asset, *who, amount),
    ;

    /// Destroys assets of an account.
    closed spec fn spec_burn_from(self, asset: CurrencyId, who: AccountId, amount: Balance) -> (
        Self,
        Result<(), DispatchError>,
    ) {
        arbitrary()
    }

    fn burn_from(&mut self, asset: CurrencyId, who: &AccountId, amount: Balance) -> (r: Result<
        (),
        DispatchError,
    >)
        ensures
            (*final(self), r) == old(self).spec_burn_from(asset, *who, amount),
    ;

    /// Sends a contribution to the relay chain on behalf of an account; `call` is
    /// how the relay chain is to report back.
    closed spec fn spec_xcm_contribute(
        self,
        crowdloan: ParaId,
        amount: Balance,
        who: AccountId,
        call: NotificationCall,
    ) -> (Self, Result<QueryId, DispatchError>) {
        arbitrary()
    }

    fn xcm_contribute(
        &mut self,
        crowdloan: ParaId,
        amount: Balance,
        who: &AccountId,
        call: NotificationCall,
    ) -> (r: Result<QueryId, DispatchError>)
        ensures
            (*final(self), r) == old(self).spec_xcm_contribute(crowdloan, amount, *who, call),
    ;

    /// Sends a contribution to the relay chain through the proxy account.
    closed spec fn spec_xcm_proxy_contribute(
        self,
        crowdloan: ParaId,
        amount: Balance,
        proxy: AccountId,
        call: NotificationCall,
    ) -> (Self, Result<QueryId, DispatchError>) {
        arbitrary()
    }

    fn xcm_proxy_contribute(
        &mut self,
        crowdloan: ParaId,
        amount: Balance,
        proxy: &AccountId,
        call: NotificationCall,
    ) -> (r: Result<QueryId, DispatchError>)
        ensures
            (*final(self), r) == old(self).spec_xcm_proxy_contribute(crowdloan, amount, *proxy, call),
    ;

    /// Asks the relay chain to give back what an account contributed.
    closed spec fn spec_xcm_withdraw(
        self,
        crowdloan: ParaId,
        para_account_id: AccountId,
        call: NotificationCall,
    ) -> (Self, Result<QueryId, DispatchError>) {
        arbitrary()
    }

    fn xcm_withdraw(
        &mut self,
        crowdloan: ParaId,
        para_account_id: &AccountId,
        call: NotificationCall,
    ) -> (r: Result<QueryId, DispatchError>)
        ensures
            (*final(self), r) == old(self).spec_xcm_withdraw(crowdloan, *para_account_id, call),
    ;

    /// Pays assets out over a span of time.
    closed spec fn spec_create_stream(
        self,
        sender: AccountId,
        recipient: AccountId,
        amount: Balance,
        asset: CurrencyId,
        start_time: Timestamp,
        end_time: Timestamp,
        cancellable: bool,
    ) -> (Self, Result<(), DispatchError>) {
        arbitrary()
    }

    fn create_stream(
        &mut self,
        sender: &AccountId,
        recipient: &AccountId,
        amount: Balance,
        asset: CurrencyId,
        start_time: Timestamp,
        end_time: Timestamp,
        cancellable: bool,
    ) -> (r: Result<(), DispatchError>)
        ensures
            (*final(self), r) == old(self).spec_create_stream(
                *sender,
                *recipient,
                amount,
                asset,
                start_time,
                end_time,
                cancellable,
            ),
    ;

    /// The states of the rest of the chain that can be gone back to, the latest
    /// last: what it was when each transaction began that is not over yet.
    closed spec fn spec_saved(self) -> Seq<Self> {
        arbitrary()
    }

    /// From here on changes can be taken back.
    closed spec fn spec_start_transaction(self) -> Self {
        arbitrary()
    }

    fn start_transaction(&mut self)
        ensures
            *final(self) == old(self).spec_start_transaction(),
    ;

    /// Keeps the changes since the transaction was started.
    closed spec fn spec_commit_transaction(self) -> Self {
        arbitrary()
    }

    fn commit_transaction(&mut self)
        ensures
            *final(self) == old(self).spec_commit_transaction(),
    ;

    /// Takes back the changes since the transaction was started.
    closed spec fn spec_rollback_transaction(self) -> Self {
        arbitrary()
    }

    fn rollback_transaction(&mut self)
        ensures
            *final(self) == old(self).spec_rollback_transaction(),
    ;
}

} // verus!
