use std::collections::BTreeMap;

use crowdloans::config::Config;
use crowdloans::pallet::Pallet;
use crowdloans::storage_map::Stored;
use crowdloans::types::{
    AccountId, ArithmeticError, ArithmeticKind, Balance, BlockNumber, BonusConfig, CallError,
    CallResult, ChildStorageKind, Constants, Contribution, ContributionStrategy, CurrencyId, Error,
    Event, LookupError, NotificationCall, Origin, ParaId, QueryId, RequiredOrigin, Response, Timestamp,
    Vault, VaultPhase, XcmRequest,
};
use crowdloans::vaults::VaultChange;
use frame_support::{Blake2_128Concat, StorageHasher};
use sp_runtime::traits::BlakeTwo256;
use sp_runtime::{DispatchError, TokenError};
use staging_xcm::v3::prelude::XcmError;
use staging_xcm::v3::{Junction, Junctions, MultiLocation};

const RELAY: CurrencyId = 100;
const NATIVE: CurrencyId = 1;
const CTOKEN: CurrencyId = 4000;
const LOAN: ParaId = 2000;

/// What the mock sent to other parts of the chain.
#[derive(Debug, Clone, PartialEq, Eq)]
enum Sent {
    Contribute(ParaId, Balance, AccountId),
    ProxyContribute(ParaId, Balance, AccountId),
    Withdraw(ParaId, AccountId),
    Stream(AccountId, AccountId, Balance, CurrencyId, Timestamp, Timestamp, bool),
}

#[derive(Debug, Clone)]
struct Chain {
    block: BlockNumber,
    balances: BTreeMap<(CurrencyId, AccountId), Balance>,
    decimals: BTreeMap<CurrencyId, u8>,
    next_query: QueryId,
    sent: Vec<Sent>,
    calls: Vec<NotificationCall>,
    xcm_fails: bool,
    minting_fails: bool,
    streaming_fails: bool,
}

#[derive(Debug)]
struct Mock {
    chain: Chain,
    saved: Vec<Chain>,
}

fn blake2_256(bytes: &[u8]) -> Vec<u8> {
    <BlakeTwo256 as sp_runtime::traits::Hash>::hash(bytes).as_ref().to_vec()
}

fn poor() -> DispatchError {
    DispatchError::Token(TokenError::FundsUnavailable)
}

fn unreachable_relay() -> DispatchError {
    DispatchError::Other("unreachable")
}

impl Mock {
    fn new() -> Mock {
        let mut decimals = BTreeMap::new();
        decimals.insert(RELAY, 10);
        decimals.insert(NATIVE, 12);
        Mock {
            chain: Chain {
                block: 1,
                balances: BTreeMap::new(),
                decimals,
                next_query: 0,
                sent: Vec::new(),
                calls: Vec::new(),
                xcm_fails: false,
                minting_fails: false,
                streaming_fails: false,
            },
            saved: Vec::new(),
        }
    }

    fn balance(&self, asset: CurrencyId, who: AccountId) -> Balance {
        *self.chain.balances.get(&(asset, who)).unwrap_or(&0)
    }

    fn give(&mut self, asset: CurrencyId, who: AccountId, amount: Balance) {
        let balance = self.balance(asset, who);
        self.chain.balances.insert((asset, who), balance + amount);
    }

    fn take(&mut self, asset: CurrencyId, who: AccountId, amount: Balance) -> Result<(), DispatchError> {
        let balance = self.balance(asset, who);
        if balance < amount {
            return Err(poor());
        }
        self.chain.balances.insert((asset, who), balance - amount);
        Ok(())
    }

    fn send(&mut self, message: Sent, call: NotificationCall) -> Result<QueryId, DispatchError> {
        if self.chain.xcm_fails {
            return Err(unreachable_relay());
        }
        let query_id = self.chain.next_query;
        self.chain.next_query += 1;
        self.chain.sent.push(message);
        self.chain.calls.push(call);
        Ok(query_id)
    }
}

impl Config for Mock {
    type LookupSource = u8;
    type OtherOrigin = u8;

    fn constants() -> Constants {
        Constants {
            self_para_id: 2085,
            relay_currency: RELAY,
            native_currency: NATIVE,
            pallet_id: *b"crwloans",
            min_contribution: 10,
            migrate_keys_limit: 2,
            remove_keys_limit: 3,
            lease_period: 100,
            lease_offset: 30,
            lease_per_year: 4,
        }
    }

    fn hash(bytes: &[u8]) -> Vec<u8> {
        blake2_256(bytes)
    }

    fn ensure_origin(&self, required: RequiredOrigin, origin: &Origin<u8>) -> bool {
        match origin {
            Origin::Root => true,
            Origin::Other(7) => required == RequiredOrigin::UpdateOrigin,
            _ => false,
        }
    }

    fn is_member(&self, who: &AccountId) -> bool {
        *who == account(9)
    }

    fn lookup(&self, source: &u8) -> Result<AccountId, LookupError> {
        if *source == 0 {
            Err(LookupError)
        } else {
            Ok(account(*source))
        }
    }

    fn current_block_number(&self) -> BlockNumber {
        self.chain.block
    }

    fn get_decimal(&self, currency: CurrencyId) -> Option<u8> {
        self.chain.decimals.get(&currency).copied()
    }

    fn check_bonus(bonus_config: &BonusConfig) -> bool {
        bonus_config.start_time <= bonus_config.end_time
    }

    fn reducible_balance(&self, asset: CurrencyId, who: &AccountId, _keep_alive: bool) -> Balance {
        self.balance(asset, *who)
    }

    fn transfer(
        &mut self,
        asset: CurrencyId,
        source: &AccountId,
        dest: &AccountId,
        amount: Balance,
        _keep_alive: bool,
    ) -> Result<(), DispatchError> {
        self.take(asset, *source, amount)?;
        self.give(asset, *dest, amount);
        Ok(())
    }

    fn mint_into(&mut self, asset: CurrencyId, who: &AccountId, amount: Balance) -> Result<(), DispatchError> {
        if self.chain.minting_fails {
            return Err(poor());
        }
        self.give(asset, *who, amount);
        Ok(())
    }

    fn burn_from(&mut self, asset: CurrencyId, who: &AccountId, amount: Balance) -> Result<(), DispatchError> {
        self.take(asset, *who, amount)
    }

    fn xcm_contribute(
        &mut self,
        crowdloan: ParaId,
        amount: Balance,
        who: &AccountId,
        call: NotificationCall,
    ) -> Result<QueryId, DispatchError> {
        self.send(Sent::Contribute(crowdloan, amount, *who), call)
    }

    fn xcm_proxy_contribute(
        &mut self,
        crowdloan: ParaId,
        amount: Balance,
        proxy: &AccountId,
        call: NotificationCall,
    ) -> Result<QueryId, DispatchError> {
        self.send(Sent::ProxyContribute(crowdloan, amount, *proxy), call)
    }

    fn xcm_withdraw(
        &mut self,
        crowdloan: ParaId,
        para_account_id: &AccountId,
        call: NotificationCall,
    ) -> Result<QueryId, DispatchError> {
        self.send(Sent::Withdraw(crowdloan, *para_account_id), call)
    }

    fn create_stream(
        &mut self,
        sender: &AccountId,
        recipient: &AccountId,
        amount: Balance,
        asset: CurrencyId,
        start_time: Timestamp,
        end_time: Timestamp,
        cancellable: bool,
    ) -> Result<(), DispatchError> {
        if self.chain.streaming_fails {
            return Err(poor());
        }
        self.chain.sent.push(Sent::Stream(
            *sender,
            *recipient,
            amount,
            asset,
            start_time,
            end_time,
            cancellable,
        ));
        Ok(())
    }

    fn start_transaction(&mut self) {
        self.saved.push(self.chain.clone());
    }

    fn commit_transaction(&mut self) {
        self.saved.pop();
    }

    fn rollback_transaction(&mut self) {
        if let Some(chain) = self.saved.pop() {
            self.chain = chain;
        }
    }
}

type P = Pallet<Mock>;

fn account(n: u8) -> AccountId {
    [n; 32]
}

fn signed(n: u8) -> Origin<u8> {
    Origin::Signed(account(n))
}

fn refused(error: Error) -> CallResult {
    Err(CallError::Module(error))
}

fn new_pallet() -> P {
    let mut p = P::new(Mock::new());
    for n in 1..9u8 {
        p.runtime.give(RELAY, account(n), 1_000);
    }
    p
}

fn create(p: &mut P) -> CallResult {
    p.create_vault(Origin::Root, LOAN, CTOKEN, 2, 5, ContributionStrategy::XCM, 500, 1_000)
}

/// A pallet with one vault that is not open yet.
fn with_vault() -> P {
    let mut p = new_pallet();
    assert_eq!(create(&mut p), Ok(()));
    p
}

/// A pallet with one open vault.
fn with_open_vault() -> P {
    let mut p = with_vault();
    assert_eq!(p.open(Origin::Root, LOAN), Ok(()));
    p
}

fn vault(p: &P) -> Vault {
    p.vaults((LOAN, 2, 5)).unwrap()
}

fn held(p: &P, n: u8, kind: ChildStorageKind) -> Contribution {
    p.contribution_get(vault(p).trie_index, &account(n), kind)
}

fn confirm(p: &mut P, query_id: QueryId) -> CallResult {
    p.notification_received(Origin::Root, query_id, Response::ExecutionResult(None))
}

fn reject(p: &mut P, query_id: QueryId) -> CallResult {
    p.notification_received(
        Origin::Root,
        query_id,
        Response::ExecutionResult(Some((3, XcmError::Overflow))),
    )
}

/// A pallet with one closed vault that holds a confirmed contribution of 40 by the
/// first account and one of 60 by the second.
fn with_closed_vault() -> P {
    let mut p = with_open_vault();
    assert_eq!(p.contribute(signed(1), LOAN, 40, vec![1]), Ok(()));
    assert_eq!(p.contribute(signed(2), LOAN, 60, vec![2]), Ok(()));
    assert_eq!(confirm(&mut p, 0), Ok(()));
    assert_eq!(confirm(&mut p, 1), Ok(()));
    assert_eq!(p.close(Origin::Root, LOAN), Ok(()));
    p
}

fn with_succeeded_vault() -> P {
    let mut p = with_closed_vault();
    assert_eq!(p.auction_succeeded(Origin::Root, LOAN), Ok(()));
    p
}

fn with_failed_vault() -> P {
    let mut p = with_closed_vault();
    assert_eq!(p.auction_failed(Origin::Root, LOAN), Ok(()));
    assert_eq!(confirm(&mut p, 2), Ok(()));
    assert_eq!(vault(&p).phase, VaultPhase::Failed);
    p
}

fn with_expired_vault() -> P {
    let mut p = with_succeeded_vault();
    assert_eq!(p.claim(signed(1), LOAN, 2, 5), Ok(()));
    assert_eq!(p.slot_expired(Origin::Root, LOAN), Ok(()));
    assert_eq!(confirm(&mut p, 2), Ok(()));
    assert_eq!(vault(&p).phase, VaultPhase::Expired);
    p
}

// ---- Accounts and child tries ----

#[test]
fn accounts_are_derived_from_identifiers() {
    let mut expected = [0u8; 32];
    expected[..12].copy_from_slice(b"modlcrwloans");
    assert_eq!(P::account_id(), expected);
    let mut expected = [0u8; 32];
    expected[..8].copy_from_slice(&[b'p', b'a', b'r', b'a', 0x25, 0x08, 0, 0]);
    assert_eq!(P::para_account_id(), expected);
}

#[test]
fn child_tries_are_named_by_kind_and_index() {
    let mut seed = b"crowdloan:pending".to_vec();
    seed.extend_from_slice(&[0x04, 0x03, 0x02, 0x01]);
    assert_eq!(
        P::id_from_index(0x01020304, ChildStorageKind::Pending),
        blake2_256(&seed)
    );
    let mut seed = b"crowdloan:flying".to_vec();
    seed.extend_from_slice(&[7, 0, 0, 0]);
    assert_eq!(
        P::id_from_index(7, ChildStorageKind::Flying),
        blake2_256(&seed)
    );
    let mut seed = b"crowdloan:contributed".to_vec();
    seed.extend_from_slice(&[7, 0, 0, 0]);
    assert_eq!(
        P::id_from_index(7, ChildStorageKind::Contributed),
        blake2_256(&seed)
    );
}

#[test]
fn child_tries_do_not_share_entries() {
    let mut p = new_pallet();
    p.contribution_put(0, &account(1), 5, &[8], ChildStorageKind::Pending);
    p.contribution_put(1, &account(1), 6, &[9], ChildStorageKind::Pending);
    let of = |p: &P, index: u32, kind: ChildStorageKind| p.contribution_get(index, &account(1), kind);
    assert_eq!(
        of(&p, 0, ChildStorageKind::Pending),
        Contribution { amount: 5, referral_code: vec![8] }
    );
    assert_eq!(
        of(&p, 1, ChildStorageKind::Pending),
        Contribution { amount: 6, referral_code: vec![9] }
    );
    assert_eq!(
        of(&p, 0, ChildStorageKind::Flying),
        Contribution { amount: 0, referral_code: vec![] }
    );
    p.contribution_kill(0, &account(1), ChildStorageKind::Pending);
    assert_eq!(of(&p, 0, ChildStorageKind::Pending).amount, 0);
    assert_eq!(of(&p, 1, ChildStorageKind::Pending).amount, 6);
}

#[test]
fn a_walk_goes_by_the_order_of_keys() {
    let mut p = new_pallet();
    for n in [5u8, 1, 3] {
        p.contribution_put(0, &account(n), n as Balance, &[], ChildStorageKind::Flying);
    }
    p.contribution_put(0, &account(2), 2, &[], ChildStorageKind::Pending);
    let child = P::id_from_index(0, ChildStorageKind::Flying);
    assert_eq!(p.next_contributor(&child, &None), Some(account(1)));
    assert_eq!(p.next_contributor(&child, &Some(account(1))), Some(account(3)));
    assert_eq!(p.next_contributor(&child, &Some(account(2))), Some(account(3)));
    assert_eq!(p.next_contributor(&child, &Some(account(3))), Some(account(5)));
    assert_eq!(p.next_contributor(&child, &Some(account(5))), None);
}

#[test]
fn what_is_added_can_be_taken_away_again() {
    let mut p = with_vault();
    let mut v = vault(&p);
    let kind = ChildStorageKind::Flying;
    let more = ArithmeticKind::Addition;
    let less = ArithmeticKind::Subtraction;
    assert_eq!(
        p.do_update_contribution(&account(1), &mut v, 7, Some(vec![1]), more, kind),
        Ok(vec![1])
    );
    assert_eq!(v, Vault { flying: 7, ..vault(&p) });
    assert_eq!(p.do_update_contribution(&account(1), &mut v, 3, None, more, kind), Ok(vec![1]));
    assert_eq!(held(&p, 1, kind), Contribution { amount: 10, referral_code: vec![1] });
    assert_eq!(p.do_update_contribution(&account(1), &mut v, 3, None, less, kind), Ok(vec![1]));
    assert_eq!(held(&p, 1, kind), Contribution { amount: 7, referral_code: vec![1] });
    assert_eq!(
        p.do_update_contribution(&account(1), &mut v, 8, None, less, kind),
        Err(ArithmeticError::Underflow)
    );
    assert_eq!(p.do_update_contribution(&account(1), &mut v, 7, None, less, kind), Ok(vec![1]));
    assert_eq!(v, vault(&p));
    assert!(!p.has_childstorage(&v));
    // the sum was changed before the account's share turned out to be too small
    v.flying = 100;
    assert_eq!(
        p.do_update_contribution(&account(1), &mut v, 8, None, less, kind),
        Err(ArithmeticError::Underflow)
    );
    assert_eq!(v.flying, 92);
    assert!(!p.has_childstorage(&v));
}

#[test]
fn a_contribution_moves_between_kinds() {
    let mut p = with_vault();
    let mut v = vault(&p);
    let pending = ChildStorageKind::Pending;
    let flying = ChildStorageKind::Flying;
    let more = ArithmeticKind::Addition;
    assert!(p.do_update_contribution(&account(1), &mut v, 7, Some(vec![1]), more, pending).is_ok());
    assert!(p.do_update_contribution(&account(1), &mut v, 5, Some(vec![2]), more, flying).is_ok());
    assert_eq!(p.do_migrate_contribution(&account(1), &mut v, 4, pending, flying), Ok(()));
    assert_eq!((v.pending, v.flying), (3, 9));
    assert_eq!(held(&p, 1, pending), Contribution { amount: 3, referral_code: vec![1] });
    assert_eq!(held(&p, 1, flying), Contribution { amount: 9, referral_code: vec![1] });
    // what cannot be taken away is not moved
    assert_eq!(
        p.do_migrate_contribution(&account(1), &mut v, 4, pending, flying),
        Err(ArithmeticError::Underflow)
    );
    assert_eq!((v.pending, v.flying), (3, 9));
    // what cannot be added was taken away
    v.flying = Balance::MAX;
    assert_eq!(
        p.do_migrate_contribution(&account(1), &mut v, 2, pending, flying),
        Err(ArithmeticError::Overflow)
    );
    assert_eq!((v.pending, v.flying), (1, Balance::MAX));
    assert_eq!(held(&p, 1, pending).amount, 1);
    assert_eq!(held(&p, 1, flying).amount, 9);
}

// ---- Creating and updating vaults ----

#[test]
fn a_vault_is_created() {
    let mut p = with_vault();
    assert_eq!(
        vault(&p),
        Vault {
            lease_start: 2,
            lease_end: 5,
            ctoken: CTOKEN,
            phase: VaultPhase::Pending,
            contribution_strategy: ContributionStrategy::XCM,
            cap: 500,
            end_block: 1_000,
            trie_index: 0,
            contributed: 0,
            pending: 0,
            flying: 0,
        }
    );
    assert_eq!(p.current_lease(LOAN), Some((2, 5)));
    assert_eq!(p.current_vault(LOAN), Some(vault(&p)));
    assert_eq!(p.ctoken_of((2, 5)), Some(CTOKEN));
    assert_eq!(p.next_trie_index(), 1);
    assert_eq!(
        p.take_events(),
        vec![Event::VaultCreated(
            LOAN,
            (2, 5),
            CTOKEN,
            VaultPhase::Pending,
            ContributionStrategy::XCM,
            500,
            1_000,
            0,
        )]
    );
    assert!(p.take_events().is_empty());
}

#[test]
fn a_vault_is_not_created_on_bad_terms() {
    let mut p = new_pallet();
    let xcm = ContributionStrategy::XCM;
    assert_eq!(
        p.create_vault(signed(1), LOAN, CTOKEN, 2, 5, xcm, 500, 1_000),
        Err(CallError::BadOrigin)
    );
    assert_eq!(
        p.create_vault(Origin::Unsigned, LOAN, CTOKEN, 2, 5, xcm, 500, 1_000),
        Err(CallError::BadOrigin)
    );
    assert_eq!(
        p.create_vault(Origin::Root, LOAN, CTOKEN, 2, 5, xcm, 0, 1_000),
        refused(Error::InvalidCap)
    );
    assert_eq!(
        p.create_vault(Origin::Root, LOAN, CTOKEN, 6, 5, xcm, 500, 1_000),
        refused(Error::LastPeriodBeforeFirstPeriod)
    );
    assert_eq!(
        p.create_vault(Origin::Root, LOAN, CTOKEN, 3, 3, xcm, 500, 1_000),
        refused(Error::LastPeriodBeforeFirstPeriod)
    );
    assert_eq!(
        p.create_vault(Origin::Root, LOAN, CTOKEN, 2, 5, xcm, 500, 0),
        refused(Error::EndBlockExceeded)
    );
    assert_eq!(p.vaults((LOAN, 2, 5)), None);
    assert_eq!(p.next_trie_index(), 0);
    assert!(p.take_events().is_empty());
}

#[test]
fn a_member_of_the_automation_group_may_create_a_vault() {
    let mut p = new_pallet();
    assert_eq!(
        p.create_vault(signed(9), LOAN, CTOKEN, 2, 5, ContributionStrategy::XCM, 1, 1),
        Ok(())
    );
}

#[test]
fn a_lease_has_one_derivative() {
    let mut p = with_vault();
    let xcm = ContributionStrategy::XCM;
    assert_eq!(
        p.create_vault(Origin::Root, 2001, CTOKEN + 1, 2, 5, xcm, 500, 1_000),
        refused(Error::InvalidCToken)
    );
    assert_eq!(p.create_vault(Origin::Root, 2001, CTOKEN, 2, 5, xcm, 500, 1_000), Ok(()));
    assert_eq!(p.vaults((2001, 2, 5)).unwrap().trie_index, 1);
    assert_eq!(p.ctoken_of((2, 5)), Some(CTOKEN));
}

#[test]
fn a_derivative_belongs_to_one_lease() {
    let mut p = with_vault();
    let xcm = ContributionStrategy::XCM;
    for (start, end) in [(2, 6), (1, 5), (7, 9)] {
        assert_eq!(
            p.create_vault(Origin::Root, 2001, CTOKEN, start, end, xcm, 500, 1_000),
            refused(Error::InvalidCToken)
        );
        assert_eq!(p.ctoken_of((start, end)), None);
    }
    assert_eq!(p.create_vault(Origin::Root, 2001, CTOKEN + 1, 2, 6, xcm, 500, 1_000), Ok(()));
    assert_eq!(p.find_vault_by_asset_id(CTOKEN), Some((2, 5)));
    assert_eq!(p.find_vault_by_asset_id(CTOKEN + 1), Some((2, 6)));
}

#[test]
fn a_crowdloan_has_one_vault_at_a_time() {
    let mut p = with_vault();
    let xcm = ContributionStrategy::XCM;
    assert_eq!(create(&mut p), refused(Error::VaultAlreadyExists));
    assert_eq!(
        p.create_vault(Origin::Root, LOAN, CTOKEN + 1, 3, 6, xcm, 500, 1_000),
        refused(Error::VaultNotEnded)
    );
    let mut p = with_failed_vault();
    assert_eq!(p.create_vault(Origin::Root, LOAN, CTOKEN + 1, 3, 6, xcm, 500, 1_000), Ok(()));
    assert_eq!(p.current_lease(LOAN), Some((3, 6)));
    assert_eq!(vault(&p).phase, VaultPhase::Failed);
    let mut p = with_expired_vault();
    assert_eq!(p.create_vault(Origin::Root, LOAN, CTOKEN + 1, 3, 6, xcm, 500, 1_000), Ok(()));
}

#[test]
fn indices_do_run_out() {
    let mut p = new_pallet();
    p.storage.next_trie_index = u32::MAX;
    assert_eq!(create(&mut p), Err(CallError::Arithmetic(ArithmeticError::Overflow)));
    assert_eq!(p.vaults((LOAN, 2, 5)), None);
}

#[test]
fn the_terms_of_a_vault_are_updated() {
    let mut p = with_vault();
    p.take_events();
    let before = vault(&p);
    assert_eq!(p.update_vault(Origin::Other(7), LOAN, None, None, None), Ok(()));
    assert_eq!(vault(&p), before);
    assert_eq!(
        p.update_vault(
            Origin::Root,
            LOAN,
            Some(700),
            Some(1),
            Some(ContributionStrategy::XCMPROXY)
        ),
        Ok(())
    );
    assert_eq!(
        vault(&p),
        Vault {
            cap: 700,
            end_block: 1,
            contribution_strategy: ContributionStrategy::XCMPROXY,
            ..before
        }
    );
    assert_eq!(
        p.take_events(),
        vec![
            Event::VaultUpdated(LOAN, (2, 5), ContributionStrategy::XCM, 500, 1_000),
            Event::VaultUpdated(LOAN, (2, 5), ContributionStrategy::XCMPROXY, 700, 1),
        ]
    );
}

#[test]
fn the_terms_of_a_vault_are_not_updated_badly() {
    let mut p = with_vault();
    let before = vault(&p);
    assert_eq!(
        p.update_vault(Origin::Other(8), LOAN, None, None, None),
        Err(CallError::BadOrigin)
    );
    assert_eq!(
        p.update_vault(Origin::Root, 2001, None, None, None),
        refused(Error::VaultDoesNotExist)
    );
    assert_eq!(
        p.update_vault(Origin::Root, LOAN, Some(0), None, None),
        refused(Error::InvalidCap)
    );
    assert_eq!(
        p.update_vault(Origin::Root, LOAN, Some(9), Some(0), None),
        refused(Error::EndBlockExceeded)
    );
    assert_eq!(vault(&p), before);
}

// ---- Phases ----

#[test]
fn a_vault_goes_through_its_phases() {
    let mut p = with_open_vault();
    assert_eq!(p.close(Origin::Root, LOAN), Ok(()));
    assert_eq!(p.reopen(Origin::Root, LOAN), Ok(()));
    assert_eq!(p.close(signed(9), LOAN), Ok(()));
    assert_eq!(p.auction_succeeded(Origin::Root, LOAN), Ok(()));
    assert_eq!(vault(&p).phase, VaultPhase::Succeeded);
    let id = (2, 5);
    assert_eq!(
        p.take_events()[1..],
        [
            Event::VaultPhaseUpdated(LOAN, id, VaultPhase::Pending, VaultPhase::Contributing),
            Event::VaultPhaseUpdated(LOAN, id, VaultPhase::Contributing, VaultPhase::Closed),
            Event::VaultPhaseUpdated(LOAN, id, VaultPhase::Closed, VaultPhase::Contributing),
            Event::VaultPhaseUpdated(LOAN, id, VaultPhase::Contributing, VaultPhase::Closed),
            Event::VaultPhaseUpdated(LOAN, id, VaultPhase::Closed, VaultPhase::Succeeded),
        ]
    );
}

#[test]
fn phases_are_not_skipped() {
    let mut p = with_vault();
    let wrong = refused(Error::IncorrectVaultPhase);
    assert_eq!(p.close(Origin::Root, LOAN), wrong);
    assert_eq!(p.reopen(Origin::Root, LOAN), wrong);
    assert_eq!(p.auction_succeeded(Origin::Root, LOAN), wrong);
    assert_eq!(p.auction_failed(Origin::Root, LOAN), wrong);
    assert_eq!(p.slot_expired(Origin::Root, LOAN), wrong);
    assert_eq!(p.open(Origin::Root, 2001), refused(Error::VaultDoesNotExist));
    assert_eq!(p.open(signed(1), LOAN), Err(CallError::BadOrigin));
    assert_eq!(p.open(Origin::Root, LOAN), Ok(()));
    assert_eq!(p.open(Origin::Root, LOAN), wrong);
}

#[test]
fn reopening_a_closed_vault_restores_it() {
    let mut p = with_open_vault();
    assert_eq!(p.contribute(signed(1), LOAN, 40, vec![1]), Ok(()));
    let before = vault(&p);
    assert_eq!(p.close(Origin::Root, LOAN), Ok(()));
    assert_ne!(vault(&p), before);
    assert_eq!(p.reopen(Origin::Root, LOAN), Ok(()));
    assert_eq!(vault(&p), before);
}

#[test]
fn a_vault_changes_only_in_the_phase_asked_for() {
    let mut p = with_vault();
    assert_eq!(
        p.try_mutate_vault(LOAN, VaultPhase::Closed, VaultChange::Enter(VaultPhase::Failed)),
        refused(Error::IncorrectVaultPhase)
    );
    assert_eq!(
        p.try_mutate_vault(LOAN, VaultPhase::Pending, VaultChange::Enter(VaultPhase::Closed)),
        Ok(())
    );
    assert_eq!(vault(&p).phase, VaultPhase::Closed);
}

#[test]
fn a_failed_auction_is_settled_when_the_relay_chain_reports() {
    let mut p = with_closed_vault();
    let before = vault(&p);
    p.take_events();
    assert_eq!(p.auction_failed(Origin::Root, LOAN), Ok(()));
    assert_eq!(vault(&p), before);
    assert_eq!(p.runtime.chain.sent.last(), Some(&Sent::Withdraw(LOAN, P::para_account_id())));
    assert_eq!(
        p.runtime.chain.calls.last(),
        Some(&NotificationCall { query_id: 0, response: Response::Null })
    );
    assert_eq!(
        p.xcm_request(2),
        Some(XcmRequest::Withdraw {
            crowdloan: LOAN,
            vault_id: (2, 5),
            amount: 100,
            target_phase: VaultPhase::Failed,
        })
    );
    // a report of a failure changes nothing, and the message is still awaited
    assert_eq!(reject(&mut p, 2), Ok(()));
    assert_eq!(vault(&p), before);
    assert!(p.xcm_request(2).is_some());
    assert_eq!(confirm(&mut p, 2), Ok(()));
    assert_eq!(vault(&p), Vault { phase: VaultPhase::Failed, ..before });
    assert_eq!(p.xcm_request(2), None);
    let here = MultiLocation { parents: 0, interior: Junctions::Here };
    assert_eq!(
        p.take_events(),
        vec![
            Event::VaultDoWithdrawing(LOAN, (2, 5), 100, VaultPhase::Failed),
            Event::NotificationReceived(Box::new(here), 2, Some((3, XcmError::Overflow))),
            Event::VaultPhaseUpdated(LOAN, (2, 5), VaultPhase::Closed, VaultPhase::Failed),
            Event::NotificationReceived(Box::new(here), 2, None),
        ]
    );
}

#[test]
fn a_slot_expires_when_the_relay_chain_reports() {
    let mut p = with_succeeded_vault();
    assert_eq!(p.slot_expired(Origin::Root, LOAN), Ok(()));
    assert_eq!(vault(&p).phase, VaultPhase::Succeeded);
    assert_eq!(confirm(&mut p, 2), Ok(()));
    assert_eq!(vault(&p).phase, VaultPhase::Expired);
}

#[test]
fn a_message_that_cannot_be_sent_fails_the_call() {
    let mut p = with_closed_vault();
    p.runtime.chain.xcm_fails = true;
    assert_eq!(
        p.auction_failed(Origin::Root, LOAN),
        Err(CallError::Service(unreachable_relay()))
    );
    assert_eq!(p.xcm_request(2), None);
}

// ---- Contributing ----

#[test]
fn contributions_before_the_opening_are_held_back() {
    let mut p = with_vault();
    p.take_events();
    assert_eq!(p.contribute(signed(1), LOAN, 40, vec![1, 2]), Ok(()));
    assert_eq!(p.contribute(signed(1), LOAN, 20, vec![3]), Ok(()));
    assert_eq!(
        held(&p, 1, ChildStorageKind::Pending),
        Contribution { amount: 60, referral_code: vec![3] }
    );
    assert_eq!(vault(&p).pending, 60);
    assert_eq!(vault(&p).flying, 0);
    assert!(p.runtime.chain.sent.is_empty());
    assert!(p.take_events().is_empty());
    assert_eq!(p.runtime.balance(RELAY, account(1)), 940);
    assert_eq!(p.runtime.balance(RELAY, P::account_id()), 60);
}

#[test]
fn contributions_to_an_open_vault_are_sent_on() {
    let mut p = with_open_vault();
    p.take_events();
    assert_eq!(p.contribute(signed(1), LOAN, 40, vec![1, 2]), Ok(()));
    assert_eq!(
        held(&p, 1, ChildStorageKind::Flying),
        Contribution { amount: 40, referral_code: vec![1, 2] }
    );
    assert_eq!(vault(&p).flying, 40);
    assert_eq!(vault(&p).pending, 0);
    assert_eq!(p.runtime.chain.sent, vec![Sent::Contribute(LOAN, 40, account(1))]);
    assert_eq!(
        p.xcm_request(0),
        Some(XcmRequest::Contribute {
            crowdloan: LOAN,
            vault_id: (2, 5),
            who: account(1),
            amount: 40,
            referral_code: vec![1, 2],
        })
    );
    assert_eq!(
        p.take_events(),
        vec![Event::VaultDoContributing(LOAN, (2, 5), account(1), 40, vec![1, 2])]
    );
}

#[test]
fn contributions_go_through_the_proxy_where_the_vault_says_so() {
    let mut p = with_open_vault();
    let proxy = Some(ContributionStrategy::XCMPROXY);
    assert_eq!(p.update_vault(Origin::Root, LOAN, None, None, proxy), Ok(()));
    let before = p.runtime.balance(RELAY, account(1));
    assert_eq!(p.contribute(signed(1), LOAN, 40, vec![]), refused(Error::EmptyProxyAddress));
    assert_eq!(p.runtime.balance(RELAY, account(1)), before);
    assert_eq!(held(&p, 1, ChildStorageKind::Flying).amount, 0);
    assert_eq!(p.update_proxy(Origin::Root, account(77)), Ok(()));
    assert_eq!(p.contribute(signed(1), LOAN, 40, vec![]), Ok(()));
    assert_eq!(p.runtime.chain.sent, vec![Sent::ProxyContribute(LOAN, 40, account(77))]);
}

#[test]
fn contributions_are_refused() {
    let mut p = with_open_vault();
    assert_eq!(p.contribute(Origin::Root, LOAN, 40, vec![]), Err(CallError::BadOrigin));
    assert_eq!(p.contribute(signed(1), 2001, 40, vec![]), refused(Error::VaultDoesNotExist));
    assert_eq!(p.contribute(signed(1), LOAN, 0, vec![]), refused(Error::InvalidParams));
    assert_eq!(p.contribute(signed(1), LOAN, 9, vec![]), refused(Error::InsufficientContribution));
    assert_eq!(p.contribute(signed(1), LOAN, 501, vec![]), refused(Error::CapExceeded));
    assert_eq!(p.contribute(signed(30), LOAN, 40, vec![]), Err(CallError::Service(poor())));
    p.runtime.chain.block = 1_001;
    assert_eq!(p.contribute(signed(1), LOAN, 40, vec![]), refused(Error::EndBlockExceeded));
    p.runtime.chain.block = 1_000;
    assert_eq!(p.contribute(signed(1), LOAN, 10, vec![]), Ok(()));
    assert_eq!(p.close(Origin::Root, LOAN), Ok(()));
    assert_eq!(p.contribute(signed(1), LOAN, 40, vec![]), refused(Error::IncorrectVaultPhase));
}

#[test]
fn the_cap_counts_contributions_of_all_kinds() {
    let mut p = with_vault();
    assert_eq!(p.contribute(signed(1), LOAN, 100, vec![]), Ok(()));
    assert_eq!(p.open(Origin::Root, LOAN), Ok(()));
    assert_eq!(p.contribute(signed(2), LOAN, 200, vec![]), Ok(()));
    assert_eq!(p.contribute(signed(3), LOAN, 150, vec![]), Ok(()));
    assert_eq!(confirm(&mut p, 1), Ok(()));
    let v = vault(&p);
    assert_eq!((v.pending, v.flying, v.contributed), (100, 200, 150));
    assert_eq!(P::total_contribution(&v), Ok(450));
    assert_eq!(p.contribute(signed(4), LOAN, 51, vec![]), refused(Error::CapExceeded));
    assert_eq!(p.contribute(signed(4), LOAN, 50, vec![]), Ok(()));
}

#[test]
fn sums_do_not_overflow() {
    let mut p = with_open_vault();
    let full = Vault { contributed: Balance::MAX - 20, cap: Balance::MAX, ..vault(&p) };
    p.storage.vaults.insert((LOAN, 2, 5), full);
    let overflow = Err(CallError::Arithmetic(ArithmeticError::Overflow));
    assert_eq!(p.contribute(signed(1), LOAN, 21, vec![]), overflow);
    assert_eq!(p.contribute(signed(1), LOAN, 20, vec![]), Ok(()));
    assert_eq!(P::total_contribution(&vault(&p)), Ok(Balance::MAX));
    assert_eq!(
        P::total_contribution(&Vault { pending: 1, ..vault(&p) }),
        Err(ArithmeticError::Overflow)
    );
}

#[test]
fn nothing_is_contributed_or_sent_on_during_the_draw() {
    let mut p = with_vault();
    assert_eq!(p.contribute(signed(1), LOAN, 40, vec![]), Ok(()));
    p.take_events();
    assert_eq!(p.set_vrf(signed(1), true), Err(CallError::BadOrigin));
    assert_eq!(p.set_vrf(Origin::Root, true), Ok(()));
    assert!(p.is_vrf());
    assert_eq!(p.contribute(signed(1), LOAN, 40, vec![]), refused(Error::VrfDelayInProgress));
    assert_eq!(p.migrate_pending(Origin::Root, LOAN), refused(Error::VrfDelayInProgress));
    assert_eq!(p.set_vrf(Origin::Root, false), Ok(()));
    assert_eq!(p.contribute(signed(1), LOAN, 40, vec![]), Ok(()));
    assert_eq!(p.take_events(), vec![Event::VrfUpdated(true), Event::VrfUpdated(false)]);
}

#[test]
fn a_confirmed_contribution_counts() {
    let mut p = with_open_vault();
    assert_eq!(p.contribute(signed(1), LOAN, 40, vec![6]), Ok(()));
    p.take_events();
    assert_eq!(confirm(&mut p, 0), Ok(()));
    let v = vault(&p);
    assert_eq!((v.pending, v.flying, v.contributed), (0, 0, 40));
    assert_eq!(held(&p, 1, ChildStorageKind::Flying).amount, 0);
    assert_eq!(
        held(&p, 1, ChildStorageKind::Contributed),
        Contribution { amount: 40, referral_code: vec![6] }
    );
    assert_eq!(p.runtime.balance(RELAY, P::account_id()), 0);
    assert_eq!(p.xcm_request(0), None);
    let here = MultiLocation { parents: 0, interior: Junctions::Here };
    assert_eq!(
        p.take_events(),
        vec![
            Event::VaultContributed(LOAN, (2, 5), account(1), 40, vec![6]),
            Event::NotificationReceived(Box::new(here), 0, None),
        ]
    );
    // a second report finds nothing that it belongs to
    assert_eq!(confirm(&mut p, 0), Ok(()));
    assert_eq!(vault(&p), v);
}

#[test]
fn a_rejected_contribution_leaves_nothing() {
    let mut p = with_open_vault();
    assert_eq!(p.contribute(signed(1), LOAN, 30, vec![5]), Ok(()));
    let before = vault(&p);
    assert_eq!(p.contribute(signed(1), LOAN, 40, vec![6]), Ok(()));
    assert_eq!(reject(&mut p, 1), Ok(()));
    assert_eq!(vault(&p), before);
    assert_eq!(held(&p, 1, ChildStorageKind::Flying).amount, 30);
    assert_eq!(p.runtime.balance(RELAY, account(1)), 970);
    // the message is still known
    assert!(p.xcm_request(1).is_some());
}

#[test]
fn notifications_come_from_other_chains_or_from_those_who_may_update() {
    let mut p = with_open_vault();
    assert_eq!(p.contribute(signed(1), LOAN, 40, vec![]), Ok(()));
    p.take_events();
    let executed = Response::ExecutionResult(None);
    assert_eq!(p.notification_received(signed(1), 0, executed), Err(CallError::BadOrigin));
    assert_eq!(p.notification_received(signed(9), 0, executed), Err(CallError::BadOrigin));
    assert_eq!(p.notification_received(Origin::Root, 0, Response::Null), Ok(()));
    assert_eq!(p.notification_received(Origin::Root, 0, Response::Other), Ok(()));
    assert!(p.take_events().is_empty());
    let parent = MultiLocation { parents: 1, interior: Junctions::X1(Junction::Parachain(5)) };
    assert_eq!(p.notification_received(Origin::Response(parent), 8, executed), Ok(()));
    assert_eq!(
        p.take_events(),
        vec![Event::NotificationReceived(Box::new(parent), 8, None)]
    );
    assert_eq!(p.notification_received(Origin::Other(7), 0, executed), Ok(()));
    assert_eq!(vault(&p).contributed, 40);
}

#[test]
fn a_report_on_a_vault_that_is_gone_is_refused() {
    let mut p = with_open_vault();
    assert_eq!(p.contribute(signed(1), LOAN, 40, vec![]), Ok(()));
    p.storage.vaults.remove(&(LOAN, 2, 5));
    assert_eq!(confirm(&mut p, 0), refused(Error::VaultDoesNotExist));
    assert_eq!(reject(&mut p, 0), refused(Error::VaultDoesNotExist));
    assert!(p.xcm_request(0).is_some());
}

#[test]
fn what_is_not_there_cannot_be_taken_away() {
    let mut p = with_open_vault();
    assert_eq!(p.contribute(signed(1), LOAN, 40, vec![]), Ok(()));
    p.contribution_kill(0, &account(1), ChildStorageKind::Flying);
    let underflow = Err(CallError::Arithmetic(ArithmeticError::Underflow));
    assert_eq!(confirm(&mut p, 0), underflow);
    assert_eq!(reject(&mut p, 0), underflow);
    assert_eq!(p.runtime.balance(RELAY, P::account_id()), 40);
}

#[test]
fn held_back_contributions_are_sent_on_in_steps() {
    let mut p = with_vault();
    for n in [3u8, 1, 2] {
        assert_eq!(p.contribute(signed(n), LOAN, 10 + n as Balance, vec![n]), Ok(()));
    }
    p.take_events();
    assert_eq!(p.migrate_pending(signed(1), LOAN), Err(CallError::BadOrigin));
    assert_eq!(p.migrate_pending(Origin::Root, 2001), refused(Error::VaultDoesNotExist));
    assert_eq!(p.migrate_pending(Origin::Root, LOAN), Ok(()));
    assert_eq!((vault(&p).pending, vault(&p).flying), (13, 23));
    assert_eq!(P::total_contribution(&vault(&p)), Ok(36));
    assert_eq!(vault(&p).phase, VaultPhase::Pending);
    assert_eq!(
        held(&p, 2, ChildStorageKind::Flying),
        Contribution { amount: 12, referral_code: vec![2] }
    );
    assert_eq!(p.migrate_pending(Origin::Root, LOAN), Ok(()));
    assert_eq!((vault(&p).pending, vault(&p).flying), (0, 36));
    assert_eq!(
        p.take_events(),
        vec![
            Event::VaultDoContributing(LOAN, (2, 5), account(1), 11, vec![1]),
            Event::VaultDoContributing(LOAN, (2, 5), account(2), 12, vec![2]),
            Event::PartiallyMigrated(LOAN, (2, 5)),
            Event::VaultDoContributing(LOAN, (2, 5), account(3), 13, vec![3]),
            Event::AllMigrated(LOAN, (2, 5)),
        ]
    );
    assert_eq!(p.open(Origin::Root, LOAN), Ok(()));
    assert_eq!(p.close(Origin::Root, LOAN), Ok(()));
    assert_eq!(p.migrate_pending(Origin::Root, LOAN), refused(Error::IncorrectVaultPhase));
}

#[test]
fn a_failed_call_is_taken_back() {
    let mut p = with_vault();
    assert_eq!(p.contribute(signed(1), LOAN, 40, vec![1]), Ok(()));
    assert_eq!(p.contribute(signed(2), LOAN, 40, vec![2]), Ok(()));
    p.take_events();
    let before = vault(&p);
    p.runtime.chain.xcm_fails = true;
    assert_eq!(
        p.migrate_pending(Origin::Root, LOAN),
        Err(CallError::Service(unreachable_relay()))
    );
    assert_eq!(vault(&p), before);
    assert_eq!(held(&p, 1, ChildStorageKind::Pending).amount, 40);
    assert_eq!(held(&p, 1, ChildStorageKind::Flying).amount, 0);
    assert!(p.take_events().is_empty());
    assert!(p.runtime.saved.is_empty());
    assert!(p.runtime.chain.sent.is_empty());
    assert_eq!(p.open(Origin::Root, LOAN), Ok(()));
    assert_eq!(
        p.contribute(signed(3), LOAN, 40, vec![]),
        Err(CallError::Service(unreachable_relay()))
    );
    assert_eq!(p.runtime.balance(RELAY, account(3)), 1_000);
    assert_eq!(p.runtime.balance(RELAY, P::account_id()), 80);
}

// ---- Payouts ----

#[test]
fn derivatives_are_claimed_once() {
    let mut p = with_succeeded_vault();
    p.take_events();
    let before = vault(&p);
    assert_eq!(p.claim(signed(1), LOAN, 2, 5), Ok(()));
    assert_eq!(p.runtime.balance(CTOKEN, account(1)), 40);
    assert_eq!(held(&p, 1, ChildStorageKind::Contributed).amount, 0);
    assert_eq!(vault(&p), before);
    assert_eq!(
        p.take_events(),
        vec![Event::VaultClaimed(LOAN, (2, 5), CTOKEN, account(1), 40, VaultPhase::Succeeded)]
    );
    assert_eq!(p.claim(signed(1), LOAN, 2, 5), refused(Error::NoContributions));
    assert_eq!(p.runtime.balance(CTOKEN, account(1)), 40);
}

#[test]
fn a_claim_stays_a_claim_whatever_else_is_called() {
    let mut p = with_succeeded_vault();
    assert_eq!(p.claim_for(signed(5), 1, LOAN, 2, 5), Ok(()));
    assert_eq!(p.claim(signed(2), LOAN, 2, 5), Ok(()));
    assert_eq!(p.update_vault(Origin::Root, LOAN, Some(900), None, None), Ok(()));
    assert_eq!(p.set_vrf(Origin::Root, true), Ok(()));
    assert_eq!(
        p.create_vault(Origin::Root, 2001, CTOKEN + 1, 3, 6, ContributionStrategy::XCM, 5, 1_000),
        Ok(())
    );
    assert_eq!(p.claim(signed(1), LOAN, 2, 5), refused(Error::NoContributions));
    assert_eq!(p.claim_for(signed(5), 1, LOAN, 2, 5), refused(Error::NoContributions));
    assert_eq!(p.runtime.balance(CTOKEN, account(1)), 40);
}

#[test]
fn a_contribution_confirmed_late_can_be_claimed() {
    let mut p = with_open_vault();
    assert_eq!(p.contribute(signed(1), LOAN, 40, vec![]), Ok(()));
    assert_eq!(p.contribute(signed(1), LOAN, 30, vec![]), Ok(()));
    assert_eq!(confirm(&mut p, 0), Ok(()));
    assert_eq!(p.close(Origin::Root, LOAN), Ok(()));
    assert_eq!(p.auction_succeeded(Origin::Root, LOAN), Ok(()));
    assert_eq!(p.claim(signed(1), LOAN, 2, 5), Ok(()));
    assert_eq!(p.claim(signed(1), LOAN, 2, 5), refused(Error::NoContributions));
    assert_eq!(confirm(&mut p, 1), Ok(()));
    assert_eq!(p.claim(signed(1), LOAN, 2, 5), Ok(()));
    assert_eq!(p.runtime.balance(CTOKEN, account(1)), 70);
}

#[test]
fn the_books_balance_through_claims_and_redemptions() {
    let mut p = with_succeeded_vault();
    // confirmed 100, nothing claimed
    assert_eq!(p.claim(signed(1), LOAN, 2, 5), Ok(()));
    assert_eq!(p.slot_expired(Origin::Root, LOAN), Ok(()));
    assert_eq!(confirm(&mut p, 2), Ok(()));
    // 100 counted: 60 in the child trie, 40 claimed
    assert_eq!(vault(&p).contributed, 100);
    assert_eq!(held(&p, 2, ChildStorageKind::Contributed).amount, 60);
    assert_eq!(p.redeem(signed(1), LOAN, 2, 5, 15), Ok(()));
    // 85 counted: 60 in the child trie, 40 claimed, 15 redeemed
    assert_eq!(vault(&p).contributed, 85);
    assert_eq!(p.redeem(signed(1), LOAN, 2, 5, 25), Ok(()));
    assert_eq!(vault(&p).contributed, 60);
}

#[test]
fn derivatives_are_claimed_for_others() {
    let mut p = with_succeeded_vault();
    assert_eq!(p.claim_for(Origin::Root, 2, LOAN, 2, 5), Err(CallError::BadOrigin));
    assert_eq!(p.claim_for(signed(5), 0, LOAN, 2, 5), Err(CallError::CannotLookup));
    assert_eq!(p.claim_for(signed(5), 2, LOAN, 2, 5), Ok(()));
    assert_eq!(p.runtime.balance(CTOKEN, account(2)), 60);
    assert_eq!(p.runtime.balance(CTOKEN, account(5)), 0);
}

#[test]
fn claims_are_refused() {
    let mut p = with_closed_vault();
    assert_eq!(p.claim(Origin::Unsigned, LOAN, 2, 5), Err(CallError::BadOrigin));
    assert_eq!(p.claim(signed(1), LOAN, 2, 6), refused(Error::CTokenDoesNotExist));
    assert_eq!(p.claim(signed(1), 2001, 2, 5), refused(Error::VaultDoesNotExist));
    assert_eq!(p.claim(signed(1), LOAN, 2, 5), refused(Error::IncorrectVaultPhase));
    let mut p = with_succeeded_vault();
    p.runtime.chain.minting_fails = true;
    assert_eq!(p.claim(signed(1), LOAN, 2, 5), Err(CallError::Service(poor())));
    assert_eq!(held(&p, 1, ChildStorageKind::Contributed).amount, 40);
}

#[test]
fn a_claim_earns_a_bonus_over_time() {
    let mut p = with_succeeded_vault();
    let bonus = BonusConfig { bonus_per_token: 2, start_time: 10, end_time: 20 };
    assert_eq!(p.update_leases_bonus(Origin::Root, 2, 5, bonus), Ok(()));
    // 40 units of 10 decimals, twice, as units of 12 decimals
    assert_eq!(p.claim(signed(1), LOAN, 2, 5), Ok(()));
    assert_eq!(
        p.runtime.chain.sent.last(),
        Some(&Sent::Stream(P::account_id(), account(1), 8_000, NATIVE, 10, 20, false))
    );
    // without decimals there is no bonus, and the claim goes through
    p.runtime.chain.decimals.remove(&NATIVE);
    let sent = p.runtime.chain.sent.len();
    p.runtime.chain.streaming_fails = true;
    assert_eq!(p.claim(signed(2), LOAN, 2, 5), Ok(()));
    assert_eq!(p.runtime.chain.sent.len(), sent);
}

#[test]
fn a_bonus_that_cannot_be_paid_fails_the_claim() {
    let mut p = with_succeeded_vault();
    let bonus = BonusConfig { bonus_per_token: 2, start_time: 10, end_time: 20 };
    assert_eq!(p.update_leases_bonus(Origin::Root, 2, 5, bonus), Ok(()));
    p.runtime.chain.streaming_fails = true;
    assert_eq!(p.claim(signed(1), LOAN, 2, 5), Err(CallError::Service(poor())));
    assert_eq!(held(&p, 1, ChildStorageKind::Contributed).amount, 40);
    assert_eq!(p.runtime.balance(CTOKEN, account(1)), 0);
}

#[test]
fn a_failed_vault_pays_back_once() {
    let mut p = with_failed_vault();
    p.take_events();
    let before = p.runtime.balance(RELAY, account(1));
    assert_eq!(p.withdraw(signed(1), LOAN, 2, 5), Ok(()));
    assert_eq!(p.runtime.balance(RELAY, account(1)), before + 40);
    assert_eq!(vault(&p).contributed, 60);
    assert_eq!(held(&p, 1, ChildStorageKind::Contributed).amount, 0);
    assert_eq!(
        p.take_events(),
        vec![Event::VaultWithdrew(LOAN, (2, 5), account(1), 40, VaultPhase::Failed)]
    );
    assert_eq!(p.withdraw(signed(1), LOAN, 2, 5), refused(Error::NoContributions));
    assert_eq!(p.withdraw_for(signed(1), 0, LOAN, 2, 5), Err(CallError::CannotLookup));
    assert_eq!(p.withdraw_for(signed(1), 2, LOAN, 2, 5), Ok(()));
    assert_eq!(p.runtime.balance(RELAY, account(2)), 1_000);
    assert_eq!(vault(&p).contributed, 0);
}

#[test]
fn withdrawals_are_refused() {
    let mut p = with_closed_vault();
    assert_eq!(p.withdraw(Origin::Root, LOAN, 2, 5), Err(CallError::BadOrigin));
    assert_eq!(p.withdraw(signed(1), 2001, 2, 5), refused(Error::VaultDoesNotExist));
    assert_eq!(p.withdraw(signed(1), LOAN, 2, 5), refused(Error::IncorrectVaultPhase));
    let mut p = with_failed_vault();
    p.runtime.chain.minting_fails = true;
    assert_eq!(p.withdraw(signed(1), LOAN, 2, 5), Err(CallError::Service(poor())));
    assert_eq!(vault(&p).contributed, 100);
    let less = Vault { contributed: 39, ..vault(&p) };
    p.storage.vaults.insert((LOAN, 2, 5), less);
    assert_eq!(
        p.withdraw(signed(1), LOAN, 2, 5),
        Err(CallError::Arithmetic(ArithmeticError::Underflow))
    );
    assert_eq!(held(&p, 1, ChildStorageKind::Contributed).amount, 40);
}

#[test]
fn derivatives_are_redeemed() {
    let mut p = with_expired_vault();
    p.take_events();
    let before = p.runtime.balance(RELAY, account(1));
    assert_eq!(p.redeem(signed(1), LOAN, 2, 5, 41), refused(Error::InsufficientBalance));
    assert_eq!(p.redeem(signed(1), LOAN, 2, 5, 30), Ok(()));
    assert_eq!(p.runtime.balance(CTOKEN, account(1)), 10);
    assert_eq!(p.runtime.balance(RELAY, account(1)), before + 30);
    assert_eq!(vault(&p).contributed, 70);
    assert_eq!(
        p.take_events(),
        vec![Event::VaultRedeemed(LOAN, (2, 5), CTOKEN, account(1), 30, VaultPhase::Expired)]
    );
}

#[test]
fn what_was_claimed_is_redeemed_after_expiry() {
    let mut p = with_expired_vault();
    let before = p.runtime.balance(RELAY, account(1));
    assert_eq!(p.runtime.balance(CTOKEN, account(1)), 40);
    assert_eq!(p.redeem(signed(1), LOAN, 2, 5, 40), Ok(()));
    assert_eq!(p.runtime.balance(CTOKEN, account(1)), 0);
    assert_eq!(p.runtime.balance(RELAY, account(1)), before + 40);
    assert_eq!(vault(&p).contributed, 60);
    assert_eq!(p.redeem(signed(1), LOAN, 2, 5, 1), refused(Error::InsufficientBalance));
}

#[test]
fn a_failed_step_leaves_what_it_did_before() {
    // a change of a vault that fails writes nothing
    let mut p = with_closed_vault();
    let before = vault(&p);
    p.runtime.chain.xcm_fails = true;
    let recall = VaultChange::Recall(VaultPhase::Failed);
    assert_eq!(
        p.try_mutate_vault(LOAN, VaultPhase::Closed, recall),
        Err(CallError::Service(unreachable_relay()))
    );
    assert_eq!(vault(&p), before);
    // a report on a vault that is gone forgets no message
    let mut p = with_open_vault();
    assert_eq!(p.contribute(signed(1), LOAN, 40, vec![]), Ok(()));
    p.storage.vaults.remove(&(LOAN, 2, 5));
    let request = p.xcm_request(0).unwrap();
    assert_eq!(
        p.do_notification_received(0, request, None),
        refused(Error::VaultDoesNotExist)
    );
    assert!(p.xcm_request(0).is_some());
    // a claim that is refused forgets no contribution
    let mut p = with_closed_vault();
    assert_eq!(p.do_claim_for(account(1), LOAN, 2, 5), refused(Error::IncorrectVaultPhase));
    assert_eq!(held(&p, 1, ChildStorageKind::Contributed).amount, 40);
    // a withdrawal that cannot be paid out leaves the vault
    let mut p = with_failed_vault();
    p.runtime.chain.minting_fails = true;
    assert_eq!(p.do_withdraw_for(account(1), LOAN, 2, 5), Err(CallError::Service(poor())));
    assert_eq!(vault(&p).contributed, 100);
    assert_eq!(held(&p, 1, ChildStorageKind::Contributed).amount, 0);
}

#[test]
fn redemptions_are_refused() {
    let mut p = with_succeeded_vault();
    assert_eq!(p.redeem(Origin::Root, LOAN, 2, 5, 1), Err(CallError::BadOrigin));
    assert_eq!(p.redeem(signed(1), LOAN, 2, 6, 1), refused(Error::CTokenDoesNotExist));
    assert_eq!(p.redeem(signed(1), 2001, 2, 5, 1), refused(Error::VaultDoesNotExist));
    assert_eq!(p.redeem(signed(1), LOAN, 2, 5, 1), refused(Error::IncorrectVaultPhase));
    let mut p = with_expired_vault();
    p.runtime.chain.minting_fails = true;
    assert_eq!(p.redeem(signed(1), LOAN, 2, 5, 1), Err(CallError::Service(poor())));
    assert_eq!(p.runtime.balance(CTOKEN, account(1)), 40);
    let less = Vault { contributed: 0, ..vault(&p) };
    p.storage.vaults.insert((LOAN, 2, 5), less);
    assert_eq!(
        p.redeem(signed(1), LOAN, 2, 5, 1),
        Err(CallError::Arithmetic(ArithmeticError::Underflow))
    );
}

// ---- Refunding and dissolving ----

/// A closed vault with two confirmed contributions, one on its way and one held
/// back.
fn with_mixed_vault() -> P {
    let mut p = with_vault();
    assert_eq!(p.contribute(signed(4), LOAN, 14, vec![]), Ok(()));
    assert_eq!(p.open(Origin::Root, LOAN), Ok(()));
    for n in 1..4u8 {
        assert_eq!(p.contribute(signed(n), LOAN, 10 + n as Balance, vec![]), Ok(()));
    }
    assert_eq!(confirm(&mut p, 0), Ok(()));
    assert_eq!(confirm(&mut p, 1), Ok(()));
    assert_eq!(p.close(Origin::Root, LOAN), Ok(()));
    p.take_events();
    p
}

#[test]
fn a_closed_vault_is_refunded_in_steps_and_dissolved() {
    let mut p = with_mixed_vault();
    assert_eq!(
        p.dissolve_vault(Origin::Root, LOAN, 2, 5),
        refused(Error::NotReadyToDissolve)
    );
    assert_eq!(p.refund(Origin::Root, LOAN, 2, 5), Ok(()));
    let v = vault(&p);
    assert_eq!((v.pending, v.flying, v.contributed), (14, 0, 0));
    assert!(p.has_childstorage(&v));
    assert_eq!(p.refund(Origin::Root, LOAN, 2, 5), Ok(()));
    let v = vault(&p);
    assert_eq!(P::total_contribution(&v), Ok(0));
    assert!(!p.has_childstorage(&v));
    for n in 1..5u8 {
        assert_eq!(p.runtime.balance(RELAY, account(n)), 1_000);
    }
    assert_eq!(p.runtime.balance(RELAY, P::account_id()), 0);
    assert_eq!(p.dissolve_vault(signed(1), LOAN, 2, 5), Err(CallError::BadOrigin));
    assert_eq!(p.dissolve_vault(Origin::Root, LOAN, 2, 5), Ok(()));
    assert_eq!(p.vaults((LOAN, 2, 5)), None);
    assert_eq!(p.current_lease(LOAN), None);
    assert_eq!(p.ctoken_of((2, 5)), Some(CTOKEN));
    assert_eq!(
        p.take_events(),
        vec![
            Event::PartiallyRefunded(LOAN, (2, 5)),
            Event::AllRefunded(LOAN, (2, 5)),
            Event::VaultDissolved(LOAN, (2, 5)),
        ]
    );
    // a new vault for the same lease has an index of its own
    assert_eq!(create(&mut p), Ok(()));
    assert_eq!(vault(&p).trie_index, 1);
}

#[test]
fn refunds_are_refused() {
    let mut p = with_open_vault();
    assert_eq!(p.refund(signed(1), LOAN, 2, 5), Err(CallError::BadOrigin));
    assert_eq!(p.refund(Origin::Root, 2001, 2, 5), refused(Error::VaultDoesNotExist));
    assert_eq!(p.refund(Origin::Root, LOAN, 2, 5), refused(Error::IncorrectVaultPhase));
    let mut p = with_mixed_vault();
    p.runtime.chain.minting_fails = true;
    let before = vault(&p);
    assert_eq!(p.refund(Origin::Root, LOAN, 2, 5), Err(CallError::Service(poor())));
    assert_eq!(vault(&p), before);
}

#[test]
fn a_failed_vault_can_be_refunded_too() {
    let mut p = with_failed_vault();
    assert_eq!(p.refund(Origin::Root, LOAN, 2, 5), Ok(()));
    assert_eq!(vault(&p).contributed, 0);
    assert_eq!(p.runtime.balance(RELAY, account(1)), 1_000);
    assert_eq!(p.withdraw(signed(1), LOAN, 2, 5), refused(Error::NoContributions));
}

#[test]
fn one_account_is_refunded() {
    let mut p = with_mixed_vault();
    let kind = ChildStorageKind::Contributed;
    assert_eq!(
        p.refund_for(signed(1), 1, LOAN, kind, 5, 2, 5),
        Err(CallError::BadOrigin)
    );
    assert_eq!(
        p.refund_for(Origin::Root, 0, LOAN, kind, 5, 2, 5),
        Err(CallError::CannotLookup)
    );
    assert_eq!(
        p.refund_for(Origin::Root, 1, 2001, kind, 5, 2, 5),
        refused(Error::VaultDoesNotExist)
    );
    assert_eq!(
        p.refund_for(Origin::Root, 1, LOAN, kind, 12, 2, 5),
        refused(Error::InsufficientContribution)
    );
    assert_eq!(p.refund_for(Origin::Root, 1, LOAN, kind, 5, 2, 5), Ok(()));
    assert_eq!(held(&p, 1, kind).amount, 6);
    assert_eq!(vault(&p).contributed, 18);
    assert_eq!(
        p.take_events(),
        vec![Event::UserRefunded(LOAN, (2, 5), account(1), kind, 5)]
    );
    let mut p = with_open_vault();
    assert_eq!(
        p.refund_for(Origin::Root, 1, LOAN, kind, 5, 2, 5),
        refused(Error::IncorrectVaultPhase)
    );
}

#[test]
fn only_a_vault_that_is_over_is_dissolved() {
    let mut p = with_vault();
    assert_eq!(
        p.dissolve_vault(Origin::Root, LOAN, 2, 6),
        refused(Error::VaultDoesNotExist)
    );
    assert_eq!(
        p.dissolve_vault(Origin::Root, LOAN, 2, 5),
        refused(Error::IncorrectVaultPhase)
    );
    // nothing is left in the child tries, yet not all derivatives were redeemed
    let mut p = with_expired_vault();
    p.contribution_kill(0, &account(2), ChildStorageKind::Contributed);
    assert_eq!(
        p.dissolve_vault(Origin::Root, LOAN, 2, 5),
        refused(Error::NotReadyToDissolve)
    );
}

#[test]
fn dissolving_an_old_vault_leaves_the_new_one() {
    let mut p = with_failed_vault();
    assert_eq!(p.refund(Origin::Root, LOAN, 2, 5), Ok(()));
    assert_eq!(
        p.create_vault(Origin::Root, LOAN, 4001, 3, 6, ContributionStrategy::XCM, 5, 1_000),
        Ok(())
    );
    assert_eq!(p.dissolve_vault(Origin::Root, LOAN, 2, 5), Ok(()));
    assert_eq!(p.current_lease(LOAN), Some((3, 6)));
}

// ---- Settings ----

#[test]
fn the_proxy_address_is_updated() {
    let mut p = new_pallet();
    assert_eq!(p.proxy_address(), None);
    assert_eq!(p.update_proxy(signed(9), account(5)), Err(CallError::BadOrigin));
    assert_eq!(p.update_proxy(Origin::Root, account(5)), Ok(()));
    assert_eq!(p.proxy_address(), Some(account(5)));
    assert_eq!(p.take_events(), vec![Event::ProxyUpdated(account(5))]);
}

#[test]
fn the_bonus_of_a_lease_is_updated() {
    let mut p = new_pallet();
    let none = BonusConfig { bonus_per_token: 0, start_time: 0, end_time: 0 };
    let bonus = BonusConfig { bonus_per_token: 2, start_time: 10, end_time: 20 };
    let wrong = BonusConfig { bonus_per_token: 2, start_time: 21, end_time: 20 };
    assert_eq!(p.leases_bonus((2, 5)), none);
    assert_eq!(p.update_leases_bonus(signed(1), 2, 5, bonus), Err(CallError::BadOrigin));
    assert_eq!(
        p.update_leases_bonus(Origin::Root, 6, 5, bonus),
        refused(Error::LastPeriodBeforeFirstPeriod)
    );
    assert_eq!(
        p.update_leases_bonus(Origin::Root, 5, 5, bonus),
        refused(Error::LastPeriodBeforeFirstPeriod)
    );
    assert_eq!(
        p.update_leases_bonus(Origin::Root, 2, 5, wrong),
        refused(Error::WrongBonusConfig)
    );
    assert_eq!(p.leases_bonus((2, 5)), none);
    assert_eq!(p.update_leases_bonus(Origin::Root, 2, 5, bonus), Ok(()));
    assert_eq!(p.leases_bonus((2, 5)), bonus);
    assert_eq!(p.take_events(), vec![Event::LeasesBonusUpdated((2, 5), bonus)]);
}

#[test]
fn storage_is_duplicated() {
    let p = with_mixed_vault();
    let copy = p.storage.duplicate();
    assert_eq!(copy.vaults.get(&(LOAN, 2, 5)), p.vaults((LOAN, 2, 5)));
    assert_eq!(copy.contributions.len(), 4);
    assert_eq!(copy.next_trie_index, 1);
    assert_eq!(copy.xcm_requests.get(&2), p.xcm_request(2));
}

// ---- Rates ----

#[test]
fn amounts_are_normalized() {
    let mut p = new_pallet();
    assert_eq!(p.normalized_amount(7), Some(700));
    assert_eq!(p.normalized_amount(Balance::MAX), None);
    p.runtime.chain.decimals.insert(NATIVE, 10);
    assert_eq!(p.normalized_amount(7), Some(7));
    p.runtime.chain.decimals.insert(NATIVE, 8);
    assert_eq!(p.normalized_amount(799), Some(7));
    p.runtime.chain.decimals.remove(&RELAY);
    assert_eq!(p.normalized_amount(7), None);
}

#[test]
fn the_lease_of_a_derivative_is_found_by_storage_key() {
    let mut p = new_pallet();
    assert_eq!(p.find_vault_by_asset_id(CTOKEN), None);
    assert!(!p.contains(CTOKEN));
    let mut expected: Vec<(Vec<u8>, (u32, u32))> = Vec::new();
    for i in 1..31u32 {
        let id = (i, 100 - i);
        p.storage.ctokens_registry.insert(id, CTOKEN);
        let mut key = Blake2_128Concat::hash(&id.0.to_le_bytes());
        key.extend(Blake2_128Concat::hash(&id.1.to_le_bytes()));
        expected.push((key, id));
    }
    p.storage.ctokens_registry.insert((500, 600), CTOKEN + 1);
    expected.sort();
    assert_eq!(p.find_vault_by_asset_id(CTOKEN), Some(expected[0].1));
    assert_ne!(expected[0].1, (1, 99));
    assert_eq!(p.find_vault_by_asset_id(CTOKEN + 1), Some((500, 600)));
    assert!(p.contains(CTOKEN));
    assert!(!p.contains(CTOKEN + 2));
}

#[test]
fn the_term_of_a_lease_goes_from_nothing_to_one() {
    let one = 1_000_000_000_000_000_000u128;
    let mut p = new_pallet();
    p.runtime.chain.block = 0;
    assert_eq!(p.get_vault_term_rate((2, 5)), None);
    // the lease (2, 5) runs from block 230 up to block 630
    for (block, rate) in [
        (1, 0),
        (229, 0),
        (230, 0),
        (231, one / 400),
        (330, one / 4),
        (629, 997_500_000_000_000_000),
        (630, one),
        (5_000, one),
    ] {
        p.runtime.chain.block = block;
        assert_eq!(p.get_vault_term_rate((2, 5)), Some((rate, one)));
    }
    // three of four periods of a year
    p.runtime.chain.block = 230;
    assert_eq!(
        p.get_vault_term_rate((1, 3)),
        Some((333_333_333_333_333_333, 750_000_000_000_000_000))
    );
}

#[test]
fn the_term_of_a_derivative_is_that_of_its_lease() {
    let one = 1_000_000_000_000_000_000u128;
    let mut p = with_vault();
    p.runtime.chain.block = 330;
    assert_eq!(p.get_exchange_term(CTOKEN), Ok(Some((one / 4, one))));
    assert_eq!(p.get_exchange_term(CTOKEN + 1), Ok(None));
    p.storage.ctokens_registry.insert((7, u32::MAX), CTOKEN + 1);
    assert!(p.get_exchange_term(CTOKEN + 1).is_err());
    p.runtime.chain.block = 0;
    assert_eq!(p.get_exchange_term(CTOKEN), Ok(None));
    assert_eq!(p.get_exchange_term(CTOKEN + 1), Ok(None));
}
