//! The values that crowdloan vaults are made of.
use sp_runtime::DispatchError;
use staging_xcm::v3::prelude::XcmError;
use staging_xcm::v3::MultiLocation;
use vstd::prelude::*;

use crate::bytes::{bytes_copy, bytes_equal};
use crate::storage_map::{Stored, StoredKey};

verus! {

/// Identifies a parachain, and so its crowdloan.
pub type ParaId = u32;

/// The index of a lease period of the relay chain.
pub type LeasePeriod = u32;

/// The first and the last lease period that a vault bids for.
pub type VaultId = (LeasePeriod, LeasePeriod);

/// Where a vault is kept: the crowdloan, and its first and last lease period.
pub type VaultKey = (ParaId, LeasePeriod, LeasePeriod);

/// Numbers the vaults in the order of their creation.
pub type TrieIndex = u32;

/// Identifies a currency.
pub type CurrencyId = u32;

/// An amount of some currency.
pub type Balance = u128;

/// A block height.
pub type BlockNumber = u32;

/// A point in time, in seconds.
pub type Timestamp = u64;

/// Identifies a message to the relay chain that an answer is expected to.
pub type QueryId = u64;

/// A rate in units of 10^-18, which is what `FixedU128` holds inside.
pub type Rate = u128;

/// A public key.
pub type AccountId = [u8; 32];

/// The stages in the life of a vault.
#[derive(Debug, Clone, Copy, PartialEq, Eq, Structural)]
pub enum VaultPhase {
    /// Created, not open yet: contributions are kept back.
    Pending,
    /// Open: contributions are passed on to the relay chain.
    Contributing,
    /// No contributions are accepted.
    Closed,
    /// The auction was lost and the contributions came back.
    Failed,
    /// The auction was won.
    Succeeded,
    /// The lease is over and the contributions came back.
    Expired,
}

/// How contributions reach the relay chain.
#[derive(Debug, Clone, Copy, PartialEq, Eq, Structural)]
pub enum ContributionStrategy {
    /// By a message on the contributor's behalf.
    XCM,
    /// By a message through the proxy account.
    XCMPROXY,
}

/// The three stages of a contribution, each kept in a store of its own.
#[derive(Debug, Clone, Copy, PartialEq, Eq, Structural)]
pub enum ChildStorageKind {
    /// Held back until the vault opens.
    Pending,
    /// On its way to the relay chain.
    Flying,
    /// Confirmed by the relay chain.
    Contributed,
}

/// Whether an amount is added or taken away.
#[derive(Debug, Clone, Copy, PartialEq, Eq, Structural)]
pub enum ArithmeticKind {
    Addition,
    Subtraction,
}

/// A vault: the contributions to one crowdloan for one lease.
#[derive(Debug, Clone, Copy, PartialEq, Eq, Structural)]
pub struct Vault {
    /// The first lease period.
    pub lease_start: LeasePeriod,
    /// The last lease period.
    pub lease_end: LeasePeriod,
    /// The derivative that stands for contributed assets.
    pub ctoken: CurrencyId,
    pub phase: VaultPhase,
    pub contribution_strategy: ContributionStrategy,
    /// The sum of all contributions may not go beyond this.
    pub cap: Balance,
    /// The last block at which contributions are accepted.
    pub end_block: BlockNumber,
    /// Tells the contributions to this vault from those to others.
    pub trie_index: TrieIndex,
    /// The sum of confirmed contributions.
    pub contributed: Balance,
    /// The sum of contributions that are held back.
    pub pending: Balance,
    /// The sum of contributions that are on their way.
    pub flying: Balance,
}

impl Vault {
    /// The vault as it is created: nothing contributed, not open yet.
    pub open spec fn fresh(
        lease_start: LeasePeriod,
        lease_end: LeasePeriod,
        ctoken: CurrencyId,
        contribution_strategy: ContributionStrategy,
        cap: Balance,
        end_block: BlockNumber,
        trie_index: TrieIndex,
    ) -> Vault {
        Vault {
            lease_start,
            lease_end,
            ctoken,
            phase: VaultPhase::Pending,
            contribution_strategy,
            cap,
            end_block,
            trie_index,
            contributed: 0,
            pending: 0,
            flying: 0,
        }
    }

    /// A new vault.
    pub fn new(
        lease_start: LeasePeriod,
        lease_end: LeasePeriod,
        ctoken: CurrencyId,
        contribution_strategy: ContributionStrategy,
        cap: Balance,
        end_block: BlockNumber,
        trie_index: TrieIndex,
    ) -> (r: Vault)
        ensures
            r == Vault::fresh(
                lease_start,
                lease_end,
                ctoken,
                contribution_strategy,
                cap,
                end_block,
                trie_index,
            ),
    {
        Vault {
            lease_start,
            lease_end,
            ctoken,
            phase: VaultPhase::Pending,
            contribution_strategy,
            cap,
            end_block,
            trie_index,
            contributed: 0,
            pending: 0,
            flying: 0,
        }
    }

    /// The vault's lease.
    pub open spec fn id(self) -> VaultId {
        (self.lease_start, self.lease_end)
    }

    /// The sum of the contributions of one kind.
    pub open spec fn sum_of(self, kind: ChildStorageKind) -> Balance {
        match kind {
            ChildStorageKind::Pending => self.pending,
            ChildStorageKind::Flying => self.flying,
            ChildStorageKind::Contributed => self.contributed,
        }
    }

    /// The vault with another sum for one kind.
    pub open spec fn with_sum(self, kind: ChildStorageKind, sum: Balance) -> Vault {
        match kind {
            ChildStorageKind::Pending => Vault { pending: sum, ..self },
            ChildStorageKind::Flying => Vault { flying: sum, ..self },
            ChildStorageKind::Contributed => Vault { contributed: sum, ..self },
        }
    }

    /// The sum of all contributions.
    pub open spec fn grand_total(self) -> int {
        self.contributed + self.flying + self.pending
    }
}

/// What a claim earns on top, paid out over a span of time.
#[derive(Debug, Clone, Copy, PartialEq, Eq, Structural)]
pub struct BonusConfig {
    /// Units of bonus for each unit contributed.
    pub bonus_per_token: Balance,
    pub start_time: Timestamp,
    pub end_time: Timestamp,
}

impl BonusConfig {
    /// The bonus where none was set.
    pub open spec fn none() -> BonusConfig {
        BonusConfig { bonus_per_token: 0, start_time: 0, end_time: 0 }
    }
}

impl Default for BonusConfig {
    fn default() -> (r: Self)
        ensures
            r == BonusConfig::none(),
    {
        BonusConfig { bonus_per_token: 0, start_time: 0, end_time: 0 }
    }
}

/// What one account contributed, and the referral code that came with it.
#[derive(Debug, PartialEq, Eq)]
pub struct Contribution<C = Vec<u8>> {
    pub amount: Balance,
    pub referral_code: C,
}

/// Where a contribution is kept: the child trie, and the account in it.
#[derive(Debug, PartialEq, Eq)]
pub struct ContributionKey<B = Vec<u8>> {
    /// The storage key of the child trie.
    pub child: B,
    pub who: AccountId,
}

/// A message to the relay chain whose outcome is awaited.
#[derive(Debug, PartialEq, Eq)]
pub enum XcmRequest<C = Vec<u8>> {
    Contribute {
        crowdloan: ParaId,
        vault_id: VaultId,
        who: AccountId,
        amount: Balance,
        referral_code: C,
    },
    Withdraw { crowdloan: ParaId, vault_id: VaultId, amount: Balance, target_phase: VaultPhase },
}

/// What the relay chain answers to a query.
#[derive(Debug, Clone, Copy, PartialEq, Eq)]
pub enum Response {
    /// Nothing.
    Null,
    /// How a message was executed: `None` where it succeeded, else the
    /// instruction that failed and why.
    ExecutionResult(Option<(u32, XcmError)>),
    /// An answer that does not concern vaults.
    Other,
}

/// The call with which the relay chain reports back.
#[derive(Debug, Clone, Copy, PartialEq, Eq)]
pub struct NotificationCall {
    pub query_id: QueryId,
    pub response: Response,
}

/// Who a call comes from. `O` is what a runtime adds to the origins named here.
#[derive(Debug, PartialEq, Eq)]
pub enum Origin<O> {
    Root,
    Signed(AccountId),
    /// Nobody in particular.
    Unsigned,
    /// An answer from another chain.
    Response(MultiLocation),
    Other(O),
}

/// The privileges that calls ask for.
#[derive(Debug, Clone, Copy, PartialEq, Eq, Structural)]
pub enum RequiredOrigin {
    /// May update the proxy address.
    ProxyOrigin,
    /// May migrate pending contributions.
    MigrateOrigin,
    /// May set the VRF flag.
    VrfOrigin,
    /// May create vaults.
    CreateOrigin,
    /// May refund.
    RefundOrigin,
    /// May dissolve vaults.
    DissolveOrigin,
    /// May update vaults.
    UpdateOrigin,
    /// May open, close and reopen vaults.
    OpenCloseOrigin,
    /// May report the outcome of an auction.
    AuctionSucceededFailedOrigin,
    /// May report that a slot expired.
    SlotExpiredOrigin,
}

/// What a runtime fixes once and for all.
#[derive(Debug, Clone, Copy, PartialEq, Eq)]
pub struct Constants {
    /// The parachain we are running as.
    pub self_para_id: ParaId,
    /// The currency of the relay chain.
    pub relay_currency: CurrencyId,
    /// The currency of this chain.
    pub native_currency: CurrencyId,
    /// Identifies the account that collects contributions.
    pub pallet_id: [u8; 8],
    /// The least amount that is accepted as a contribution.
    pub min_contribution: Balance,
    /// How many contributions are migrated in one call at most.
    pub migrate_keys_limit: u32,
    /// How many contributions are refunded in one call at most.
    pub remove_keys_limit: u32,
    /// The length of a lease period in blocks of the relay chain.
    pub lease_period: BlockNumber,
    /// The block at which the first lease period begins.
    pub lease_offset: BlockNumber,
    /// The number of lease periods in a year.
    pub lease_per_year: BlockNumber,
}

/// What happened. `C` is how referral codes are held.
#[derive(Debug, PartialEq, Eq)]
pub enum Event<C = Vec<u8>> {
    /// New vault was created
    /// [para_id, vault_id, ctoken_id, phase, contribution_strategy, cap, end_block, trie_index]
    VaultCreated(
        ParaId,
        VaultId,
        CurrencyId,
        VaultPhase,
        ContributionStrategy,
        Balance,
        BlockNumber,
        TrieIndex,
    ),
    /// Existing vault was updated
    /// [para_id, vault_id, contribution_strategy, cap, end_block]
    VaultUpdated(ParaId, VaultId, ContributionStrategy, Balance, BlockNumber),
    /// Vault changed its phase
    /// [para_id, vault_id, pre_phase, now_phase]
    VaultPhaseUpdated(ParaId, VaultId, VaultPhase, VaultPhase),
    /// Vault is trying to do contributing
    /// [para_id, vault_id, contributor, amount, referral_code]
    VaultDoContributing(ParaId, VaultId, AccountId, Balance, C),
    /// Vault is trying to do withdrawing
    /// [para_id, vault_id, amount, target_phase]
    VaultDoWithdrawing(ParaId, VaultId, Balance, VaultPhase),
    /// Vault successfully contributed
    /// [para_id, vault_id, contributor, amount, referral_code]
    VaultContributed(ParaId, VaultId, AccountId, Balance, C),
    /// A user claimed CToken from vault
    /// [para_id, vault_id, ctoken_id, account, amount, phase]
    VaultClaimed(ParaId, VaultId, CurrencyId, AccountId, Balance, VaultPhase),
    /// A user withdrew contributed assets from vault
    /// [para_id, vault_id, account, amount, phase]
    VaultWithdrew(ParaId, VaultId, AccountId, Balance, VaultPhase),
    /// A user redeemed contributed assets using CToken
    /// [para_id, vault_id, ctoken_id, account, amount, phase]
    VaultRedeemed(ParaId, VaultId, CurrencyId, AccountId, Balance, VaultPhase),
    /// Vrf flag updated
    /// [vrf_flag]
    VrfUpdated(bool),
    /// Notification received
    /// [multi_location, query_id, res]
    NotificationReceived(Box<MultiLocation>, QueryId, Option<(u32, XcmError)>),
    /// All contributions migrated
    /// [para_id, vault_id]
    AllMigrated(ParaId, VaultId),
    /// Contributions partially migrated
    /// [para_id, vault_id]
    PartiallyMigrated(ParaId, VaultId),
    /// Vault has been dissolved
    /// [para_id, vault_id]
    VaultDissolved(ParaId, VaultId),
    /// All contributions refunded
    /// [para_id, vault_id]
    AllRefunded(ParaId, VaultId),
    /// Contributions partially refunded
    /// [para_id, vault_id]
    PartiallyRefunded(ParaId, VaultId),
    /// One user was refunded
    /// [para_id, vault_id, account, child_storage_kind, amount]
    UserRefunded(ParaId, VaultId, AccountId, ChildStorageKind, Balance),
    /// Proxy address updated
    /// [account]
    ProxyUpdated(AccountId),
    /// Leases bonus updated
    /// [vault_id, bonus_config]
    LeasesBonusUpdated(VaultId, BonusConfig),
}

/// Why a call is refused.
#[derive(Debug, Clone, Copy, PartialEq, Eq, Structural)]
pub enum Error {
    /// Vault is not in correct phase
    IncorrectVaultPhase,
    /// Crowdloan ParaId already exists
    CrowdloanAlreadyExists,
    /// Contribution is not enough
    InsufficientContribution,
    /// There are no contributions stored in contributed childstorage
    NoContributions,
    /// Balance is not enough
    InsufficientBalance,
    /// Last lease period must be greater than first lease period.
    LastPeriodBeforeFirstPeriod,
    /// CToken does not exist
    CTokenDoesNotExist,
    /// Vault already exists
    VaultAlreadyExists,
    /// Vault does not exist
    VaultDoesNotExist,
    /// CToken for provided (leaseStart, leaseEnd) is different with what has been created previously
    InvalidCToken,
    /// Vault for provided ParaId not ended
    VaultNotEnded,
    /// No contributions allowed during the VRF delay
    VrfDelayInProgress,
    /// Attempted contribution violates contribution cap
    CapExceeded,
    /// Current relay block is greater than vault end block
    EndBlockExceeded,
    /// Capacity cannot be zero value
    InvalidCap,
    /// Invalid params input
    InvalidParams,
    /// Vault is not ready to be dissolved
    NotReadyToDissolve,
    /// Proxy address is empty
    EmptyProxyAddress,
    /// BonusConfig is wrong
    WrongBonusConfig,
}

/// An amount that cannot be computed.
#[derive(Debug, Clone, Copy, PartialEq, Eq, Structural)]
pub enum ArithmeticError {
    Underflow,
    Overflow,
}

/// No account answers to an address.
#[derive(Debug, Clone, Copy, PartialEq, Eq, Structural)]
pub struct LookupError;

/// Why a call failed.
#[derive(Debug, Clone, Copy, PartialEq, Eq)]
pub enum CallError {
    /// No account answers to the address given.
    CannotLookup,
    /// The caller lacks the privilege.
    BadOrigin,
    /// The call is refused.
    Module(Error),
    /// An amount cannot be computed.
    Arithmetic(ArithmeticError),
    /// A service of the runtime failed.
    Service(DispatchError),
}

/// How a call ends.
pub type CallResult = Result<(), CallError>;

impl View for Contribution<Vec<u8>> {
    type V = Contribution<Seq<u8>>;

    open spec fn view(&self) -> Contribution<Seq<u8>> {
        Contribution { amount: self.amount, referral_code: self.referral_code@ }
    }
}

impl View for ContributionKey<Vec<u8>> {
    type V = ContributionKey<Seq<u8>>;

    open spec fn view(&self) -> ContributionKey<Seq<u8>> {
        ContributionKey { child: self.child@, who: self.who }
    }
}

impl View for XcmRequest<Vec<u8>> {
    type V = XcmRequest<Seq<u8>>;

    open spec fn view(&self) -> XcmRequest<Seq<u8>> {
        match *self {
            XcmRequest::Contribute { crowdloan, vault_id, who, amount, referral_code } => {
                XcmRequest::Contribute {
                    crowdloan,
                    vault_id,
                    who,
                    amount,
                    referral_code: referral_code@,
                }
            },
            XcmRequest::Withdraw { crowdloan, vault_id, amount, target_phase } => {
                XcmRequest::Withdraw { crowdloan, vault_id, amount, target_phase }
            },
        }
    }
}

impl View for Event<Vec<u8>> {
    type V = Event<Seq<u8>>;

    open spec fn view(&self) -> Event<Seq<u8>> {
        match *self {
            Event::VaultCreated(a, b, c, d, e, f, g, h) => Event::VaultCreated(
                a,
                b,
                c,
                d,
                e,
                f,
                g,
                h,
            ),
            Event::VaultUpdated(a, b, c, d, e) => Event::VaultUpdated(a, b, c, d, e),
            Event::VaultPhaseUpdated(a, b, c, d) => Event::VaultPhaseUpdated(a, b, c, d),
            Event::VaultDoContributing(a, b, c, d, code) => {
                Event::VaultDoContributing(a, b, c, d, code@)
            },
            Event::VaultDoWithdrawing(a, b, c, d) => Event::VaultDoWithdrawing(a, b, c, d),
            Event::VaultContributed(a, b, c, d, code) => Event::VaultContributed(a, b, c, d, code@),
            Event::VaultClaimed(a, b, c, d, e, f) => Event::VaultClaimed(a, b, c, d, e, f),
            Event::VaultWithdrew(a, b, c, d, e) => Event::VaultWithdrew(a, b, c, d, e),
            Event::VaultRedeemed(a, b, c, d, e, f) => Event::VaultRedeemed(a, b, c, d, e, f),
            Event::VrfUpdated(a) => Event::VrfUpdated(a),
            Event::NotificationReceived(a, b, c) => Event::NotificationReceived(a, b, c),
            Event::AllMigrated(a, b) => Event::AllMigrated(a, b),
            Event::PartiallyMigrated(a, b) => Event::PartiallyMigrated(a, b),
            Event::VaultDissolved(a, b) => Event::VaultDissolved(a, b),
            Event::AllRefunded(a, b) => Event::AllRefunded(a, b),
            Event::PartiallyRefunded(a, b) => Event::PartiallyRefunded(a, b),
            Event::UserRefunded(a, b, c, d, e) => Event::UserRefunded(a, b, c, d, e),
            Event::ProxyUpdated(a) => Event::ProxyUpdated(a),
            Event::LeasesBonusUpdated(a, b) => Event::LeasesBonusUpdated(a, b),
        }
    }
}

impl Stored for Event<Vec<u8>> {
    fn duplicate(&self) -> (r: Self) {
        match self {
            Event::VaultCreated(a, b, c, d, e, f, g, h) => Event::VaultCreated(
                *a,
                *b,
                *c,
                *d,
                *e,
                *f,
                *g,
                *h,
            ),
            Event::VaultUpdated(a, b, c, d, e) => Event::VaultUpdated(*a, *b, *c, *d, *e),
            Event::VaultPhaseUpdated(a, b, c, d) => Event::VaultPhaseUpdated(*a, *b, *c, *d),
            Event::VaultDoContributing(a, b, c, d, code) => Event::VaultDoContributing(
                *a,
                *b,
                *c,
                *d,
                bytes_copy(code),
            ),
            Event::VaultDoWithdrawing(a, b, c, d) => Event::VaultDoWithdrawing(*a, *b, *c, *d),
            Event::VaultContributed(a, b, c, d, code) => Event::VaultContributed(
                *a,
                *b,
                *c,
                *d,
                bytes_copy(code),
            ),
            Event::VaultClaimed(a, b, c, d, e, f) => Event::VaultClaimed(*a, *b, *c, *d, *e, *f),
            Event::VaultWithdrew(a, b, c, d, e) => Event::VaultWithdrew(*a, *b, *c, *d, *e),
            Event::VaultRedeemed(a, b, c, d, e, f) => Event::VaultRedeemed(*a, *b, *c, *d, *e, *f),
            Event::VrfUpdated(a) => Event::VrfUpdated(*a),
            Event::NotificationReceived(a, b, c) => {
                Event::NotificationReceived(Box::new(**a), *b, *c)
            },
            Event::AllMigrated(a, b) => Event::AllMigrated(*a, *b),
            Event::PartiallyMigrated(a, b) => Event::PartiallyMigrated(*a, *b),
            Event::VaultDissolved(a, b) => Event::VaultDissolved(*a, *b),
            Event::AllRefunded(a, b) => Event::AllRefunded(*a, *b),
            Event::PartiallyRefunded(a, b) => Event::PartiallyRefunded(*a, *b),
            Event::UserRefunded(a, b, c, d, e) => Event::UserRefunded(*a, *b, *c, *d, *e),
            Event::ProxyUpdated(a) => Event::ProxyUpdated(*a),
            Event::LeasesBonusUpdated(a, b) => Event::LeasesBonusUpdated(*a, *b),
        }
    }
}

impl Stored for Contribution<Vec<u8>> {
    fn duplicate(&self) -> (r: Self) {
        Contribution { amount: self.amount, referral_code: bytes_copy(&self.referral_code) }
    }
}

impl Stored for ContributionKey<Vec<u8>> {
    fn duplicate(&self) -> (r: Self) {
        ContributionKey { child: bytes_copy(&self.child), who: self.who }
    }
}

impl StoredKey for ContributionKey<Vec<u8>> {
    fn same(&self, other: &Self) -> (r: bool) {
        let child = bytes_equal(&self.child, &other.child);
        let who = same_account(&self.who, &other.who);
        child && who
    }
}

/// Whether two accounts are the same.
pub fn same_account(a: &AccountId, b: &AccountId) -> (r: bool)
    ensures
        r == (*a == *b),
        r == (a@ == b@),
{
    let r = bytes_equal(a.as_slice(), b.as_slice());
    assert(a@ == b@ ==> *a =~= *b);
    r
}

impl Stored for XcmRequest<Vec<u8>> {
    fn duplicate(&self) -> (r: Self) {
        match self {
            XcmRequest::Contribute { crowdloan, vault_id, who, amount, referral_code } => {
                XcmRequest::Contribute {
                    crowdloan: *crowdloan,
                    vault_id: *vault_id,
                    who: *who,
                    amount: *amount,
                    referral_code: bytes_copy(referral_code),
                }
            },
            XcmRequest::Withdraw { crowdloan, vault_id, amount, target_phase } => {
                XcmRequest::Withdraw {
                    crowdloan: *crowdloan,
                    vault_id: *vault_id,
                    amount: *amount,
                    target_phase: *target_phase,
                }
            },
        }
    }
}

impl View for Vault {
    type V = Vault;

    open spec fn view(&self) -> Vault {
        *self
    }
}

impl Stored for Vault {
    fn duplicate(&self) -> (r: Self) {
        *self
    }
}

impl View for BonusConfig {
    type V = BonusConfig;

    open spec fn view(&self) -> BonusConfig {
        *self
    }
}

impl Stored for BonusConfig {
    fn duplicate(&self) -> (r: Self) {
        *self
    }
}

impl Stored for u32 {
    fn duplicate(&self) -> (r: Self) {
        *self
    }
}

impl StoredKey for u32 {
    fn same(&self, other: &Self) -> (r: bool) {
        *self == *other
    }
}

impl Stored for u64 {
    fn duplicate(&self) -> (r: Self) {
        *self
    }
}

impl StoredKey for u64 {
    fn same(&self, other: &Self) -> (r: bool) {
        *self == *other
    }
}

impl Stored for (u32, u32) {
    fn duplicate(&self) -> (r: Self) {
        *self
    }
}

impl StoredKey for (u32, u32) {
    fn same(&self, other: &Self) -> (r: bool) {
        self.0 == other.0 && self.1 == other.1
    }
}

impl Stored for (u32, u32, u32) {
    fn duplicate(&self) -> (r: Self) {
        *self
    }
}

impl StoredKey for (u32, u32, u32) {
    fn same(&self, other: &Self) -> (r: bool) {
        self.0 == other.0 && self.1 == other.1 && self.2 == other.2
    }
}

} // verus!
