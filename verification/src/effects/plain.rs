//! The few words that the effects of calls are told in.
use sp_runtime::DispatchError;
use vstd::prelude::*;

use crate::config::Config;
use crate::state::State;
use crate::types::{
    AccountId, Balance, Contribution, ContributionKey, ContributionStrategy, NotificationCall,
    Origin, ParaId, QueryId, RequiredOrigin, Response, VaultKey,
};

verus! {

/// An origin has a privilege or is an account of the automation group.
pub open spec fn may<T: Config>(
    runtime: T,
    required: RequiredOrigin,
    origin: Origin<T::OtherOrigin>,
) -> bool {
    runtime.spec_ensure_origin(required, origin) || match origin {
        Origin::Signed(who) => runtime.spec_is_member(who),
        _ => false,
    }
}

/// The amount that an account has in a child trie.
pub open spec fn amount_in(
    m: Map<ContributionKey<Seq<u8>>, Contribution<Seq<u8>>>,
    child: Seq<u8>,
    who: AccountId,
) -> int {
    if m.contains_key(ContributionKey { child, who }) {
        m[ContributionKey { child, who }].amount as int
    } else {
        0
    }
}

/// The referral code that an account has in a child trie.
pub open spec fn code_in(
    m: Map<ContributionKey<Seq<u8>>, Contribution<Seq<u8>>>,
    child: Seq<u8>,
    who: AccountId,
) -> Seq<u8> {
    if m.contains_key(ContributionKey { child, who }) {
        m[ContributionKey { child, who }].referral_code
    } else {
        Seq::empty()
    }
}

/// The contributions with another amount for one account in one child trie; there is no
/// entry of nothing.
pub open spec fn with_amount(
    m: Map<ContributionKey<Seq<u8>>, Contribution<Seq<u8>>>,
    child: Seq<u8>,
    who: AccountId,
    amount: int,
    referral_code: Seq<u8>,
) -> Map<ContributionKey<Seq<u8>>, Contribution<Seq<u8>>> {
    if amount == 0 {
        m.remove(ContributionKey { child, who })
    } else {
        m.insert(
            ContributionKey { child, who },
            Contribution { amount: amount as Balance, referral_code },
        )
    }
}

/// No account has anything in a child trie.
pub open spec fn is_empty(
    m: Map<ContributionKey<Seq<u8>>, Contribution<Seq<u8>>>,
    child: Seq<u8>,
) -> bool {
    forall|who: AccountId| !#[trigger] m.contains_key(ContributionKey { child, who })
}

/// A crowdloan bids with a vault.
pub open spec fn bids(state: State, crowdloan: ParaId) -> bool {
    &&& state.leases_registry.contains_key(crowdloan)
    &&& state.vaults.contains_key(bid_key(state, crowdloan))
}

/// Where the vault is kept that a crowdloan bids with.
pub open spec fn bid_key(state: State, crowdloan: ParaId) -> VaultKey {
    (crowdloan, state.leases_registry[crowdloan].0, state.leases_registry[crowdloan].1)
}

/// The call that the relay chain reports back with, not filled in yet.
pub open spec fn blank_report() -> NotificationCall {
    NotificationCall { query_id: 0, response: Response::Null }
}

/// The message that a contribution is sent on with: in the contributor's name, or through
/// the proxy account.
pub open spec fn message<T: Config>(
    runtime: T,
    strategy: ContributionStrategy,
    proxy: Option<AccountId>,
    crowdloan: ParaId,
    amount: Balance,
    who: AccountId,
) -> (T, Result<QueryId, DispatchError>) {
    match strategy {
        ContributionStrategy::XCM => runtime.spec_xcm_contribute(
            crowdloan,
            amount,
            who,
            blank_report(),
        ),
        ContributionStrategy::XCMPROXY => runtime.spec_xcm_proxy_contribute(
            crowdloan,
            amount,
            proxy->0,
            blank_report(),
        ),
    }
}

} // verus!
