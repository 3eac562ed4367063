//! What claiming, withdrawing, redeeming and refunding do.
use vstd::arithmetic::power::{lemma_pow0, lemma_pow_positive, pow};
use vstd::prelude::*;

use crate::config::Config;
use crate::effects::plain::{amount_in, code_in, may, with_amount};
use crate::rates::rescaled;
use crate::state::{child_id, State, World};
use crate::types::{
    AccountId, ArithmeticError, Balance, BonusConfig, CallError, ChildStorageKind,
    ContributionKey, Error, Event, LeasePeriod, Origin, ParaId, RequiredOrigin, Vault,
    VaultId, VaultKey, VaultPhase,
};

verus! {

/// What an amount earns at so many units for each unit, told in a currency of `to`
/// decimals where the amount is in one of `from`: the product, at most what can be
/// counted, moved by the difference of the decimals and rounded down. Where that is more
/// than can be counted, or decimals are not known, it is nothing.
pub open spec fn earned(
    amount: int,
    per_token: Balance,
    from: Option<u8>,
    to: Option<u8>,
) -> int {
    let product = if amount * per_token <= u128::MAX {
        amount * per_token
    } else {
        u128::MAX as int
    };
    match (from, to) {
        (Some(from), Some(to)) => if from <= to {
            let more = product * pow(10, (to - from) as nat);
            if more <= u128::MAX {
                more
            } else {
                0
            }
        } else {
            product / pow(10, (from - to) as nat)
        },
        _ => 0,
    }
}

/// The bonus that is set for a lease, or none.
pub open spec fn bonus_of(state: State, id: VaultId) -> BonusConfig {
    if state.leases_bonus.contains_key(id) {
        state.leases_bonus[id]
    } else {
        BonusConfig { bonus_per_token: 0, start_time: 0, end_time: 0 }
    }
}

/// A call claims for an account: where the lease has a derivative, the vault is there, its
/// auction was won and the account has something confirmed, as much of the derivative is
/// created for it and the entry is gone. Beyond that it earns what the bonus of the lease
/// gives for the amount, streamed from the account that collects contributions over the
/// time that is set. Nothing else changes.
pub open spec fn claims_for<T: Config>(
    world: World<T>,
    who: AccountId,
    key: VaultKey,
    outcome: (World<T>, Result<(), CallError>),
) -> bool {
    let r = world.runtime.spec_start_transaction();
    let s = world.state;
    let id = (key.1, key.2);
    let v = s.vaults[key];
    let ctoken = s.ctokens_registry[id];
    let child = child_id::<T>(v.trie_index, ChildStorageKind::Contributed);
    let amount = amount_in(s.contributions, child, who);
    let (minting, minted) = r.spec_mint_into(ctoken, who, amount as Balance);
    let bonus_config = bonus_of(s, id);
    let bonus = earned(
        amount,
        bonus_config.bonus_per_token,
        minting.spec_get_decimal(T::spec_constants().relay_currency),
        minting.spec_get_decimal(T::spec_constants().native_currency),
    );
    let (streaming, streamed) = minting.spec_create_stream(
        World::<T>::account_id(),
        who,
        bonus as Balance,
        T::spec_constants().native_currency,
        bonus_config.start_time,
        bonus_config.end_time,
        false,
    );
    let (after, result) = outcome;
    &&& result == (if !s.ctokens_registry.contains_key(id) {
        Err(CallError::Module(Error::CTokenDoesNotExist))
    } else if !s.vaults.contains_key(key) {
        Err(CallError::Module(Error::VaultDoesNotExist))
    } else if v.phase != VaultPhase::Succeeded {
        Err(CallError::Module(Error::IncorrectVaultPhase))
    } else if amount == 0 {
        Err(CallError::Module(Error::NoContributions))
    } else if minted is Err {
        Err(CallError::Service(minted->Err_0))
    } else if bonus > 0 && streamed is Err {
        Err(CallError::Service(streamed->Err_0))
    } else {
        Ok::<(), CallError>(())
    })
    &&& result is Err ==> after.state == s
    &&& result is Ok ==> after.runtime == (if bonus > 0 {
        streaming
    } else {
        minting
    }).spec_commit_transaction() && after.state == (State {
        contributions: s.contributions.remove(ContributionKey { child, who }),
        events: s.events.push(
            Event::VaultClaimed(
                key.0,
                id,
                ctoken,
                who,
                amount as Balance,
                VaultPhase::Succeeded,
            ),
        ),
        ..s
    })
}

/// A call pays an account back what it has confirmed in a vault that failed: as much of
/// the relay chain's currency is created for it, its entry is gone, and the vault counts as
/// much less. Nothing else changes.
pub open spec fn withdraws_for<T: Config>(
    world: World<T>,
    who: AccountId,
    key: VaultKey,
    outcome: (World<T>, Result<(), CallError>),
) -> bool {
    let r = world.runtime.spec_start_transaction();
    let s = world.state;
    let id = (key.1, key.2);
    let v = s.vaults[key];
    let child = child_id::<T>(v.trie_index, ChildStorageKind::Contributed);
    let amount = amount_in(s.contributions, child, who);
    let (minting, minted) = r.spec_mint_into(
        T::spec_constants().relay_currency,
        who,
        amount as Balance,
    );
    let (after, result) = outcome;
    &&& result == (if !s.vaults.contains_key(key) {
        Err(CallError::Module(Error::VaultDoesNotExist))
    } else if v.phase != VaultPhase::Failed {
        Err(CallError::Module(Error::IncorrectVaultPhase))
    } else if amount == 0 {
        Err(CallError::Module(Error::NoContributions))
    } else if v.contributed < amount {
        Err(CallError::Arithmetic(ArithmeticError::Underflow))
    } else if minted is Err {
        Err(CallError::Service(minted->Err_0))
    } else {
        Ok::<(), CallError>(())
    })
    &&& result is Err ==> after.state == s
    &&& result is Ok ==> after.runtime == minting.spec_commit_transaction() && after.state == (
    State {
        contributions: s.contributions.remove(ContributionKey { child, who }),
        vaults: s.vaults.insert(
            key,
            Vault { contributed: (v.contributed - amount) as Balance, ..v },
        ),
        events: s.events.push(
            Event::VaultWithdrew(key.0, id, who, amount as Balance, VaultPhase::Failed),
        ),
        ..s
    })
}

/// `powers` of ten are positive.
proof fn powers_are_positive(from: Option<u8>, to: Option<u8>)
    ensures
        from is Some && to is Some && from->0 <= to->0 ==> pow(10, (to->0 - from->0) as nat) > 0,
        from is Some && to is Some && from->0 > to->0 ==> pow(10, (from->0 - to->0) as nat) > 0,
{
    if from is Some && to is Some {
        if from->0 <= to->0 {
            lemma_pow_positive(10, (to->0 - from->0) as nat);
        } else {
            lemma_pow_positive(10, (from->0 - to->0) as nat);
        }
    }
}

/// Something of at least one, times what is more than can be counted, is too; nothing times
/// it is nothing.
proof fn too_much_stays_too_much(a: int, factor: int)
    requires
        0 <= a,
        factor > 0,
    ensures
        a * factor >= 0,
        a == 0 ==> a * factor == 0,
        a > 0 && factor > u128::MAX ==> a * factor > u128::MAX,
        a <= u128::MAX && factor > u128::MAX ==> a / factor == 0,
        0 <= a / factor <= a,
{
    assert(a * factor >= 0 && (a == 0 ==> a * factor == 0) && (a > 0 ==> a * factor >= factor))
        by (nonlinear_arith)
        requires
            0 <= a,
            factor > 0,
    ;
    assert(0 <= a / factor <= a && (a < factor ==> a / factor == 0)) by (nonlinear_arith)
        requires
            0 <= a,
            factor > 0,
    ;
}

/// The bonus of a claim is what the amount earns.
proof fn bonus_is_earned<T: Config>(world: World<T>, id: VaultId, amount: Balance)
    ensures
        world.bonus_for(id, amount) == earned(
            amount as int,
            bonus_of(world.state, id).bonus_per_token,
            world.runtime.spec_get_decimal(T::spec_constants().relay_currency),
            world.runtime.spec_get_decimal(T::spec_constants().native_currency),
        ),
        0 <= earned(
            amount as int,
            bonus_of(world.state, id).bonus_per_token,
            world.runtime.spec_get_decimal(T::spec_constants().relay_currency),
            world.runtime.spec_get_decimal(T::spec_constants().native_currency),
        ) <= u128::MAX,
{
    let from = world.runtime.spec_get_decimal(T::spec_constants().relay_currency);
    let to = world.runtime.spec_get_decimal(T::spec_constants().native_currency);
    let per_token = bonus_of(world.state, id).bonus_per_token;
    powers_are_positive(from, to);
    assert(amount * per_token >= 0) by (nonlinear_arith);
    let product = if amount * per_token <= u128::MAX {
        amount * per_token
    } else {
        u128::MAX as int
    };
    if from is Some && to is Some {
        let factor = if from->0 <= to->0 {
            pow(10, (to->0 - from->0) as nat)
        } else {
            pow(10, (from->0 - to->0) as nat)
        };
        too_much_stays_too_much(product, factor);
        if from->0 == to->0 {
            lemma_pow0(10);
            assert(factor == 1);
            assert(product * factor == product) by (nonlinear_arith)
                requires
                    factor == 1,
            ;
        }
        let scaled = rescaled(product as Balance, from->0, to->0);
        assert(world.normalized_amount(product as Balance) == scaled);
        if from->0 < to->0 {
            assert(scaled is Some <==> factor <= u128::MAX && product * factor <= u128::MAX);
            assert(scaled is Some ==> scaled->0 == product * factor);
        } else if from->0 > to->0 {
            assert(scaled is Some <==> factor <= u128::MAX);
            assert(scaled is Some ==> scaled->0 == product / factor);
        }
    }
    assert(crate::rates::product(amount, per_token) == product);
}

/// `claim` claims for the account that signs it, and `claim_for` for the account that is
/// addressed, whoever signs it.
pub proof fn claiming<T: Config>(
    world: World<T>,
    origin: Origin<T::OtherOrigin>,
    dest: T::LookupSource,
    crowdloan: ParaId,
    lease_start: LeasePeriod,
    lease_end: LeasePeriod,
)
    ensures
        ({
            let r = world.runtime.spec_start_transaction();
            let key = (crowdloan, lease_start, lease_end);
            let found = r.spec_lookup(dest);
            let claim = world.claim(origin, crowdloan, lease_start, lease_end);
            let claim_for = world.claim_for(origin, dest, crowdloan, lease_start, lease_end);
            &&& origin is Signed ==> claims_for(world, origin->Signed_0, key, claim)
            &&& origin is Signed && found is Ok ==> claims_for(world, found->Ok_0, key, claim_for)
            &&& origin is Signed && found is Err ==> claim_for.1 == Err::<(), CallError>(
                CallError::CannotLookup,
            ) && claim_for.0.state == world.state
            &&& !(origin is Signed) ==> {
                &&& claim.1 == Err::<(), CallError>(CallError::BadOrigin)
                &&& claim.0.state == world.state
                &&& claim_for.1 == Err::<(), CallError>(CallError::BadOrigin)
                &&& claim_for.0.state == world.state
            }
        }),
{
    let r = world.runtime.spec_start_transaction();
    let key = (crowdloan, lease_start, lease_end);
    let id = (lease_start, lease_end);
    if origin is Signed {
        claim_earns::<T>(world, origin->Signed_0, key);
        if r.spec_lookup(dest) is Ok {
            claim_earns::<T>(world, r.spec_lookup(dest)->Ok_0, key);
        }
    }
}

/// What the claim of an account earns.
proof fn claim_earns<T: Config>(world: World<T>, who: AccountId, key: VaultKey)
    ensures
        claims_for(
            world,
            who,
            key,
            world.settled(world.begun().do_claim_for(who, key.0, key.1, key.2)),
        ),
{
    let r = world.runtime.spec_start_transaction();
    let s = world.state;
    let id = (key.1, key.2);
    let child = child_id::<T>(s.vaults[key].trie_index, ChildStorageKind::Contributed);
    let amount = amount_in(s.contributions, child, who) as Balance;
    let minting = r.spec_mint_into(s.ctokens_registry[id], who, amount).0;
    let claiming = World {
        runtime: minting,
        state: s.without_contribution(child, who),
    };
    bonus_is_earned::<T>(claiming, id, amount);
}

/// `withdraw` withdraws for the account that signs it, and `withdraw_for` for the account
/// that is addressed, whoever signs it.
pub proof fn withdrawing<T: Config>(
    world: World<T>,
    origin: Origin<T::OtherOrigin>,
    dest: T::LookupSource,
    crowdloan: ParaId,
    lease_start: LeasePeriod,
    lease_end: LeasePeriod,
)
    ensures
        ({
            let r = world.runtime.spec_start_transaction();
            let key = (crowdloan, lease_start, lease_end);
            let found = r.spec_lookup(dest);
            let withdraw = world.withdraw(origin, crowdloan, lease_start, lease_end);
            let withdraw_for = world.withdraw_for(origin, dest, crowdloan, lease_start, lease_end);
            &&& origin is Signed ==> withdraws_for(world, origin->Signed_0, key, withdraw)
            &&& origin is Signed && found is Ok ==> withdraws_for(
                world,
                found->Ok_0,
                key,
                withdraw_for,
            )
            &&& origin is Signed && found is Err ==> withdraw_for.1 == Err::<(), CallError>(
                CallError::CannotLookup,
            ) && withdraw_for.0.state == world.state
            &&& !(origin is Signed) ==> {
                &&& withdraw.1 == Err::<(), CallError>(CallError::BadOrigin)
                &&& withdraw.0.state == world.state
                &&& withdraw_for.1 == Err::<(), CallError>(CallError::BadOrigin)
                &&& withdraw_for.0.state == world.state
            }
        }),
{
}

/// The bonus of a claim is in proportion to what is set: where nothing is more than can be
/// counted and the native currency has at least as many decimals, it is the amount times
/// the units for each unit times the power of ten between the decimals, and one more unit
/// for each unit earns as much more as the amount is in the native currency.
pub proof fn bonus_is_in_proportion(amount: Balance, per_token: Balance, from: u8, to: u8)
    requires
        from <= to,
        per_token < u128::MAX,
        amount * (per_token + 1) <= u128::MAX,
        amount * (per_token + 1) * pow(10, (to - from) as nat) <= u128::MAX,
    ensures
        earned(amount as int, per_token, Some(from), Some(to)) == amount * per_token * pow(
            10,
            (to - from) as nat,
        ),
        earned(amount as int, (per_token + 1) as Balance, Some(from), Some(to)) == earned(
            amount as int,
            per_token,
            Some(from),
            Some(to),
        ) + amount * pow(10, (to - from) as nat),
{
    let factor = pow(10, (to - from) as nat);
    lemma_pow_positive(10, (to - from) as nat);
    let a = amount as int;
    let p = per_token as int;
    assert(a * (p + 1) == a * p + a) by (nonlinear_arith);
    assert((a * p + a) * factor == a * p * factor + a * factor) by (nonlinear_arith);
    assert(a * factor >= 0 && a * p >= 0 && a * p * factor >= 0) by (nonlinear_arith)
        requires
            a >= 0,
            p >= 0,
            factor > 0,
    ;
}

/// A claim streams a bonus in proportion to what is set, for every rate: where the native
/// currency has at least as many decimals and nothing is more than can be counted, exactly
/// the amount claimed times the units for each unit times the power of ten between the
/// decimals, and no stream where that is nothing.
pub proof fn claims_earn_in_proportion<T: Config>(
    world: World<T>,
    who: AccountId,
    key: VaultKey,
    from: u8,
    to: u8,
)
    requires
        world.claim(Origin::Signed(who), key.0, key.1, key.2).1 is Ok,
        from <= to,
        ({
            let s = world.state;
            let id = (key.1, key.2);
            let child = child_id::<T>(s.vaults[key].trie_index, ChildStorageKind::Contributed);
            let amount = amount_in(s.contributions, child, who);
            let minting = world.runtime.spec_start_transaction().spec_mint_into(
                s.ctokens_registry[id],
                who,
                amount as Balance,
            ).0;
            let per_token = s.leases_bonus[id].bonus_per_token;
            &&& s.leases_bonus.contains_key(id)
            &&& minting.spec_get_decimal(T::spec_constants().relay_currency) == Some(from)
            &&& minting.spec_get_decimal(T::spec_constants().native_currency) == Some(to)
            &&& amount * per_token <= u128::MAX
            &&& amount * per_token * pow(10, (to - from) as nat) <= u128::MAX
        }),
    ensures
        ({
            let s = world.state;
            let id = (key.1, key.2);
            let child = child_id::<T>(s.vaults[key].trie_index, ChildStorageKind::Contributed);
            let amount = amount_in(s.contributions, child, who);
            let minting = world.runtime.spec_start_transaction().spec_mint_into(
                s.ctokens_registry[id],
                who,
                amount as Balance,
            ).0;
            let set = s.leases_bonus[id];
            let bonus = amount * set.bonus_per_token * pow(10, (to - from) as nat);
            world.claim(Origin::Signed(who), key.0, key.1, key.2).0.runtime == (if bonus == 0 {
                minting
            } else {
                minting.spec_create_stream(
                    World::<T>::account_id(),
                    who,
                    bonus as Balance,
                    T::spec_constants().native_currency,
                    set.start_time,
                    set.end_time,
                    false,
                ).0
            }).spec_commit_transaction()
        }),
{
    claim_earns::<T>(world, who, key);
    let s = world.state;
    let id = (key.1, key.2);
    let child = child_id::<T>(s.vaults[key].trie_index, ChildStorageKind::Contributed);
    let amount = amount_in(s.contributions, child, who);
    let per_token = s.leases_bonus[id].bonus_per_token;
    let factor = pow(10, (to - from) as nat);
    lemma_pow_positive(10, (to - from) as nat);
    assert(amount * per_token >= 0 && amount * per_token * factor >= 0) by (nonlinear_arith)
        requires
            amount >= 0,
            per_token >= 0,
            factor > 0,
    ;
}

/// The runtime once an amount of the native currency is streamed as is set, where it is
/// not nothing.
pub open spec fn streamed<T: Config>(runtime: T, who: AccountId, bonus: int, set: BonusConfig) -> T {
    if bonus == 0 {
        runtime
    } else {
        runtime.spec_create_stream(
            World::<T>::account_id(),
            who,
            bonus as Balance,
            T::spec_constants().native_currency,
            set.start_time,
            set.end_time,
            false,
        ).0
    }
}

/// One more unit for each unit streams as much more as the amount claimed is in the native
/// currency: two claims of the same contribution, where only the units for each unit
/// differ, by one, differ by that in what they stream.
pub proof fn one_more_for_each_unit<T: Config>(
    world: World<T>,
    richer: World<T>,
    who: AccountId,
    key: VaultKey,
    from: u8,
    to: u8,
)
    requires
        world.claim(Origin::Signed(who), key.0, key.1, key.2).1 is Ok,
        richer.claim(Origin::Signed(who), key.0, key.1, key.2).1 is Ok,
        from <= to,
        ({
            let s = world.state;
            let id = (key.1, key.2);
            let child = child_id::<T>(s.vaults[key].trie_index, ChildStorageKind::Contributed);
            let amount = amount_in(s.contributions, child, who);
            let minting = world.runtime.spec_start_transaction().spec_mint_into(
                s.ctokens_registry[id],
                who,
                amount as Balance,
            ).0;
            let set = s.leases_bonus[id];
            let more = set.bonus_per_token + 1;
            &&& s.leases_bonus.contains_key(id)
            &&& more <= u128::MAX
            &&& richer.runtime == world.runtime
            &&& richer.state == (State {
                leases_bonus: s.leases_bonus.insert(
                    id,
                    BonusConfig { bonus_per_token: more as Balance, ..set },
                ),
                ..s
            })
            &&& minting.spec_get_decimal(T::spec_constants().relay_currency) == Some(from)
            &&& minting.spec_get_decimal(T::spec_constants().native_currency) == Some(to)
            &&& amount * more <= u128::MAX
            &&& amount * more * pow(10, (to - from) as nat) <= u128::MAX
        }),
    ensures
        ({
            let s = world.state;
            let id = (key.1, key.2);
            let child = child_id::<T>(s.vaults[key].trie_index, ChildStorageKind::Contributed);
            let amount = amount_in(s.contributions, child, who);
            let minting = world.runtime.spec_start_transaction().spec_mint_into(
                s.ctokens_registry[id],
                who,
                amount as Balance,
            ).0;
            let set = s.leases_bonus[id];
            exists|bonus: int|
                {
                    let more = bonus + amount * pow(10, (to - from) as nat);
                    &&& 0 <= bonus <= more <= u128::MAX
                    &&& world.claim(Origin::Signed(who), key.0, key.1, key.2).0.runtime
                        == #[trigger] streamed(minting, who, bonus, set).spec_commit_transaction()
                    &&& richer.claim(Origin::Signed(who), key.0, key.1, key.2).0.runtime
                        == streamed(minting, who, more, set).spec_commit_transaction()
                }
        }),
{
    let s = world.state;
    let id = (key.1, key.2);
    let child = child_id::<T>(s.vaults[key].trie_index, ChildStorageKind::Contributed);
    let a = amount_in(s.contributions, child, who);
    let minting = world.runtime.spec_start_transaction().spec_mint_into(
        s.ctokens_registry[id],
        who,
        a as Balance,
    ).0;
    let set = s.leases_bonus[id];
    let p = set.bonus_per_token as int;
    let f = pow(10, (to - from) as nat);
    lemma_pow_positive(10, (to - from) as nat);
    assert(a * (p + 1) * f == a * p * f + a * f && a * p <= a * (p + 1) && a * p * f >= 0 && a * f
        >= 0) by (nonlinear_arith)
        requires
            a >= 0,
            p >= 0,
            f > 0,
    ;
    claims_earn_in_proportion::<T>(world, who, key, from, to);
    claims_earn_in_proportion::<T>(richer, who, key, from, to);
    let bonus = a * p * f;
    assert(world.claim(Origin::Signed(who), key.0, key.1, key.2).0.runtime == streamed(
        minting,
        who,
        bonus,
        set,
    ).spec_commit_transaction());
}

/// Redeeming destroys an amount of the derivative of the lease that the account can spend
/// and creates as much of the relay chain's currency for it, and the vault, which has to
/// have expired and to count as much, counts as much less. Nothing else changes.
pub proof fn redeeming<T: Config>(
    world: World<T>,
    origin: Origin<T::OtherOrigin>,
    crowdloan: ParaId,
    lease_start: LeasePeriod,
    lease_end: LeasePeriod,
    amount: Balance,
)
    ensures
        ({
            let who = origin->Signed_0;
            let r = world.runtime.spec_start_transaction();
            let s = world.state;
            let id = (lease_start, lease_end);
            let key = (crowdloan, lease_start, lease_end);
            let v = s.vaults[key];
            let ctoken = s.ctokens_registry[id];
            let (burning, burnt) = r.spec_burn_from(ctoken, who, amount);
            let (minting, minted) = burning.spec_mint_into(
                T::spec_constants().relay_currency,
                who,
                amount,
            );
            let (after, result) = world.redeem(origin, crowdloan, lease_start, lease_end, amount);
            &&& result == (if !(origin is Signed) {
                Err(CallError::BadOrigin)
            } else if !s.ctokens_registry.contains_key(id) {
                Err(CallError::Module(Error::CTokenDoesNotExist))
            } else if !s.vaults.contains_key(key) {
                Err(CallError::Module(Error::VaultDoesNotExist))
            } else if v.phase != VaultPhase::Expired {
                Err(CallError::Module(Error::IncorrectVaultPhase))
            } else if r.spec_reducible_balance(ctoken, who, false) < amount {
                Err(CallError::Module(Error::InsufficientBalance))
            } else if v.contributed < amount {
                Err(CallError::Arithmetic(ArithmeticError::Underflow))
            } else if burnt is Err {
                Err(CallError::Service(burnt->Err_0))
            } else if minted is Err {
                Err(CallError::Service(minted->Err_0))
            } else {
                Ok::<(), CallError>(())
            })
            &&& result is Err ==> after.state == s
            &&& result is Ok ==> after.runtime == minting.spec_commit_transaction()
                && after.state == (State {
                vaults: s.vaults.insert(
                    key,
                    Vault { contributed: (v.contributed - amount) as Balance, ..v },
                ),
                events: s.events.push(
                    Event::VaultRedeemed(crowdloan, id, ctoken, who, amount, VaultPhase::Expired),
                ),
                ..s
            })
        }),
{
}

/// The vault with an amount taken from the sum of one kind.
pub open spec fn less_of(vault: Vault, kind: ChildStorageKind, amount: Balance) -> Vault {
    match kind {
        ChildStorageKind::Pending => Vault {
            pending: (vault.pending - amount) as Balance,
            ..vault
        },
        ChildStorageKind::Flying => Vault { flying: (vault.flying - amount) as Balance, ..vault },
        ChildStorageKind::Contributed => Vault {
            contributed: (vault.contributed - amount) as Balance,
            ..vault
        },
    }
}

/// The sum of one kind.
pub open spec fn count_of(vault: Vault, kind: ChildStorageKind) -> Balance {
    match kind {
        ChildStorageKind::Pending => vault.pending,
        ChildStorageKind::Flying => vault.flying,
        ChildStorageKind::Contributed => vault.contributed,
    }
}

/// How an amount of a contribution is given back: what was confirmed is created anew, what
/// was not comes from the account that collects contributions.
pub open spec fn given_back<T: Config>(
    runtime: T,
    kind: ChildStorageKind,
    who: AccountId,
    amount: Balance,
) -> (T, Result<(), sp_runtime::DispatchError>) {
    match kind {
        ChildStorageKind::Contributed => runtime.spec_mint_into(
            T::spec_constants().relay_currency,
            who,
            amount,
        ),
        _ => runtime.spec_transfer(
            T::spec_constants().relay_currency,
            World::<T>::account_id(),
            who,
            amount,
            false,
        ),
    }
}

/// Refunding one account gives it back an amount of what it has of one kind in a closed
/// vault, takes as much from its entry and from the vault's sum of that kind, and changes
/// nothing else.
pub proof fn refunding_one_account<T: Config>(
    world: World<T>,
    origin: Origin<T::OtherOrigin>,
    dest: T::LookupSource,
    crowdloan: ParaId,
    kind: ChildStorageKind,
    amount: Balance,
    lease_start: LeasePeriod,
    lease_end: LeasePeriod,
)
    ensures
        ({
            let r = world.runtime.spec_start_transaction();
            let s = world.state;
            let found = r.spec_lookup(dest);
            let who = found->Ok_0;
            let id = (lease_start, lease_end);
            let key = (crowdloan, lease_start, lease_end);
            let v = s.vaults[key];
            let child = child_id::<T>(v.trie_index, kind);
            let held = amount_in(s.contributions, child, who);
            let (paying, paid) = given_back(r, kind, who, amount);
            let (after, result) = world.refund_for(
                origin,
                dest,
                crowdloan,
                kind,
                amount,
                lease_start,
                lease_end,
            );
            &&& result == (if !may(r, RequiredOrigin::RefundOrigin, origin) {
                Err(CallError::BadOrigin)
            } else if found is Err {
                Err(CallError::CannotLookup)
            } else if !s.vaults.contains_key(key) {
                Err(CallError::Module(Error::VaultDoesNotExist))
            } else if v.phase != VaultPhase::Closed {
                Err(CallError::Module(Error::IncorrectVaultPhase))
            } else if held < amount {
                Err(CallError::Module(Error::InsufficientContribution))
            } else if paid is Err {
                Err(CallError::Service(paid->Err_0))
            } else if count_of(v, kind) < amount {
                Err(CallError::Arithmetic(ArithmeticError::Underflow))
            } else {
                Ok::<(), CallError>(())
            })
            &&& result is Err ==> after.state == s
            &&& result is Ok ==> after.runtime == paying.spec_commit_transaction()
                && after.state == (State {
                contributions: with_amount(
                    s.contributions,
                    child,
                    who,
                    held - amount,
                    code_in(s.contributions, child, who),
                ),
                vaults: s.vaults.insert(key, less_of(v, kind, amount)),
                events: s.events.push(Event::UserRefunded(crowdloan, id, who, kind, amount)),
                ..s
            })
        }),
{
}

} // verus!
