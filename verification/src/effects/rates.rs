//! What amounts and rates come out.
use vstd::arithmetic::power::{lemma_pow_positive, pow};
use vstd::math::min;
use vstd::prelude::*;

use crate::bytes::precedes;
use crate::config::Config;
use crate::outside::{blake2_128, le_bytes, RATE_ONE};
use crate::rates::{product, rescaled, running_lease};
use crate::state::{State, World};
use crate::types::{Balance, BlockNumber, Constants, CurrencyId, VaultId};

verus! {

/// A quotient rounded down lies within one unit of the exact one.
proof fn quotient_is_close(n: int, d: int)
    requires
        0 <= n,
        0 < d,
    ensures
        n / d * d <= n,
        n < (n / d + 1) * d,
        0 <= n / d,
{
    assert(n / d * d <= n && n < (n / d + 1) * d && 0 <= n / d) by (nonlinear_arith)
        requires
            0 <= n,
            0 < d,
    ;
}

/// The term of a lease can be computed before the relay chain's first block, and after it
/// where the lease does not end before it begins, the period after its last has a number,
/// and periods and years have a length.
pub proof fn terms_that_can_be_computed<T: Config>(world: World<T>, id: VaultId)
    ensures
        ({
            let block: BlockNumber = world.runtime.spec_current_block_number();
            world.has_term(id) <==> block == 0 || id.0 <= id.1 && id.1 + 1 <= u32::MAX
                && T::spec_constants().lease_period > 0 && T::spec_constants().lease_per_year > 0
        }),
{
}

/// The term of a lease: before the relay chain's first block there is none. Otherwise the
/// length in years is the blocks of all periods of the lease over the blocks of a year, and
/// the part that is over is nothing before the first period begins, one from the end of the
/// last period on, and in between the blocks since the beginning over the blocks of the
/// lease, each to the unit below. Blocks are counted up to the largest number.
pub proof fn term_of_a_lease<T: Config>(world: World<T>, id: VaultId)
    requires
        world.has_term(id),
    ensures
        ({
            let c = T::spec_constants();
            let block = world.runtime.spec_current_block_number();
            let top = u32::MAX as int;
            let start = min(min(c.lease_period * id.0, top) + c.lease_offset, top);
            let end = min(min(c.lease_period * (id.1 + 1), top) + c.lease_offset, top);
            let length = min(c.lease_period * (id.1 - id.0 + 1), top);
            let year = min(c.lease_per_year * c.lease_period, top);
            let term = world.vault_term_rate(id);
            let over = (term->0).0;
            let years = (term->0).1;
            &&& term is None <==> block == 0
            &&& block != 0 ==> {
                &&& years * year <= length * 1_000_000_000_000_000_000
                &&& length * 1_000_000_000_000_000_000 < (years + 1) * year
                &&& block < start ==> over == 0
                &&& start <= block < end ==> {
                    &&& over * length <= (block - start) * 1_000_000_000_000_000_000
                    &&& (block - start) * 1_000_000_000_000_000_000 < (over + 1) * length
                }
                &&& start <= block && end <= block ==> over == 1_000_000_000_000_000_000
            }
        }),
{
    let c = T::spec_constants();
    let block = world.runtime.spec_current_block_number();
    if block != 0 {
        let p = c.lease_period as int;
        let n = id.1 - id.0 + 1;
        let y = c.lease_per_year as int;
        assert(p * n > 0 && y * p > 0) by (nonlinear_arith)
            requires
                p > 0,
                n > 0,
                y > 0,
        ;
        let top = u32::MAX as int;
        let length = min(p * n, top);
        let year = min(y * p, top);
        quotient_is_close(length * RATE_ONE, year);
        small_quotient(length * RATE_ONE, year);
        let start = min(min(p * id.0, top) + c.lease_offset, top);
        let end = min(min(p * (id.1 + 1), top) + c.lease_offset, top);
        if start <= block && block < end {
            running_lease(c, id, block);
            quotient_is_close((block - start) * RATE_ONE, length);
            small_quotient((block - start) * RATE_ONE, length);
        }
    }
}

/// A quotient is no more than what is divided.
proof fn small_quotient(n: int, d: int)
    requires
        0 <= n <= u32::MAX * 1_000_000_000_000_000_000,
        0 < d,
    ensures
        0 <= n / d <= u128::MAX,
{
    assert(0 <= n / d <= n) by (nonlinear_arith)
        requires
            0 <= n,
            0 < d,
    ;
}

/// The length of a lease in years is in proportion to its number of periods, also beyond a
/// year: where blocks can be counted, periods per year times the length is the number of
/// periods, to the unit below.
pub proof fn length_is_in_proportion<T: Config>(world: World<T>, id: VaultId)
    requires
        world.has_term(id),
        world.runtime.spec_current_block_number() != 0,
        T::spec_constants().lease_period * (id.1 - id.0 + 1) <= u32::MAX,
        T::spec_constants().lease_per_year * T::spec_constants().lease_period <= u32::MAX,
    ensures
        ({
            let periods = id.1 - id.0 + 1;
            let per_year = T::spec_constants().lease_per_year as int;
            let years = (world.vault_term_rate(id)->0).1;
            &&& years * per_year <= periods * 1_000_000_000_000_000_000
            &&& periods * 1_000_000_000_000_000_000 < (years + 1) * per_year
        }),
{
    term_of_a_lease::<T>(world, id);
    let p = T::spec_constants().lease_period as int;
    let n = id.1 - id.0 + 1;
    let y = T::spec_constants().lease_per_year as int;
    let t = (world.vault_term_rate(id)->0).1 as int;
    assert(p * n > 0 && y * p > 0) by (nonlinear_arith)
        requires
            p > 0,
            n > 0,
            y > 0,
    ;
    assert(t * y <= n * 1_000_000_000_000_000_000 && n * 1_000_000_000_000_000_000 < (t + 1) * y)
        by (nonlinear_arith)
        requires
            p > 0,
            t * (y * p) <= (p * n) * 1_000_000_000_000_000_000,
            (p * n) * 1_000_000_000_000_000_000 < (t + 1) * (y * p),
    ;
}

/// A lease of twice as many periods is twice as long, up to one unit of rounding.
pub proof fn twice_the_periods_twice_the_length<T: Config>(
    world: World<T>,
    short: VaultId,
    long: VaultId,
)
    requires
        world.has_term(short),
        world.has_term(long),
        world.runtime.spec_current_block_number() != 0,
        long.1 - long.0 + 1 == 2 * (short.1 - short.0 + 1),
        T::spec_constants().lease_period * (long.1 - long.0 + 1) <= u32::MAX,
        T::spec_constants().lease_per_year * T::spec_constants().lease_period <= u32::MAX,
    ensures
        ({
            let a = (world.vault_term_rate(short)->0).1;
            let b = (world.vault_term_rate(long)->0).1;
            2 * a <= b <= 2 * a + 1
        }),
{
    let p = T::spec_constants().lease_period as int;
    let n = short.1 - short.0 + 1;
    let y = T::spec_constants().lease_per_year as int;
    assert(p * n <= p * (2 * n)) by (nonlinear_arith)
        requires
            p > 0,
            n > 0,
    ;
    length_is_in_proportion::<T>(world, short);
    length_is_in_proportion::<T>(world, long);
    let a = (world.vault_term_rate(short)->0).1 as int;
    let b = (world.vault_term_rate(long)->0).1 as int;
    let unit = 1_000_000_000_000_000_000int;
    assert(2 * a <= b <= 2 * a + 1) by (nonlinear_arith)
        requires
            y > 0,
            a * y <= n * unit,
            n * unit < (a + 1) * y,
            b * y <= (2 * n) * unit,
            (2 * n) * unit < (b + 1) * y,
    ;
}

/// The part of a lease that is over does not depend on when the leases are counted from: a
/// lease, and the chain, so many periods later give the same part.
pub proof fn leases_differ_only_by_their_place(
    c: Constants,
    id: VaultId,
    block: BlockNumber,
    periods: u32,
)
    requires
        id.0 <= id.1,
        id.1 + periods < u32::MAX,
        c.lease_period > 0,
        c.lease_period * (id.1 + periods + 1) + c.lease_offset <= u32::MAX,
        block + c.lease_period * periods <= u32::MAX,
    ensures
        crate::rates::term_rate(c, id, block) == crate::rates::term_rate(
            c,
            ((id.0 + periods) as u32, (id.1 + periods) as u32),
            (block + c.lease_period * periods) as BlockNumber,
        ),
{
    let p = c.lease_period as int;
    let a = id.0 as int;
    let b = id.1 + 1;
    let k = periods as int;
    assert(p * (a + k) == p * a + p * k && p * (b + k) == p * b + p * k && 0 <= p * a && p * a
        <= p * b && 0 <= p * k && p * b <= p * (b + k)) by (nonlinear_arith)
        requires
            p > 0,
            0 <= a <= b,
            0 <= k,
    ;
}

/// An amount in a currency of some decimals as one of others: the power of ten between
/// them times as much where there are more, the same where there are as many, and that part
/// of it, to the unit below, where there are fewer; none where the power or the amount
/// cannot be counted.
pub proof fn decimals_move_amounts(amount: Balance, from: u8, to: u8)
    ensures
        ({
            let moved = rescaled(amount, from, to);
            &&& from == to ==> moved == Some(amount)
            &&& from < to ==> {
                let factor = pow(10, (to - from) as nat);
                &&& moved is Some <==> factor <= u128::MAX && amount * factor <= u128::MAX
                &&& moved is Some ==> moved->0 == amount * factor
            }
            &&& from > to ==> {
                let factor = pow(10, (from - to) as nat);
                &&& moved is Some <==> factor <= u128::MAX
                &&& moved is Some ==> moved->0 * factor <= amount && amount < (moved->0 + 1)
                    * factor
            }
        }),
{
    if from < to {
        let factor = pow(10, (to - from) as nat);
        lemma_pow_positive(10, (to - from) as nat);
        assert(amount * factor >= 0) by (nonlinear_arith)
            requires
                factor > 0,
        ;
    } else if from > to {
        let factor = pow(10, (from - to) as nat);
        lemma_pow_positive(10, (from - to) as nat);
        quotient_is_close(amount as int, factor);
        assert(amount as int / factor <= amount) by (nonlinear_arith)
            requires
                factor > 0,
        ;
    }
}

/// An amount of the relay chain's currency becomes one of the native currency by the
/// decimals of the two; without these there is none.
pub proof fn amounts_are_normalized_by_decimals<T: Config>(world: World<T>, amount: Balance)
    ensures
        ({
            let from = world.runtime.spec_get_decimal(T::spec_constants().relay_currency);
            let to = world.runtime.spec_get_decimal(T::spec_constants().native_currency);
            world.normalized_amount(amount) == (if from is Some && to is Some {
                rescaled(amount, from->0, to->0)
            } else {
                None
            })
        }),
{
}

/// A product that saturates is the product, or the largest amount where that is less.
pub proof fn products_saturate(a: Balance, b: Balance)
    ensures
        product(a, b) == min(a * b, u128::MAX as int),
{
    assert(a * b >= 0) by (nonlinear_arith);
}

/// The first lease with a derivative is one that has it, and no other that has it is kept
/// under a storage key before its own, which is made of the hash of the first period, the
/// first period, the hash of the last period and the last period.
pub proof fn first_lease_by_storage_key(state: State, asset_id: CurrencyId, id: VaultId)
    ensures
        state.is_first_lease(asset_id, id) <==> {
            &&& state.ctokens_registry.contains_key(id)
            &&& state.ctokens_registry[id] == asset_id
            &&& forall|other: VaultId| #[trigger]
                state.ctokens_registry.contains_key(other) && state.ctokens_registry[other]
                    == asset_id ==> !precedes(
                    blake2_128(le_bytes(other.0)) + le_bytes(other.0) + (blake2_128(
                        le_bytes(other.1),
                    ) + le_bytes(other.1)),
                    blake2_128(le_bytes(id.0)) + le_bytes(id.0) + (blake2_128(le_bytes(id.1))
                        + le_bytes(id.1)),
                )
        },
        state.bears(asset_id, id) <==> state.ctokens_registry.contains_key(id)
            && state.ctokens_registry[id] == asset_id,
{
    assert forall|other: VaultId| #[trigger] state.ctokens_registry.contains_key(other)
        && state.ctokens_registry[other] == asset_id implies state.bears(asset_id, other) by {}
    assert forall|other: VaultId| #[trigger] state.bears(asset_id, other) implies
        state.ctokens_registry.contains_key(other) && state.ctokens_registry[other] == asset_id by {}
}

} // verus!
