//! Amounts and rates: decimals, the term of a lease, and what a derivative is
//! worth.
use vstd::arithmetic::div_mod::{
    lemma_div_by_multiple, lemma_div_is_ordered, lemma_div_nonincreasing, lemma_div_pos_is_pos,
    lemma_fundamental_div_mod, lemma_mod_bound,
};
use vstd::arithmetic::power::{
    lemma_pow0, lemma_pow1, lemma_pow_adds, lemma_pow_increases, lemma_pow_positive, pow,
};
use vstd::prelude::*;

use crate::bytes::{
    bytes_concat, bytes_precede, precedes, precedes_irreflexive, precedes_total,
    precedes_transitive,
};
use crate::config::Config;
use crate::outside::{
    blake2_128, blake2_128_concat, encode_u32, le_bytes, le_bytes_differ, rate_from_rational,
    rate_reciprocal, RATE_ONE,
};
use crate::pallet::Pallet;
use crate::state::{State, World};
use crate::types::{Balance, BlockNumber, Constants, CurrencyId, Rate, VaultId};

verus! {

/// The term of a lease cannot be computed.
#[derive(Debug, Clone, Copy, PartialEq, Eq, Structural)]
pub struct TermOutOfRange;

/// A block height, or the largest one where there is none so large.
pub open spec fn saturated(x: int) -> int {
    if x > BlockNumber::MAX {
        BlockNumber::MAX as int
    } else {
        x
    }
}

/// The block at which the lease period `index` begins.
pub open spec fn period_start(c: Constants, index: int) -> int {
    saturated(saturated(c.lease_period * index) + c.lease_offset)
}

/// The number of blocks of a lease.
pub open spec fn lease_length(c: Constants, id: VaultId) -> int {
    saturated(c.lease_period * (id.1 - id.0 + 1))
}

/// The number of blocks of a year.
pub open spec fn blocks_per_year(c: Constants) -> int {
    saturated(c.lease_per_year * c.lease_period)
}

/// The part of a lease that is over at a block, from 0 before it began to 1 after
/// it ended.
pub open spec fn term_rate(c: Constants, id: VaultId, block: BlockNumber) -> int {
    if block < period_start(c, id.0 as int) {
        0
    } else if block < period_start(c, id.1 + 1) {
        (block - period_start(c, id.0 as int)) * RATE_ONE / lease_length(c, id)
    } else {
        RATE_ONE as int
    }
}

/// The length of a lease in years.
pub open spec fn total_term_by_year(c: Constants, id: VaultId) -> int {
    lease_length(c, id) * RATE_ONE / blocks_per_year(c)
}

/// The storage key under which the derivative of a lease is kept, behind the
/// prefix that all of them share.
pub open spec fn registry_key(id: VaultId) -> Seq<u8> {
    let start = le_bytes(id.0);
    let end = le_bytes(id.1);
    (blake2_128(start) + start) + (blake2_128(end) + end)
}

impl State {
    /// A lease has a given derivative.
    pub open spec fn bears(self, asset_id: CurrencyId, id: VaultId) -> bool {
        self.ctokens_registry.contains_key(id) && self.ctokens_registry[id] == asset_id
    }

    /// Of the leases that have a given derivative, none is kept under a storage
    /// key before that of `id`, which is one of them.
    pub open spec fn is_first_lease(self, asset_id: CurrencyId, id: VaultId) -> bool {
        &&& self.bears(asset_id, id)
        &&& forall|other: VaultId| #[trigger]
            self.bears(asset_id, other) ==> !precedes(registry_key(other), registry_key(id))
    }
}

/// `a` multiplied by `b`, or the largest amount where that is too much.
pub open spec fn product(a: Balance, b: Balance) -> Balance {
    if a * b > Balance::MAX {
        Balance::MAX
    } else {
        (a * b) as Balance
    }
}

/// `a` multiplied by `b`, or the largest amount where that is too much.
pub fn saturating_product(a: Balance, b: Balance) -> (r: Balance)
    ensures
        r == product(a, b),
{
    match a.checked_mul(b) {
        Some(x) => x,
        None => Balance::MAX,
    }
}

/// `a` multiplied by `b`, or the largest block height where that is too much.
fn saturating_blocks(a: BlockNumber, b: BlockNumber) -> (r: BlockNumber)
    ensures
        r == saturated(a * b),
{
    match a.checked_mul(b) {
        Some(x) => x,
        None => BlockNumber::MAX,
    }
}

/// A power of ten, where it is an amount.
pub fn power_of_ten(exponent: u8) -> (r: Option<Balance>)
    ensures
        match r {
            Some(x) => x == pow(10, exponent as nat),
            None => pow(10, exponent as nat) > Balance::MAX,
        },
{
    let mut x: Balance = 1;
    let mut i: u8 = 0;
    proof {
        lemma_pow0(10);
    }
    while i < exponent
        invariant
            i <= exponent,
            x == pow(10, i as nat),
        decreases exponent - i,
    {
        proof {
            lemma_pow_adds(10, i as nat, 1);
            lemma_pow1(10);
            lemma_pow_increases(10, (i + 1) as nat, exponent as nat);
        }
        match x.checked_mul(10) {
            Some(y) => {
                x = y;
            },
            None => {
                return None;
            },
        }
        i += 1;
    }
    Some(x)
}

/// An amount of a currency of `from` decimals as an amount of one of `to`
/// decimals, rounded down. There is none where the power of ten between them or
/// the amount is too large.
pub open spec fn rescaled(amount: Balance, from: u8, to: u8) -> Option<Balance> {
    if from < to {
        let factor = pow(10, (to - from) as nat);
        if factor > Balance::MAX || amount * factor > Balance::MAX {
            None
        } else {
            Some((amount * factor) as Balance)
        }
    } else if from == to {
        Some(amount)
    } else {
        let factor = pow(10, (from - to) as nat);
        if factor > Balance::MAX {
            None
        } else {
            Some((amount as int / factor) as Balance)
        }
    }
}

/// An amount of a currency of `from` decimals as an amount of one of `to`
/// decimals.
pub fn rescale(amount: Balance, from: u8, to: u8) -> (r: Option<Balance>)
    ensures
        r == rescaled(amount, from, to),
{
    if from < to {
        match power_of_ten(to - from) {
            Some(factor) => amount.checked_mul(factor),
            None => None,
        }
    } else if from == to {
        Some(amount)
    } else {
        match power_of_ten(from - to) {
            Some(factor) => {
                proof {
                    lemma_pow_increases(10, 0, (from - to) as nat);
                    lemma_pow0(10);
                }
                Some(amount / factor)
            },
            None => None,
        }
    }
}

impl<T: Config> World<T> {
    /// An amount of the relay chain's currency as an amount of the native one.
    pub open spec fn normalized_amount(self, amount: Balance) -> Option<Balance> {
        match (
            self.runtime.spec_get_decimal(T::spec_constants().relay_currency),
            self.runtime.spec_get_decimal(T::spec_constants().native_currency),
        ) {
            (Some(relay), Some(native)) => rescaled(amount, relay, native),
            _ => None,
        }
    }

    /// The part of a lease that is over now, and the length of the lease in years.
    /// Before the relay chain's first block there is neither.
    pub open spec fn vault_term_rate(self, id: VaultId) -> Option<(Rate, Rate)> {
        let block = self.runtime.spec_current_block_number();
        let c = T::spec_constants();
        if block == 0 {
            None
        } else {
            Some((term_rate(c, id, block) as Rate, total_term_by_year(c, id) as Rate))
        }
    }

    /// The term of a lease can be computed: its end is in range, and a year has
    /// blocks. Before the relay chain's first block nothing is computed.
    pub open spec fn has_term(self, id: VaultId) -> bool {
        self.runtime.spec_current_block_number() != 0 ==> {
            &&& id.0 <= id.1
            &&& id.1 < u32::MAX
            &&& T::spec_constants().lease_period != 0
            &&& T::spec_constants().lease_per_year != 0
        }
    }
}

/// Moving a block height up and saturating it does not widen the distance between
/// two heights.
proof fn saturation_shrinks(a: int, b: int, offset: int)
    requires
        0 <= a <= b,
        0 <= offset,
    ensures
        saturated(saturated(b) + offset) - saturated(saturated(a) + offset) <= saturated(b - a),
        saturated(saturated(a) + offset) <= saturated(saturated(b) + offset),
{
}

/// While a lease runs, fewer blocks of it are over than it has.
pub proof fn running_lease(c: Constants, id: VaultId, block: BlockNumber)
    requires
        id.0 <= id.1,
        period_start(c, id.0 as int) <= block,
        block < period_start(c, id.1 + 1),
    ensures
        block - period_start(c, id.0 as int) < lease_length(c, id),
{
    let a = c.lease_period * id.0;
    let b = c.lease_period * (id.1 + 1);
    assert(0 <= a <= b && b - a == c.lease_period * (id.1 - id.0 + 1)) by (nonlinear_arith)
        requires
            a == c.lease_period * id.0,
            b == c.lease_period * (id.1 + 1),
            id.0 <= id.1,
    ;
    saturation_shrinks(a, b, c.lease_offset as int);
}

/// A rate is never more than 1 while the numerator is not more than the
/// denominator.
proof fn quotient_at_most_one(n: int, d: int)
    requires
        0 <= n <= d,
        0 < d,
    ensures
        0 <= n * RATE_ONE / d <= RATE_ONE,
{
    assert(0 <= n * RATE_ONE / d <= RATE_ONE) by (nonlinear_arith)
        requires
            0 <= n <= d,
            0 < d,
            RATE_ONE == 1_000_000_000_000_000_000u128,
    ;
}

/// The part of a lease that is over is between 0 and 1.
pub proof fn term_rate_is_a_share(c: Constants, id: VaultId, block: BlockNumber)
    requires
        id.0 <= id.1,
    ensures
        0 <= term_rate(c, id, block) <= RATE_ONE,
{
    if period_start(c, id.0 as int) <= block && block < period_start(c, id.1 + 1) {
        running_lease(c, id, block);
        quotient_at_most_one(block - period_start(c, id.0 as int), lease_length(c, id));
    }
}

/// The part of a lease that is over never gets less.
pub proof fn term_rate_grows(c: Constants, id: VaultId, earlier: BlockNumber, later: BlockNumber)
    requires
        id.0 <= id.1,
        earlier <= later,
    ensures
        term_rate(c, id, earlier) <= term_rate(c, id, later),
{
    term_rate_is_a_share(c, id, earlier);
    term_rate_is_a_share(c, id, later);
    let start = period_start(c, id.0 as int);
    let end = period_start(c, id.1 + 1);
    if start <= earlier && later < end {
        running_lease(c, id, earlier);
        let d = lease_length(c, id);
        let a = (earlier - start) * RATE_ONE;
        let b = (later - start) * RATE_ONE;
        assert(a <= b);
        lemma_div_is_ordered(a, b, d);
    }
}

/// An amount that is given in more decimals and then in as many as before is the
/// same amount.
pub proof fn rescaling_can_be_undone(amount: Balance, from: u8, to: u8)
    requires
        from <= to,
        rescaled(amount, from, to) is Some,
    ensures
        rescaled(rescaled(amount, from, to)->0, to, from) == Some(amount),
{
    if from < to {
        let factor = pow(10, (to - from) as nat);
        lemma_pow_positive(10, (to - from) as nat);
        assert(0 <= amount * factor) by (nonlinear_arith)
            requires
                0 < factor,
        ;
        lemma_div_by_multiple(amount as int, factor);
    }
}

/// An amount that is given in fewer decimals and then in as many as before is not
/// more than it was, and less by less than one unit of the fewer decimals.
pub proof fn rescaling_rounds_down(amount: Balance, from: u8, to: u8)
    requires
        from > to,
        rescaled(amount, from, to) is Some,
    ensures
        ({
            let there = rescaled(amount, from, to)->0;
            let back = rescaled(there, to, from);
            &&& back is Some
            &&& back->0 <= amount < back->0 + pow(10, (from - to) as nat)
        }),
{
    let factor = pow(10, (from - to) as nat);
    lemma_pow_positive(10, (from - to) as nat);
    let q = amount as int / factor;
    lemma_fundamental_div_mod(amount as int, factor);
    lemma_mod_bound(amount as int, factor);
    lemma_div_pos_is_pos(amount as int, factor);
    lemma_div_nonincreasing(amount as int, factor);
    assert(q * factor == factor * q) by (nonlinear_arith);
    assert(0 <= q * factor) by (nonlinear_arith)
        requires
            0 <= q,
            0 < factor,
    ;
}

/// Different leases are kept under different storage keys.
pub proof fn registry_keys_differ(a: VaultId, b: VaultId)
    requires
        registry_key(a) == registry_key(b),
    ensures
        a == b,
{
    let x = registry_key(a);
    let y = registry_key(b);
    let n = x.len() as int;
    assert(x.subrange(n - 4, n) =~= le_bytes(a.1));
    assert(y.subrange(n - 4, n) =~= le_bytes(b.1));
    le_bytes_differ(a.1, b.1);
    let m = n - blake2_128(le_bytes(a.1)).len() - 4;
    assert(x.subrange(m - 4, m) =~= le_bytes(a.0));
    assert(y.subrange(m - 4, m) =~= le_bytes(b.0));
    le_bytes_differ(a.0, b.0);
}

/// There is at most one first lease that has a given derivative.
pub proof fn first_lease_is_unique(state: State, asset_id: CurrencyId, a: VaultId, b: VaultId)
    requires
        state.is_first_lease(asset_id, a),
        state.is_first_lease(asset_id, b),
    ensures
        a == b,
{
    precedes_total(registry_key(a), registry_key(b));
    registry_keys_differ(a, b);
}

impl<T: Config> Pallet<T> {
    /// An amount of the relay chain's currency as an amount of the native one.
    pub fn normalized_amount(&self, amount: Balance) -> (r: Option<Balance>)
        ensures
            r == self@.normalized_amount(amount),
    {
        let relay_decimal: u8 = self.runtime.get_decimal(T::constants().relay_currency)?;
        let native_decimal: u8 = self.runtime.get_decimal(T::constants().native_currency)?;
        rescale(amount, relay_decimal, native_decimal)
    }

    /// The storage key under which the derivative of a lease is kept.
    fn storage_key_of(id: VaultId) -> (r: Vec<u8>)
        ensures
            r@ == registry_key(id),
    {
        let start: Vec<u8> = blake2_128_concat(&encode_u32(id.0));
        let end: Vec<u8> = blake2_128_concat(&encode_u32(id.1));
        bytes_concat(&start, &end)
    }

    /// The lease that has a given derivative; the first in the order of storage
    /// keys, where there are several.
    pub fn find_vault_by_asset_id(&self, asset_id: CurrencyId) -> (r: Option<VaultId>)
        ensures
            match r {
                Some(id) => self@.state.is_first_lease(asset_id, id),
                None => forall|id: VaultId| !#[trigger] self@.state.bears(asset_id, id),
            },
    {
        let ghost state = self@.state;
        let n: usize = self.storage.ctokens_registry.len();
        let mut best: Option<(VaultId, Vec<u8>)> = None;
        let mut i: usize = 0;
        while i < n
            invariant
                i <= n,
                n == self.storage.ctokens_registry.count(),
                state == self@.state,
                forall|j: int|
                    0 <= j < n ==> {
                        &&& state.ctokens_registry.contains_key(
                            (#[trigger] self.storage.ctokens_registry.entry(j)).0,
                        )
                        &&& state.ctokens_registry[self.storage.ctokens_registry.entry(j).0]
                            == self.storage.ctokens_registry.entry(j).1
                    },
                match best {
                    Some((id, key)) => state.bears(asset_id, id) && key@ == registry_key(id),
                    None => true,
                },
                forall|j: int|
                    0 <= j < i && state.bears(
                        asset_id,
                        (#[trigger] self.storage.ctokens_registry.entry(j)).0,
                    ) ==> best is Some && !precedes(
                        registry_key(self.storage.ctokens_registry.entry(j).0),
                        (best->0).1@,
                    ),
            decreases n - i,
        {
            let id: VaultId = *self.storage.ctokens_registry.key_at(i);
            let ctoken_id: CurrencyId = *self.storage.ctokens_registry.value_at(i);
            let ghost before = best;
            assert(id == self.storage.ctokens_registry.entry(i as int).0);
            if ctoken_id == asset_id {
                let key: Vec<u8> = Self::storage_key_of(id);
                let better = match &best {
                    Some(b) => bytes_precede(&key, &b.1),
                    None => true,
                };
                if better {
                    best = Some((id, key));
                }
            }
            proof {
                assert forall|j: int|
                    0 <= j < i + 1 && state.bears(
                        asset_id,
                        (#[trigger] self.storage.ctokens_registry.entry(j)).0,
                    ) implies best is Some && !precedes(
                    registry_key(self.storage.ctokens_registry.entry(j).0),
                    (best->0).1@,
                ) by {
                    let k = registry_key(self.storage.ctokens_registry.entry(j).0);
                    if j < i {
                        if best != before && precedes(k, (best->0).1@) {
                            precedes_transitive(k, (best->0).1@, (before->0).1@);
                        }
                    } else {
                        precedes_irreflexive(k);
                    }
                }
            }
            i += 1;
        }
        proof {
            assert forall|other: VaultId| #[trigger] state.bears(asset_id, other) implies best is Some
                && !precedes(registry_key(other), (best->0).1@) by {
                assert(self.storage.ctokens_registry@.contains_key(other));
                let j = choose|j: int|
                    0 <= j < n && (#[trigger] self.storage.ctokens_registry.entry(j)).0 == other;
            }
        }
        match best {
            Some(b) => Some(b.0),
            None => None,
        }
    }

    /// Whether a currency is the derivative of some lease.
    pub fn contains(&self, asset_id: CurrencyId) -> (r: bool)
        ensures
            r == exists|id: VaultId| #[trigger] self@.state.bears(asset_id, id),
    {
        self.find_vault_by_asset_id(asset_id).is_some()
    }

    /// The part of a lease that is over now, and the length of the lease in years.
    pub fn get_vault_term_rate(&self, id: VaultId) -> (r: Option<(Rate, Rate)>)
        requires
            self@.has_term(id),
        ensures
            r == self@.vault_term_rate(id),
    {
        let current_block: BlockNumber = self.runtime.current_block_number();
        if current_block == 0 {
            return None;
        }
        let c = T::constants();
        let (start_lease, end_lease) = id;
        let start_block: BlockNumber = saturating_blocks(
            c.lease_period,
            start_lease,
        ).saturating_add(c.lease_offset);
        let end_block: BlockNumber = saturating_blocks(
            c.lease_period,
            end_lease + 1,
        ).saturating_add(c.lease_offset);
        let lease_blocks: BlockNumber = saturating_blocks(
            c.lease_period,
            end_lease - start_lease + 1,
        );
        let year_blocks: BlockNumber = saturating_blocks(c.lease_per_year, c.lease_period);
        assert(c.lease_per_year * c.lease_period != 0) by (nonlinear_arith)
            requires
                c.lease_per_year != 0,
                c.lease_period != 0,
        ;
        let total_term: Rate = rate_from_rational(lease_blocks, year_blocks);
        let term: Rate = if current_block < start_block {
            0
        } else if current_block < end_block {
            proof {
                running_lease(c, id, current_block);
            }
            rate_from_rational(current_block - start_block, lease_blocks)
        } else {
            RATE_ONE
        };
        Some((term, total_term))
    }

    /// Whether the term of a lease can be computed.
    fn term_in_range(&self, id: VaultId) -> (r: bool)
        ensures
            r == self@.has_term(id),
    {
        let c = T::constants();
        self.runtime.current_block_number() == 0 || (id.0 <= id.1 && id.1 < u32::MAX
            && c.lease_period != 0 && c.lease_per_year != 0)
    }

    /// Of the lease that has a given derivative: the part that is over now, and
    /// its length in years, which the worth of the derivative depends on. A lease
    /// whose term cannot be computed is an error.
    pub fn get_exchange_term(&self, asset_id: CurrencyId) -> (r: Result<
        Option<(Rate, Rate)>,
        TermOutOfRange,
    >)
        ensures
            match r {
                Ok(None) => (forall|id: VaultId| !#[trigger] self@.state.bears(asset_id, id))
                    || self@.runtime.spec_current_block_number() == 0,
                Ok(Some(rates)) => exists|id: VaultId| #[trigger]
                    self@.state.is_first_lease(asset_id, id) && self@.has_term(id)
                        && self@.vault_term_rate(id) == Some(rates),
                Err(_) => exists|id: VaultId| #[trigger]
                    self@.state.is_first_lease(asset_id, id) && !self@.has_term(id),
            },
    {
        match self.find_vault_by_asset_id(asset_id) {
            None => Ok(None),
            Some(id) => if self.term_in_range(id) {
                Ok(self.get_vault_term_rate(id))
            } else {
                Err(TermOutOfRange)
            },
        }
    }
}

/// What a derivative is worth where the asset it stands for has grown to
/// `current_rate` at the end of the lease.
pub fn discounted(current_rate: Rate) -> (r: Option<Rate>)
    ensures
        r == (if current_rate == 0 {
            None
        } else {
            Some((RATE_ONE * RATE_ONE / current_rate as int) as Rate)
        }),
        r is Some ==> r->0 * current_rate <= RATE_ONE * RATE_ONE < (r->0 + 1) * current_rate,
{
    proof {
        if current_rate != 0 {
            lemma_fundamental_div_mod(RATE_ONE * RATE_ONE, current_rate as int);
            lemma_mod_bound(RATE_ONE * RATE_ONE, current_rate as int);
            let q = RATE_ONE * RATE_ONE / current_rate as int;
            assert(q * current_rate == current_rate * q && (q + 1) * current_rate == q
                * current_rate + current_rate) by (nonlinear_arith);
        }
    }
    rate_reciprocal(current_rate)
}

} // verus!
