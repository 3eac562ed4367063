//! Where contributions are kept: the storage keys of child tries, their order, and what is
//! read back.
use vstd::prelude::*;

use crate::bytes::{decided_at, precedes};
use crate::config::Config;
use crate::outside::le_bytes;
use crate::state::{child_id, child_seed, State};
use crate::types::{
    AccountId, Balance, ChildStorageKind, Contribution, ContributionKey, TrieIndex,
};

verus! {

/// The name that the contributions of a kind are kept under.
pub open spec fn name_of(kind: ChildStorageKind) -> Seq<char> {
    match kind {
        ChildStorageKind::Pending => "crowdloan:pending"@,
        ChildStorageKind::Flying => "crowdloan:flying"@,
        ChildStorageKind::Contributed => "crowdloan:contributed"@,
    }
}

/// The storage key of a child trie is the hash of the name of the kind and the four bytes
/// of the index of the vault, the lowest first.
pub proof fn child_tries_are_kept_by_name<T: Config>(index: TrieIndex, kind: ChildStorageKind)
    ensures
        exists|seed: Seq<u8>|
            {
                let n = name_of(kind).len() as int;
                &&& child_id::<T>(index, kind) == #[trigger] T::spec_hash(seed)
                &&& seed.len() == n + 4
                &&& forall|i: int| 0 <= i < n ==> seed[i] == name_of(kind)[i] as int
                &&& index == seed[n] + 256 * seed[n + 1] + 65536 * seed[n + 2] + 16777216 * seed[n
                    + 3]
            },
{
    reveal_strlit("crowdloan:pending");
    reveal_strlit("crowdloan:flying");
    reveal_strlit("crowdloan:contributed");
    let seed = child_seed(index, kind);
    let n = name_of(kind).len() as int;
    bytes_of_numbers(index);
    assert(seed[n] == le_bytes(index)[0]);
    assert(seed[n + 1] == le_bytes(index)[1]);
    assert(seed[n + 2] == le_bytes(index)[2]);
    assert(seed[n + 3] == le_bytes(index)[3]);
    assert(child_id::<T>(index, kind) == T::spec_hash(seed));
}

/// A number has four bytes, of which the lowest comes first.
pub proof fn bytes_of_numbers(x: u32)
    ensures
        le_bytes(x).len() == 4,
        x == le_bytes(x)[0] + 256 * le_bytes(x)[1] + 65536 * le_bytes(x)[2] + 16777216 * le_bytes(
            x,
        )[3],
{
}

/// The order in which a trie walks its keys is that of a dictionary: nothing comes before
/// the empty string and it comes before all others, of two strings that begin with different
/// bytes the one with the smaller byte comes first, and what two strings begin with in
/// common does not matter.
pub proof fn keys_are_in_dictionary_order(a: Seq<u8>, b: Seq<u8>, common: Seq<u8>)
    ensures
        !precedes(a, Seq::empty()),
        precedes(Seq::empty(), b) <==> b.len() > 0,
        a.len() > 0 && b.len() > 0 && a[0] != b[0] ==> (precedes(a, b) <==> a[0] < b[0]),
        precedes(common + a, common + b) <==> precedes(a, b),
{
    if b.len() > 0 {
        assert(decided_at(Seq::empty(), b, 0));
    }
    if a.len() > 0 && b.len() > 0 && a[0] < b[0] {
        assert(decided_at(a, b, 0));
    }
    let n = common.len() as int;
    if precedes(a, b) {
        let i = choose|i: int| decided_at(a, b, i);
        assert(decided_at(common + a, common + b, n + i)) by {
            assert forall|j: int| 0 <= j < n + i implies (common + a)[j] == (common + b)[j] by {
                if j >= n {
                    assert(a[j - n] == b[j - n]);
                }
            }
        }
    }
    if precedes(common + a, common + b) {
        let i = choose|i: int| decided_at(common + a, common + b, i);
        if i < n {
            assert((common + a)[i] == (common + b)[i]);
        }
        assert(decided_at(a, b, i - n)) by {
            assert forall|j: int| 0 <= j < i - n implies a[j] == b[j] by {
                assert((common + a)[j + n] == (common + b)[j + n]);
            }
            if i < (common + a).len() {
                assert((common + a)[i] == a[i - n]);
                assert((common + b)[i] == b[i - n]);
            }
        }
    }
}

/// An entry that is written is read back as it is, one that is taken out is read back as
/// nothing without a referral code, and no other entry changes by either.
pub proof fn entries_are_read_as_written(
    state: State,
    child: Seq<u8>,
    who: AccountId,
    amount: Balance,
    referral_code: Seq<u8>,
    at: Seq<u8>,
    other: AccountId,
)
    ensures
        ({
            let written = state.put_contribution(child, who, amount, referral_code);
            let gone = state.without_contribution(child, who);
            let key = ContributionKey { child, who };
            &&& written.contributions.contains_key(key)
            &&& written.contribution(child, who) == (Contribution { amount, referral_code })
            &&& !gone.contributions.contains_key(key)
            &&& gone.contribution(child, who) == (Contribution {
                amount: 0,
                referral_code: Seq::<u8>::empty(),
            })
            &&& at != child || other != who ==> {
                &&& written.contribution(at, other) == state.contribution(at, other)
                &&& gone.contribution(at, other) == state.contribution(at, other)
            }
            &&& written == (State { contributions: written.contributions, ..state })
            &&& gone == (State { contributions: gone.contributions, ..state })
        }),
{
}

} // verus!
