//! What is taken from the crates of the Substrate and Polkadot projects.
use frame_support::{Blake2_128Concat, PalletId, StorageHasher};
use parity_scale_codec::Encode;
use sp_runtime::traits::AccountIdConversion;
use sp_runtime::{FixedPointNumber, FixedU128};
use vstd::prelude::*;

use crate::types::{AccountId, Rate};

verus! {

/// A location in the consensus system, as `staging_xcm` has it.
#[verifier::external_type_specification]
pub struct ExMultiLocation(staging_xcm::v3::MultiLocation);

/// The junctions of a location, as `staging_xcm` has them.
#[verifier::external_type_specification]
pub struct ExJunctions(staging_xcm::v3::Junctions);

/// A junction of a location; nothing is said of what it holds.
#[verifier::external_type_specification]
#[verifier::external_body]
pub struct ExJunction(staging_xcm::v3::Junction);

/// An error of the XCM executor; it is only passed on.
#[verifier::external_type_specification]
#[verifier::external_body]
pub struct ExXcmError(staging_xcm::v3::prelude::XcmError);

/// An error of another part of the runtime; it is only passed on.
#[verifier::external_type_specification]
#[verifier::external_body]
pub struct ExDispatchError(sp_runtime::DispatchError);

/// `MultiLocation::here`: no parents, and an interior without junctions.
pub assume_specification[ staging_xcm::v3::MultiLocation::here ]() -> (r:
    staging_xcm::v3::MultiLocation)
    ensures
        r == (staging_xcm::v3::MultiLocation {
            parents: 0,
            interior: staging_xcm::v3::Junctions::Here,
        }),
;

/// The four bytes of a number, the lowest first.
pub open spec fn le_bytes(x: u32) -> Seq<u8> {
    seq![
        (x % 256) as u8,
        (x / 256 % 256) as u8,
        (x / 65536 % 256) as u8,
        (x / 16777216) as u8,
    ]
}

/// Different numbers have different bytes.
pub proof fn le_bytes_differ(a: u32, b: u32)
    requires
        le_bytes(a) == le_bytes(b),
    ensures
        a == b,
{
    let x = le_bytes(a);
    let y = le_bytes(b);
    assert(x[0] == y[0] && x[1] == y[1] && x[2] == y[2] && x[3] == y[3]);
    assert(a == a % 256 + 256 * (a / 256 % 256) + 65536 * (a / 65536 % 256) + 16777216 * (a
        / 16777216));
    assert(b == b % 256 + 256 * (b / 256 % 256) + 65536 * (b / 65536 % 256) + 16777216 * (b
        / 16777216));
}

/// A four byte tag and a seed, filled up with zeros to the length of an account.
pub open spec fn tagged_account(tag: Seq<u8>, seed: Seq<u8>) -> Seq<u8> {
    let head = tag + seed;
    head + Seq::new((32 - head.len()) as nat, |i: int| 0u8)
}

/// The tag of accounts that belong to pallets: "modl".
pub open spec fn pallet_tag() -> Seq<u8> {
    seq![109u8, 111u8, 100u8, 108u8]
}

/// The tag of accounts that belong to parachains: "para".
pub open spec fn parachain_tag() -> Seq<u8> {
    seq![112u8, 97u8, 114u8, 97u8]
}

/// `AccountIdConversion::into_account_truncating` on a `frame_support::PalletId`:
/// the account is the tag "modl", the eight bytes of the identifier, and zeros.
#[verifier::external_body]
pub(crate) fn pallet_account(id: [u8; 8]) -> (r: AccountId)
    ensures
        r@ == tagged_account(pallet_tag(), id@),
{
    PalletId(id).into_account_truncating()
}

/// `AccountIdConversion::into_account_truncating` on a parachain identifier of
/// `polkadot_parachain_primitives`: the account is the tag "para", the four bytes
/// of the identifier, lowest first, and zeros.
#[verifier::external_body]
pub(crate) fn parachain_account(id: u32) -> (r: AccountId)
    ensures
        r@ == tagged_account(parachain_tag(), le_bytes(id)),
{
    polkadot_parachain_primitives::primitives::Id::from(id).into_account_truncating()
}

/// `parity_scale_codec::Encode::encode` on a `u32`: its four bytes, lowest first.
#[verifier::external_body]
pub(crate) fn encode_u32(x: u32) -> (r: Vec<u8>)
    ensures
        r@ == le_bytes(x),
{
    x.encode()
}

/// The BLAKE2b hash of 16 bytes that `frame_support` puts before storage keys.
pub uninterp spec fn blake2_128(bytes: Seq<u8>) -> Seq<u8>;

/// `frame_support::Blake2_128Concat::hash`: the hash of the bytes, which is 16
/// bytes long, and behind it the bytes themselves.
#[verifier::external_body]
pub(crate) fn blake2_128_concat(bytes: &[u8]) -> (r: Vec<u8>)
    ensures
        r@ == blake2_128(bytes@) + bytes@,
        r@.len() == 16 + bytes@.len(),
{
    Blake2_128Concat::hash(bytes)
}

/// The rate 1.
pub const RATE_ONE: Rate = 1_000_000_000_000_000_000;

/// `FixedU128::saturating_from_rational` on two `u32`: their quotient in units of
/// 10^-18, rounded down. It panics where `d` is zero. The quotient of two `u32`
/// is always in range, so nothing saturates.
#[verifier::external_body]
pub(crate) fn rate_from_rational(n: u32, d: u32) -> (r: Rate)
    requires
        d != 0,
    ensures
        r == n as int * RATE_ONE as int / d as int,
{
    FixedU128::saturating_from_rational(n, d).into_inner()
}

/// `FixedU128::reciprocal`: one divided by the rate, rounded down, in units of
/// 10^-18; `None` for the rate zero.
#[verifier::external_body]
pub(crate) fn rate_reciprocal(rate: Rate) -> (r: Option<Rate>)
    ensures
        rate == 0 ==> r is None,
        rate != 0 ==> r is Some && r->0 == RATE_ONE as int * RATE_ONE as int / rate as int,
{
    FixedU128::from_inner(rate).reciprocal().map(|x| x.into_inner())
}

} // verus!
