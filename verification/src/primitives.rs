//! The field and group primitives, which `curve25519-dalek` computes.
//!
//! The contracts of this module's executable functions are not proved. Each
//! of them makes one call into the outside crate, between conversions from
//! and to plain bytes, and its contract is what the rest of the library
//! believes of that call.
//!
//! The Ristretto group has prime order, so its basepoint `B` generates it:
//! every element is `k * B` for exactly one `k` below the order. The contracts
//! speak of a group element through that `k`, its index, and through the 32
//! bytes that encode it.
use crate::arith::{
    difference_mod_order, group_order, le_value, product_mod_order, sum_mod_order,
};
use vstd::prelude::*;

verus! {

/// The canonical encoding of `k * B`, the `k`-fold multiple of the Ristretto
/// basepoint: the bytes that `RistrettoPoint::compress` returns for that
/// multiple, which depend on `k` alone.
pub uninterp spec fn ristretto_encoding(k: nat) -> Seq<u8>;

/// The encoding of the group element onto which the uniform map of
/// `RistrettoPoint::from_uniform_bytes` sends 64 bytes.
pub uninterp spec fn ristretto_from_uniform(bytes: Seq<u8>) -> Seq<u8>;

/// The SHA-512 digest of a message, as `sha2::Sha512` computes it.
pub uninterp spec fn sha512(message: Seq<u8>) -> Seq<u8>;

/// `bytes` encodes the `k`-fold multiple of the basepoint, `k` below the order.
pub open spec fn encodes(k: nat, bytes: Seq<u8>) -> bool {
    k < group_order() && ristretto_encoding(k) == bytes
}

/// The index of the group element that `bytes` encodes, where it encodes one.
pub open spec fn point_index(bytes: Seq<u8>) -> nat {
    choose|k: nat| encodes(k, bytes)
}

/// The encoding of the group's identity, `CompressedRistretto::identity()`:
/// 32 zero bytes.
pub open spec fn identity_encoding() -> Seq<u8> {
    Seq::new(32, |i: int| 0u8)
}

/// The encoding of the basepoint, `RISTRETTO_BASEPOINT_COMPRESSED`.
pub open spec fn generator_encoding() -> Seq<u8> {
    seq![
        0xe2u8, 0xf2, 0xae, 0x0a, 0x6a, 0xbc, 0x4e, 0x71, 0xa8, 0x84, 0xa9, 0x61, 0xc5, 0x00, 0x51,
        0x5f, 0x58, 0xe3, 0x0b, 0x6a, 0xa5, 0x82, 0xdd, 0x8d, 0xb6, 0xa6, 0x59, 0x45, 0xe0, 0x8d,
        0x2d, 0x76,
    ]
}

/// `bytes` is the encoding of a group element: of one multiple of the
/// basepoint, and of no other. The zero-fold multiple is the identity and the
/// one-fold multiple the basepoint itself, and nothing else is written as
/// they are.
pub open spec fn is_point_encoding(bytes: Seq<u8>) -> bool {
    &&& encodes(point_index(bytes), bytes)
    &&& forall|k: nat| #[trigger] encodes(k, bytes) ==> k == point_index(bytes)
    &&& point_index(bytes) == 0 <==> bytes == identity_encoding()
    &&& point_index(bytes) == 1 <==> bytes == generator_encoding()
}

/// `bytes` is the canonical encoding of a scalar: a number below the order.
pub open spec fn is_scalar_encoding(bytes: Seq<u8>) -> bool {
    le_value(bytes) < group_order()
}

/// The encoding of the `k`-fold multiple of the basepoint has index `k`.
pub proof fn lemma_index_of_encoding(k: nat, bytes: Seq<u8>)
    requires
        is_point_encoding(bytes),
        encodes(k, bytes),
    ensures
        point_index(bytes) == k,
{
}

/// `Scalar::from_canonical_bytes`: succeeds exactly on the little-endian
/// encodings of the numbers below the group order.
#[verifier::external_body]
pub(crate) fn scalar_is_canonical(bytes: &[u8; 32]) -> (ok: bool)
    ensures
        ok == is_scalar_encoding(bytes@),
{
    curve25519_dalek::scalar::Scalar::from_canonical_bytes(*bytes).is_some()
}

/// `Scalar::random` with the operating system's generator, `OsRng`: whatever
/// the random bytes, the result is reduced modulo the group order. Where the
/// operating system fails to give random bytes the generator panics; no
/// argument decides that.
#[verifier::external_body]
pub(crate) fn scalar_random() -> (r: [u8; 32])
    ensures
        is_scalar_encoding(r@),
{
    curve25519_dalek::scalar::Scalar::random(&mut rand_core::OsRng).to_bytes()
}

/// `Scalar::hash_from_bytes` with SHA-512: the digest, read as a 512-bit
/// little-endian number, reduced modulo the group order.
#[verifier::external_body]
pub(crate) fn scalar_hash(message: &[u8]) -> (r: [u8; 32])
    ensures
        le_value(r@) == le_value(sha512(message@)) % group_order(),
{
    curve25519_dalek::scalar::Scalar::hash_from_bytes::<sha2::Sha512>(message).to_bytes()
}

/// `Scalar::invert`: for a nonzero scalar, the scalar whose product with it is
/// one modulo the group order. Zero has no inverse; the exponentiation that
/// computes the inverse returns zero for it.
#[verifier::external_body]
pub(crate) fn scalar_invert(a: &[u8; 32]) -> (r: [u8; 32])
    requires
        is_scalar_encoding(a@),
    ensures
        is_scalar_encoding(r@),
        le_value(a@) != 0 ==> product_mod_order(le_value(a@), le_value(r@)) == 1,
        le_value(a@) == 0 ==> le_value(r@) == 0,
{
    let x = curve25519_dalek::scalar::Scalar::from_canonical_bytes(*a).unwrap();
    x.invert().to_bytes()
}

/// `Scalar * Scalar`: the product of the two numbers modulo the group order.
#[verifier::external_body]
pub(crate) fn scalar_product(a: &[u8; 32], b: &[u8; 32]) -> (r: [u8; 32])
    requires
        is_scalar_encoding(a@),
        is_scalar_encoding(b@),
    ensures
        le_value(r@) == product_mod_order(le_value(a@), le_value(b@)),
{
    let x = curve25519_dalek::scalar::Scalar::from_canonical_bytes(*a).unwrap();
    let y = curve25519_dalek::scalar::Scalar::from_canonical_bytes(*b).unwrap();
    (x * y).to_bytes()
}

/// `CompressedRistretto::decompress`: succeeds exactly on the canonical
/// encodings of the group's elements, each of which is one multiple of the
/// basepoint.
#[verifier::external_body]
pub(crate) fn point_decompresses(bytes: &[u8; 32]) -> (ok: bool)
    ensures
        ok == is_point_encoding(bytes@),
{
    curve25519_dalek::ristretto::CompressedRistretto::from_slice(bytes).decompress().is_some()
}

/// `RistrettoPoint::random` with the operating system's generator, `OsRng`:
/// whatever the random bytes, the result is an element of the group. Where
/// the operating system fails to give random bytes the generator panics; no
/// argument decides that.
#[verifier::external_body]
pub(crate) fn point_random() -> (r: [u8; 32])
    ensures
        is_point_encoding(r@),
{
    curve25519_dalek::ristretto::RistrettoPoint::random(&mut rand_core::OsRng).compress().to_bytes()
}

/// `RistrettoPoint::from_uniform_bytes`: the group element that the uniform
/// map assigns to the 64 bytes.
#[verifier::external_body]
pub(crate) fn point_from_uniform(bytes: &[u8; 64]) -> (r: [u8; 32])
    ensures
        r@ == ristretto_from_uniform(bytes@),
        is_point_encoding(r@),
{
    curve25519_dalek::ristretto::RistrettoPoint::from_uniform_bytes(bytes).compress().to_bytes()
}

/// `RistrettoPoint::hash_from_bytes` with SHA-512: the group element that the
/// uniform map assigns to the message's digest.
#[verifier::external_body]
pub(crate) fn point_hash(message: &[u8]) -> (r: [u8; 32])
    ensures
        r@ == ristretto_from_uniform(sha512(message@)),
        is_point_encoding(r@),
{
    curve25519_dalek::ristretto::RistrettoPoint::hash_from_bytes::<sha2::Sha512>(message)
        .compress()
        .to_bytes()
}

/// `Scalar * RISTRETTO_BASEPOINT_POINT`: the multiple of the basepoint that
/// the scalar counts.
#[verifier::external_body]
pub(crate) fn point_base(s: &[u8; 32]) -> (r: [u8; 32])
    requires
        is_scalar_encoding(s@),
    ensures
        r@ == ristretto_encoding(le_value(s@)),
        is_point_encoding(r@),
{
    let x = curve25519_dalek::scalar::Scalar::from_canonical_bytes(*s).unwrap();
    (x * curve25519_dalek::constants::RISTRETTO_BASEPOINT_POINT).compress().to_bytes()
}

/// `Scalar * RistrettoPoint`: the multiple of the element that the scalar
/// counts, whose index is the product of the scalar and the element's index
/// modulo the group order.
#[verifier::external_body]
pub(crate) fn point_scalar_product(s: &[u8; 32], p: &[u8; 32]) -> (r: [u8; 32])
    requires
        is_scalar_encoding(s@),
        is_point_encoding(p@),
    ensures
        r@ == ristretto_encoding(product_mod_order(le_value(s@), point_index(p@))),
        is_point_encoding(r@),
{
    let x = curve25519_dalek::scalar::Scalar::from_canonical_bytes(*s).unwrap();
    let y = curve25519_dalek::ristretto::CompressedRistretto::from_slice(p).decompress().unwrap();
    (x * y).compress().to_bytes()
}

/// `RistrettoPoint + RistrettoPoint`: the group's sum of the two elements,
/// whose index is the sum of their indices modulo the group order.
#[verifier::external_body]
pub(crate) fn point_sum(a: &[u8; 32], b: &[u8; 32]) -> (r: [u8; 32])
    requires
        is_point_encoding(a@),
        is_point_encoding(b@),
    ensures
        r@ == ristretto_encoding(sum_mod_order(point_index(a@), point_index(b@))),
        is_point_encoding(r@),
{
    let x = curve25519_dalek::ristretto::CompressedRistretto::from_slice(a).decompress().unwrap();
    let y = curve25519_dalek::ristretto::CompressedRistretto::from_slice(b).decompress().unwrap();
    (x + y).compress().to_bytes()
}

/// `RistrettoPoint - RistrettoPoint`: the group's difference of the two
/// elements, whose index is the difference of their indices modulo the group
/// order.
#[verifier::external_body]
pub(crate) fn point_difference(a: &[u8; 32], b: &[u8; 32]) -> (r: [u8; 32])
    requires
        is_point_encoding(a@),
        is_point_encoding(b@),
    ensures
        r@ == ristretto_encoding(difference_mod_order(point_index(a@), point_index(b@))),
        is_point_encoding(r@),
{
    let x = curve25519_dalek::ristretto::CompressedRistretto::from_slice(a).decompress().unwrap();
    let y = curve25519_dalek::ristretto::CompressedRistretto::from_slice(b).decompress().unwrap();
    (x - y).compress().to_bytes()
}

} // verus!
