//! Trusted bridge to the two curve crates, the hash, and the system's
//! randomness. Every function here is `external_body`: its contract states
//! what the called crate documents, over plain byte values. Points are
//! carried as their fixed-width compressed encodings (32 bytes for ed25519,
//! 33 bytes for secp256k1, with 33 zero bytes standing for the secp256k1
//! identity, as `secp256kfun` itself encodes it); scalars are carried as
//! 32-byte canonical encodings, little-endian for ed25519 and big-endian
//! for secp256k1, matching each crate's own convention.

use vstd::prelude::*;
use vstd::arithmetic::power2::pow2;
use crate::bytes::{nat_le, nat_be, le32_of_nat, be32_of_nat, add_mod, sub_mod, mul_mod};
use curve25519_dalek::edwards::CompressedEdwardsY;
use curve25519_dalek::scalar::Scalar as EdScalar;
use curve25519_dalek::traits::VartimeMultiscalarMul;
use secp256kfun::{op, Point as SecpPoint, Scalar as SecpScalar};
use secp256kfun::marker::{Normal, Public as MarkPublic, Zero as MarkZero};
use sha2::{Digest, Sha256};
use rand_core::RngCore;

verus! {

/// The order of the ed25519 prime-order subgroup,
/// `2^252 + 27742317777372353535851937790883648493`.
pub open spec fn ed_order() -> nat {
    pow2(252) + 27742317777372353535851937790883648493
}

/// The order of the secp256k1 group,
/// `2^256 - 2^128 - 0x4551231950B75FC4402DA1732FC9BEBF`.
pub open spec fn secp_order() -> nat {
    (pow2(256) - pow2(128) - 0x4551231950B75FC4402DA1732FC9BEBF) as nat
}

/// The standard compressed encoding of the ed25519 basepoint.
pub open spec fn ed_g_seq() -> Seq<u8> {
    seq![
        0x58u8, 0x66, 0x66, 0x66, 0x66, 0x66, 0x66, 0x66, 0x66, 0x66, 0x66, 0x66, 0x66, 0x66,
        0x66, 0x66, 0x66, 0x66, 0x66, 0x66, 0x66, 0x66, 0x66, 0x66, 0x66, 0x66, 0x66, 0x66,
        0x66, 0x66, 0x66, 0x66,
    ]
}

/// The standard compressed (SEC1) encoding of the secp256k1 basepoint.
pub open spec fn secp_g_seq() -> Seq<u8> {
    seq![
        2u8, 121, 190, 102, 126, 249, 220, 187, 172, 85, 160, 98, 149, 206, 135, 11, 7, 2, 155,
        252, 219, 45, 206, 40, 217, 89, 242, 129, 91, 22, 248, 23, 152,
    ]
}

/// Both group orders are above one (so reduction mod either is a value
/// strictly below it).
pub proof fn lemma_orders_pos()
    ensures
        ed_order() > 1,
        secp_order() > 1,
        secp_order() < pow2(256),
        ed_order() < pow2(256),
{
    vstd::arithmetic::power2::lemma_pow2_pos(252);
    vstd::arithmetic::power2::lemma2_to64();
    vstd::arithmetic::power2::lemma_pow2_adds(64, 64);
    vstd::arithmetic::power2::lemma_pow2_adds(2, 128);
    vstd::arithmetic::power2::lemma_pow2_strictly_increases(130, 256);
    vstd::arithmetic::power2::lemma_pow2_strictly_increases(252, 256);
    assert(pow2(128) == pow2(64) * pow2(64));
    assert(pow2(130) == 4 * pow2(128));
    assert(pow2(256) > 4 * pow2(128));
    assert(0x4551231950B75FC4402DA1732FC9BEBF < pow2(128));
    assert(27742317777372353535851937790883648493 < pow2(128));
    assert(ed_order() < pow2(256)) by {
        assert(pow2(252) + pow2(128) < 2 * pow2(256)) by (nonlinear_arith)
            requires
                pow2(252) < pow2(256),
                pow2(128) < pow2(256),
        ;
        assert(pow2(256) - pow2(128) - 0x4551231950B75FC4402DA1732FC9BEBF > pow2(252)) by {
            assert(pow2(256) >= 16 * pow2(252)) by {
                vstd::arithmetic::power2::lemma_pow2_adds(4, 252);
            }
        }
    }
}

/// Whether 32 bytes decompress to an ed25519 curve point.
pub uninterp spec fn ed_point_valid(b: Seq<u8>) -> bool;

/// The compressed sum of two ed25519 points given by their encodings.
pub uninterp spec fn ed_add_pt(a: Seq<u8>, b: Seq<u8>) -> Seq<u8>;

/// The compressed product of the scalar encoded by 32 little-endian bytes
/// (reduced mod the group order) and the ed25519 point encoded by `p`.
pub uninterp spec fn ed_mul_pt(s: Seq<u8>, p: Seq<u8>) -> Seq<u8>;

/// The compressed difference of two ed25519 points given by their encodings.
pub uninterp spec fn ed_sub_pt(a: Seq<u8>, b: Seq<u8>) -> Seq<u8>;

/// The compressed combination `x·A + y·B` of two ed25519 points, the
/// scalars read as little-endian values reduced mod the group order.
pub uninterp spec fn ed_dmul_pt(x: Seq<u8>, a: Seq<u8>, y: Seq<u8>, b: Seq<u8>) -> Seq<u8>;

/// Whether 33 bytes are a secp256k1 point: a valid SEC1 compressed
/// encoding, or all zero (the identity).
pub uninterp spec fn secp_point_valid(b: Seq<u8>) -> bool;

/// The compressed sum of two secp256k1 points given by their encodings.
pub uninterp spec fn secp_add_pt(a: Seq<u8>, b: Seq<u8>) -> Seq<u8>;

/// The compressed product of the scalar encoded by 32 big-endian bytes
/// (reduced mod the group order) and the secp256k1 point encoded by `p`.
pub uninterp spec fn secp_mul_pt(s: Seq<u8>, p: Seq<u8>) -> Seq<u8>;

/// The compressed difference of two secp256k1 points.
pub uninterp spec fn secp_sub_pt(a: Seq<u8>, b: Seq<u8>) -> Seq<u8>;

/// The compressed combination `x·A + y·B` of two secp256k1 points, the
/// scalars read as big-endian values reduced mod the group order.
pub uninterp spec fn secp_dmul_pt(x: Seq<u8>, a: Seq<u8>, y: Seq<u8>, b: Seq<u8>) -> Seq<u8>;

/// The 32-byte SHA-256 digest of a byte string.
pub uninterp spec fn sha256_of(b: Seq<u8>) -> Seq<u8>;

/// Relies on `curve25519_dalek::constants::ED25519_BASEPOINT_POINT`: its
/// compressed encoding is the standard constant `ed_g_seq()`, and a point's
/// own compressed encoding decompresses back to it.
#[verifier::external_body]
pub(crate) fn ed_basepoint() -> (r: Vec<u8>)
    ensures
        r@.len() == 32,
        r@ == ed_g_seq(),
        ed_point_valid(r@),
{
    curve25519_dalek::constants::ED25519_BASEPOINT_POINT.compress().to_bytes().to_vec()
}

/// Relies on `secp256kfun::G`: its compressed encoding is the standard
/// constant `secp_g_seq()`, and a point's own encoding parses back to it.
#[verifier::external_body]
pub(crate) fn secp_basepoint() -> (r: Vec<u8>)
    ensures
        r@.len() == 33,
        r@ == secp_g_seq(),
        secp_point_valid(r@),
{
    secp256kfun::G.to_bytes().to_vec()
}

/// Relies on `CompressedEdwardsY::decompress`: `Some` exactly when the bytes
/// encode a curve point.
#[verifier::external_body]
pub(crate) fn ed_check_point(b: &Vec<u8>) -> (r: bool)
    requires
        b@.len() == 32,
    ensures
        r == ed_point_valid(b@),
{
    let arr: [u8; 32] = b.as_slice().try_into().unwrap();
    CompressedEdwardsY(arr).decompress().is_some()
}

/// Relies on `EdwardsPoint`'s `Add` and `compress`: the sum of two curve
/// points is a curve point, and `compress` yields its canonical encoding.
#[verifier::external_body]
pub(crate) fn ed_point_add(a: &Vec<u8>, b: &Vec<u8>) -> (r: Vec<u8>)
    requires
        a@.len() == 32,
        b@.len() == 32,
        ed_point_valid(a@),
        ed_point_valid(b@),
    ensures
        r@.len() == 32,
        r@ == ed_add_pt(a@, b@),
        ed_point_valid(r@),
{
    let pa = CompressedEdwardsY(a.as_slice().try_into().unwrap()).decompress().unwrap();
    let pb = CompressedEdwardsY(b.as_slice().try_into().unwrap()).decompress().unwrap();
    (&pa + &pb).compress().to_bytes().to_vec()
}

/// Relies on `EdwardsPoint`'s `Mul<Scalar>` together with
/// `Scalar::from_bytes_mod_order`: scalar multiplication of a curve point
/// by the little-endian value of `s` reduced mod the group order.
#[verifier::external_body]
pub(crate) fn ed_point_mul(s: &Vec<u8>, p: &Vec<u8>) -> (r: Vec<u8>)
    requires
        s@.len() == 32,
        p@.len() == 32,
        ed_point_valid(p@),
    ensures
        r@.len() == 32,
        r@ == ed_mul_pt(s@, p@),
        ed_point_valid(r@),
{
    let sc = EdScalar::from_bytes_mod_order(s.as_slice().try_into().unwrap());
    let pt = CompressedEdwardsY(p.as_slice().try_into().unwrap()).decompress().unwrap();
    (&sc * &pt).compress().to_bytes().to_vec()
}

/// Relies on `EdwardsPoint`'s `Sub` and `compress`: the difference of two
/// curve points, canonically encoded.
#[verifier::external_body]
pub(crate) fn ed_point_sub(a: &Vec<u8>, b: &Vec<u8>) -> (r: Vec<u8>)
    requires
        a@.len() == 32,
        b@.len() == 32,
        ed_point_valid(a@),
        ed_point_valid(b@),
    ensures
        r@.len() == 32,
        r@ == ed_sub_pt(a@, b@),
        ed_point_valid(r@),
{
    let pa = CompressedEdwardsY(a.as_slice().try_into().unwrap()).decompress().unwrap();
    let pb = CompressedEdwardsY(b.as_slice().try_into().unwrap()).decompress().unwrap();
    (&pa - &pb).compress().to_bytes().to_vec()
}

/// Relies on `EdwardsPoint::vartime_multiscalar_mul` with
/// `Scalar::from_bytes_mod_order`: the linear combination `x·A + y·B`,
/// canonically encoded. Run on public data only: its timing may vary.
#[verifier::external_body]
pub(crate) fn ed_double_mul(x: &Vec<u8>, a: &Vec<u8>, y: &Vec<u8>, b: &Vec<u8>) -> (r: Vec<u8>)
    requires
        x@.len() == 32,
        y@.len() == 32,
        a@.len() == 32,
        b@.len() == 32,
        ed_point_valid(a@),
        ed_point_valid(b@),
    ensures
        r@.len() == 32,
        r@ == ed_dmul_pt(x@, a@, y@, b@),
        ed_point_valid(r@),
{
    let sx = EdScalar::from_bytes_mod_order(x.as_slice().try_into().unwrap());
    let sy = EdScalar::from_bytes_mod_order(y.as_slice().try_into().unwrap());
    let pa = CompressedEdwardsY(a.as_slice().try_into().unwrap()).decompress().unwrap();
    let pb = CompressedEdwardsY(b.as_slice().try_into().unwrap()).decompress().unwrap();
    curve25519_dalek::edwards::EdwardsPoint::vartime_multiscalar_mul([sx, sy], [pa, pb])
        .compress().to_bytes().to_vec()
}

/// Relies on `Scalar::from_canonical_bytes`: `Some` exactly when the
/// little-endian value of the bytes is below the group order.
#[verifier::external_body]
pub(crate) fn ed_scalar_check(b: &Vec<u8>) -> (r: bool)
    requires
        b@.len() == 32,
    ensures
        r == (nat_le(b@) < ed_order()),
{
    let o: Option<EdScalar> = EdScalar::from_canonical_bytes(
        b.as_slice().try_into().unwrap(),
    ).into();
    o.is_some()
}

/// Relies on `Scalar`'s `Add` with `from_bytes_mod_order` and `to_bytes`:
/// addition mod the group order, returned in canonical little-endian form.
#[verifier::external_body]
pub(crate) fn ed_scalar_add(a: &Vec<u8>, b: &Vec<u8>) -> (r: Vec<u8>)
    requires
        a@.len() == 32,
        b@.len() == 32,
    ensures
        r@.len() == 32,
        r@ == le32_of_nat(add_mod(nat_le(a@), nat_le(b@), ed_order())),
        nat_le(r@) == add_mod(nat_le(a@), nat_le(b@), ed_order()),
{
    let x = EdScalar::from_bytes_mod_order(a.as_slice().try_into().unwrap());
    let y = EdScalar::from_bytes_mod_order(b.as_slice().try_into().unwrap());
    (x + y).to_bytes().to_vec()
}

/// Relies on `Scalar`'s `Sub` with `from_bytes_mod_order` and `to_bytes`:
/// subtraction mod the group order, returned in canonical little-endian form.
#[verifier::external_body]
pub(crate) fn ed_scalar_sub(a: &Vec<u8>, b: &Vec<u8>) -> (r: Vec<u8>)
    requires
        a@.len() == 32,
        b@.len() == 32,
    ensures
        r@.len() == 32,
        r@ == le32_of_nat(sub_mod(nat_le(a@), nat_le(b@), ed_order())),
        nat_le(r@) == sub_mod(nat_le(a@), nat_le(b@), ed_order()),
{
    let x = EdScalar::from_bytes_mod_order(a.as_slice().try_into().unwrap());
    let y = EdScalar::from_bytes_mod_order(b.as_slice().try_into().unwrap());
    (x - y).to_bytes().to_vec()
}

/// Relies on `Scalar`'s `Mul` with `from_bytes_mod_order` and `to_bytes`:
/// multiplication mod the group order, in canonical little-endian form.
#[verifier::external_body]
pub(crate) fn ed_scalar_mul(a: &Vec<u8>, b: &Vec<u8>) -> (r: Vec<u8>)
    requires
        a@.len() == 32,
        b@.len() == 32,
    ensures
        r@.len() == 32,
        r@ == le32_of_nat(mul_mod(nat_le(a@), nat_le(b@), ed_order())),
        nat_le(r@) == mul_mod(nat_le(a@), nat_le(b@), ed_order()),
{
    let x = EdScalar::from_bytes_mod_order(a.as_slice().try_into().unwrap());
    let y = EdScalar::from_bytes_mod_order(b.as_slice().try_into().unwrap());
    (x * y).to_bytes().to_vec()
}

/// Relies on `Scalar::from_bytes_mod_order` and `to_bytes`: reduction of a
/// 32-byte little-endian value mod the group order, in canonical form.
#[verifier::external_body]
pub(crate) fn ed_scalar_reduce(b: &Vec<u8>) -> (r: Vec<u8>)
    requires
        b@.len() == 32,
    ensures
        r@.len() == 32,
        r@ == le32_of_nat(nat_le(b@) % ed_order()),
        nat_le(r@) == nat_le(b@) % ed_order(),
{
    EdScalar::from_bytes_mod_order(b.as_slice().try_into().unwrap()).to_bytes().to_vec()
}

/// Relies on `Point::<Normal, Public, Zero>::from_bytes`: `Some` exactly for
/// a valid SEC1 compressed encoding or the crate's all-zero identity form.
#[verifier::external_body]
pub(crate) fn secp_check_point(b: &Vec<u8>) -> (r: bool)
    requires
        b@.len() == 33,
    ensures
        r == secp_point_valid(b@),
{
    let arr: [u8; 33] = b.as_slice().try_into().unwrap();
    SecpPoint::<Normal, MarkPublic, MarkZero>::from_bytes(arr).is_some()
}

/// Relies on `secp256kfun::op::point_add` with `from_bytes`, `point_normalize`
/// and `to_bytes`: the sum of two points, in the encoding stated above.
#[verifier::external_body]
pub(crate) fn secp_point_add(a: &Vec<u8>, b: &Vec<u8>) -> (r: Vec<u8>)
    requires
        a@.len() == 33,
        b@.len() == 33,
        secp_point_valid(a@),
        secp_point_valid(b@),
    ensures
        r@.len() == 33,
        r@ == secp_add_pt(a@, b@),
        secp_point_valid(r@),
{
    let pa = SecpPoint::<Normal, MarkPublic, MarkZero>::from_bytes(
        a.as_slice().try_into().unwrap(),
    ).unwrap();
    let pb = SecpPoint::<Normal, MarkPublic, MarkZero>::from_bytes(
        b.as_slice().try_into().unwrap(),
    ).unwrap();
    op::point_normalize(op::point_add(&pa, &pb)).to_bytes().to_vec()
}

/// Relies on `secp256kfun::op::scalar_mul_point` with
/// `Scalar::from_bytes_mod_order`: multiplication of a point by the
/// big-endian value of `s` reduced mod the group order.
#[verifier::external_body]
pub(crate) fn secp_point_mul(s: &Vec<u8>, p: &Vec<u8>) -> (r: Vec<u8>)
    requires
        s@.len() == 32,
        p@.len() == 33,
        secp_point_valid(p@),
    ensures
        r@.len() == 33,
        r@ == secp_mul_pt(s@, p@),
        secp_point_valid(r@),
{
    let sc = SecpScalar::<MarkPublic, MarkZero>::from_bytes_mod_order(
        s.as_slice().try_into().unwrap(),
    );
    let pt = SecpPoint::<Normal, MarkPublic, MarkZero>::from_bytes(
        p.as_slice().try_into().unwrap(),
    ).unwrap();
    op::point_normalize(op::scalar_mul_point(&sc, &pt)).to_bytes().to_vec()
}

/// Relies on `secp256kfun::op::point_sub` with `from_bytes`,
/// `point_normalize` and `to_bytes`: the difference of two points.
#[verifier::external_body]
pub(crate) fn secp_point_sub(a: &Vec<u8>, b: &Vec<u8>) -> (r: Vec<u8>)
    requires
        a@.len() == 33,
        b@.len() == 33,
        secp_point_valid(a@),
        secp_point_valid(b@),
    ensures
        r@.len() == 33,
        r@ == secp_sub_pt(a@, b@),
        secp_point_valid(r@),
{
    let pa = SecpPoint::<Normal, MarkPublic, MarkZero>::from_bytes(
        a.as_slice().try_into().unwrap(),
    ).unwrap();
    let pb = SecpPoint::<Normal, MarkPublic, MarkZero>::from_bytes(
        b.as_slice().try_into().unwrap(),
    ).unwrap();
    op::point_normalize(op::point_sub(&pa, &pb)).to_bytes().to_vec()
}

/// Relies on `secp256kfun::op::double_mul` with `from_bytes_mod_order`:
/// the linear combination `x·A + y·B`.
#[verifier::external_body]
pub(crate) fn secp_double_mul(x: &Vec<u8>, a: &Vec<u8>, y: &Vec<u8>, b: &Vec<u8>) -> (r: Vec<u8>)
    requires
        x@.len() == 32,
        y@.len() == 32,
        a@.len() == 33,
        b@.len() == 33,
        secp_point_valid(a@),
        secp_point_valid(b@),
    ensures
        r@.len() == 33,
        r@ == secp_dmul_pt(x@, a@, y@, b@),
        secp_point_valid(r@),
{
    let sx = SecpScalar::<MarkPublic, MarkZero>::from_bytes_mod_order(x.as_slice().try_into().unwrap());
    let sy = SecpScalar::<MarkPublic, MarkZero>::from_bytes_mod_order(y.as_slice().try_into().unwrap());
    let pa = SecpPoint::<Normal, MarkPublic, MarkZero>::from_bytes(a.as_slice().try_into().unwrap()).unwrap();
    let pb = SecpPoint::<Normal, MarkPublic, MarkZero>::from_bytes(b.as_slice().try_into().unwrap()).unwrap();
    op::point_normalize(op::double_mul(&sx, &pa, &sy, &pb)).to_bytes().to_vec()
}

/// Relies on `Scalar::<Public, Zero>::from_bytes`: `Some` exactly when the
/// big-endian value of the bytes is below the group order.
#[verifier::external_body]
pub(crate) fn secp_scalar_check(b: &Vec<u8>) -> (r: bool)
    requires
        b@.len() == 32,
    ensures
        r == (nat_be(b@) < secp_order()),
{
    let arr: [u8; 32] = b.as_slice().try_into().unwrap();
    SecpScalar::<MarkPublic, MarkZero>::from_bytes(arr).is_some()
}

/// Relies on `secp256kfun::op::scalar_add` with `from_bytes_mod_order` and
/// `to_bytes`: addition mod the group order, in canonical big-endian form.
#[verifier::external_body]
pub(crate) fn secp_scalar_add(a: &Vec<u8>, b: &Vec<u8>) -> (r: Vec<u8>)
    requires
        a@.len() == 32,
        b@.len() == 32,
    ensures
        r@.len() == 32,
        r@ == be32_of_nat(add_mod(nat_be(a@), nat_be(b@), secp_order())),
        nat_be(r@) == add_mod(nat_be(a@), nat_be(b@), secp_order()),
{
    let x = SecpScalar::<MarkPublic, MarkZero>::from_bytes_mod_order(
        a.as_slice().try_into().unwrap(),
    );
    let y = SecpScalar::<MarkPublic, MarkZero>::from_bytes_mod_order(
        b.as_slice().try_into().unwrap(),
    );
    op::scalar_add(&x, &y).to_bytes().to_vec()
}

/// Relies on `secp256kfun::op::scalar_sub` with `from_bytes_mod_order` and
/// `to_bytes`: subtraction mod the group order, in canonical big-endian form.
#[verifier::external_body]
pub(crate) fn secp_scalar_sub(a: &Vec<u8>, b: &Vec<u8>) -> (r: Vec<u8>)
    requires
        a@.len() == 32,
        b@.len() == 32,
    ensures
        r@.len() == 32,
        r@ == be32_of_nat(sub_mod(nat_be(a@), nat_be(b@), secp_order())),
        nat_be(r@) == sub_mod(nat_be(a@), nat_be(b@), secp_order()),
{
    let x = SecpScalar::<MarkPublic, MarkZero>::from_bytes_mod_order(
        a.as_slice().try_into().unwrap(),
    );
    let y = SecpScalar::<MarkPublic, MarkZero>::from_bytes_mod_order(
        b.as_slice().try_into().unwrap(),
    );
    op::scalar_sub(&x, &y).to_bytes().to_vec()
}

/// Relies on `secp256kfun::op::scalar_mul` with `from_bytes_mod_order` and
/// `to_bytes`: multiplication mod the group order, in big-endian form.
#[verifier::external_body]
pub(crate) fn secp_scalar_mul(a: &Vec<u8>, b: &Vec<u8>) -> (r: Vec<u8>)
    requires
        a@.len() == 32,
        b@.len() == 32,
    ensures
        r@.len() == 32,
        r@ == be32_of_nat(mul_mod(nat_be(a@), nat_be(b@), secp_order())),
        nat_be(r@) == mul_mod(nat_be(a@), nat_be(b@), secp_order()),
{
    let x = SecpScalar::<MarkPublic, MarkZero>::from_bytes_mod_order(
        a.as_slice().try_into().unwrap(),
    );
    let y = SecpScalar::<MarkPublic, MarkZero>::from_bytes_mod_order(
        b.as_slice().try_into().unwrap(),
    );
    op::scalar_mul(&x, &y).to_bytes().to_vec()
}

/// Relies on `Scalar::from_bytes_mod_order` and `to_bytes`: reduction of a
/// 32-byte big-endian value mod the group order, in canonical form.
#[verifier::external_body]
pub(crate) fn secp_scalar_reduce(b: &Vec<u8>) -> (r: Vec<u8>)
    requires
        b@.len() == 32,
    ensures
        r@.len() == 32,
        r@ == be32_of_nat(nat_be(b@) % secp_order()),
        nat_be(r@) == nat_be(b@) % secp_order(),
{
    SecpScalar::<MarkPublic, MarkZero>::from_bytes_mod_order(
        b.as_slice().try_into().unwrap(),
    ).to_bytes().to_vec()
}

/// Relies on `sha2::Sha256::digest`: the digest depends on the input bytes
/// alone and is 32 bytes long.
#[verifier::external_body]
pub(crate) fn sha256(b: &Vec<u8>) -> (r: Vec<u8>)
    ensures
        r@.len() == 32,
        r@ == sha256_of(b@),
{
    Sha256::digest(b.as_slice()).as_slice().to_vec()
}

/// Relies on `rand_core::OsRng::fill_bytes`: 32 bytes from the operating
/// system's cryptographically secure generator. Nothing can be promised of
/// their value.
#[verifier::external_body]
pub(crate) fn random_bytes32() -> (r: Vec<u8>)
    ensures
        r@.len() == 32,
{
    let mut buf = [0u8; 32];
    rand_core::OsRng.fill_bytes(&mut buf);
    buf.to_vec()
}

} // verus!
