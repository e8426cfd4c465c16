//! The shared secret space: 252-bit secrets held as 32 little-endian bytes,
//! bit decomposition and recomposition, the range invariant, and clearing of
//! high bits as an explicit scope-reduction step.

use vstd::prelude::*;
use vstd::arithmetic::power2::pow2;
use crate::DleqError;
use crate::bytes::{nat_le, lemma_nat_le_bound, lemma_nat_le_split};

verus! {

/// The number of secret bits: the largest bit length representable as a
/// scalar modulo both group orders.
pub const SECRET_BITS: usize = 252;

/// Bit `i` (little-endian over bytes, least significant bit first) of a
/// byte string.
pub open spec fn bit_at(s: Seq<u8>, i: int) -> bool {
    ((s[i / 8] >> ((i % 8) as u8)) & 1) == 1
}

/// The range invariant of a secret: the top four bits of the last byte are
/// clear, so the value is below `2^252`.
pub open spec fn in_range(s: Seq<u8>) -> bool {
    (s[31] >> 4) == 0
}

/// The bit decomposition of a 32-byte secret: its 252 low bits in order,
/// least significant first.
pub open spec fn decompose_spec(s: Seq<u8>) -> Seq<bool> {
    Seq::new(252, |i: int| bit_at(s, i))
}

/// The range invariant holds exactly when the bits past the 252nd are clear.
pub proof fn lemma_in_range_bits(s: Seq<u8>)
    requires
        s.len() == 32,
    ensures
        in_range(s) <==> (forall|j: int| 252 <= j < 256 ==> !bit_at(s, j)),
{
    let b = s[31];
    assert(252int / 8 == 31 && 253int / 8 == 31 && 254int / 8 == 31 && 255int / 8 == 31);
    assert(252int % 8 == 4 && 253int % 8 == 5 && 254int % 8 == 6 && 255int % 8 == 7);
    assert(bit_at(s, 252) == (((b >> 4u8) & 1) == 1));
    assert(bit_at(s, 253) == (((b >> 5u8) & 1) == 1));
    assert(bit_at(s, 254) == (((b >> 6u8) & 1) == 1));
    assert(bit_at(s, 255) == (((b >> 7u8) & 1) == 1));
    assert((b >> 4) == 0 <==> (((b >> 4u8) & 1) != 1 && ((b >> 5u8) & 1) != 1 && ((b >> 6u8) & 1)
        != 1 && ((b >> 7u8) & 1) != 1)) by (bit_vector);
    if in_range(s) {
        assert forall|j: int| 252 <= j < 256 implies !bit_at(s, j) by {
            assert(j == 252 || j == 253 || j == 254 || j == 255);
        }
    }
}

/// The range invariant holds exactly when the secret's little-endian value
/// is below `2^252`: what range rejection rejects is precisely a value of
/// `2^252` or more.
pub proof fn lemma_in_range_value(s: Seq<u8>)
    requires
        s.len() == 32,
    ensures
        in_range(s) <==> nat_le(s) < pow2(252),
{
    vstd::arithmetic::power2::lemma2_to64();
    lemma_nat_le_split(s, 31);
    lemma_nat_le_bound(s.take(31));
    let tail = s.skip(31);
    assert(tail.len() == 1);
    assert(nat_le(tail) == tail[0] as nat + 256 * nat_le(tail.skip(1)));
    assert(nat_le(tail.skip(1)) == 0);
    assert(tail[0] == s[31]);
    let b = s[31];
    assert(((b >> 4) == 0) == (b < 16)) by (bit_vector);
    vstd::arithmetic::power2::lemma_pow2_adds(4, 248);
    assert(pow2(252) == 16 * pow2(248));
    assert(nat_le(s) == nat_le(s.take(31)) + pow2(248) * (b as nat));
    if b < 16 {
        assert(pow2(248) * (b as nat) <= pow2(248) * 15) by (nonlinear_arith)
            requires
                b < 16,
        ;
        assert(nat_le(s) < pow2(248) + pow2(248) * 15);
    } else {
        assert(pow2(248) * (b as nat) >= pow2(248) * 16) by (nonlinear_arith)
            requires
                b >= 16,
        ;
    }
}

/// Two 32-byte strings with the same 256 bits are equal.
pub proof fn lemma_bits_determine_bytes(a: Seq<u8>, b: Seq<u8>)
    requires
        a.len() == 32,
        b.len() == 32,
        forall|i: int| 0 <= i < 256 ==> bit_at(a, i) == bit_at(b, i),
    ensures
        a == b,
{
    assert forall|k: int| 0 <= k < 32 implies a[k] == b[k] by {
        lemma_byte_from_bits(a, b, k);
    }
    assert(a =~= b);
}

/// One byte of two strings agreeing on all bits is equal.
proof fn lemma_byte_from_bits(a: Seq<u8>, b: Seq<u8>, k: int)
    requires
        a.len() == 32,
        b.len() == 32,
        0 <= k < 32,
        forall|i: int| 0 <= i < 256 ==> bit_at(a, i) == bit_at(b, i),
    ensures
        a[k] == b[k],
{
    lemma_bit_instance(a, b, k, 0);
    lemma_bit_instance(a, b, k, 1);
    lemma_bit_instance(a, b, k, 2);
    lemma_bit_instance(a, b, k, 3);
    lemma_bit_instance(a, b, k, 4);
    lemma_bit_instance(a, b, k, 5);
    lemma_bit_instance(a, b, k, 6);
    lemma_bit_instance(a, b, k, 7);
    lemma_u8_bits_ext(a[k], b[k]);
}

/// Carries one bit's agreement from the bit level to the byte level.
proof fn lemma_bit_instance(a: Seq<u8>, b: Seq<u8>, k: int, j: int)
    requires
        a.len() == 32,
        b.len() == 32,
        0 <= k < 32,
        0 <= j < 8,
        forall|i: int| 0 <= i < 256 ==> bit_at(a, i) == bit_at(b, i),
    ensures
        ((a[k] >> (j as u8)) & 1) == ((b[k] >> (j as u8)) & 1),
{
    let i = 8 * k + j;
    assert(i / 8 == k && i % 8 == j) by (nonlinear_arith)
        requires
            i == 8 * k + j,
            0 <= j < 8,
            0 <= k,
    ;
    assert(bit_at(a, i) == bit_at(b, i));
    let xa = a[k];
    let xb = b[k];
    let ju = j as u8;
    assert(((xa >> ju) & 1) == 0 || ((xa >> ju) & 1) == 1) by (bit_vector);
    assert(((xb >> ju) & 1) == 0 || ((xb >> ju) & 1) == 1) by (bit_vector);
}

/// A byte is determined by its eight bits.
proof fn lemma_u8_bits_ext(x: u8, y: u8)
    requires
        ((x >> 0u8) & 1) == ((y >> 0u8) & 1),
        ((x >> 1u8) & 1) == ((y >> 1u8) & 1),
        ((x >> 2u8) & 1) == ((y >> 2u8) & 1),
        ((x >> 3u8) & 1) == ((y >> 3u8) & 1),
        ((x >> 4u8) & 1) == ((y >> 4u8) & 1),
        ((x >> 5u8) & 1) == ((y >> 5u8) & 1),
        ((x >> 6u8) & 1) == ((y >> 6u8) & 1),
        ((x >> 7u8) & 1) == ((y >> 7u8) & 1),
    ensures
        x == y,
{
    assert(x == y) by (bit_vector)
        requires
            ((x >> 0u8) & 1) == ((y >> 0u8) & 1) && ((x >> 1u8) & 1) == ((y >> 1u8) & 1) && ((x
                >> 2u8) & 1) == ((y >> 2u8) & 1) && ((x >> 3u8) & 1) == ((y >> 3u8) & 1) && ((x
                >> 4u8) & 1) == ((y >> 4u8) & 1) && ((x >> 5u8) & 1) == ((y >> 5u8) & 1) && ((x
                >> 6u8) & 1) == ((y >> 6u8) & 1) && ((x >> 7u8) & 1) == ((y >> 7u8) & 1),
    ;
}

/// Decomposition and recomposition are bit-exact inverses: a 32-byte string
/// whose 252 low bits match an in-range secret's and whose high bits are
/// clear is that secret.
pub proof fn lemma_round_trip_bits(x: Seq<u8>, r: Seq<u8>)
    requires
        x.len() == 32,
        r.len() == 32,
        in_range(x),
        forall|i: int| 0 <= i < 252 ==> bit_at(r, i) == bit_at(x, i),
        forall|i: int| 252 <= i < 256 ==> !bit_at(r, i),
    ensures
        r == x,
{
    lemma_in_range_bits(x);
    lemma_bits_determine_bytes(r, x);
}

/// Splits an in-range secret into its 252 bits, least significant first;
/// rejects an out-of-range secret.
pub fn decompose(x: &Vec<u8>) -> (r: Result<Vec<bool>, DleqError>)
    requires
        x@.len() == 32,
    ensures
        match r {
            Ok(bits) => in_range(x@) && bits@ == decompose_spec(x@),
            Err(e) => e == DleqError::OutOfRangeSecret && !in_range(x@),
        },
{
    if (x[31] >> 4u8) != 0 {
        return Err(DleqError::OutOfRangeSecret);
    }
    let mut bits: Vec<bool> = Vec::new();
    let mut i: usize = 0;
    while i < 252
        invariant
            i <= 252,
            x@.len() == 32,
            bits@.len() == i,
            forall|j: int| 0 <= j < i ==> bits@[j] == bit_at(x@, j),
        decreases 252 - i,
    {
        let byte = x[i / 8];
        let bit = ((byte >> ((i % 8) as u8)) & 1) == 1;
        bits.push(bit);
        i = i + 1;
    }
    assert(bits@ =~= decompose_spec(x@));
    Ok(bits)
}

/// Packs eight bits, least significant first, into one byte.
fn pack_byte(b0: bool, b1: bool, b2: bool, b3: bool, b4: bool, b5: bool, b6: bool, b7: bool) -> (r:
    u8)
    ensures
        (((r >> 0u8) & 1) == 1) == b0,
        (((r >> 1u8) & 1) == 1) == b1,
        (((r >> 2u8) & 1) == 1) == b2,
        (((r >> 3u8) & 1) == 1) == b3,
        (((r >> 4u8) & 1) == 1) == b4,
        (((r >> 5u8) & 1) == 1) == b5,
        (((r >> 6u8) & 1) == 1) == b6,
        (((r >> 7u8) & 1) == 1) == b7,
{
    let v0: u8 = if b0 { 1 } else { 0 };
    let v1: u8 = if b1 { 2 } else { 0 };
    let v2: u8 = if b2 { 4 } else { 0 };
    let v3: u8 = if b3 { 8 } else { 0 };
    let v4: u8 = if b4 { 16 } else { 0 };
    let v5: u8 = if b5 { 32 } else { 0 };
    let v6: u8 = if b6 { 64 } else { 0 };
    let v7: u8 = if b7 { 128 } else { 0 };
    let r = v0 | v1 | v2 | v3 | v4 | v5 | v6 | v7;
    proof {
        assert((((r >> 0u8) & 1) == 1) == b0 && (((r >> 1u8) & 1) == 1) == b1 && (((r >> 2u8) & 1)
            == 1) == b2 && (((r >> 3u8) & 1) == 1) == b3 && (((r >> 4u8) & 1) == 1) == b4 && (((r
            >> 5u8) & 1) == 1) == b5 && (((r >> 6u8) & 1) == 1) == b6 && (((r >> 7u8) & 1) == 1)
            == b7) by (bit_vector)
            requires
                r == ((if b0 { 1u8 } else { 0u8 }) | (if b1 { 2u8 } else { 0u8 }) | (if b2 { 4u8 } else { 0u8 })
                    | (if b3 { 8u8 } else { 0u8 }) | (if b4 { 16u8 } else { 0u8 }) | (if b5 { 32u8 } else { 0u8 })
                    | (if b6 { 64u8 } else { 0u8 }) | (if b7 { 128u8 } else { 0u8 })),
        ;
    }
    r
}

/// Rebuilds the 32-byte secret whose 252 low bits are the given sequence and
/// whose high bits are clear.
pub fn recompose(bits: &Vec<bool>) -> (r: Vec<u8>)
    requires
        bits@.len() == 252,
    ensures
        r@.len() == 32,
        forall|i: int| 0 <= i < 252 ==> bit_at(r@, i) == bits@[i],
        forall|i: int| 252 <= i < 256 ==> !bit_at(r@, i),
        in_range(r@),
        decompose_spec(r@) == bits@,
{
    let mut out: Vec<u8> = Vec::new();
    let mut k: usize = 0;
    while k < 32
        invariant
            k <= 32,
            bits@.len() == 252,
            out@.len() == k,
            forall|i: int| 0 <= i < 8 * k && i < 252 ==> bit_at(out@, i) == bits@[i],
            forall|i: int| 252 <= i < 8 * k ==> !bit_at(out@, i),
        decreases 32 - k,
    {
        let base = 8 * k;
        let byte = if k < 31 {
            pack_byte(
                bits[base],
                bits[base + 1],
                bits[base + 2],
                bits[base + 3],
                bits[base + 4],
                bits[base + 5],
                bits[base + 6],
                bits[base + 7],
            )
        } else {
            pack_byte(bits[base], bits[base + 1], bits[base + 2], bits[base + 3], false, false,
                false, false)
        };
        out.push(byte);
        proof {
            assert forall|i: int| 0 <= i < 8 * (k + 1) && i < 256 implies (bit_at(out@, i) == (
            if i < 252 {
                bits@[i]
            } else {
                false
            })) by {
            let kk = i / 8;
                let j = i % 8;
                vstd::arithmetic::div_mod::lemma_fundamental_div_mod(i, 8);
                assert(0 <= kk < out@.len());
                if kk < k {
                    assert(bit_at(out@, i) == bit_at(out@.drop_last(), i)) by {
                        assert(out@[i / 8] == out@.drop_last()[i / 8]);
                    }
                } else {
                    assert(kk == k) by (nonlinear_arith)
                        requires
                            i == 8 * kk + j,
                            0 <= j < 8,
                            8 * k <= i < 8 * (k + 1),
                    ;
                    assert(out@[kk] == byte);
                }
            }
        }
        k = k + 1;
    }
    proof {
        assert((out@[31] >> 4) == 0) by {
            lemma_in_range_bits(out@);
            assert(forall|j: int| 252 <= j < 256 ==> !bit_at(out@, j));
        }
        assert(decompose_spec(out@) =~= bits@);
    }
    out
}

/// Clears every bit at position `highest_bit` and above, keeping the low
/// bits: the caller's explicit scope reduction of a raw 32-byte secret.
#[verifier::rlimit(50)]
pub fn zeroize_highest_bits(x: &Vec<u8>, highest_bit: usize) -> (r: Vec<u8>)
    requires
        x@.len() == 32,
        highest_bit <= 256,
    ensures
        r@.len() == 32,
        forall|i: int| 0 <= i < 256 ==> bit_at(r@, i) == (i < highest_bit && bit_at(x@, i)),
{
    let mut out: Vec<u8> = Vec::new();
    let mut k: usize = 0;
    while k < 32
        invariant
            k <= 32,
            x@.len() == 32,
            highest_bit <= 256,
            out@.len() == k,
            forall|i: int| 0 <= i < 8 * k ==> bit_at(out@, i) == (i < highest_bit && bit_at(x@, i)),
        decreases 32 - k,
    {
        let byte = x[k];
        let masked: u8 = if 8 * (k + 1) <= highest_bit {
            byte
        } else if 8 * k >= highest_bit {
            0
        } else {
            let keep = (highest_bit - 8 * k) as u8;
            proof {
                assert(keep < 8);
                assert((1u16 << keep) >= 1 && ((1u16 << keep) - 1) < 256) by (bit_vector)
                    requires
                        keep < 8,
                ;
            }
            byte & (((1u16 << keep) - 1) as u8)
        };
        let ghost prev = out@;
        out.push(masked);
        proof {
            let hb = highest_bit as int;
            let bk = x@[k as int];
            assert forall|i: int| 0 <= i < 8 * k implies bit_at(out@, i) == bit_at(prev, i) by {
                assert(0 <= i / 8 < k) by (nonlinear_arith)
                    requires
                        0 <= i < 8 * k,
                ;
                assert(out@[i / 8] == prev[i / 8]);
            }
            assert forall|i: int| 8 * k <= i < 8 * (k + 1) implies (bit_at(out@, i) == (i < hb
                && bit_at(x@, i))) by {
                let j = i % 8;
                assert(i / 8 == k && j == i - 8 * k) by (nonlinear_arith)
                    requires
                        8 * k <= i < 8 * (k + 1),
                        j == i % 8,
                        0 <= k,
                ;
                let ju = j as u8;
                assert(out@[k as int] == masked);
                assert(bit_at(out@, i) == (((masked >> ju) & 1) == 1));
                assert(bit_at(x@, i) == (((bk >> ju) & 1) == 1));
                if 8 * (k as int) + 8 <= hb {
                    assert(masked == bk);
                    assert(i < hb);
                } else if 8 * (k as int) >= hb {
                    assert(masked == 0);
                    assert(i >= hb);
                    assert(((0u8 >> ju) & 1) != 1) by (bit_vector);
                } else {
                    let keep = (hb - 8 * (k as int)) as u8;
                    assert(masked == bk & (((1u16 << keep) - 1) as u8));
                    assert(((((bk & (((1u16 << keep) - 1) as u8)) >> ju) & 1) == 1) == (ju < keep
                        && ((bk >> ju) & 1) == 1)) by (bit_vector)
                        requires
                            0 < keep < 8,
                            ju < 8,
                    ;
                    assert((ju < keep) == (i < hb));
                }
            }
            assert forall|i: int| 0 <= i < 8 * (k + 1) implies bit_at(out@, i) == (i < hb
                && bit_at(x@, i)) by {
                if i < 8 * k {
                    assert(bit_at(out@, i) == bit_at(prev, i));
                }
            }
        }
        k = k + 1;
    }
    out
}

} // verus!
