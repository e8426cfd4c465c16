//! Verification-side aggregation: the per-bit commitments summed with
//! weights `2^i` in each group, reconstructing the two aggregate public
//! points. Accumulation runs over every bit with no early exit.

use vstd::prelude::*;
use crate::ops::{secp_add_pt, ed_add_pt, ed_point_valid, secp_point_valid, ed_point_add,
    secp_point_add};
use crate::bytes::zero32;
use crate::bitproof::BitProof;

verus! {

/// The 32-byte little-endian encoding of `2^i`, for `i < 252`.
pub open spec fn pow2_le_seq(i: int) -> Seq<u8> {
    Seq::new(32, |j: int| if j == i / 8 { 1u8 << ((i % 8) as u8) } else { 0u8 })
}

/// The 32-byte big-endian encoding of `2^i`, for `i < 252`.
pub open spec fn pow2_be_seq(i: int) -> Seq<u8> {
    Seq::new(32, |j: int| if j == 31 - i / 8 { 1u8 << ((i % 8) as u8) } else { 0u8 })
}

/// Builds the little-endian weight `2^i`.
pub fn pow2_le(i: usize) -> (r: Vec<u8>)
    requires
        i < 252,
    ensures
        r@ == pow2_le_seq(i as int),
        r@.len() == 32,
{
    let mut v = zero32();
    v.set(i / 8, 1u8 << ((i % 8) as u8));
    assert(v@ =~= pow2_le_seq(i as int));
    v
}

/// Builds the big-endian weight `2^i`.
pub fn pow2_be(i: usize) -> (r: Vec<u8>)
    requires
        i < 252,
    ensures
        r@ == pow2_be_seq(i as int),
        r@.len() == 32,
{
    let mut v = zero32();
    v.set(31 - i / 8, 1u8 << ((i % 8) as u8));
    assert(v@ =~= pow2_be_seq(i as int));
    v
}

/// The weighted sum `sum over j >= i of 2^(j-i) * commit_a_j`, written in
/// Horner form: the accumulator for the bits above is doubled by adding it
/// to itself, then bit `i`'s commitment is added.
pub open spec fn agg_secp_from(bits: Seq<BitProof>, i: int) -> Seq<u8>
    decreases 252 - i,
{
    if i >= 251 {
        bits[251].commit_a@
    } else {
        secp_add_pt(
            secp_add_pt(agg_secp_from(bits, i + 1), agg_secp_from(bits, i + 1)),
            bits[i].commit_a@,
        )
    }
}

/// The weighted sum `sum over j >= i of 2^(j-i) * commit_b_j`, in Horner
/// form.
pub open spec fn agg_ed_from(bits: Seq<BitProof>, i: int) -> Seq<u8>
    decreases 252 - i,
{
    if i >= 251 {
        bits[251].commit_b@
    } else {
        ed_add_pt(
            ed_add_pt(agg_ed_from(bits, i + 1), agg_ed_from(bits, i + 1)),
            bits[i].commit_b@,
        )
    }
}

/// The aggregate secp256k1 public point of a full proof:
/// `sum 2^i * commit_a_i` over all 252 bits.
pub open spec fn agg_secp(bits: Seq<BitProof>) -> Seq<u8> {
    agg_secp_from(bits, 0)
}

/// The aggregate ed25519 public point of a full proof:
/// `sum 2^i * commit_b_i` over all 252 bits.
pub open spec fn agg_ed(bits: Seq<BitProof>) -> Seq<u8> {
    agg_ed_from(bits, 0)
}

/// The aggregates read only the commitments' bytes: two proofs with the
/// same commitment bytes aggregate to the same points.
pub proof fn lemma_agg_fields(bs1: Seq<BitProof>, bs2: Seq<BitProof>, i: int)
    requires
        bs1.len() == 252,
        bs2.len() == 252,
        0 <= i < 252,
        forall|j: int|
            0 <= j < 252 ==> (#[trigger] bs1[j]).commit_a@ == bs2[j].commit_a@ && bs1[j].commit_b@
                == bs2[j].commit_b@,
    ensures
        agg_secp_from(bs1, i) == agg_secp_from(bs2, i),
        agg_ed_from(bs1, i) == agg_ed_from(bs2, i),
    decreases 252 - i,
{
    if i < 251 {
        lemma_agg_fields(bs1, bs2, i + 1);
    }
}

/// Recomputes both aggregate public points from the per-bit commitments,
/// accumulating over every bit with the same structure whatever the data.
pub fn aggregate_points(bits: &Vec<BitProof>) -> (r: (Vec<u8>, Vec<u8>))
    requires
        bits@.len() == 252,
        forall|i: int| 0 <= i < 252 ==> (#[trigger] bits@[i]).wf(),
    ensures
        r.0@ == agg_secp(bits@),
        r.1@ == agg_ed(bits@),
        r.0@.len() == 33,
        r.1@.len() == 32,
        secp_point_valid(r.0@),
        ed_point_valid(r.1@),
{
    assert(bits@[251].wf());
    let mut acc_a = crate::bytes::copy_bytes(&bits[251].commit_a);
    let mut acc_b = crate::bytes::copy_bytes(&bits[251].commit_b);
    let mut i: usize = 251;
    while i > 0
        invariant
            0 <= i <= 251,
            bits@.len() == 252,
            forall|j: int| 0 <= j < 252 ==> (#[trigger] bits@[j]).wf(),
            acc_a@ == agg_secp_from(bits@, i as int),
            acc_b@ == agg_ed_from(bits@, i as int),
            acc_a@.len() == 33,
            acc_b@.len() == 32,
            secp_point_valid(acc_a@),
            ed_point_valid(acc_b@),
        decreases i,
    {
        i = i - 1;
        assert(bits@[i as int].wf());
        let dbl_a = secp_point_add(&acc_a, &acc_a);
        acc_a = secp_point_add(&dbl_a, &bits[i].commit_a);
        let dbl_b = ed_point_add(&acc_b, &acc_b);
        acc_b = ed_point_add(&dbl_b, &bits[i].commit_b);
    }
    (acc_a, acc_b)
}

} // verus!
