//! The proof object, its generation across all bits, and the verification
//! engine: structural checks, every bit's OR-proof, and the aggregate-point
//! equality check against caller-supplied targets.

use vstd::prelude::*;
use crate::DleqError;
use crate::bytes::{bytes_eq, zero32, wipe, wipe_bools, rev_seq, reverse32};
use crate::ops::{
    ed_check_point, secp_check_point, ed_scalar_check, secp_scalar_check, ed_scalar_add,
    ed_scalar_sub, ed_scalar_mul, ed_scalar_reduce, secp_scalar_add, secp_scalar_sub,
    secp_scalar_mul, secp_scalar_reduce, random_bytes32, lemma_orders_pos, ed_g_seq, secp_g_seq,
    ed_mul_pt, secp_mul_pt, ed_point_mul, secp_point_mul,
};
use crate::params::{GroupParams, params_ok, derive_params, ed_h_seq, secp_h_seq};
use crate::scalars::{in_range, decompose, decompose_spec, bit_at};
use crate::bitproof::{BitProof, bit_passes, check_bit, prove_bit};
use crate::commit::{ed_commit_spec, secp_commit_spec};
use crate::aggregate::{agg_secp, agg_ed, aggregate_points, pow2_be, pow2_le};

verus! {

/// A full cross-group DLEQ proof: one commitment pair and OR-proof per
/// secret bit, index 0 (least significant) through 251. The order fixes
/// each bit's power-of-two weight in aggregation.
#[derive(Debug)]
pub struct DleqProof {
    /// The per-bit transcripts, exactly 252 of them in a well-formed proof.
    pub bits: Vec<BitProof>,
}

impl DleqProof {
    /// Field widths alone.
    pub open spec fn wf_lens(self) -> bool {
        &&& self.bits@.len() == 252
        &&& forall|i: int| 0 <= i < 252 ==> (#[trigger] self.bits@[i]).wf_lens()
    }

    /// Structural validity of the whole proof.
    pub open spec fn wf(self) -> bool {
        &&& self.bits@.len() == 252
        &&& forall|i: int| 0 <= i < 252 ==> (#[trigger] self.bits@[i]).wf()
    }
}

/// Every bit's OR-proof passes its Fiat-Shamir check.
pub open spec fn all_bits_pass(p: DleqProof) -> bool {
    forall|i: int| 0 <= i < 252 ==> bit_passes(#[trigger] p.bits@[i], i as u8)
}

/// The proof is structurally valid and the group parameters derive.
pub open spec fn checkable(p: DleqProof) -> bool {
    p.wf() && params_ok()
}

/// Both recomputed aggregates equal the caller's targets.
pub open spec fn aggregates_match(p: DleqProof, ta: Seq<u8>, tb: Seq<u8>) -> bool {
    agg_secp(p.bits@) == ta && agg_ed(p.bits@) == tb
}

/// Two structurally valid proofs with the same canonical encoding pass or
/// fail every verification stage together: the stages read only the bytes
/// the encoding determines.
pub proof fn lemma_decoded_unique(p: DleqProof, q: DleqProof)
    requires
        p.wf(),
        q.wf(),
        crate::codec::encode_spec(p) == crate::codec::encode_spec(q),
    ensures
        all_bits_pass(p) == all_bits_pass(q),
        agg_secp(p.bits@) == agg_secp(q.bits@),
        agg_ed(p.bits@) == agg_ed(q.bits@),
{
    crate::codec::lemma_encode_injective(p, q);
    assert forall|i: int| 0 <= i < 252 implies (bit_passes(#[trigger] p.bits@[i], i as u8)
        == bit_passes(q.bits@[i], i as u8)) by {
        crate::bitproof::lemma_bit_passes_fields(p.bits@[i], q.bits@[i], i as u8);
    }
    if all_bits_pass(p) {
        assert forall|i: int| 0 <= i < 252 implies bit_passes(#[trigger] q.bits@[i], i as u8) by {
            assert(bit_passes(p.bits@[i], i as u8));
        }
    }
    if all_bits_pass(q) {
        assert forall|i: int| 0 <= i < 252 implies bit_passes(#[trigger] p.bits@[i], i as u8) by {
            assert(bit_passes(q.bits@[i], i as u8));
        }
    }
    crate::aggregate::lemma_agg_fields(p.bits@, q.bits@, 0);
}

/// The round trip: a proof meeting generation's guarantees for a secret
/// `x` meets verification's success condition against `x`'s two true
/// public points. Together with `generate`'s and `verify`'s contracts this
/// says that any successfully generated proof verifies against the public
/// points of the secret it was generated for.
pub proof fn lemma_generate_verifies(p: DleqProof, x: Seq<u8>, ta: Seq<u8>, tb: Seq<u8>)
    requires
        p.wf(),
        params_ok(),
        all_bits_pass(p),
        agg_secp(p.bits@) == secp_mul_pt(rev_seq(x), secp_g_seq()),
        agg_ed(p.bits@) == ed_mul_pt(x, ed_g_seq()),
        ta == secp_mul_pt(rev_seq(x), secp_g_seq()),
        tb == ed_mul_pt(x, ed_g_seq()),
    ensures
        checkable(p) && all_bits_pass(p) && aggregates_match(p, ta, tb),
{
}

/// Checks one entry's structural validity.
fn check_entry(e: &BitProof) -> (r: bool)
    ensures
        r == e.wf(),
{
    if e.commit_a.len() != 33 {
        return false;
    }
    if e.commit_b.len() != 32 {
        return false;
    }
    if e.e0.len() != 32 || e.e1.len() != 32 || e.s0a.len() != 32 || e.s1a.len() != 32 || e.s0b.len()
        != 32 || e.s1b.len() != 32 {
        return false;
    }
    if !secp_check_point(&e.commit_a) {
        return false;
    }
    if !ed_check_point(&e.commit_b) {
        return false;
    }
    if !ed_scalar_check(&e.e0) || !ed_scalar_check(&e.e1) {
        return false;
    }
    if !secp_scalar_check(&e.s0a) || !secp_scalar_check(&e.s1a) {
        return false;
    }
    if !ed_scalar_check(&e.s0b) || !ed_scalar_check(&e.s1b) {
        return false;
    }
    true
}

/// Every commitment of the proof is the Pedersen commitment to the
/// matching bit of the secret, in each group, under some 32-byte blinding
/// scalar.
pub open spec fn commits_secret(p: DleqProof, x: Seq<u8>) -> bool {
    forall|i: int|
        0 <= i < 252 ==> exists|ra: Seq<u8>, rb: Seq<u8>|
            ra.len() == 32 && rb.len() == 32 && (#[trigger] p.bits@[i]).commit_a@
                == secp_commit_spec(bit_at(x, i), ra, secp_g_seq(), secp_h_seq())
                && p.bits@[i].commit_b@ == ed_commit_spec(bit_at(x, i), rb, ed_g_seq(), ed_h_seq())
}

/// Empties the blinding-scalar pools and the bit decomposition,
/// overwriting each buffer before it is dropped.
fn discard_secrets(ras: &mut Vec<Vec<u8>>, rbs: &mut Vec<Vec<u8>>, bits: &mut Vec<bool>)
{
    while ras.len() > 0
        decreases ras@.len(),
    {
        let mut b = match ras.pop() {
            Some(v) => v,
            None => {
                break ;
            },
        };
        wipe(&mut b);
    }
    while rbs.len() > 0
        decreases rbs@.len(),
    {
        let mut b = match rbs.pop() {
            Some(v) => v,
            None => {
                break ;
            },
        };
        wipe(&mut b);
    }
    wipe_bools(bits);
}

/// Generates a proof that the two aggregate public points derived from the
/// returned commitments share the secret `x` as their discrete logarithm.
/// An out-of-range secret is rejected. A returned proof is well-formed, its
/// commitments are the Pedersen commitments to the bits of `x`, every bit
/// proof passes its Fiat-Shamir check, and the weighted commitment sums
/// equal the secret's two true public points — the per-bit blinding
/// scalars are chosen so their weighted sums vanish in both groups, and the
/// aggregates are recomputed and compared before returning, so this holds
/// of every randomness outcome. Blinding scalars, nonces and the bit
/// decomposition are overwritten on every exit path.
pub fn generate(x: &Vec<u8>) -> (r: Result<DleqProof, DleqError>)
    requires
        x@.len() == 32,
    ensures
        !in_range(x@) <==> (r is Err && r->Err_0 == DleqError::OutOfRangeSecret),
        (r is Err && r->Err_0 == DleqError::MalformedEncoding) <==> (in_range(x@)
            && !params_ok()),
        in_range(x@) && params_ok() ==> r is Ok || (r is Err && (r->Err_0
            == DleqError::InvalidBitProof || r->Err_0 == DleqError::AggregateMismatch)),
        r is Ok ==> in_range(x@) && params_ok() && r->Ok_0.wf() && all_bits_pass(r->Ok_0)
            && commits_secret(r->Ok_0, x@) && agg_secp(r->Ok_0.bits@) == secp_mul_pt(rev_seq(x@),
            secp_g_seq()) && agg_ed(r->Ok_0.bits@) == ed_mul_pt(x@, ed_g_seq()),
{
    proof {
        lemma_orders_pos();
    }
    let mut bits = match decompose(x) {
        Ok(b) => b,
        Err(e) => {
            return Err(e);
        },
    };
    let params = match derive_params() {
        Some(p) => p,
        None => {
            wipe_bools(&mut bits);
            return Err(DleqError::MalformedEncoding);
        },
    };
    // Blinding scalars: random for bits 1..252; bit 0 (weight one) is
    // solved so that the weighted sum is zero in each group.
    let mut ras: Vec<Vec<u8>> = Vec::new();
    let mut rbs: Vec<Vec<u8>> = Vec::new();
    ras.push(zero32());
    rbs.push(zero32());
    let mut acc_a = zero32();
    let mut acc_b = zero32();
    let mut i: usize = 1;
    while i < 252
        invariant
            1 <= i <= 252,
            ras@.len() == i,
            rbs@.len() == i,
            forall|j: int| 0 <= j < i ==> (#[trigger] ras@[j])@.len() == 32,
            forall|j: int| 0 <= j < i ==> (#[trigger] rbs@[j])@.len() == 32,
            acc_a@.len() == 32,
            acc_b@.len() == 32,
        decreases 252 - i,
    {
        let mut fresh_a = random_bytes32();
        let ra = secp_scalar_reduce(&fresh_a);
        wipe(&mut fresh_a);
        let mut fresh_b = random_bytes32();
        let rb = ed_scalar_reduce(&fresh_b);
        wipe(&mut fresh_b);
        let w_be = pow2_be(i);
        let w_le = pow2_le(i);
        let term_a = secp_scalar_mul(&w_be, &ra);
        let term_b = ed_scalar_mul(&w_le, &rb);
        acc_a = secp_scalar_add(&acc_a, &term_a);
        acc_b = ed_scalar_add(&acc_b, &term_b);
        ras.push(ra);
        rbs.push(rb);
        i = i + 1;
    }
    let z = zero32();
    proof {
        crate::bytes::lemma_nat_be_all_zero(z@);
    }
    let ra0 = secp_scalar_sub(&z, &acc_a);
    let rb0 = ed_scalar_sub(&z, &acc_b);
    ras.set(0, ra0);
    rbs.set(0, rb0);
    let mut entries: Vec<BitProof> = Vec::new();
    let mut k: usize = 0;
    while k < 252
        invariant
            k <= 252,
            x@.len() == 32,
            in_range(x@),
            bits@.len() == 252,
            bits@ == decompose_spec(x@),
            ras@.len() == 252,
            rbs@.len() == 252,
            forall|j: int| 0 <= j < 252 ==> (#[trigger] ras@[j])@.len() == 32,
            forall|j: int| 0 <= j < 252 ==> (#[trigger] rbs@[j])@.len() == 32,
            params.wf(),
            entries@.len() == k,
            forall|j: int| 0 <= j < k ==> (#[trigger] entries@[j]).wf(),
            forall|j: int| 0 <= j < k ==> bit_passes(#[trigger] entries@[j], j as u8),
            forall|j: int|
                0 <= j < k ==> exists|ra: Seq<u8>, rb: Seq<u8>|
                    ra.len() == 32 && rb.len() == 32 && (#[trigger] entries@[j]).commit_a@
                        == secp_commit_spec(bit_at(x@, j), ra, secp_g_seq(), secp_h_seq())
                        && entries@[j].commit_b@ == ed_commit_spec(bit_at(x@, j), rb, ed_g_seq(),
                    ed_h_seq()),
        decreases 252 - k,
    {
        let entry = match prove_bit(k as u8, bits[k], &ras[k], &rbs[k], &params) {
            Ok(e) => e,
            Err(er) => {
                discard_secrets(&mut ras, &mut rbs, &mut bits);
                return Err(er);
            },
        };
        entries.push(entry);
        proof {
            let j = k as int;
            let raw = ras@[j]@;
            let rbw = rbs@[j]@;
            assert(bits@[j] == bit_at(x@, j));
            assert(entries@[j].commit_a@ == secp_commit_spec(bit_at(x@, j), raw, secp_g_seq(),
                secp_h_seq()));
            assert(entries@[j].commit_b@ == ed_commit_spec(bit_at(x@, j), rbw, ed_g_seq(),
                ed_h_seq()));
        }
        k = k + 1;
    }
    // Overwrite all secret material before the self-checks.
    discard_secrets(&mut ras, &mut rbs, &mut bits);
    // Recompute the aggregates and compare them against the secret's two
    // true public points before handing the proof out.
    let aggs = aggregate_points(&entries);
    let x_be = reverse32(x);
    let target_a = secp_point_mul(&x_be, &params.g_secp);
    let target_b = ed_point_mul(x, &params.g_ed);
    let ok_a = bytes_eq(&aggs.0, &target_a);
    let ok_b = bytes_eq(&aggs.1, &target_b);
    if !ok_a || !ok_b {
        return Err(DleqError::AggregateMismatch);
    }
    let p = DleqProof { bits: entries };
    proof {
        assert(all_bits_pass(p));
        assert(commits_secret(p, x@));
    }
    Ok(p)
}

/// Verifies a proof against the caller's two target public points: the
/// structural check, every bit's OR-proof, and the aggregate equality, in
/// that order, each failure reported by its own error and nothing else.
pub fn verify(p: &DleqProof, target_a: &Vec<u8>, target_b: &Vec<u8>) -> (r: Result<
    (),
    DleqError,
>)
    ensures
        r is Ok <==> checkable(*p) && all_bits_pass(*p) && aggregates_match(*p, target_a@,
            target_b@),
        (r is Err && r->Err_0 == DleqError::MalformedEncoding) <==> !checkable(*p),
        (r is Err && r->Err_0 == DleqError::InvalidBitProof) <==> (checkable(*p) && !all_bits_pass(
            *p,
        )),
        (r is Err && r->Err_0 == DleqError::AggregateMismatch) <==> (checkable(*p)
            && all_bits_pass(*p) && !aggregates_match(*p, target_a@, target_b@)),
{
    if p.bits.len() != 252 {
        assert(!p.wf());
        return Err(DleqError::MalformedEncoding);
    }
    let mut i: usize = 0;
    while i < 252
        invariant
            i <= 252,
            p.bits@.len() == 252,
            forall|j: int| 0 <= j < i ==> (#[trigger] p.bits@[j]).wf(),
        decreases 252 - i,
    {
        if !check_entry(&p.bits[i]) {
            assert(!p.bits@[i as int].wf());
            assert(!p.wf());
            return Err(DleqError::MalformedEncoding);
        }
        i = i + 1;
    }
    assert(p.wf());
    let params = match derive_params() {
        Some(pr) => pr,
        None => {
            assert(!params_ok());
            return Err(DleqError::MalformedEncoding);
        },
    };
    let mut k: usize = 0;
    while k < 252
        invariant
            k <= 252,
            p.bits@.len() == 252,
            p.wf(),
            params.wf(),
            params_ok(),
            forall|j: int| 0 <= j < k ==> bit_passes(#[trigger] p.bits@[j], j as u8),
        decreases 252 - k,
    {
        if !check_bit(&p.bits[k], k as u8, &params) {
            assert(!bit_passes(p.bits@[k as int], k as u8));
            assert(!all_bits_pass(*p));
            return Err(DleqError::InvalidBitProof);
        }
        k = k + 1;
    }
    assert(all_bits_pass(*p));
    let aggs = aggregate_points(&p.bits);
    let ok_a = bytes_eq(&aggs.0, target_a);
    let ok_b = bytes_eq(&aggs.1, target_b);
    if !ok_a || !ok_b {
        return Err(DleqError::AggregateMismatch);
    }
    Ok(())
}

/// Recomputes the two aggregate public points of a structurally valid
/// proof: what a caller compares its externally known targets against.
pub fn recompute_targets(p: &DleqProof) -> (r: Result<(Vec<u8>, Vec<u8>), DleqError>)
    ensures
        r is Ok ==> p.wf() && r->Ok_0.0@ == agg_secp(p.bits@) && r->Ok_0.1@ == agg_ed(p.bits@),
        r is Err ==> !p.wf() && r->Err_0 == DleqError::MalformedEncoding,
{
    if p.bits.len() != 252 {
        assert(!p.wf());
        return Err(DleqError::MalformedEncoding);
    }
    let mut i: usize = 0;
    while i < 252
        invariant
            i <= 252,
            p.bits@.len() == 252,
            forall|j: int| 0 <= j < i ==> (#[trigger] p.bits@[j]).wf(),
        decreases 252 - i,
    {
        if !check_entry(&p.bits[i]) {
            assert(!p.bits@[i as int].wf());
            assert(!p.wf());
            return Err(DleqError::MalformedEncoding);
        }
        i = i + 1;
    }
    assert(p.wf());
    Ok(aggregate_points(&p.bits))
}

} // verus!
