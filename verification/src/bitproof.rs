//! The per-bit disjunctive Schnorr proof: a commitment pair opens to 0 or
//! to 1, shown without revealing which. The true branch is proved with a
//! fresh nonce; the false branch is simulated from a chosen challenge and
//! response; the Fiat-Shamir challenge of the whole transcript is split
//! additively (mod the ed25519 group order) between the branches.

use vstd::prelude::*;
use crate::bytes::{
    nat_le, nat_be, le32_of_nat, be32_of_nat, rev_seq, add_mod, sub_mod, push_all, bytes_eq,
    zero32, reverse32, wipe,
};
use crate::ops::{
    ed_order, secp_order, ed_g_seq, secp_g_seq, ed_sub_pt, secp_sub_pt, ed_dmul_pt, secp_dmul_pt,
    ed_point_valid, secp_point_valid, sha256_of, sha256, ed_scalar_add, ed_scalar_sub,
    ed_scalar_mul, ed_scalar_reduce, secp_scalar_add, secp_scalar_sub, secp_scalar_mul,
    secp_scalar_reduce, ed_point_mul, secp_point_mul, ed_point_sub, secp_point_sub, ed_double_mul,
    secp_double_mul, random_bytes32, lemma_orders_pos,
};
use crate::params::{GroupParams, ed_h_seq, secp_h_seq};
use crate::DleqError;
use crate::commit::{ed_commit_spec, secp_commit_spec, ed_commit, secp_commit};

verus! {

/// The OR-proof transcript for one bit: the commitment pair and, per
/// branch, a challenge and one response per group. Exactly one branch was
/// real; nothing in the data tells which.
#[derive(Debug)]
pub struct BitProof {
    /// secp256k1 commitment to the bit, 33 bytes.
    pub commit_a: Vec<u8>,
    /// ed25519 commitment to the bit, 32 bytes.
    pub commit_b: Vec<u8>,
    /// Branch-0 challenge, canonical little-endian mod the ed25519 order.
    pub e0: Vec<u8>,
    /// Branch-1 challenge, canonical little-endian mod the ed25519 order.
    pub e1: Vec<u8>,
    /// Branch-0 secp256k1 response, canonical big-endian.
    pub s0a: Vec<u8>,
    /// Branch-1 secp256k1 response, canonical big-endian.
    pub s1a: Vec<u8>,
    /// Branch-0 ed25519 response, canonical little-endian.
    pub s0b: Vec<u8>,
    /// Branch-1 ed25519 response, canonical little-endian.
    pub s1b: Vec<u8>,
}

impl BitProof {
    /// Field widths alone: what the codec needs.
    pub open spec fn wf_lens(self) -> bool {
        &&& self.commit_a@.len() == 33
        &&& self.commit_b@.len() == 32
        &&& self.e0@.len() == 32
        &&& self.e1@.len() == 32
        &&& self.s0a@.len() == 32
        &&& self.s1a@.len() == 32
        &&& self.s0b@.len() == 32
        &&& self.s1b@.len() == 32
    }

    /// Structural validity: widths, canonical scalars, and commitments
    /// that are curve points. By documented policy an identity-point
    /// commitment is legal — it is the blinding-only commitment to a zero
    /// bit with a zero blinding scalar, and rejecting it would buy nothing:
    /// honest generation never produces one, and a forged one still has to
    /// pass the bit's Fiat-Shamir check and the aggregate comparison.
    pub open spec fn wf(self) -> bool {
        &&& self.wf_lens()
        &&& secp_point_valid(self.commit_a@)
        &&& ed_point_valid(self.commit_b@)
        &&& nat_le(self.e0@) < ed_order()
        &&& nat_le(self.e1@) < ed_order()
        &&& nat_be(self.s0a@) < secp_order()
        &&& nat_be(self.s1a@) < secp_order()
        &&& nat_le(self.s0b@) < ed_order()
        &&& nat_le(self.s1b@) < ed_order()
    }
}

/// The Fiat-Shamir domain separator: `dleq-fs`.
pub open spec fn domain_sep_seq() -> Seq<u8> {
    seq![100u8, 108, 101, 113, 45, 102, 115]
}

/// The canonical encoding of the negation mod the ed25519 order of a
/// little-endian scalar.
pub open spec fn ed_neg_of(e: Seq<u8>) -> Seq<u8> {
    le32_of_nat(sub_mod(0, nat_le(e), ed_order()))
}

/// The canonical big-endian negation mod the secp256k1 order of a
/// little-endian challenge (reversed into the secp256k1 byte order first).
pub open spec fn secp_neg_of(e: Seq<u8>) -> Seq<u8> {
    be32_of_nat(sub_mod(0, nat_be(rev_seq(e)), secp_order()))
}

/// The statement point of an ed25519 branch: the commitment itself for the
/// zero branch, the commitment minus the base generator for the one branch.
pub open spec fn ed_branch_d(c: Seq<u8>, one_branch: bool) -> Seq<u8> {
    if one_branch {
        ed_sub_pt(c, ed_g_seq())
    } else {
        c
    }
}

/// The statement point of a secp256k1 branch.
pub open spec fn secp_branch_d(c: Seq<u8>, one_branch: bool) -> Seq<u8> {
    if one_branch {
        secp_sub_pt(c, secp_g_seq())
    } else {
        c
    }
}

/// The recomputed ed25519 commitment term of a branch:
/// `s·H - e·D` for statement point `D`.
pub open spec fn ed_branch_term(s: Seq<u8>, e: Seq<u8>, c: Seq<u8>, one_branch: bool) -> Seq<u8> {
    ed_dmul_pt(s, ed_h_seq(), ed_neg_of(e), ed_branch_d(c, one_branch))
}

/// The recomputed secp256k1 commitment term of a branch.
pub open spec fn secp_branch_term(s: Seq<u8>, e: Seq<u8>, c: Seq<u8>, one_branch: bool) -> Seq<
    u8,
> {
    secp_dmul_pt(s, secp_h_seq(), secp_neg_of(e), secp_branch_d(c, one_branch))
}

/// The Fiat-Shamir transcript of one bit: domain separator, bit index,
/// both commitments, then the four branch commitment terms.
pub open spec fn transcript_seq(
    idx: u8,
    ca: Seq<u8>,
    cb: Seq<u8>,
    t0a: Seq<u8>,
    t0b: Seq<u8>,
    t1a: Seq<u8>,
    t1b: Seq<u8>,
) -> Seq<u8> {
    domain_sep_seq() + seq![idx] + ca + cb + t0a + t0b + t1a + t1b
}

/// The aggregated Fiat-Shamir challenge a verifier recomputes for one bit:
/// the transcript's hash reduced mod the ed25519 order, canonically encoded.
pub open spec fn bit_challenge(p: BitProof, idx: u8) -> Seq<u8> {
    le32_of_nat(
        nat_le(
            sha256_of(
                transcript_seq(
                    idx,
                    p.commit_a@,
                    p.commit_b@,
                    secp_branch_term(p.s0a@, p.e0@, p.commit_a@, false),
                    ed_branch_term(p.s0b@, p.e0@, p.commit_b@, false),
                    secp_branch_term(p.s1a@, p.e1@, p.commit_a@, true),
                    ed_branch_term(p.s1b@, p.e1@, p.commit_b@, true),
                ),
            ),
        ) % ed_order(),
    )
}

/// One bit proof passes exactly when its two branch challenges sum, mod the
/// ed25519 order, to the recomputed Fiat-Shamir challenge.
pub open spec fn bit_passes(p: BitProof, idx: u8) -> bool {
    le32_of_nat(add_mod(nat_le(p.e0@), nat_le(p.e1@), ed_order())) == bit_challenge(p, idx)
}

/// The Fiat-Shamir check reads only a proof's byte contents: two entries
/// with the same bytes pass or fail together.
pub proof fn lemma_bit_passes_fields(a: BitProof, b: BitProof, idx: u8)
    requires
        a.commit_a@ == b.commit_a@,
        a.commit_b@ == b.commit_b@,
        a.e0@ == b.e0@,
        a.e1@ == b.e1@,
        a.s0a@ == b.s0a@,
        a.s1a@ == b.s1a@,
        a.s0b@ == b.s0b@,
        a.s1b@ == b.s1b@,
    ensures
        bit_passes(a, idx) == bit_passes(b, idx),
        a.wf() == b.wf(),
{
    assert(bit_challenge(a, idx) == bit_challenge(b, idx));
}

/// Builds the domain separator.
fn domain_sep() -> (r: Vec<u8>)
    ensures
        r@ == domain_sep_seq(),
{
    let mut v: Vec<u8> = Vec::new();
    v.push(100);
    v.push(108);
    v.push(101);
    v.push(113);
    v.push(45);
    v.push(102);
    v.push(115);
    assert(v@ =~= domain_sep_seq());
    v
}

/// Recomputes an ed25519 branch commitment term.
fn ed_branch_term_exec(s: &Vec<u8>, e: &Vec<u8>, c: &Vec<u8>, one_branch: bool, params:
    &GroupParams) -> (r: Vec<u8>)
    requires
        params.wf(),
        s@.len() == 32,
        e@.len() == 32,
        c@.len() == 32,
        ed_point_valid(c@),
    ensures
        r@.len() == 32,
        ed_point_valid(r@),
        r@ == ed_branch_term(s@, e@, c@, one_branch),
{
    let z = zero32();
    let neg_e = ed_scalar_sub(&z, e);
    let d = if one_branch {
        ed_point_sub(c, &params.g_ed)
    } else {
        let copy = crate::bytes::copy_bytes(c);
        copy
    };
    assert(d@ == ed_branch_d(c@, one_branch));
    ed_double_mul(s, &params.h_ed, &neg_e, &d)
}

/// Recomputes a secp256k1 branch commitment term.
fn secp_branch_term_exec(s: &Vec<u8>, e: &Vec<u8>, c: &Vec<u8>, one_branch: bool, params:
    &GroupParams) -> (r: Vec<u8>)
    requires
        params.wf(),
        s@.len() == 32,
        e@.len() == 32,
        c@.len() == 33,
        secp_point_valid(c@),
    ensures
        r@.len() == 33,
        secp_point_valid(r@),
        r@ == secp_branch_term(s@, e@, c@, one_branch),
{
    let z = zero32();
    proof {
        crate::bytes::lemma_nat_be_all_zero(z@);
    }
    let e_be = reverse32(e);
    let neg_e = secp_scalar_sub(&z, &e_be);
    let d = if one_branch {
        secp_point_sub(c, &params.g_secp)
    } else {
        let copy = crate::bytes::copy_bytes(c);
        copy
    };
    assert(d@ == secp_branch_d(c@, one_branch));
    secp_double_mul(s, &params.h_secp, &neg_e, &d)
}

/// Hashes one bit's transcript and reduces it to a challenge scalar.
fn compute_challenge(idx: u8, ca: &Vec<u8>, cb: &Vec<u8>, t0a: &Vec<u8>, t0b: &Vec<u8>, t1a:
    &Vec<u8>, t1b: &Vec<u8>) -> (r: Vec<u8>)
    ensures
        r@.len() == 32,
        r@ == le32_of_nat(
            nat_le(sha256_of(transcript_seq(idx, ca@, cb@, t0a@, t0b@, t1a@, t1b@))) % ed_order(),
        ),
        nat_le(r@) == nat_le(sha256_of(transcript_seq(idx, ca@, cb@, t0a@, t0b@, t1a@, t1b@)))
            % ed_order(),
{
    let mut tr = domain_sep();
    tr.push(idx);
    assert(tr@ =~= domain_sep_seq() + seq![idx]);
    push_all(&mut tr, ca);
    push_all(&mut tr, cb);
    push_all(&mut tr, t0a);
    push_all(&mut tr, t0b);
    push_all(&mut tr, t1a);
    push_all(&mut tr, t1b);
    assert(tr@ == transcript_seq(idx, ca@, cb@, t0a@, t0b@, t1a@, t1b@));
    let h = sha256(&tr);
    ed_scalar_reduce(&h)
}

/// Checks one bit's OR-proof against its Fiat-Shamir challenge.
pub fn check_bit(p: &BitProof, idx: u8, params: &GroupParams) -> (r: bool)
    requires
        params.wf(),
        p.wf(),
    ensures
        r == bit_passes(*p, idx),
{
    let t0a = secp_branch_term_exec(&p.s0a, &p.e0, &p.commit_a, false, params);
    let t0b = ed_branch_term_exec(&p.s0b, &p.e0, &p.commit_b, false, params);
    let t1a = secp_branch_term_exec(&p.s1a, &p.e1, &p.commit_a, true, params);
    let t1b = ed_branch_term_exec(&p.s1b, &p.e1, &p.commit_b, true, params);
    let ch = compute_challenge(idx, &p.commit_a, &p.commit_b, &t0a, &t0b, &t1a, &t1b);
    let sum = ed_scalar_add(&p.e0, &p.e1);
    bytes_eq(&sum, &ch)
}

/// Produces one bit's commitment pair and OR-proof: the branch named by
/// `bit` is proved with a fresh nonce, the other is simulated, and the
/// Fiat-Shamir challenge is split between them. The commitments are exactly
/// the Pedersen commitments to `bit` under the two blinding scalars, and a
/// returned proof passes its own Fiat-Shamir check: the real branch's
/// commitment terms are recomputed the verifier's way and compared before
/// returning, and the challenge-split arithmetic is exact. Nonces, their
/// preimages and response intermediates are overwritten on every exit path.
pub fn prove_bit(idx: u8, bit: bool, r_a: &Vec<u8>, r_b: &Vec<u8>, params: &GroupParams) -> (r:
    Result<BitProof, DleqError>)
    requires
        params.wf(),
        r_a@.len() == 32,
        r_b@.len() == 32,
    ensures
        match r {
            Ok(p) => p.wf() && bit_passes(p, idx) && p.commit_a@ == secp_commit_spec(bit, r_a@,
                secp_g_seq(), secp_h_seq()) && p.commit_b@ == ed_commit_spec(bit, r_b@, ed_g_seq(),
                ed_h_seq()),
            Err(e) => e == DleqError::InvalidBitProof,
        },
{
    proof {
        lemma_orders_pos();
    }
    let commit_a = secp_commit(bit, r_a, params);
    let commit_b = ed_commit(bit, r_b, params);
    let mut rba = random_bytes32();
    let mut k_a = secp_scalar_reduce(&rba);
    wipe(&mut rba);
    let mut rbb = random_bytes32();
    let mut k_b = ed_scalar_reduce(&rbb);
    wipe(&mut rbb);
    let rbe = random_bytes32();
    let e_sim = ed_scalar_reduce(&rbe);
    let rbsa = random_bytes32();
    let s_sim_a = secp_scalar_reduce(&rbsa);
    let rbsb = random_bytes32();
    let s_sim_b = ed_scalar_reduce(&rbsb);
    let t_real_a = secp_point_mul(&k_a, &params.h_secp);
    let t_real_b = ed_point_mul(&k_b, &params.h_ed);
    let t_sim_a = secp_branch_term_exec(&s_sim_a, &e_sim, &commit_a, !bit, params);
    let t_sim_b = ed_branch_term_exec(&s_sim_b, &e_sim, &commit_b, !bit, params);
    let e = if bit {
        compute_challenge(idx, &commit_a, &commit_b, &t_sim_a, &t_sim_b, &t_real_a, &t_real_b)
    } else {
        compute_challenge(idx, &commit_a, &commit_b, &t_real_a, &t_real_b, &t_sim_a, &t_sim_b)
    };
    let e_real = ed_scalar_sub(&e, &e_sim);
    let mut e_mul_rb = ed_scalar_mul(&e_real, r_b);
    let s_real_b = ed_scalar_add(&k_b, &e_mul_rb);
    wipe(&mut e_mul_rb);
    let e_real_be = reverse32(&e_real);
    let mut e_mul_ra = secp_scalar_mul(&e_real_be, r_a);
    let s_real_a = secp_scalar_add(&k_a, &e_mul_ra);
    wipe(&mut e_mul_ra);
    wipe(&mut k_a);
    wipe(&mut k_b);
    // Recompute the real branch's commitment terms as a verifier would and
    // require byte equality: with the exact challenge-split arithmetic this
    // pins the whole Fiat-Shamir check of the returned proof.
    let t_chk_a = secp_branch_term_exec(&s_real_a, &e_real, &commit_a, bit, params);
    let t_chk_b = ed_branch_term_exec(&s_real_b, &e_real, &commit_b, bit, params);
    let ok_a = bytes_eq(&t_chk_a, &t_real_a);
    let ok_b = bytes_eq(&t_chk_b, &t_real_b);
    if !ok_a || !ok_b {
        return Err(DleqError::InvalidBitProof);
    }
    let p = if bit {
        BitProof {
            commit_a,
            commit_b,
            e0: e_sim,
            e1: e_real,
            s0a: s_sim_a,
            s1a: s_real_a,
            s0b: s_sim_b,
            s1b: s_real_b,
        }
    } else {
        BitProof {
            commit_a,
            commit_b,
            e0: e_real,
            e1: e_sim,
            s0a: s_real_a,
            s1a: s_sim_a,
            s0b: s_real_b,
            s1b: s_sim_b,
        }
    };
    proof {
        crate::bytes::lemma_mod_cancel(nat_le(e@), nat_le(e_sim@), ed_order());
        if bit {
            assert(secp_branch_term(p.s0a@, p.e0@, p.commit_a@, false) == t_sim_a@);
            assert(ed_branch_term(p.s0b@, p.e0@, p.commit_b@, false) == t_sim_b@);
            assert(secp_branch_term(p.s1a@, p.e1@, p.commit_a@, true) == t_real_a@);
            assert(ed_branch_term(p.s1b@, p.e1@, p.commit_b@, true) == t_real_b@);
            assert(add_mod(nat_le(p.e0@), nat_le(p.e1@), ed_order()) == nat_le(e@));
        } else {
            assert(secp_branch_term(p.s0a@, p.e0@, p.commit_a@, false) == t_real_a@);
            assert(ed_branch_term(p.s0b@, p.e0@, p.commit_b@, false) == t_real_b@);
            assert(secp_branch_term(p.s1a@, p.e1@, p.commit_a@, true) == t_sim_a@);
            assert(ed_branch_term(p.s1b@, p.e1@, p.commit_b@, true) == t_sim_b@);
            assert(add_mod(nat_le(p.e0@), nat_le(p.e1@), ed_order()) == nat_le(e@));
        }
        assert(bit_challenge(p, idx) == e@);
        assert(bit_passes(p, idx));
    }
    Ok(p)
}

} // verus!
