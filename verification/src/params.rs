//! The two groups' parameters: each group's standard base generator and an
//! auxiliary generator with an unknown discrete logarithm, derived
//! deterministically by hashing a fixed public label (nothing up my sleeve):
//! the first counter whose hash is a curve point wins, and on ed25519 the
//! candidate is multiplied by the cofactor eight to land in the prime-order
//! subgroup.

use vstd::prelude::*;
use crate::bytes::{zero32};
use crate::ops::{
    ed_g_seq, secp_g_seq, ed_point_valid, secp_point_valid, ed_mul_pt, sha256_of, ed_basepoint,
    secp_basepoint, ed_check_point, secp_check_point, ed_point_mul, sha256,
};

verus! {

/// The public label for the ed25519 auxiliary generator: `dleq-aux-ed25519`.
pub open spec fn ed_label_seq() -> Seq<u8> {
    seq![100u8, 108, 101, 113, 45, 97, 117, 120, 45, 101, 100, 50, 53, 53, 49, 57]
}

/// The public label for the secp256k1 auxiliary generator:
/// `dleq-aux-secp256k1`.
pub open spec fn secp_label_seq() -> Seq<u8> {
    seq![100u8, 108, 101, 113, 45, 97, 117, 120, 45, 115, 101, 99, 112, 50, 53, 54, 107, 49]
}

/// The 32-byte little-endian encoding of the ed25519 cofactor, eight.
pub open spec fn eight_le_seq() -> Seq<u8> {
    Seq::new(32, |i: int| if i == 0 { 8u8 } else { 0u8 })
}

/// Candidate bytes for the ed25519 auxiliary generator at a counter.
pub open spec fn ed_candidate(j: nat) -> Seq<u8> {
    sha256_of(ed_label_seq() + seq![j as u8])
}

/// Candidate bytes for the secp256k1 auxiliary generator at a counter: a
/// SEC1 even-parity prefix in front of a hashed x-coordinate.
pub open spec fn secp_candidate(j: nat) -> Seq<u8> {
    seq![2u8] + sha256_of(secp_label_seq() + seq![j as u8])
}

/// The first valid ed25519 candidate from counter `j` on, if any.
pub open spec fn ed_search(j: nat) -> Option<Seq<u8>>
    decreases 256 - j,
{
    if j >= 256 {
        None
    } else if ed_point_valid(ed_candidate(j)) {
        Some(ed_candidate(j))
    } else {
        ed_search(j + 1)
    }
}

/// The first valid secp256k1 candidate from counter `j` on, if any.
pub open spec fn secp_search(j: nat) -> Option<Seq<u8>>
    decreases 256 - j,
{
    if j >= 256 {
        None
    } else if secp_point_valid(secp_candidate(j)) {
        Some(secp_candidate(j))
    } else {
        secp_search(j + 1)
    }
}

/// Whether both auxiliary generators can be derived within 256 counters.
pub open spec fn params_ok() -> bool {
    ed_search(0) is Some && secp_search(0) is Some
}

/// The derived ed25519 auxiliary generator: cofactor times the first valid
/// candidate.
pub open spec fn ed_h_seq() -> Seq<u8> {
    ed_mul_pt(eight_le_seq(), ed_search(0)->Some_0)
}

/// The derived secp256k1 auxiliary generator.
pub open spec fn secp_h_seq() -> Seq<u8> {
    secp_search(0)->Some_0
}

/// The generators the commitments and proofs are built over.
pub struct GroupParams {
    /// Compressed ed25519 basepoint.
    pub g_ed: Vec<u8>,
    /// Compressed ed25519 auxiliary generator.
    pub h_ed: Vec<u8>,
    /// Compressed secp256k1 basepoint.
    pub g_secp: Vec<u8>,
    /// Compressed secp256k1 auxiliary generator.
    pub h_secp: Vec<u8>,
}

impl GroupParams {
    /// The parameters are exactly the derived ones, and all four encode
    /// curve points.
    pub open spec fn wf(self) -> bool {
        &&& params_ok()
        &&& self.g_ed@ == ed_g_seq()
        &&& ed_point_valid(self.g_ed@)
        &&& self.g_ed@.len() == 32
        &&& self.h_ed@ == ed_h_seq()
        &&& ed_point_valid(self.h_ed@)
        &&& self.h_ed@.len() == 32
        &&& self.g_secp@ == secp_g_seq()
        &&& secp_point_valid(self.g_secp@)
        &&& self.g_secp@.len() == 33
        &&& self.h_secp@ == secp_h_seq()
        &&& secp_point_valid(self.h_secp@)
        &&& self.h_secp@.len() == 33
    }
}

/// Builds the ed25519 label.
fn ed_label() -> (r: Vec<u8>)
    ensures
        r@ == ed_label_seq(),
{
    let mut v: Vec<u8> = Vec::new();
    v.push(100);
    v.push(108);
    v.push(101);
    v.push(113);
    v.push(45);
    v.push(97);
    v.push(117);
    v.push(120);
    v.push(45);
    v.push(101);
    v.push(100);
    v.push(50);
    v.push(53);
    v.push(53);
    v.push(49);
    v.push(57);
    assert(v@ =~= ed_label_seq());
    v
}

/// Builds the secp256k1 label.
fn secp_label() -> (r: Vec<u8>)
    ensures
        r@ == secp_label_seq(),
{
    let mut v: Vec<u8> = Vec::new();
    v.push(100);
    v.push(108);
    v.push(101);
    v.push(113);
    v.push(45);
    v.push(97);
    v.push(117);
    v.push(120);
    v.push(45);
    v.push(115);
    v.push(101);
    v.push(99);
    v.push(112);
    v.push(50);
    v.push(53);
    v.push(54);
    v.push(107);
    v.push(49);
    assert(v@ =~= secp_label_seq());
    v
}

/// Finds the first valid ed25519 candidate, if any counter yields one.
fn derive_ed_pre() -> (r: Option<Vec<u8>>)
    ensures
        match r {
            Some(v) => ed_search(0) == Some(v@) && ed_point_valid(v@) && v@.len() == 32,
            None => ed_search(0) is None,
        },
{
    let mut j: usize = 0;
    while j < 256
        invariant
            j <= 256,
            ed_search(0) == ed_search(j as nat),
        decreases 256 - j,
    {
        let mut msg = ed_label();
        msg.push(j as u8);
        assert(msg@ =~= ed_label_seq() + seq![(j as u8)]);
        let cand = sha256(&msg);
        if ed_check_point(&cand) {
            assert(ed_search(j as nat) == Some(cand@));
            return Some(cand);
        }
        assert(ed_search(j as nat) == ed_search(j as nat + 1));
        j = j + 1;
    }
    assert(ed_search(256) is None);
    None
}

/// Finds the first valid secp256k1 candidate, if any counter yields one.
fn derive_secp_pre() -> (r: Option<Vec<u8>>)
    ensures
        match r {
            Some(v) => secp_search(0) == Some(v@) && secp_point_valid(v@) && v@.len() == 33,
            None => secp_search(0) is None,
        },
{
    let mut j: usize = 0;
    while j < 256
        invariant
            j <= 256,
            secp_search(0) == secp_search(j as nat),
        decreases 256 - j,
    {
        let mut msg = secp_label();
        msg.push(j as u8);
        assert(msg@ =~= secp_label_seq() + seq![(j as u8)]);
        let hash = sha256(&msg);
        let mut cand: Vec<u8> = Vec::new();
        cand.push(2u8);
        crate::bytes::push_all(&mut cand, &hash);
        assert(cand@ =~= secp_candidate(j as nat));
        if secp_check_point(&cand) {
            assert(secp_search(j as nat) == Some(cand@));
            return Some(cand);
        }
        assert(secp_search(j as nat) == secp_search(j as nat + 1));
        j = j + 1;
    }
    assert(secp_search(256) is None);
    None
}

/// Derives both groups' parameters; fails only when no counter yields a
/// valid auxiliary generator in one of the groups.
pub fn derive_params() -> (r: Option<GroupParams>)
    ensures
        match r {
            Some(p) => p.wf(),
            None => !params_ok(),
        },
{
    let pre_ed = match derive_ed_pre() {
        Some(v) => v,
        None => {
            return None;
        },
    };
    let pre_secp = match derive_secp_pre() {
        Some(v) => v,
        None => {
            return None;
        },
    };
    let mut eight = zero32();
    eight.set(0, 8u8);
    assert(eight@ =~= eight_le_seq());
    let h_ed = ed_point_mul(&eight, &pre_ed);
    Some(
        GroupParams {
            g_ed: ed_basepoint(),
            h_ed,
            g_secp: secp_basepoint(),
            h_secp: pre_secp,
        },
    )
}

} // verus!
