//! Pedersen commitments to a single bit, one per group: `bit·G + blinding·H`
//! with the group's base generator `G` and auxiliary generator `H`.

use vstd::prelude::*;
use crate::ops::{ed_add_pt, ed_mul_pt, secp_add_pt, secp_mul_pt, ed_point_valid, secp_point_valid,
    ed_point_add, ed_point_mul, secp_point_add, secp_point_mul};
use crate::params::GroupParams;

verus! {

/// The ed25519 commitment to a bit under a blinding scalar: `blinding·H`
/// for a zero bit, `G + blinding·H` for a one bit.
pub open spec fn ed_commit_spec(bit: bool, blinding: Seq<u8>, g: Seq<u8>, h: Seq<u8>) -> Seq<u8> {
    if bit {
        ed_add_pt(g, ed_mul_pt(blinding, h))
    } else {
        ed_mul_pt(blinding, h)
    }
}

/// The secp256k1 commitment to a bit under a blinding scalar.
pub open spec fn secp_commit_spec(bit: bool, blinding: Seq<u8>, g: Seq<u8>, h: Seq<u8>) -> Seq<
    u8,
> {
    if bit {
        secp_add_pt(g, secp_mul_pt(blinding, h))
    } else {
        secp_mul_pt(blinding, h)
    }
}

/// Commits to `bit` in the ed25519 group.
pub fn ed_commit(bit: bool, blinding: &Vec<u8>, params: &GroupParams) -> (r: Vec<u8>)
    requires
        params.wf(),
        blinding@.len() == 32,
    ensures
        r@.len() == 32,
        ed_point_valid(r@),
        r@ == ed_commit_spec(bit, blinding@, params.g_ed@, params.h_ed@),
{
    let masked = ed_point_mul(blinding, &params.h_ed);
    if bit {
        ed_point_add(&params.g_ed, &masked)
    } else {
        masked
    }
}

/// Commits to `bit` in the secp256k1 group.
pub fn secp_commit(bit: bool, blinding: &Vec<u8>, params: &GroupParams) -> (r: Vec<u8>)
    requires
        params.wf(),
        blinding@.len() == 32,
    ensures
        r@.len() == 33,
        secp_point_valid(r@),
        r@ == secp_commit_spec(bit, blinding@, params.g_secp@, params.h_secp@),
{
    let masked = secp_point_mul(blinding, &params.h_secp);
    if bit {
        secp_point_add(&params.g_secp, &masked)
    } else {
        masked
    }
}

} // verus!
