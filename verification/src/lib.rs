//! Cross-group discrete-logarithm equality (DLEQ) proofs.
//!
//! A proof shows, without revealing a secret scalar `x`, that two public
//! commitments — one on the ed25519 curve and one on the secp256k1 curve —
//! are both scalar multiples of their respective generators by the same `x`.
//! The secret is decomposed into `SECRET_BITS` bits; each bit is committed
//! to in both groups with a Pedersen commitment, and a disjunctive Schnorr
//! proof shows that each commitment pair opens to a consistent 0/1 value.
//! Weighted sums of the per-bit commitments reconstruct the two aggregate
//! public points that a verifier compares against its targets.

pub mod bytes;
pub mod ops;
pub mod params;
pub mod scalars;
pub mod commit;
pub mod bitproof;
pub mod aggregate;
pub mod codec;
pub mod engine;

use vstd::prelude::*;

verus! {

/// Generates a proof for `x` and serializes it. A returned encoding has
/// exactly `codec::PROOF_BYTES` bytes whatever the secret's bit pattern,
/// is a well-formed encoding, and is the encoding of a proof that carries
/// `generate`'s full guarantees: commitments to the bits of `x`, every bit
/// proof passing its Fiat-Shamir check, and aggregates equal to `x`'s two
/// true public points.
pub fn generate_encoded(x: &Vec<u8>) -> (r: Result<Vec<u8>, DleqError>)
    requires
        x@.len() == 32,
    ensures
        !scalars::in_range(x@) <==> (r is Err && r->Err_0 == DleqError::OutOfRangeSecret),
        (r is Err && r->Err_0 == DleqError::MalformedEncoding) <==> (scalars::in_range(x@)
            && !params::params_ok()),
        scalars::in_range(x@) && params::params_ok() ==> r is Ok || (r is Err && (r->Err_0
            == DleqError::InvalidBitProof || r->Err_0 == DleqError::AggregateMismatch)),
        r is Ok ==> r->Ok_0@.len() == codec::PROOF_BYTES && scalars::in_range(x@)
            && params::params_ok() && codec::valid_encoding(r->Ok_0@) && (exists|
            p: engine::DleqProof,
        |
            #![trigger codec::encode_spec(p)]
            p.wf() && codec::encode_spec(p) == r->Ok_0@ && engine::all_bits_pass(p)
                && engine::commits_secret(p, x@) && aggregate::agg_secp(p.bits@)
                == ops::secp_mul_pt(bytes::rev_seq(x@), ops::secp_g_seq()) && aggregate::agg_ed(
                p.bits@,
            ) == ops::ed_mul_pt(x@, ops::ed_g_seq())),
{
    match engine::generate(x) {
        Ok(p) => {
            let out = codec::encode(&p);
            proof {
                codec::lemma_wf_encoding_valid(p);
            }
            Ok(out)
        },
        Err(e) => Err(e),
    }
}

/// Deserializes and verifies a proof against the caller's two target
/// public points: success exactly when the bytes encode a structurally
/// valid proof, the group parameters derive, every bit proof passes its
/// Fiat-Shamir check, and the recomputed aggregates equal the targets —
/// and each failure kind reports exactly its own stage, so a malformed
/// proof is never conflated with a cryptographically invalid one.
pub fn verify_encoded(bytes: &Vec<u8>, target_a: &Vec<u8>, target_b: &Vec<u8>) -> (r: Result<
    (),
    DleqError,
>)
    ensures
        r is Ok <==> (codec::valid_encoding(bytes@) && params::params_ok() && (exists|
            p: engine::DleqProof,
        |
            #![trigger codec::encode_spec(p)]
            p.wf() && codec::encode_spec(p) == bytes@ && engine::all_bits_pass(p)
                && engine::aggregates_match(p, target_a@, target_b@))),
        (r is Err && r->Err_0 == DleqError::MalformedEncoding) <==> (!codec::valid_encoding(
            bytes@,
        ) || !params::params_ok()),
        (r is Err && r->Err_0 == DleqError::InvalidBitProof) <==> (codec::valid_encoding(bytes@)
            && params::params_ok() && (forall|p: engine::DleqProof|
            (#[trigger] codec::encode_spec(p)) == bytes@ && p.wf()
                ==> !engine::all_bits_pass(p))),
        (r is Err && r->Err_0 == DleqError::AggregateMismatch) <==> (codec::valid_encoding(bytes@)
            && params::params_ok() && (exists|p: engine::DleqProof|
            #![trigger codec::encode_spec(p)]
            p.wf() && codec::encode_spec(p) == bytes@ && engine::all_bits_pass(p)) && (forall|
            p: engine::DleqProof,
        |
            (#[trigger] codec::encode_spec(p)) == bytes@ && p.wf() && engine::all_bits_pass(p)
                ==> !engine::aggregates_match(p, target_a@, target_b@))),
{
    let p = match codec::decode(bytes) {
        Ok(p) => p,
        Err(e) => {
            return Err(e);
        },
    };
    let r = engine::verify(&p, target_a, target_b);
    proof {
        match r {
            Ok(()) => {},
            Err(e) => {
                if e == DleqError::InvalidBitProof {
                    assert forall|q: engine::DleqProof|
                        (#[trigger] codec::encode_spec(q)) == bytes@ && q.wf() implies
                        !engine::all_bits_pass(q) by {
                        engine::lemma_decoded_unique(q, p);
                    }
                }
                if e == DleqError::AggregateMismatch {
                    assert forall|q: engine::DleqProof|
                        (#[trigger] codec::encode_spec(q)) == bytes@ && q.wf()
                            && engine::all_bits_pass(q) implies !engine::aggregates_match(q,
                        target_a@, target_b@) by {
                        engine::lemma_decoded_unique(q, p);
                    }
                }
            },
        }
        if codec::valid_encoding(bytes@) && params::params_ok() && (exists|q: engine::DleqProof|
            #![trigger codec::encode_spec(q)]
            q.wf() && codec::encode_spec(q) == bytes@ && engine::all_bits_pass(q)
                && engine::aggregates_match(q, target_a@, target_b@)) {
            let q = choose|q: engine::DleqProof|
                #![trigger codec::encode_spec(q)]
                q.wf() && codec::encode_spec(q) == bytes@ && engine::all_bits_pass(q)
                    && engine::aggregates_match(q, target_a@, target_b@);
            engine::lemma_decoded_unique(q, p);
        }
    }
    r
}

/// Every fallible operation of this library reports one of these causes.
#[derive(Clone, Copy, Debug, PartialEq, Eq, Structural)]
pub enum DleqError {
    /// The secret handed to proof generation is `2^SECRET_BITS` or larger.
    OutOfRangeSecret,
    /// An encoding has the wrong length, or holds a scalar that is not in
    /// canonical reduced form, or bytes that are not a curve point; also
    /// reported when the auxiliary generators cannot be derived.
    MalformedEncoding,
    /// A single bit's disjunctive Schnorr proof fails its Fiat-Shamir check.
    InvalidBitProof,
    /// The recomputed aggregate points differ from the caller's targets.
    AggregateMismatch,
}

} // verus!
