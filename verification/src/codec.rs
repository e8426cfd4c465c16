//! Canonical byte encoding of a proof: for each bit in index order, the two
//! compressed points followed by the two (challenge, response-pair) scalar
//! triples, every field fixed-width, so the whole encoding has one fixed
//! length with no length prefix. Decoding rejects a wrong total length and
//! any element that fails curve-membership or canonicality validation.

use vstd::prelude::*;
use crate::DleqError;
use crate::bytes::{nat_le, nat_be, push_all};
use crate::ops::{
    ed_order, secp_order, ed_point_valid, secp_point_valid, ed_check_point, secp_check_point,
    ed_scalar_check, secp_scalar_check,
};
use crate::bitproof::BitProof;
use crate::engine::DleqProof;

verus! {

/// Bytes per bit entry: 33 + 32 for the points, six 32-byte scalars.
pub const BIT_PROOF_BYTES: usize = 257;

/// Bytes of a whole proof: 252 entries.
pub const PROOF_BYTES: usize = 64764;

/// One entry's encoding: commitments, then branch 0's challenge and
/// responses, then branch 1's.
pub open spec fn enc_bit(b: BitProof) -> Seq<u8> {
    b.commit_a@ + b.commit_b@ + b.e0@ + b.s0a@ + b.s0b@ + b.e1@ + b.s1a@ + b.s1b@
}

/// The concatenated encodings of the first `k` entries.
pub open spec fn enc_upto(bits: Seq<BitProof>, k: int) -> Seq<u8>
    decreases k,
{
    if k <= 0 {
        Seq::empty()
    } else {
        enc_upto(bits, k - 1) + enc_bit(bits[k - 1])
    }
}

/// The canonical encoding of a whole proof.
pub open spec fn encode_spec(p: DleqProof) -> Seq<u8> {
    enc_upto(p.bits@, 252)
}

/// Entry `k`'s slice of an encoded proof.
pub open spec fn chunk(b: Seq<u8>, k: int) -> Seq<u8> {
    b.subrange(257 * k, 257 * (k + 1))
}

/// Whether one entry's slice holds two curve points and six canonical
/// scalars.
pub open spec fn chunk_ok(c: Seq<u8>) -> bool {
    &&& secp_point_valid(c.subrange(0, 33))
    &&& ed_point_valid(c.subrange(33, 65))
    &&& nat_le(c.subrange(65, 97)) < ed_order()
    &&& nat_be(c.subrange(97, 129)) < secp_order()
    &&& nat_le(c.subrange(129, 161)) < ed_order()
    &&& nat_le(c.subrange(161, 193)) < ed_order()
    &&& nat_be(c.subrange(193, 225)) < secp_order()
    &&& nat_le(c.subrange(225, 257)) < ed_order()
}

/// Whether bytes are a well-formed proof encoding: the fixed length and
/// every entry's slice valid.
pub open spec fn valid_encoding(b: Seq<u8>) -> bool {
    &&& b.len() == 64764
    &&& forall|k: int| 0 <= k < 252 ==> chunk_ok(#[trigger] chunk(b, k))
}

/// The first `k` entries encode to exactly `257 * k` bytes.
pub proof fn lemma_enc_upto_len(bits: Seq<BitProof>, k: int)
    requires
        0 <= k <= bits.len(),
        forall|i: int| 0 <= i < bits.len() ==> (#[trigger] bits[i]).wf_lens(),
    ensures
        enc_upto(bits, k).len() == 257 * k,
    decreases k,
{
    if k > 0 {
        lemma_enc_upto_len(bits, k - 1);
    }
}

/// The encoding of the first `k` entries reads only those entries.
proof fn lemma_enc_upto_prefix(bs1: Seq<BitProof>, bs2: Seq<BitProof>, k: int)
    requires
        0 <= k <= bs1.len(),
        k <= bs2.len(),
        forall|j: int| 0 <= j < k ==> bs1[j] == bs2[j],
    ensures
        enc_upto(bs1, k) == enc_upto(bs2, k),
    decreases k,
{
    if k > 0 {
        lemma_enc_upto_prefix(bs1, bs2, k - 1);
    }
}

/// Serializes a proof into its fixed-width canonical byte form.
pub fn encode(p: &DleqProof) -> (r: Vec<u8>)
    requires
        p.wf_lens(),
    ensures
        r@ == encode_spec(*p),
        r@.len() == PROOF_BYTES,
{
    let mut out: Vec<u8> = Vec::new();
    let mut k: usize = 0;
    while k < 252
        invariant
            k <= 252,
            p.wf_lens(),
            out@ == enc_upto(p.bits@, k as int),
            out@.len() == 257 * k,
        decreases 252 - k,
    {
        let e = &p.bits[k];
        assert(p.bits@[k as int].wf_lens());
        push_all(&mut out, &e.commit_a);
        push_all(&mut out, &e.commit_b);
        push_all(&mut out, &e.e0);
        push_all(&mut out, &e.s0a);
        push_all(&mut out, &e.s0b);
        push_all(&mut out, &e.e1);
        push_all(&mut out, &e.s1a);
        push_all(&mut out, &e.s1b);
        assert(out@ =~= enc_upto(p.bits@, k as int) + enc_bit(p.bits@[k as int]));
        k = k + 1;
    }
    out
}

/// Copies `len` bytes of `src` from `start` on.
fn take_range(src: &Vec<u8>, start: usize, len: usize) -> (r: Vec<u8>)
    requires
        start + len <= src@.len(),
    ensures
        r@ == src@.subrange(start as int, start as int + len as int),
        r@.len() == len,
{
    let n = src.len();
    let mut out: Vec<u8> = Vec::new();
    let mut j: usize = 0;
    while j < len
        invariant
            j <= len,
            start + len <= n,
            n == src@.len(),
            out@.len() == j,
            forall|t: int| 0 <= t < j ==> out@[t] == src@[start + t],
        decreases len - j,
    {
        out.push(src[start + j]);
        j = j + 1;
    }
    assert(out@ =~= src@.subrange(start as int, start as int + len as int));
    out
}

/// Parses canonical bytes back into a proof. Succeeds exactly on a
/// well-formed encoding; the returned proof is structurally valid and
/// re-encodes to the input bytes.
pub fn decode(bytes: &Vec<u8>) -> (r: Result<DleqProof, DleqError>)
    ensures
        r is Ok ==> valid_encoding(bytes@) && r->Ok_0.wf() && encode_spec(r->Ok_0) == bytes@,
        r is Err ==> r->Err_0 == DleqError::MalformedEncoding && !valid_encoding(bytes@),
        valid_encoding(bytes@) ==> r is Ok,
{
    if bytes.len() != PROOF_BYTES {
        return Err(DleqError::MalformedEncoding);
    }
    let mut entries: Vec<BitProof> = Vec::new();
    let mut k: usize = 0;
    while k < 252
        invariant
            k <= 252,
            bytes@.len() == 64764,
            entries@.len() == k,
            forall|j: int| 0 <= j < k ==> (#[trigger] entries@[j]).wf(),
            forall|j: int| 0 <= j < k ==> chunk_ok(#[trigger] chunk(bytes@, j)),
            enc_upto(entries@, k as int) == bytes@.subrange(0, 257 * k),
        decreases 252 - k,
    {
        let base = 257 * k;
        let commit_a = take_range(bytes, base, 33);
        let commit_b = take_range(bytes, base + 33, 32);
        let e0 = take_range(bytes, base + 65, 32);
        let s0a = take_range(bytes, base + 97, 32);
        let s0b = take_range(bytes, base + 129, 32);
        let e1 = take_range(bytes, base + 161, 32);
        let s1a = take_range(bytes, base + 193, 32);
        let s1b = take_range(bytes, base + 225, 32);
        proof {
            let c = chunk(bytes@, k as int);
            assert(commit_a@ =~= c.subrange(0, 33));
            assert(commit_b@ =~= c.subrange(33, 65));
            assert(e0@ =~= c.subrange(65, 97));
            assert(s0a@ =~= c.subrange(97, 129));
            assert(s0b@ =~= c.subrange(129, 161));
            assert(e1@ =~= c.subrange(161, 193));
            assert(s1a@ =~= c.subrange(193, 225));
            assert(s1b@ =~= c.subrange(225, 257));
        }
        let ok = secp_check_point(&commit_a) && ed_check_point(&commit_b) && ed_scalar_check(&e0)
            && secp_scalar_check(&s0a) && ed_scalar_check(&s0b) && ed_scalar_check(&e1)
            && secp_scalar_check(&s1a) && ed_scalar_check(&s1b);
        if !ok {
            assert(!chunk_ok(chunk(bytes@, k as int)));
            return Err(DleqError::MalformedEncoding);
        }
        let entry = BitProof { commit_a, commit_b, e0, e1, s0a, s1a, s0b, s1b };
        let ghost prev = entries@;
        entries.push(entry);
        proof {
            lemma_enc_upto_prefix(prev, entries@, k as int);
            assert(enc_bit(entries@[k as int]) =~= chunk(bytes@, k as int));
            assert(enc_upto(entries@, k as int + 1) =~= bytes@.subrange(0, 257 * (k as int + 1)));
        }
        k = k + 1;
    }
    proof {
        assert(bytes@.subrange(0, 64764) =~= bytes@);
    }
    Ok(DleqProof { bits: entries })
}

/// Entry `k`'s slice of the first `n` entries' encoding is that entry's
/// encoding.
proof fn lemma_enc_chunk(bs: Seq<BitProof>, n: int, k: int)
    requires
        0 <= k < n <= bs.len(),
        forall|i: int| 0 <= i < bs.len() ==> (#[trigger] bs[i]).wf_lens(),
    ensures
        enc_upto(bs, n).subrange(257 * k, 257 * (k + 1)) == enc_bit(bs[k]),
    decreases n,
{
    if n == k + 1 {
        lemma_enc_upto_len(bs, k);
        assert(bs[k].wf_lens());
        assert(enc_bit(bs[k]).len() == 257);
        assert(enc_upto(bs, n).subrange(257 * k, 257 * (k + 1)) =~= enc_bit(bs[k]));
    } else {
        lemma_enc_chunk(bs, n - 1, k);
        lemma_enc_upto_len(bs, n - 1);
        assert(bs[n - 1].wf_lens());
        assert(enc_bit(bs[n - 1]).len() == 257);
        assert(enc_upto(bs, n).subrange(257 * k, 257 * (k + 1)) =~= enc_upto(bs, n - 1).subrange(
            257 * k,
            257 * (k + 1),
        ));
    }
}

/// A structurally valid proof's canonical encoding is a well-formed
/// encoding: every slice holds curve points and canonical scalars.
pub proof fn lemma_wf_encoding_valid(p: DleqProof)
    requires
        p.wf(),
    ensures
        valid_encoding(encode_spec(p)),
{
    lemma_enc_upto_len(p.bits@, 252);
    let b = encode_spec(p);
    assert forall|k: int| 0 <= k < 252 implies chunk_ok(#[trigger] chunk(b, k)) by {
        lemma_enc_chunk(p.bits@, 252, k);
        let e = p.bits@[k];
        assert(e.wf());
        let c = chunk(b, k);
        assert(c == enc_bit(e));
        assert(c.subrange(0, 33) =~= e.commit_a@);
        assert(c.subrange(33, 65) =~= e.commit_b@);
        assert(c.subrange(65, 97) =~= e.e0@);
        assert(c.subrange(97, 129) =~= e.s0a@);
        assert(c.subrange(129, 161) =~= e.s0b@);
        assert(c.subrange(161, 193) =~= e.e1@);
        assert(c.subrange(193, 225) =~= e.s1a@);
        assert(c.subrange(225, 257) =~= e.s1b@);
    }
}

/// Two sequences concatenated from parts of equal widths are equal exactly
/// by parts.
proof fn lemma_split(x: Seq<u8>, y: Seq<u8>, u: Seq<u8>, v: Seq<u8>)
    requires
        x.len() == u.len(),
        x + y == u + v,
    ensures
        x == u,
        y == v,
{
    assert((x + y).len() == (u + v).len());
    assert(x =~= (x + y).subrange(0, x.len() as int));
    assert(u =~= (u + v).subrange(0, u.len() as int));
    assert(y =~= (x + y).subrange(x.len() as int, (x + y).len() as int));
    assert(v =~= (u + v).subrange(u.len() as int, (u + v).len() as int));
}

/// One entry's encoding determines every field of the entry.
proof fn lemma_enc_bit_inj(a: BitProof, b: BitProof)
    requires
        a.wf_lens(),
        b.wf_lens(),
        enc_bit(a) == enc_bit(b),
    ensures
        a.commit_a@ == b.commit_a@,
        a.commit_b@ == b.commit_b@,
        a.e0@ == b.e0@,
        a.e1@ == b.e1@,
        a.s0a@ == b.s0a@,
        a.s1a@ == b.s1a@,
        a.s0b@ == b.s0b@,
        a.s1b@ == b.s1b@,
{
    let a7 = a.commit_a@ + a.commit_b@ + a.e0@ + a.s0a@ + a.s0b@ + a.e1@ + a.s1a@;
    let b7 = b.commit_a@ + b.commit_b@ + b.e0@ + b.s0a@ + b.s0b@ + b.e1@ + b.s1a@;
    lemma_split(a7, a.s1b@, b7, b.s1b@);
    let a6 = a.commit_a@ + a.commit_b@ + a.e0@ + a.s0a@ + a.s0b@ + a.e1@;
    let b6 = b.commit_a@ + b.commit_b@ + b.e0@ + b.s0a@ + b.s0b@ + b.e1@;
    lemma_split(a6, a.s1a@, b6, b.s1a@);
    let a5 = a.commit_a@ + a.commit_b@ + a.e0@ + a.s0a@ + a.s0b@;
    let b5 = b.commit_a@ + b.commit_b@ + b.e0@ + b.s0a@ + b.s0b@;
    lemma_split(a5, a.e1@, b5, b.e1@);
    let a4 = a.commit_a@ + a.commit_b@ + a.e0@ + a.s0a@;
    let b4 = b.commit_a@ + b.commit_b@ + b.e0@ + b.s0a@;
    lemma_split(a4, a.s0b@, b4, b.s0b@);
    let a3 = a.commit_a@ + a.commit_b@ + a.e0@;
    let b3 = b.commit_a@ + b.commit_b@ + b.e0@;
    lemma_split(a3, a.s0a@, b3, b.s0a@);
    let a2 = a.commit_a@ + a.commit_b@;
    let b2 = b.commit_a@ + b.commit_b@;
    lemma_split(a2, a.e0@, b2, b.e0@);
    lemma_split(a.commit_a@, a.commit_b@, b.commit_a@, b.commit_b@);
}

/// The first `k` entries are determined by their concatenated encoding.
proof fn lemma_enc_upto_inj(bs1: Seq<BitProof>, bs2: Seq<BitProof>, k: int)
    requires
        0 <= k <= bs1.len(),
        k <= bs2.len(),
        forall|i: int| 0 <= i < bs1.len() ==> (#[trigger] bs1[i]).wf_lens(),
        forall|i: int| 0 <= i < bs2.len() ==> (#[trigger] bs2[i]).wf_lens(),
        enc_upto(bs1, k) == enc_upto(bs2, k),
    ensures
        forall|j: int|
            0 <= j < k ==> (#[trigger] bs1[j]).commit_a@ == bs2[j].commit_a@ && bs1[j].commit_b@
                == bs2[j].commit_b@ && bs1[j].e0@ == bs2[j].e0@ && bs1[j].e1@ == bs2[j].e1@
                && bs1[j].s0a@ == bs2[j].s0a@ && bs1[j].s1a@ == bs2[j].s1a@ && bs1[j].s0b@
                == bs2[j].s0b@ && bs1[j].s1b@ == bs2[j].s1b@,
    decreases k,
{
    if k > 0 {
        lemma_enc_upto_len(bs1, k - 1);
        lemma_enc_upto_len(bs2, k - 1);
        lemma_split(enc_upto(bs1, k - 1), enc_bit(bs1[k - 1]), enc_upto(bs2, k - 1), enc_bit(
            bs2[k - 1],
        ));
        lemma_enc_upto_inj(bs1, bs2, k - 1);
        lemma_enc_bit_inj(bs1[k - 1], bs2[k - 1]);
    }
}

/// Encoding is injective: two well-formed proofs with the same canonical
/// bytes have the same semantic content, field for field. Together with
/// `decode`'s contract — a decoded proof re-encodes to its input bytes —
/// this is the encoding round trip: decoding an encoded proof returns the
/// proof itself, and re-encoding a decoded proof returns the bytes.
pub proof fn lemma_encode_injective(p: DleqProof, q: DleqProof)
    requires
        p.wf_lens(),
        q.wf_lens(),
        encode_spec(p) == encode_spec(q),
    ensures
        forall|j: int|
            0 <= j < 252 ==> (#[trigger] p.bits@[j]).commit_a@ == q.bits@[j].commit_a@
                && p.bits@[j].commit_b@ == q.bits@[j].commit_b@ && p.bits@[j].e0@ == q.bits@[j].e0@
                && p.bits@[j].e1@ == q.bits@[j].e1@ && p.bits@[j].s0a@ == q.bits@[j].s0a@
                && p.bits@[j].s1a@ == q.bits@[j].s1a@ && p.bits@[j].s0b@ == q.bits@[j].s0b@
                && p.bits@[j].s1b@ == q.bits@[j].s1b@,
{
    lemma_enc_upto_inj(p.bits@, q.bits@, 252);
}

} // verus!
