//! Byte-sequence arithmetic: little- and big-endian values of byte strings,
//! canonical 32-byte encodings of naturals, and small executable helpers
//! that the rest of the library builds its contracts on.

use vstd::prelude::*;
use vstd::arithmetic::power2::pow2;

verus! {

/// The value of `s` read as a little-endian natural number.
pub open spec fn nat_le(s: Seq<u8>) -> nat
    decreases s.len(),
{
    if s.len() == 0 {
        0
    } else {
        s[0] as nat + 256 * nat_le(s.skip(1))
    }
}

/// The value of `s` read as a big-endian natural number.
pub open spec fn nat_be(s: Seq<u8>) -> nat
    decreases s.len(),
{
    if s.len() == 0 {
        0
    } else {
        256 * nat_be(s.drop_last()) + s.last() as nat
    }
}

/// `s` reversed.
pub open spec fn rev_seq(s: Seq<u8>) -> Seq<u8> {
    Seq::new(s.len(), |i: int| s[s.len() - 1 - i])
}

/// The canonical 32-byte little-endian encoding of `v` (`v` taken mod `2^256`).
pub open spec fn le32_of_nat(v: nat) -> Seq<u8> {
    Seq::new(32, |i: int| ((v / pow2((8 * i) as nat)) % 256) as u8)
}

/// The canonical 32-byte big-endian encoding of `v` (`v` taken mod `2^256`).
pub open spec fn be32_of_nat(v: nat) -> Seq<u8> {
    rev_seq(le32_of_nat(v))
}

/// `(a + b) mod m`.
pub open spec fn add_mod(a: nat, b: nat, m: nat) -> nat {
    (a + b) % m
}

/// `(a - b) mod m`, as a natural number.
pub open spec fn sub_mod(a: nat, b: nat, m: nat) -> nat {
    (((a % m) + m - (b % m)) % (m as int)) as nat
}

/// `(a * b) mod m`.
pub open spec fn mul_mod(a: nat, b: nat, m: nat) -> nat {
    (a * b) % m
}

/// A byte string's little-endian value is below `2^(8·len)`.
pub proof fn lemma_nat_le_bound(s: Seq<u8>)
    ensures
        nat_le(s) < pow2((8 * s.len()) as nat),
    decreases s.len(),
{
    vstd::arithmetic::power2::lemma2_to64();
    if s.len() == 0 {
    } else {
        lemma_nat_le_bound(s.skip(1));
        vstd::arithmetic::power2::lemma_pow2_adds(8, (8 * (s.len() - 1)) as nat);
        assert(pow2((8 * s.len()) as nat) == 256 * pow2((8 * (s.len() - 1)) as nat));
        let rest = nat_le(s.skip(1));
        assert(s.skip(1).len() == s.len() - 1);
        assert(rest < pow2((8 * (s.len() - 1)) as nat));
        assert(nat_le(s) == s[0] as nat + 256 * rest);
        assert(nat_le(s) < 256 * (rest + 1));
        assert(256 * (rest + 1) <= 256 * pow2((8 * (s.len() - 1)) as nat));
    }
}

/// The little-endian value splits at any byte boundary.
pub proof fn lemma_nat_le_split(s: Seq<u8>, k: int)
    requires
        0 <= k <= s.len(),
    ensures
        nat_le(s) == nat_le(s.take(k)) + pow2((8 * k) as nat) * nat_le(s.skip(k)),
    decreases k,
{
    vstd::arithmetic::power2::lemma2_to64();
    if k == 0 {
        assert(s.take(0).len() == 0);
        assert(s.skip(0) =~= s);
        assert(nat_le(s.take(0)) == 0);
        assert(pow2((8 * k) as nat) == 1);
        let w = pow2((8 * k) as nat);
        assert(w * nat_le(s.skip(0)) == nat_le(s.skip(0))) by (nonlinear_arith)
            requires
                w == 1,
        ;
        assert(nat_le(s) == nat_le(s.take(0)) + pow2((8 * k) as nat) * nat_le(s.skip(0)));
    } else {
        lemma_nat_le_split(s.skip(1), k - 1);
        assert(s.skip(1).take(k - 1) =~= s.take(k).skip(1));
        assert(s.skip(1).skip(k - 1) =~= s.skip(k));
        assert(s.take(k)[0] == s[0]);
        assert(nat_le(s.take(k)) == s[0] as nat + 256 * nat_le(s.take(k).skip(1)));
        vstd::arithmetic::power2::lemma_pow2_adds(8, (8 * (k - 1)) as nat);
        assert(pow2((8 * k) as nat) == 256 * pow2((8 * (k - 1)) as nat));
        let p = pow2((8 * (k - 1)) as nat);
        let t1 = nat_le(s.take(k).skip(1));
        let t2 = nat_le(s.skip(k));
        assert(nat_le(s) == s[0] as nat + 256 * nat_le(s.skip(1)));
        assert(nat_le(s.skip(1)) == t1 + p * t2);
        assert(256 * (t1 + p * t2) == 256 * t1 + 256 * (p * t2)) by (nonlinear_arith);
        assert(256 * (p * t2) == (256 * p) * t2) by (nonlinear_arith);
        assert(nat_le(s) == (s[0] as nat + 256 * t1) + (256 * p) * t2);
        let q = pow2((8 * k) as nat);
        assert(q * t2 == (256 * p) * t2) by (nonlinear_arith)
            requires
                q == 256 * p,
        ;
        assert(nat_le(s) == nat_le(s.take(k)) + q * t2);
    }
}

/// Subtracting and re-adding the same value mod `m` cancels: the
/// challenge-split arithmetic of the OR-proof is exact.
pub proof fn lemma_mod_cancel(e: nat, a: nat, m: nat)
    requires
        m > 1,
        e < m,
        a < m,
    ensures
        add_mod(sub_mod(e, a, m), a, m) == e,
        add_mod(a, sub_mod(e, a, m), m) == e,
{
    vstd::arithmetic::div_mod::lemma_small_mod(e, m);
    vstd::arithmetic::div_mod::lemma_small_mod(a, m);
    let t = (e + m - a) as nat;
    assert(sub_mod(e, a, m) == t % m);
    if t < m {
        vstd::arithmetic::div_mod::lemma_small_mod(t, m);
        assert(sub_mod(e, a, m) + a == m + e);
        vstd::arithmetic::div_mod::lemma_mod_add_multiples_vanish(e as int, m as int);
        assert(((m + e) as nat) % m == e % m);
    } else {
        vstd::arithmetic::div_mod::lemma_fundamental_div_mod_converse(
            t as int,
            m as int,
            1,
            (t - m) as int,
        );
        assert(t % m == (t - m) as nat);
        assert(sub_mod(e, a, m) + a == e);
    }
}

/// A byte string of zeroes has value zero.
pub proof fn lemma_nat_le_all_zero(s: Seq<u8>)
    requires
        forall|i: int| 0 <= i < s.len() ==> s[i] == 0,
    ensures
        nat_le(s) == 0,
    decreases s.len(),
{
    if s.len() > 0 {
        lemma_nat_le_all_zero(s.skip(1));
    }
}

/// Appends a copy of every byte of `src` to `dst`.
pub fn push_all(dst: &mut Vec<u8>, src: &Vec<u8>)
    ensures
        final(dst)@ == old(dst)@ + src@,
{
    let mut i: usize = 0;
    while i < src.len()
        invariant
            i <= src.len(),
            dst@ == old(dst)@ + src@.take(i as int),
        decreases src.len() - i,
    {
        dst.push(src[i]);
        assert(dst@ == old(dst)@ + src@.take(i + 1)) by {
            assert(old(dst)@ + src@.take(i + 1) =~= (old(dst)@ + src@.take(i as int)).push(
                src@[i as int],
            ));
        }
        i = i + 1;
    }
    assert(src@.take(src@.len() as int) =~= src@);
}

/// Compares two byte vectors for equality of their contents.
pub fn bytes_eq(a: &Vec<u8>, b: &Vec<u8>) -> (r: bool)
    ensures
        r == (a@ == b@),
{
    if a.len() != b.len() {
        assert(a@ != b@);
        return false;
    }
    let mut i: usize = 0;
    while i < a.len()
        invariant
            i <= a.len(),
            a@.len() == b@.len(),
            forall|j: int| 0 <= j < i ==> a@[j] == b@[j],
        decreases a.len() - i,
    {
        if a[i] != b[i] {
            assert(a@ != b@);
            return false;
        }
        i = i + 1;
    }
    assert(a@ =~= b@);
    true
}

/// A fresh vector of 32 zero bytes; its little-endian value is zero.
pub fn zero32() -> (r: Vec<u8>)
    ensures
        r@.len() == 32,
        forall|i: int| 0 <= i < 32 ==> r@[i] == 0,
        nat_le(r@) == 0,
{
    let mut v: Vec<u8> = Vec::new();
    let mut i: usize = 0;
    while i < 32
        invariant
            i <= 32,
            v@.len() == i,
            forall|j: int| 0 <= j < i ==> v@[j] == 0,
        decreases 32 - i,
    {
        v.push(0u8);
        i = i + 1;
    }
    proof {
        lemma_nat_le_all_zero(v@);
    }
    v
}

/// A byte string of zeroes has big-endian value zero.
pub proof fn lemma_nat_be_all_zero(s: Seq<u8>)
    requires
        forall|i: int| 0 <= i < s.len() ==> s[i] == 0,
    ensures
        nat_be(s) == 0,
    decreases s.len(),
{
    if s.len() > 0 {
        lemma_nat_be_all_zero(s.drop_last());
    }
}

/// Copies a byte vector.
pub fn copy_bytes(v: &Vec<u8>) -> (r: Vec<u8>)
    ensures
        r@ == v@,
{
    let mut out: Vec<u8> = Vec::new();
    push_all(&mut out, v);
    assert(out@ =~= v@);
    out
}

/// Overwrites every byte with zero: the explicit release of secret
/// material on every exit path.
pub fn wipe(v: &mut Vec<u8>)
    ensures
        final(v)@.len() == old(v)@.len(),
        forall|i: int| 0 <= i < final(v)@.len() ==> final(v)@[i] == 0,
{
    let mut i: usize = 0;
    while i < v.len()
        invariant
            i <= v@.len(),
            v@.len() == old(v)@.len(),
            forall|j: int| 0 <= j < i ==> v@[j] == 0,
        decreases v@.len() - i,
    {
        v.set(i, 0u8);
        i = i + 1;
    }
}

/// Overwrites every flag with false: the explicit release of a secret's
/// bit decomposition.
pub fn wipe_bools(v: &mut Vec<bool>)
    ensures
        final(v)@.len() == old(v)@.len(),
        forall|i: int| 0 <= i < final(v)@.len() ==> !final(v)@[i],
{
    let mut i: usize = 0;
    while i < v.len()
        invariant
            i <= v@.len(),
            v@.len() == old(v)@.len(),
            forall|j: int| 0 <= j < i ==> !v@[j],
        decreases v@.len() - i,
    {
        v.set(i, false);
        i = i + 1;
    }
}

/// Reverses a 32-byte vector.
pub fn reverse32(v: &Vec<u8>) -> (r: Vec<u8>)
    requires
        v@.len() == 32,
    ensures
        r@ == rev_seq(v@),
{
    let mut out: Vec<u8> = Vec::new();
    let mut i: usize = 0;
    while i < 32
        invariant
            i <= 32,
            v@.len() == 32,
            out@.len() == i,
            forall|j: int| 0 <= j < i ==> out@[j] == v@[31 - j],
        decreases 32 - i,
    {
        out.push(v[31 - i]);
        i = i + 1;
    }
    assert(out@ =~= rev_seq(v@));
    out
}

} // verus!
