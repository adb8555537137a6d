//! SHA-256 digests and the big-endian length framing that every domain-tagged
//! root of the crate is built from.

use sha2::Digest;
use vstd::prelude::*;

verus! {

/// The SHA-256 digest of a byte string, as computed by the `sha2` crate.
pub uninterp spec fn spec_sha256(data: Seq<u8>) -> Seq<u8>;

/// Calls `<sha2::Sha256 as Digest>::digest` on `data` and returns the 32-byte
/// digest. The contract only names the result: it equals `spec_sha256` of the
/// input bytes, and nothing else about SHA-256 is assumed.
#[verifier::external_body]
pub(crate) fn sha256(data: &[u8]) -> (digest: [u8; 32])
    ensures
        digest@ == spec_sha256(data@),
{
    sha2::Sha256::digest(data).into()
}

/// The eight big-endian bytes of a `u64`.
pub open spec fn spec_u64_be(value: u64) -> Seq<u8> {
    seq![
        (value >> 56u64) as u8,
        (value >> 48u64) as u8,
        (value >> 40u64) as u8,
        (value >> 32u64) as u8,
        (value >> 24u64) as u8,
        (value >> 16u64) as u8,
        (value >> 8u64) as u8,
        value as u8,
    ]
}

/// Appends `tail` to `bytes`.
pub fn extend_bytes(bytes: &mut Vec<u8>, tail: &[u8])
    ensures
        final(bytes)@ == old(bytes)@ + tail@,
{
    let mut i: usize = 0;
    let ghost start = bytes@;
    while i < tail.len()
        invariant
            0 <= i <= tail@.len(),
            bytes@ =~= start + tail@.take(i as int),
        decreases tail@.len() - i,
    {
        bytes.push(tail[i]);
        i += 1;
    }
    assert(tail@.take(tail@.len() as int) =~= tail@);
}

/// A fresh vector holding `bytes`.
pub fn copy_bytes(bytes: &[u8]) -> (copy: Vec<u8>)
    ensures
        copy@ == bytes@,
{
    let mut copy: Vec<u8> = Vec::new();
    extend_bytes(&mut copy, bytes);
    assert(copy@ =~= bytes@);
    copy
}

/// Appends the big-endian bytes of `value` to `bytes`.
pub fn extend_u64_be(bytes: &mut Vec<u8>, value: u64)
    ensures
        final(bytes)@ == old(bytes)@ + spec_u64_be(value),
{
    let ghost start = bytes@;
    bytes.push((value >> 56u64) as u8);
    bytes.push((value >> 48u64) as u8);
    bytes.push((value >> 40u64) as u8);
    bytes.push((value >> 32u64) as u8);
    bytes.push((value >> 24u64) as u8);
    bytes.push((value >> 16u64) as u8);
    bytes.push((value >> 8u64) as u8);
    bytes.push(value as u8);
    assert(bytes@ =~= start + spec_u64_be(value));
}

/// A length as the `u64` that frames it.
pub open spec fn spec_len_be(len: nat) -> Seq<u8> {
    spec_u64_be(len as u64)
}

/// Two `u64` values with the same big-endian bytes are equal.
pub proof fn lemma_u64_be_injective(x: u64, y: u64)
    requires
        spec_u64_be(x) == spec_u64_be(y),
    ensures
        x == y,
{
    let bx = spec_u64_be(x);
    let by = spec_u64_be(y);
    assert(bx[0] == by[0] && bx[1] == by[1] && bx[2] == by[2] && bx[3] == by[3]);
    assert(bx[4] == by[4] && bx[5] == by[5] && bx[6] == by[6] && bx[7] == by[7]);
    assert(x == y) by (bit_vector)
        requires
            (x >> 56u64) as u8 == (y >> 56u64) as u8,
            (x >> 48u64) as u8 == (y >> 48u64) as u8,
            (x >> 40u64) as u8 == (y >> 40u64) as u8,
            (x >> 32u64) as u8 == (y >> 32u64) as u8,
            (x >> 24u64) as u8 == (y >> 24u64) as u8,
            (x >> 16u64) as u8 == (y >> 16u64) as u8,
            (x >> 8u64) as u8 == (y >> 8u64) as u8,
            x as u8 == y as u8,
    ;
}

/// Lengths that fit a `u64` and differ have different framings.
pub proof fn lemma_len_be_injective(a: nat, b: nat)
    requires
        a <= u64::MAX,
        b <= u64::MAX,
        a != b,
    ensures
        spec_len_be(a) != spec_len_be(b),
        spec_len_be(a).len() == 8,
        spec_len_be(b).len() == 8,
{
    if spec_len_be(a) == spec_len_be(b) {
        lemma_u64_be_injective(a as u64, b as u64);
    }
}

/// Two length-framed byte strings after one prefix differ when the strings
/// differ, whatever follows each: either the length framings differ or,
/// at equal lengths, some byte of the strings does.
pub proof fn lemma_framed_distinct(
    prefix: Seq<u8>,
    x: Seq<u8>,
    y: Seq<u8>,
    x_suffix: Seq<u8>,
    y_suffix: Seq<u8>,
)
    requires
        x.len() <= u64::MAX,
        y.len() <= u64::MAX,
        x != y,
    ensures
        prefix + spec_len_be(x.len()) + x + x_suffix != prefix + spec_len_be(y.len()) + y + y_suffix,
{
    let left = prefix + spec_len_be(x.len()) + x + x_suffix;
    let right = prefix + spec_len_be(y.len()) + y + y_suffix;
    let lx = spec_len_be(x.len());
    let ly = spec_len_be(y.len());
    assert(lx.len() == 8 && ly.len() == 8);
    if x.len() == y.len() {
        if forall|t: int| 0 <= t < x.len() ==> x[t] == y[t] {
            assert(x =~= y);
        }
        let t = choose|t: int| 0 <= t < x.len() && x[t] != y[t];
        let i = prefix.len() + 8 + t;
        assert(left[i] == x[t]);
        assert(right[i] == y[t]);
    } else {
        lemma_len_be_injective(x.len(), y.len());
        if forall|t: int| 0 <= t < 8 ==> lx[t] == ly[t] {
            assert(lx =~= ly);
        }
        let t = choose|t: int| 0 <= t < 8 && lx[t] != ly[t];
        let i = prefix.len() + t;
        assert(left[i] == lx[t]);
        assert(right[i] == ly[t]);
    }
}

/// Two byte strings that frame different counts after one prefix differ,
/// whatever follows each.
pub proof fn lemma_count_framed_distinct(
    prefix: Seq<u8>,
    a: nat,
    b: nat,
    a_suffix: Seq<u8>,
    b_suffix: Seq<u8>,
)
    requires
        a <= u64::MAX,
        b <= u64::MAX,
        a != b,
    ensures
        prefix + spec_len_be(a) + a_suffix != prefix + spec_len_be(b) + b_suffix,
{
    let la = spec_len_be(a);
    let lb = spec_len_be(b);
    lemma_len_be_injective(a, b);
    if forall|t: int| 0 <= t < 8 ==> la[t] == lb[t] {
        assert(la =~= lb);
    }
    let t = choose|t: int| 0 <= t < 8 && la[t] != lb[t];
    let i = prefix.len() + t;
    assert((prefix + la + a_suffix)[i] == la[t]);
    assert((prefix + lb + b_suffix)[i] == lb[t]);
}

} // verus!
