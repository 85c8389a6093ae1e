//! Big-endian byte encodings of the integer widths the attestation format
//! uses, with the recomposition lemmas the round-trip proof needs, and
//! byte-sequence comparison helpers.

use vstd::prelude::*;

verus! {

/// The big-endian value of a 2-byte sequence.
pub open spec fn be_u16(s: Seq<u8>) -> u16
    recommends
        s.len() == 2,
{
    ((s[0] as u16) << 8) | (s[1] as u16)
}

/// The big-endian bytes of a `u16`.
pub open spec fn u16_be_bytes(x: u16) -> Seq<u8> {
    seq![((x >> 8) & 0xff) as u8, (x & 0xff) as u8]
}

/// The big-endian value of a 4-byte sequence.
pub open spec fn be_u32(s: Seq<u8>) -> u32
    recommends
        s.len() == 4,
{
    ((s[0] as u32) << 24) | ((s[1] as u32) << 16) | ((s[2] as u32) << 8) | (s[3] as u32)
}

/// The big-endian bytes of a `u32`.
pub open spec fn u32_be_bytes(x: u32) -> Seq<u8> {
    seq![
        ((x >> 24) & 0xff) as u8,
        ((x >> 16) & 0xff) as u8,
        ((x >> 8) & 0xff) as u8,
        (x & 0xff) as u8,
    ]
}

/// The big-endian value of an 8-byte sequence.
pub open spec fn be_u64(s: Seq<u8>) -> u64
    recommends
        s.len() == 8,
{
    ((s[0] as u64) << 56) | ((s[1] as u64) << 48) | ((s[2] as u64) << 40) | ((s[3] as u64) << 32)
        | ((s[4] as u64) << 24) | ((s[5] as u64) << 16) | ((s[6] as u64) << 8) | (s[7] as u64)
}

/// The big-endian bytes of a `u64`.
pub open spec fn u64_be_bytes(x: u64) -> Seq<u8> {
    seq![
        ((x >> 56) & 0xff) as u8,
        ((x >> 48) & 0xff) as u8,
        ((x >> 40) & 0xff) as u8,
        ((x >> 32) & 0xff) as u8,
        ((x >> 24) & 0xff) as u8,
        ((x >> 16) & 0xff) as u8,
        ((x >> 8) & 0xff) as u8,
        (x & 0xff) as u8,
    ]
}

/// Reading back the big-endian bytes of a `u16` yields the value.
pub proof fn lemma_be_u16_round_trip(x: u16)
    ensures
        u16_be_bytes(x).len() == 2,
        be_u16(u16_be_bytes(x)) == x,
{
    assert((x >> 8) & 0xff < 256 && x & 0xff < 256) by (bit_vector);
    assert((((x >> 8) & 0xff) << 8) | (x & 0xff) == x) by (bit_vector);
}

/// Reading back the big-endian bytes of a `u32` yields the value.
pub proof fn lemma_be_u32_round_trip(x: u32)
    ensures
        u32_be_bytes(x).len() == 4,
        be_u32(u32_be_bytes(x)) == x,
{
    assert((x >> 24) & 0xff < 256 && (x >> 16) & 0xff < 256 && (x >> 8) & 0xff < 256 && x & 0xff
        < 256) by (bit_vector);
    assert((((x >> 24) & 0xff) << 24) | (((x >> 16) & 0xff) << 16) | (((x >> 8) & 0xff) << 8) | (x
        & 0xff) == x) by (bit_vector);
}

/// Reading back the big-endian bytes of a `u64` yields the value.
pub proof fn lemma_be_u64_round_trip(x: u64)
    ensures
        u64_be_bytes(x).len() == 8,
        be_u64(u64_be_bytes(x)) == x,
{
    assert((x >> 56) & 0xff < 256 && (x >> 48) & 0xff < 256 && (x >> 40) & 0xff < 256 && (x >> 32)
        & 0xff < 256 && (x >> 24) & 0xff < 256 && (x >> 16) & 0xff < 256 && (x >> 8) & 0xff < 256
        && x & 0xff < 256) by (bit_vector);
    assert((((x >> 56) & 0xff) << 56) | (((x >> 48) & 0xff) << 48) | (((x >> 40) & 0xff) << 40) | (
    ((x >> 32) & 0xff) << 32) | (((x >> 24) & 0xff) << 24) | (((x >> 16) & 0xff) << 16) | (((x >> 8)
        & 0xff) << 8) | (x & 0xff) == x) by (bit_vector);
}

/// Appends the big-endian bytes of a `u16`.
pub fn push_u16_be(out: &mut Vec<u8>, x: u16)
    ensures
        final(out)@ == old(out)@ + u16_be_bytes(x),
{
    out.push(((x >> 8) & 0xff) as u8);
    out.push((x & 0xff) as u8);
    proof {
        assert(out@ =~= old(out)@ + u16_be_bytes(x));
    }
}

/// Appends the big-endian bytes of a `u32`.
pub fn push_u32_be(out: &mut Vec<u8>, x: u32)
    ensures
        final(out)@ == old(out)@ + u32_be_bytes(x),
{
    out.push(((x >> 24) & 0xff) as u8);
    out.push(((x >> 16) & 0xff) as u8);
    out.push(((x >> 8) & 0xff) as u8);
    out.push((x & 0xff) as u8);
    proof {
        assert(out@ =~= old(out)@ + u32_be_bytes(x));
    }
}

/// Appends the big-endian bytes of a `u64`.
pub fn push_u64_be(out: &mut Vec<u8>, x: u64)
    ensures
        final(out)@ == old(out)@ + u64_be_bytes(x),
{
    out.push(((x >> 56) & 0xff) as u8);
    out.push(((x >> 48) & 0xff) as u8);
    out.push(((x >> 40) & 0xff) as u8);
    out.push(((x >> 32) & 0xff) as u8);
    out.push(((x >> 24) & 0xff) as u8);
    out.push(((x >> 16) & 0xff) as u8);
    out.push(((x >> 8) & 0xff) as u8);
    out.push((x & 0xff) as u8);
    proof {
        assert(out@ =~= old(out)@ + u64_be_bytes(x));
    }
}

/// Appends every byte of `src`.
pub fn append_bytes(out: &mut Vec<u8>, src: &Vec<u8>)
    ensures
        final(out)@ == old(out)@ + src@,
{
    let n = src.len();
    let mut k: usize = 0;
    proof {
        assert(out@ =~= old(out)@ + src@.take(0));
    }
    while k < n
        invariant
            n == src@.len(),
            0 <= k <= n,
            out@ == old(out)@ + src@.take(k as int),
        decreases n - k,
    {
        out.push(src[k]);
        proof {
            assert(out@ =~= old(out)@ + src@.take(k as int + 1));
        }
        k = k + 1;
    }
    proof {
        assert(src@.take(n as int) =~= src@);
    }
}

/// Whether two byte sequences are equal, element for element.
pub fn bytes_eq(a: &Vec<u8>, b: &Vec<u8>) -> (r: bool)
    ensures
        r == (a@ == b@),
{
    if a.len() != b.len() {
        assert(a@.len() != b@.len());
        return false;
    }
    let n = a.len();
    let mut i: usize = 0;
    while i < n
        invariant
            n == a@.len(),
            n == b@.len(),
            0 <= i <= n,
            forall|j: int| 0 <= j < i ==> a@[j] == b@[j],
        decreases n - i,
    {
        if a[i] != b[i] {
            assert(a@ != b@);
            return false;
        }
        i = i + 1;
    }
    proof {
        assert(a@ =~= b@);
    }
    true
}

/// Whether `a` comes strictly before `b` in lexicographic order.
pub open spec fn lex_lt(a: Seq<u8>, b: Seq<u8>) -> bool
    decreases a.len(),
{
    if b.len() == 0 {
        false
    } else if a.len() == 0 {
        true
    } else if a[0] != b[0] {
        a[0] < b[0]
    } else {
        lex_lt(a.subrange(1, a.len() as int), b.subrange(1, b.len() as int))
    }
}

/// Decides lexicographic order on byte vectors.
pub fn bytes_lt(a: &Vec<u8>, b: &Vec<u8>) -> (r: bool)
    ensures
        r == lex_lt(a@, b@),
{
    let mut i: usize = 0;
    let an = a.len();
    let bn = b.len();
    proof {
        assert(a@.skip(0) =~= a@);
        assert(b@.skip(0) =~= b@);
    }
    loop
        invariant
            an == a@.len(),
            bn == b@.len(),
            0 <= i <= an,
            0 <= i <= bn,
            lex_lt(a@, b@) == lex_lt(a@.skip(i as int), b@.skip(i as int)),
            forall|j: int| 0 <= j < i ==> a@[j] == b@[j],
        decreases an - i,
    {
        proof {
            lemma_lex_lt_skip_unfold(a@, b@, i as int);
        }
        if i >= bn {
            assert(b@.skip(i as int).len() == 0);
            return false;
        }
        if i >= an {
            assert(a@.skip(i as int).len() == 0 && b@.skip(i as int).len() > 0);
            return true;
        }
        let x = a[i];
        let y = b[i];
        if x != y {
            assert(a@.skip(i as int)[0] == a@[i as int] && b@.skip(i as int)[0] == b@[i as int]);
            return x < y;
        }
        proof {
            assert(a@.skip(i as int).subrange(1, a@.skip(i as int).len() as int) =~= a@.skip(
                i as int + 1,
            ));
            assert(b@.skip(i as int).subrange(1, b@.skip(i as int).len() as int) =~= b@.skip(
                i as int + 1,
            ));
        }
        i = i + 1;
    }
}

proof fn lemma_lex_lt_skip_unfold(a: Seq<u8>, b: Seq<u8>, i: int)
    requires
        0 <= i <= a.len(),
        0 <= i <= b.len(),
    ensures
        a.skip(i).len() == a.len() - i,
        b.skip(i).len() == b.len() - i,
        a.skip(i).len() > 0 ==> a.skip(i)[0] == a[i],
        b.skip(i).len() > 0 ==> b.skip(i)[0] == b[i],
{
}

} // verus!
