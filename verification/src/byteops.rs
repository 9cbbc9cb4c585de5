//! Small helpers on byte vectors: big-endian encoding, equality, copying.

use vstd::prelude::*;

verus! {

/// Big-endian byte expansion of a `u32`.
pub open spec fn u32_be(x: u32) -> Seq<u8> {
    seq![
        ((x >> 24) & 0xff) as u8,
        ((x >> 16) & 0xff) as u8,
        ((x >> 8) & 0xff) as u8,
        (x & 0xff) as u8,
    ]
}

/// Encodes a `u32` as its four big-endian bytes.
pub fn u32_to_be(x: u32) -> (r: Vec<u8>)
    ensures
        r@ == u32_be(x),
{
    proof {
        assert((x >> 24) & 0xff < 256 && (x >> 16) & 0xff < 256 && (x >> 8) & 0xff < 256 && x
            & 0xff < 256) by (bit_vector);
    }
    let b0: u8 = ((x >> 24) & 0xff) as u8;
    let b1: u8 = ((x >> 16) & 0xff) as u8;
    let b2: u8 = ((x >> 8) & 0xff) as u8;
    let b3: u8 = (x & 0xff) as u8;
    let r: Vec<u8> = vec![b0, b1, b2, b3];
    proof {
        assert(r@ =~= u32_be(x));
    }
    r
}

/// Byte-for-byte equality of two vectors.
pub fn bytes_eq(a: &Vec<u8>, b: &Vec<u8>) -> (r: bool)
    ensures
        r == (a@ == b@),
{
    if a.len() != b.len() {
        return false;
    }
    let mut i: usize = 0;
    while i < a.len()
        invariant
            i <= a@.len(),
            a@.len() == b@.len(),
            forall|j: int| 0 <= j < i ==> a@[j] == b@[j],
        decreases a@.len() - i,
    {
        if a[i] != b[i] {
            return false;
        }
        i += 1;
    }
    proof {
        assert(a@ =~= b@);
    }
    true
}

/// A fresh vector holding the same bytes.
pub fn clone_bytes(a: &Vec<u8>) -> (r: Vec<u8>)
    ensures
        r@ == a@,
{
    let mut r: Vec<u8> = Vec::new();
    let mut i: usize = 0;
    while i < a.len()
        invariant
            i <= a@.len(),
            r@ == a@.take(i as int),
        decreases a@.len() - i,
    {
        r.push(a[i]);
        i += 1;
        proof {
            assert(r@ =~= a@.take(i as int));
        }
    }
    proof {
        assert(a@.take(a@.len() as int) =~= a@);
    }
    r
}

/// Appends every byte of `src` to `dst`.
pub fn extend_bytes(dst: &mut Vec<u8>, src: &Vec<u8>)
    ensures
        final(dst)@ == old(dst)@ + src@,
{
    let mut i: usize = 0;
    while i < src.len()
        invariant
            i <= src@.len(),
            dst@ == old(dst)@ + src@.take(i as int),
        decreases src@.len() - i,
    {
        dst.push(src[i]);
        i += 1;
        proof {
            assert(dst@ =~= old(dst)@ + src@.take(i as int));
        }
    }
    proof {
        assert(old(dst)@ + src@.take(src@.len() as int) =~= old(dst)@ + src@);
    }
}


/// The lowercase hex digit of a value below 16.
pub open spec fn hex_digit(n: u8) -> u8 {
    if n < 10 {
        (48 + n) as u8
    } else {
        (87 + n) as u8
    }
}

/// The lowercase hex expansion of a byte string: two digits per byte.
pub open spec fn hex_of(s: Seq<u8>) -> Seq<u8> {
    Seq::new(
        2 * s.len(),
        |i: int|
            if i % 2 == 0 {
                hex_digit(s[i / 2] >> 4)
            } else {
                hex_digit(s[i / 2] & 0xf)
            },
    )
}

/// Encodes bytes as lowercase hex.
pub fn to_hex(b: &Vec<u8>) -> (r: Vec<u8>)
    ensures
        r@ == hex_of(b@),
{
    let mut r: Vec<u8> = Vec::new();
    let mut i: usize = 0;
    while i < b.len()
        invariant
            i <= b@.len(),
            r@.len() == 2 * i,
            forall|k: int| 0 <= k < 2 * i ==> r@[k] == hex_of(b@)[k],
        decreases b@.len() - i,
    {
        let x = b[i];
        proof {
            assert((x >> 4) < 16 && (x & 0xf) < 16) by (bit_vector);
        }
        let hi = x >> 4;
        let lo = x & 0xf;
        let d_hi: u8 = if hi < 10 {
            48 + hi
        } else {
            87 + hi
        };
        let d_lo: u8 = if lo < 10 {
            48 + lo
        } else {
            87 + lo
        };
        r.push(d_hi);
        r.push(d_lo);
        proof {
            assert(hex_of(b@)[2 * i as int] == hex_digit(b@[i as int] >> 4));
            assert(hex_of(b@)[2 * i as int + 1] == hex_digit(b@[i as int] & 0xf));
        }
        i += 1;
    }
    proof {
        assert(r@ =~= hex_of(b@));
    }
    r
}

} // verus!
