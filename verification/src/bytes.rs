//! Reading little-endian numbers and delimited strings from a byte slice at an offset.
//!
//! The texture, map and light formats are read from plain byte slices. Each reader takes
//! the offset to read at and returns the value with the offset just past it, or `None`
//! when the slice ends first.
use vstd::prelude::*;
use vstd::utf8::valid_utf8;
use crate::buffer::{uint_le, i8_of, i16_of, i32_of, i64_of};

verus! {

/// The unsigned number spelled least significant byte first by the `n` bytes of `d`
/// from `p` on.
pub open spec fn le_at(d: Seq<u8>, p: int, n: int) -> nat {
    uint_le(d.subrange(p, p + n))
}

/// Whether `n` bytes of `d` lie from `p` on.
pub open spec fn fits(d: Seq<u8>, p: int, n: int) -> bool {
    0 <= p && p + n <= d.len()
}

pub proof fn lemma_uint_le_1(s: Seq<u8>)
    requires
        s.len() == 1,
    ensures
        uint_le(s) == s[0] as nat,
{
    assert(s.drop_first().len() == 0);
    assert(uint_le(s.drop_first()) == 0);
}

pub proof fn lemma_uint_le_2(s: Seq<u8>)
    requires
        s.len() == 2,
    ensures
        uint_le(s) == s[0] + 0x100 * s[1],
{
    lemma_uint_le_1(s.drop_first());
}

pub proof fn lemma_uint_le_4(s: Seq<u8>)
    requires
        s.len() == 4,
    ensures
        uint_le(s) == s[0] + 0x100 * s[1] + 0x1_0000 * s[2] + 0x100_0000 * s[3],
{
    let t = s.drop_first().drop_first();
    lemma_uint_le_2(t);
    assert(uint_le(s.drop_first()) == s[1] + 0x100 * uint_le(t));
}

pub proof fn lemma_uint_le_8(s: Seq<u8>)
    requires
        s.len() == 8,
    ensures
        uint_le(s) == s[0] + 0x100 * s[1] + 0x1_0000 * s[2] + 0x100_0000 * s[3]
            + 0x1_0000_0000 * s[4] + 0x100_0000_0000 * s[5] + 0x1_0000_0000_0000 * s[6]
            + 0x100_0000_0000_0000 * s[7],
{
    let t = s.drop_first().drop_first().drop_first().drop_first();
    lemma_uint_le_4(t);
    let s1 = s.drop_first();
    let s2 = s1.drop_first();
    let s3 = s2.drop_first();
    assert(uint_le(s3) == s[3] + 0x100 * uint_le(t));
    assert(uint_le(s2) == s[2] + 0x100 * uint_le(s3));
    assert(uint_le(s1) == s[1] + 0x100 * uint_le(s2));
}

/// A two-byte number read at `p` is a `u16`, and its two's complement reading an `i16`.
pub proof fn lemma_le_at_2(d: Seq<u8>, p: int)
    requires
        fits(d, p, 2),
    ensures
        le_at(d, p, 2) < 0x10000,
        i16::MIN <= i16_of(le_at(d, p, 2) as int) <= i16::MAX,
{
    lemma_uint_le_2(d.subrange(p, p + 2));
}

/// Reads the byte at `off`.
pub fn read_u8(bytes: &[u8], off: usize) -> (r: Option<(u8, usize)>)
    ensures
        r == (if fits(bytes@, off as int, 1) {
            Some((bytes@[off as int], (off + 1) as usize))
        } else {
            None::<(u8, usize)>
        }),
{
    if off < bytes.len() {
        Some((bytes[off], off + 1))
    } else {
        None
    }
}

/// Reads the byte at `off` as an `i8`.
pub fn read_i8(bytes: &[u8], off: usize) -> (r: Option<(i8, usize)>)
    ensures
        r == (if fits(bytes@, off as int, 1) {
            Some((i8_of(bytes@[off as int] as int) as i8, (off + 1) as usize))
        } else {
            None::<(i8, usize)>
        }),
{
    if off < bytes.len() {
        let b = bytes[off];
        let v = b as i8;
        assert(v == i8_of(b as int)) by (bit_vector)
            requires
                v == b as i8,
        ;
        Some((v, off + 1))
    } else {
        None
    }
}

/// Reads the little-endian `u16` at `off`.
pub fn read_u16(bytes: &[u8], off: usize) -> (r: Option<(u16, usize)>)
    ensures
        r == (if fits(bytes@, off as int, 2) {
            Some((le_at(bytes@, off as int, 2) as u16, (off + 2) as usize))
        } else {
            None::<(u16, usize)>
        }),
{
    if off < bytes.len() && bytes.len() - off >= 2 {
        let v = bytes[off] as u16 + 0x100 * (bytes[off + 1] as u16);
        proof {
            let s = bytes@.subrange(off as int, off + 2);
            lemma_uint_le_2(s);
        }
        Some((v, off + 2))
    } else {
        None
    }
}

/// Reads the little-endian `i16` at `off`.
pub fn read_i16(bytes: &[u8], off: usize) -> (r: Option<(i16, usize)>)
    ensures
        r == (if fits(bytes@, off as int, 2) {
            Some((i16_of(le_at(bytes@, off as int, 2) as int) as i16, (off + 2) as usize))
        } else {
            None::<(i16, usize)>
        }),
{
    match read_u16(bytes, off) {
        Some((u, o)) => {
            proof {
                lemma_uint_le_2(bytes@.subrange(off as int, off + 2));
            }
            let v = u as i16;
            assert(v == i16_of(u as int)) by (bit_vector)
                requires
                    v == u as i16,
            ;
            Some((v, o))
        },
        None => None,
    }
}

/// Reads the little-endian `u32` at `off`.
pub fn read_u32(bytes: &[u8], off: usize) -> (r: Option<(u32, usize)>)
    ensures
        r == (if fits(bytes@, off as int, 4) {
            Some((le_at(bytes@, off as int, 4) as u32, (off + 4) as usize))
        } else {
            None::<(u32, usize)>
        }),
{
    if off < bytes.len() && bytes.len() - off >= 4 {
        let v = bytes[off] as u32 + 0x100 * (bytes[off + 1] as u32) + 0x1_0000 * (bytes[off
            + 2] as u32) + 0x100_0000 * (bytes[off + 3] as u32);
        proof {
            let s = bytes@.subrange(off as int, off + 4);
            lemma_uint_le_4(s);
        }
        Some((v, off + 4))
    } else {
        None
    }
}

/// Reads the little-endian `i32` at `off`.
pub fn read_i32(bytes: &[u8], off: usize) -> (r: Option<(i32, usize)>)
    ensures
        r == (if fits(bytes@, off as int, 4) {
            Some((i32_of(le_at(bytes@, off as int, 4) as int) as i32, (off + 4) as usize))
        } else {
            None::<(i32, usize)>
        }),
{
    match read_u32(bytes, off) {
        Some((u, o)) => {
            proof {
                lemma_uint_le_4(bytes@.subrange(off as int, off + 4));
            }
            let v = u as i32;
            assert(v == i32_of(u as int)) by (bit_vector)
                requires
                    v == u as i32,
            ;
            Some((v, o))
        },
        None => None,
    }
}

/// Reads the little-endian `i64` at `off`.
pub fn read_i64(bytes: &[u8], off: usize) -> (r: Option<(i64, usize)>)
    ensures
        r == (if fits(bytes@, off as int, 8) {
            Some((i64_of(le_at(bytes@, off as int, 8) as int) as i64, (off + 8) as usize))
        } else {
            None::<(i64, usize)>
        }),
{
    if off < bytes.len() && bytes.len() - off >= 8 {
        let lo = bytes[off] as u64 + 0x100 * (bytes[off + 1] as u64) + 0x1_0000 * (bytes[off
            + 2] as u64) + 0x100_0000 * (bytes[off + 3] as u64);
        let hi = bytes[off + 4] as u64 + 0x100 * (bytes[off + 5] as u64) + 0x1_0000 * (bytes[off
            + 6] as u64) + 0x100_0000 * (bytes[off + 7] as u64);
        assert(hi < 0x1_0000_0000);
        let u = lo + 0x1_0000_0000 * hi;
        let v = u as i64;
        proof {
            let s = bytes@.subrange(off as int, off + 8);
            lemma_uint_le_8(s);
        }
        assert(v == i64_of(u as int)) by (bit_vector)
            requires
                v == u as i64,
        ;
        Some((v, off + 8))
    } else {
        None
    }
}

/// The index of the first `delim` byte of `d` at or after `p`, if there is one.
pub open spec fn find_byte(d: Seq<u8>, p: int, delim: u8) -> Option<int>
    decreases d.len() - p,
{
    if p < 0 || p >= d.len() {
        None
    } else if d[p] == delim {
        Some(p)
    } else {
        find_byte(d, p + 1, delim)
    }
}

pub proof fn lemma_find_byte(d: Seq<u8>, p: int, delim: u8)
    requires
        0 <= p,
    ensures
        find_byte(d, p, delim) matches Some(q) ==> p <= q < d.len() && d[q] == delim && (
        forall|k| p <= k < q ==> d[k] != delim),
        find_byte(d, p, delim) is None ==> forall|k| p <= k < d.len() ==> d[k] != delim,
    decreases d.len() - p,
{
    if p < d.len() && d[p] != delim {
        lemma_find_byte(d, p + 1, delim);
    }
}

/// Reads the bytes from `off` up to the first `delim` byte, and returns them with the
/// offset just past the delimiter; `None` when no delimiter follows.
pub fn read_delimited(bytes: &[u8], off: usize, delim: u8) -> (r: Option<(Vec<u8>, usize)>)
    ensures
        match find_byte(bytes@, off as int, delim) {
            Some(q) => r matches Some((s, o)) && s@ == bytes@.subrange(off as int, q) && o == q
                + 1,
            None => r is None,
        },
{
    proof {
        lemma_find_byte(bytes@, off as int, delim);
    }
    if off >= bytes.len() {
        return None;
    }
    let mut out: Vec<u8> = Vec::new();
    let mut i = off;
    while i < bytes.len()
        invariant
            off <= i <= bytes@.len(),
            out@ == bytes@.subrange(off as int, i as int),
            forall|k| off <= k < i ==> bytes@[k] != delim,
            find_byte(bytes@, off as int, delim) matches Some(q) ==> off <= q < bytes@.len()
                && bytes@[q] == delim && (forall|k| off <= k < q ==> bytes@[k] != delim),
            find_byte(bytes@, off as int, delim) is None ==> forall|k|
                off <= k < bytes@.len() ==> bytes@[k] != delim,
        decreases bytes@.len() - i,
    {
        if bytes[i] == delim {
            return Some((out, i + 1));
        }
        out.push(bytes[i]);
        proof {
            assert(out@ =~= bytes@.subrange(off as int, i + 1));
        }
        i = i + 1;
    }
    None
}

/// Whether `bytes` is UTF-8.
///
/// Calls `std::str::from_utf8`, which accepts exactly the well-formed UTF-8 sequences.
#[verifier::external_body]
pub(crate) fn is_utf8(bytes: &[u8]) -> (r: bool)
    ensures
        r == valid_utf8(bytes@),
{
    std::str::from_utf8(bytes).is_ok()
}

} // verus!
