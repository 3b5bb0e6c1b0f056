//! The byte buffer that the animation and binary-data readers consume.
//!
//! `bytebuffer::ByteBuffer` holds a byte vector and a read cursor. The library reads it
//! through the wrappers below, whose contracts state what the crate's source does: a
//! fixed-size read checks that enough bytes remain after the cursor, decodes them in the
//! buffer's byte order and moves the cursor past them.
use vstd::prelude::*;
use bytebuffer::ByteBuffer;

verus! {

#[verifier::external_type_specification]
#[verifier::external_body]
pub struct ExByteBuffer(bytebuffer::ByteBuffer);

/// The bytes a buffer holds.
pub uninterp spec fn buffer_data(b: ByteBuffer) -> Seq<u8>;

/// Where the next byte read starts: the read cursor, plus one while a bit read has left a
/// partly consumed byte behind (the crate skips that byte before any byte read).
pub uninterp spec fn buffer_pos(b: ByteBuffer) -> nat;

/// Whether the buffer decodes numbers least significant byte first.
pub uninterp spec fn buffer_little_endian(b: ByteBuffer) -> bool;

/// Whether a bit read has left a partly consumed byte behind the read cursor.
pub uninterp spec fn buffer_bit_pending(b: ByteBuffer) -> bool;

/// The unsigned number that `s` spells least significant byte first.
pub open spec fn uint_le(s: Seq<u8>) -> nat
    decreases s.len(),
{
    if s.len() == 0 {
        0
    } else {
        s[0] as nat + 256 * uint_le(s.drop_first())
    }
}

/// The unsigned number that `s` spells most significant byte first.
pub open spec fn uint_be(s: Seq<u8>) -> nat
    decreases s.len(),
{
    if s.len() == 0 {
        0
    } else {
        uint_be(s.drop_last()) * 256 + s.last() as nat
    }
}

/// The unsigned number spelled by the `n` bytes of `d` from `p` on, in the given order.
pub open spec fn uint_at(d: Seq<u8>, p: int, n: int, little_endian: bool) -> nat {
    if little_endian {
        uint_le(d.subrange(p, p + n))
    } else {
        uint_be(d.subrange(p, p + n))
    }
}

/// Two's complement reading of an unsigned 8-bit number.
pub open spec fn i8_of(u: int) -> int {
    if u >= 0x80 { u - 0x100 } else { u }
}

/// Two's complement reading of an unsigned 16-bit number.
pub open spec fn i16_of(u: int) -> int {
    if u >= 0x8000 { u - 0x1_0000 } else { u }
}

/// Two's complement reading of an unsigned 32-bit number.
pub open spec fn i32_of(u: int) -> int {
    if u >= 0x8000_0000 { u - 0x1_0000_0000 } else { u }
}

/// Two's complement reading of an unsigned 64-bit number.
pub open spec fn i64_of(u: int) -> int {
    if u >= 0x8000_0000_0000_0000 { u - 0x1_0000_0000_0000_0000 } else { u }
}

/// Whether two buffers hold the same bytes in the same byte order.
pub open spec fn same_bytes(a: ByteBuffer, b: ByteBuffer) -> bool {
    &&& buffer_data(a) == buffer_data(b)
    &&& buffer_little_endian(a) == buffer_little_endian(b)
}

/// Whether `n` bytes remain from the read position on.
pub open spec fn has_bytes(b: ByteBuffer, n: int) -> bool {
    buffer_pos(b) + n <= buffer_data(b).len()
}

/// The outcome of a successful `n`-byte read on `old`: the bytes and the byte order are
/// kept, the position moves past the bytes and no partly read byte is left.
pub open spec fn advanced(old: ByteBuffer, new: ByteBuffer, n: int) -> bool {
    &&& same_bytes(old, new)
    &&& buffer_pos(new) == buffer_pos(old) + n
    &&& !buffer_bit_pending(new)
}

/// A buffer that holds `v`, is read from its start and decodes most significant byte first.
///
/// Calls `ByteBuffer::from_vec`, which takes the vector as the buffer's data with both
/// cursors at 0 and big-endian order.
#[verifier::external_body]
pub(crate) fn buffer_from_vec(v: Vec<u8>) -> (b: ByteBuffer)
    ensures
        buffer_data(b) == v@,
        buffer_pos(b) == 0,
        !buffer_little_endian(b),
        !buffer_bit_pending(b),
{
    ByteBuffer::from_vec(v)
}

/// Makes the buffer decode numbers least significant byte first.
///
/// Calls `ByteBuffer::set_endian` with `Endian::LittleEndian`, which only sets the order.
#[verifier::external_body]
pub(crate) fn buffer_set_little_endian(b: &mut ByteBuffer)
    ensures
        buffer_data(*final(b)) == buffer_data(*old(b)),
        buffer_pos(*final(b)) == buffer_pos(*old(b)),
        buffer_bit_pending(*final(b)) == buffer_bit_pending(*old(b)),
        buffer_little_endian(*final(b)),
{
    b.set_endian(bytebuffer::Endian::LittleEndian)
}

/// The number of bytes the buffer holds.
///
/// Calls `ByteBuffer::len`, the length of its data.
#[verifier::external_body]
pub(crate) fn buffer_len(b: &ByteBuffer) -> (n: usize)
    ensures
        n == buffer_data(*b).len(),
{
    b.len()
}

/// The read cursor.
///
/// Calls `ByteBuffer::get_rpos`; the cursor is one less than the position the next byte
/// read starts at while a bit read has left a partly read byte.
#[verifier::external_body]
pub(crate) fn buffer_get_rpos(b: &ByteBuffer) -> (p: usize)
    ensures
        p + (if buffer_bit_pending(*b) { 1int } else { 0int }) == buffer_pos(*b),
{
    b.get_rpos()
}

/// Moves the read cursor to `p`, or to the end of the data if `p` lies beyond it.
///
/// Calls `ByteBuffer::set_rpos`, which sets the cursor to `min(p, len)` and leaves the bit
/// cursor as it was.
#[verifier::external_body]
pub(crate) fn buffer_set_rpos(b: &mut ByteBuffer, p: usize)
    ensures
        same_bytes(*old(b), *final(b)),
        buffer_bit_pending(*final(b)) == buffer_bit_pending(*old(b)),
        buffer_pos(*final(b)) == (if p <= buffer_data(*old(b)).len() {
            p as int
        } else {
            buffer_data(*old(b)).len() as int
        }) + (if buffer_bit_pending(*old(b)) { 1int } else { 0int }),
{
    b.set_rpos(p)
}

/// Reads one byte, or `None` when no byte remains.
///
/// Calls `ByteBuffer::read_u8`.
#[verifier::external_body]
pub(crate) fn buffer_read_u8(b: &mut ByteBuffer) -> (r: Option<u8>)
    ensures
        same_bytes(*old(b), *final(b)),
        !buffer_bit_pending(*final(b)),
        has_bytes(*old(b), 1) ==> r == Some(buffer_data(*old(b))[buffer_pos(*old(b)) as int])
            && advanced(*old(b), *final(b), 1),
        !has_bytes(*old(b), 1) ==> r is None && buffer_pos(*final(b)) == buffer_pos(*old(b)),
{
    b.read_u8().ok()
}

/// Reads one byte as an `i8`, or `None` when no byte remains.
///
/// Calls `ByteBuffer::read_i8`, which is `read_u8` cast to `i8`.
#[verifier::external_body]
pub(crate) fn buffer_read_i8(b: &mut ByteBuffer) -> (r: Option<i8>)
    ensures
        same_bytes(*old(b), *final(b)),
        !buffer_bit_pending(*final(b)),
        has_bytes(*old(b), 1) ==> r == Some(i8_of(
            uint_at(buffer_data(*old(b)), buffer_pos(*old(b)) as int, 1, buffer_little_endian(*old(b))) as int,
        ) as i8) && advanced(*old(b), *final(b), 1),
        !has_bytes(*old(b), 1) ==> r is None && buffer_pos(*final(b)) == buffer_pos(*old(b)),
{
    b.read_i8().ok()
}

/// Reads two bytes as an `i16` in the buffer's order, or `None` when fewer remain.
///
/// Calls `ByteBuffer::read_i16`, which is `read_u16` cast to `i16`.
#[verifier::external_body]
pub(crate) fn buffer_read_i16(b: &mut ByteBuffer) -> (r: Option<i16>)
    ensures
        same_bytes(*old(b), *final(b)),
        !buffer_bit_pending(*final(b)),
        has_bytes(*old(b), 2) ==> r == Some(i16_of(
            uint_at(buffer_data(*old(b)), buffer_pos(*old(b)) as int, 2, buffer_little_endian(*old(b))) as int,
        ) as i16) && advanced(*old(b), *final(b), 2),
        !has_bytes(*old(b), 2) ==> r is None && buffer_pos(*final(b)) == buffer_pos(*old(b)),
{
    b.read_i16().ok()
}

/// Reads four bytes as an `i32` in the buffer's order, or `None` when fewer remain.
///
/// Calls `ByteBuffer::read_i32`, which is `read_u32` cast to `i32`.
#[verifier::external_body]
pub(crate) fn buffer_read_i32(b: &mut ByteBuffer) -> (r: Option<i32>)
    ensures
        same_bytes(*old(b), *final(b)),
        !buffer_bit_pending(*final(b)),
        has_bytes(*old(b), 4) ==> r == Some(i32_of(
            uint_at(buffer_data(*old(b)), buffer_pos(*old(b)) as int, 4, buffer_little_endian(*old(b))) as int,
        ) as i32) && advanced(*old(b), *final(b), 4),
        !has_bytes(*old(b), 4) ==> r is None && buffer_pos(*final(b)) == buffer_pos(*old(b)),
{
    b.read_i32().ok()
}

/// Reads four bytes as a `u32` in the buffer's order, or `None` when fewer remain. A
/// 32-bit float field is kept as these bits: `ByteBuffer::read_f32` decodes the same four
/// bytes in the same order and reinterprets them.
///
/// Calls `ByteBuffer::read_u32`.
#[verifier::external_body]
pub(crate) fn buffer_read_u32(b: &mut ByteBuffer) -> (r: Option<u32>)
    ensures
        same_bytes(*old(b), *final(b)),
        !buffer_bit_pending(*final(b)),
        has_bytes(*old(b), 4) ==> r == Some(
            uint_at(buffer_data(*old(b)), buffer_pos(*old(b)) as int, 4, buffer_little_endian(*old(b))) as u32,
        ) && advanced(*old(b), *final(b), 4),
        !has_bytes(*old(b), 4) ==> r is None && buffer_pos(*final(b)) == buffer_pos(*old(b)),
{
    b.read_u32().ok()
}

/// Reads eight bytes as an `i64` in the buffer's order, or `None` when fewer remain.
///
/// Calls `ByteBuffer::read_i64`, which is `read_u64` cast to `i64`.
#[verifier::external_body]
pub(crate) fn buffer_read_i64(b: &mut ByteBuffer) -> (r: Option<i64>)
    ensures
        same_bytes(*old(b), *final(b)),
        !buffer_bit_pending(*final(b)),
        has_bytes(*old(b), 8) ==> r == Some(i64_of(
            uint_at(buffer_data(*old(b)), buffer_pos(*old(b)) as int, 8, buffer_little_endian(*old(b))) as int,
        ) as i64) && advanced(*old(b), *final(b), 8),
        !has_bytes(*old(b), 8) ==> r is None && buffer_pos(*final(b)) == buffer_pos(*old(b)),
{
    b.read_i64().ok()
}

/// Reads the next `n` bytes, or `None` when fewer remain.
///
/// Calls `ByteBuffer::read_bytes`, which copies the bytes after the cursor and moves the
/// cursor past them. It adds `n` to the cursor before comparing with the length, which
/// overflows (and stops the program) when the sum passes `usize::MAX`; that cannot happen
/// when the bytes are there.
#[verifier::external_body]
pub(crate) fn buffer_read_bytes(b: &mut ByteBuffer, n: usize) -> (r: Option<Vec<u8>>)
    requires
        has_bytes(*old(b), n as int) || buffer_pos(*old(b)) + n <= usize::MAX,
    ensures
        same_bytes(*old(b), *final(b)),
        !buffer_bit_pending(*final(b)),
        has_bytes(*old(b), n as int) ==> r is Some && r->0@ == buffer_data(*old(b)).subrange(
            buffer_pos(*old(b)) as int,
            buffer_pos(*old(b)) + n,
        ) && advanced(*old(b), *final(b), n as int),
        !has_bytes(*old(b), n as int) ==> r is None && buffer_pos(*final(b)) == buffer_pos(*old(b)),
{
    b.read_bytes(n).ok()
}

/// A buffer that holds a copy of `s`, read from its start, most significant byte first.
///
/// Calls `ByteBuffer::from_bytes`, which writes the bytes into a new buffer whose read
/// cursors stay at 0, in big-endian order.
#[verifier::external_body]
pub(crate) fn buffer_from_bytes(s: &[u8]) -> (b: ByteBuffer)
    ensures
        buffer_data(b) == s@,
        buffer_pos(b) == 0,
        !buffer_little_endian(b),
        !buffer_bit_pending(b),
{
    ByteBuffer::from_bytes(s)
}

/// A copy of the bytes the buffer holds.
///
/// Calls `ByteBuffer::as_bytes` and copies the slice.
#[verifier::external_body]
pub(crate) fn buffer_to_vec(b: &ByteBuffer) -> (v: Vec<u8>)
    ensures
        v@ == buffer_data(*b),
{
    b.as_bytes().to_vec()
}

} // verus!
