//! What reading a value from a byte buffer means, and the basic reads.
//!
//! A format is described by spec functions from the data, a start position and the byte
//! order to `Some((value, end))` when the value is there and `None` when the data is cut
//! short. A reader over a `ByteBuffer` is tied to its description by [`reads_as`].
use vstd::prelude::*;
use bytebuffer::ByteBuffer;
use crate::buffer::{
    buffer_data, buffer_pos, buffer_little_endian, buffer_bit_pending, same_bytes, uint_at, uint_le,
    uint_be, i8_of, i16_of, i32_of, i64_of, buffer_read_i8, buffer_read_u8, buffer_read_i16,
    buffer_read_i32, buffer_read_u32, buffer_read_i64, buffer_read_bytes,
};
use crate::error::ReadError;
use crate::bytes::find_byte;

verus! {

/// A one-byte unsigned value.
pub open spec fn sp_u8(d: Seq<u8>, p: nat) -> Option<(u8, nat)> {
    if p + 1 <= d.len() {
        Some((d[p as int], p + 1))
    } else {
        None
    }
}

/// A one-byte signed value.
pub open spec fn sp_i8(d: Seq<u8>, p: nat) -> Option<(i8, nat)> {
    if p + 1 <= d.len() {
        Some((i8_of(d[p as int] as int) as i8, p + 1))
    } else {
        None
    }
}

/// A two-byte signed value in the given order.
pub open spec fn sp_i16(d: Seq<u8>, p: nat, le: bool) -> Option<(i16, nat)> {
    if p + 2 <= d.len() {
        Some((i16_of(uint_at(d, p as int, 2, le) as int) as i16, p + 2))
    } else {
        None
    }
}

/// A four-byte signed value in the given order.
pub open spec fn sp_i32(d: Seq<u8>, p: nat, le: bool) -> Option<(i32, nat)> {
    if p + 4 <= d.len() {
        Some((i32_of(uint_at(d, p as int, 4, le) as int) as i32, p + 4))
    } else {
        None
    }
}

/// A four-byte unsigned value in the given order (the bits of a 32-bit float).
pub open spec fn sp_u32(d: Seq<u8>, p: nat, le: bool) -> Option<(u32, nat)> {
    if p + 4 <= d.len() {
        Some((uint_at(d, p as int, 4, le) as u32, p + 4))
    } else {
        None
    }
}

/// An eight-byte signed value in the given order.
pub open spec fn sp_i64(d: Seq<u8>, p: nat, le: bool) -> Option<(i64, nat)> {
    if p + 8 <= d.len() {
        Some((i64_of(uint_at(d, p as int, 8, le) as int) as i64, p + 8))
    } else {
        None
    }
}

/// `n` raw bytes.
pub open spec fn sp_bytes(d: Seq<u8>, p: nat, n: nat) -> Option<(Seq<u8>, nat)> {
    if p + n <= d.len() {
        Some((d.subrange(p as int, (p + n) as int), p + n))
    } else {
        None
    }
}

/// A string written without a length: its bytes up to a zero byte, which ends it.
pub open spec fn sp_cstr(d: Seq<u8>, p: nat) -> Option<(Seq<u8>, nat)> {
    match find_byte(d, p as int, 0) {
        Some(q) => Some((d.subrange(p as int, q), (q + 1) as nat)),
        None => None,
    }
}

/// `n` values one after the other, each read by `f` from where the previous one ended.
pub open spec fn sp_many<T>(n: nat, p: nat, f: spec_fn(nat) -> Option<(T, nat)>) -> Option<
    (Seq<T>, nat),
>
    decreases n,
{
    if n == 0 {
        Some((Seq::empty(), p))
    } else {
        match sp_many((n - 1) as nat, p, f) {
            Some((s, q)) => match f(q) {
                Some((x, q2)) => Some((s.push(x), q2)),
                None => None,
            },
            None => None,
        }
    }
}

/// Once a value of a sequence fails to read, the sequence fails.
pub proof fn lemma_many_fails<T>(i: nat, n: nat, p: nat, f: spec_fn(nat) -> Option<(T, nat)>)
    requires
        i <= n,
        sp_many(i, p, f) is None,
    ensures
        sp_many(n, p, f) is None,
    decreases n,
{
    if n > i {
        lemma_many_fails(i, (n - 1) as nat, p, f);
    }
}

/// A sequence of `n` values that reads holds `n` values.
pub proof fn lemma_many_len<T>(n: nat, p: nat, f: spec_fn(nat) -> Option<(T, nat)>)
    requires
        sp_many(n, p, f) is Some,
    ensures
        sp_many(n, p, f) matches Some((s, _q)) && s.len() == n,
    decreases n,
{
    if n > 0 {
        lemma_many_len((n - 1) as nat, p, f);
    }
}

/// A partly read byte is left behind only by a read that read nothing.
pub open spec fn bits_after(old: ByteBuffer, new: ByteBuffer) -> bool {
    buffer_bit_pending(new) ==> buffer_bit_pending(old) && buffer_pos(new) == buffer_pos(old)
}

/// The outcome of reading a value whose reader can also stop the program: the value and
/// where it ends, a failure reported as an error, or a panic.
pub enum Parsed<T> {
    Done(T, nat),
    Fails(ReadError),
    Panics,
}

/// A read that cannot panic, as a [`Parsed`].
pub open spec fn lift<T>(o: Option<(T, nat)>) -> Parsed<T> {
    match o {
        Some((v, q)) => Parsed::Done(v, q),
        None => Parsed::Fails(ReadError::Incomplete),
    }
}

/// `n` values one after the other, each read by `f` from where the previous one ended;
/// the first value that fails or panics decides the outcome.
pub open spec fn sp_many3<T>(n: nat, p: nat, f: spec_fn(nat) -> Parsed<T>) -> Parsed<Seq<T>>
    decreases n,
{
    if n == 0 {
        Parsed::Done(Seq::empty(), p)
    } else {
        match sp_many3((n - 1) as nat, p, f) {
            Parsed::Done(s, q) => match f(q) {
                Parsed::Done(x, q2) => Parsed::Done(s.push(x), q2),
                Parsed::Fails(e) => Parsed::Fails(e),
                Parsed::Panics => Parsed::Panics,
            },
            Parsed::Fails(e) => Parsed::Fails(e),
            Parsed::Panics => Parsed::Panics,
        }
    }
}

/// Values read one after another by `f`, at most `n` of them: the list ends early at the
/// first value that cannot be read, and a value whose read panics makes the whole read
/// panic.
pub open spec fn sp_upto<T>(n: nat, p: nat, f: spec_fn(nat) -> Parsed<T>) -> Parsed<Seq<T>>
    decreases n,
{
    if n == 0 {
        Parsed::Done(Seq::empty(), p)
    } else {
        match f(p) {
            Parsed::Done(x, q) => match sp_upto((n - 1) as nat, q, f) {
                Parsed::Done(s, r) => Parsed::Done(seq![x] + s, r),
                Parsed::Fails(e) => Parsed::Fails(e),
                Parsed::Panics => Parsed::Panics,
            },
            Parsed::Fails(_) => Parsed::Done(Seq::empty(), p),
            Parsed::Panics => Parsed::Panics,
        }
    }
}

/// The values `s` followed by those that `r` reads.
pub open spec fn after<T>(s: Seq<T>, r: Parsed<Seq<T>>) -> Parsed<Seq<T>> {
    match r {
        Parsed::Done(t, q) => Parsed::Done(s + t, q),
        Parsed::Fails(e) => Parsed::Fails(e),
        Parsed::Panics => Parsed::Panics,
    }
}

/// Reading one more value of a list moves it from the rest to the values read.
pub proof fn lemma_upto_step<T>(s: Seq<T>, x: T, n: nat, p: nat, q: nat, f: spec_fn(nat) -> Parsed<T>)
    requires
        n > 0,
        f(p) == Parsed::Done(x, q),
    ensures
        after(s, sp_upto(n, p, f)) == after(s.push(x), sp_upto((n - 1) as nat, q, f)),
{
    match sp_upto((n - 1) as nat, q, f) {
        Parsed::Done(t, r) => {
            assert(s + (seq![x] + t) =~= s.push(x) + t);
        },
        _ => {},
    }
}

/// A list never fails: it ends at the first value that cannot be read.
pub proof fn lemma_upto_not_fails<T>(n: nat, p: nat, f: spec_fn(nat) -> Parsed<T>)
    ensures
        !(sp_upto(n, p, f) is Fails),
    decreases n,
{
    if n > 0 {
        if let Parsed::Done(_, q) = f(p) {
            lemma_upto_not_fails((n - 1) as nat, q, f);
        }
    }
}

/// Once a value of a sequence fails or panics, the sequence does the same.
pub proof fn lemma_many3_stops<T>(i: nat, n: nat, p: nat, f: spec_fn(nat) -> Parsed<T>)
    requires
        i <= n,
        !(sp_many3(i, p, f) is Done),
    ensures
        sp_many3(n, p, f) == sp_many3(i, p, f),
    decreases n,
{
    if n > i {
        lemma_many3_stops(i, (n - 1) as nat, p, f);
    }
}

/// A read of `old` into `new` that gives `r` follows the description `s`, which does not
/// panic: the buffer's bytes and order stay; a value that is there is the result, and the
/// position is its end; a failure is an error.
pub open spec fn parsed_as<T: View>(
    old: ByteBuffer,
    new: ByteBuffer,
    r: Result<T, ReadError>,
    s: Parsed<T::V>,
) -> bool {
    &&& same_bytes(old, new)
    &&& match s {
        Parsed::Done(v, q) => r matches Ok(x) && x@ == v && buffer_pos(new) == q
            && bits_after(old, new),
        Parsed::Fails(e) => r == Err::<T, ReadError>(e),
        Parsed::Panics => false,
    }
}

/// A read of `old` into `new` that gives `r`, on an input where the description `s` may
/// panic: `None` exactly where `s` panics, otherwise a result that follows `s` (see
/// [`parsed_as`]).
pub open spec fn checked_as<T: View>(
    old: ByteBuffer,
    new: ByteBuffer,
    r: Option<Result<T, ReadError>>,
    s: Parsed<T::V>,
) -> bool {
    match r {
        Some(x) => parsed_as(old, new, x, s),
        None => same_bytes(old, new) && s is Panics,
    }
}

/// A read of `old` into `new` that gives `r` follows the description `s`: the buffer's
/// bytes and order stay, and either the value is there, the result is it and the position
/// is its end, or the data is cut short and the result is an error.
pub open spec fn reads_as<T: View>(
    old: ByteBuffer,
    new: ByteBuffer,
    r: Result<T, ReadError>,
    s: Option<(T::V, nat)>,
) -> bool {
    &&& same_bytes(old, new)
    &&& match s {
        Some((v, q)) => r matches Ok(x) && x@ == v && buffer_pos(new) == q && bits_after(old, new),
        None => r == Err::<T, ReadError>(ReadError::Incomplete),
    }
}

/// The data of a buffer.
pub open spec fn dat(b: ByteBuffer) -> Seq<u8> {
    buffer_data(b)
}

/// The read position of a buffer.
pub open spec fn pos(b: ByteBuffer) -> nat {
    buffer_pos(b)
}

/// The byte order of a buffer.
pub open spec fn le(b: ByteBuffer) -> bool {
    buffer_little_endian(b)
}

/// Reads an `i8`.
pub fn read_i8(b: &mut ByteBuffer) -> (r: Result<i8, ReadError>)
    ensures
        reads_as(*old(b), *final(b), r, sp_i8(dat(*old(b)), pos(*old(b)))),
{
    proof {
        if pos(*b) < dat(*b).len() {
            lemma_uint_at_1(dat(*b), pos(*b) as int, le(*b));
        }
    }
    match buffer_read_i8(b) {
        Some(v) => Ok(v),
        None => Err(ReadError::Incomplete),
    }
}

/// Reads a `u8`.
pub fn read_u8(b: &mut ByteBuffer) -> (r: Result<u8, ReadError>)
    ensures
        reads_as(*old(b), *final(b), r, sp_u8(dat(*old(b)), pos(*old(b)))),
{
    match buffer_read_u8(b) {
        Some(v) => Ok(v),
        None => Err(ReadError::Incomplete),
    }
}

/// Reads an `i16`.
pub fn read_i16(b: &mut ByteBuffer) -> (r: Result<i16, ReadError>)
    ensures
        reads_as(*old(b), *final(b), r, sp_i16(dat(*old(b)), pos(*old(b)), le(*old(b)))),
{
    match buffer_read_i16(b) {
        Some(v) => Ok(v),
        None => Err(ReadError::Incomplete),
    }
}

/// Reads an `i32`.
pub fn read_i32(b: &mut ByteBuffer) -> (r: Result<i32, ReadError>)
    ensures
        reads_as(*old(b), *final(b), r, sp_i32(dat(*old(b)), pos(*old(b)), le(*old(b)))),
{
    match buffer_read_i32(b) {
        Some(v) => Ok(v),
        None => Err(ReadError::Incomplete),
    }
}

/// Reads the bits of a 32-bit float.
pub fn read_f32_bits(b: &mut ByteBuffer) -> (r: Result<u32, ReadError>)
    ensures
        reads_as(*old(b), *final(b), r, sp_u32(dat(*old(b)), pos(*old(b)), le(*old(b)))),
{
    match buffer_read_u32(b) {
        Some(v) => Ok(v),
        None => Err(ReadError::Incomplete),
    }
}

/// Reads an `i64`.
pub fn read_i64(b: &mut ByteBuffer) -> (r: Result<i64, ReadError>)
    ensures
        reads_as(*old(b), *final(b), r, sp_i64(dat(*old(b)), pos(*old(b)), le(*old(b)))),
{
    match buffer_read_i64(b) {
        Some(v) => Ok(v),
        None => Err(ReadError::Incomplete),
    }
}

/// Reads `n` raw bytes.
pub fn read_bytes(b: &mut ByteBuffer, n: usize) -> (r: Result<Vec<u8>, ReadError>)
    requires
        crate::buffer::has_bytes(*old(b), n as int) || buffer_pos(*old(b)) + n <= usize::MAX,
    ensures
        reads_as(*old(b), *final(b), r, sp_bytes(dat(*old(b)), pos(*old(b)), n as nat)),
{
    match buffer_read_bytes(b, n) {
        Some(v) => Ok(v),
        None => Err(ReadError::Incomplete),
    }
}

/// Reads a string written without a length: the bytes up to a zero byte, which is
/// consumed too.
pub fn read_cstr(b: &mut ByteBuffer) -> (r: Result<Vec<u8>, ReadError>)
    ensures
        reads_as(*old(b), *final(b), r, sp_cstr(dat(*old(b)), pos(*old(b)))),
{
    let ghost d = dat(*b);
    let ghost p0 = pos(*b);
    proof {
        crate::bytes::lemma_find_byte(d, p0 as int, 0);
    }
    let mut out: Vec<u8> = Vec::new();
    loop
        invariant
            same_bytes(*old(b), *b),
            d == dat(*old(b)),
            p0 == pos(*old(b)),
            pos(*b) == p0 + out@.len(),
            forall|k| 0 <= k < out@.len() ==> out@[k] == d[p0 + k] && d[p0 + k] != 0,
            out@.len() > 0 ==> !buffer_bit_pending(*b) && pos(*b) <= d.len(),
            find_byte(d, p0 as int, 0) matches Some(q) ==> p0 <= q < d.len() && d[q] == 0 && (
            forall|k| p0 <= k < q ==> d[k] != 0),
            find_byte(d, p0 as int, 0) is None ==> forall|k| p0 <= k < d.len() ==> d[k] != 0,
        decreases d.len() - pos(*b),
    {
        let ghost before = *b;
        match buffer_read_u8(b) {
            Some(c) => {
                if c == 0 {
                    proof {
                        assert(out@ =~= d.subrange(p0 as int, pos(before) as int));
                        assert forall|k| p0 <= k < pos(before) implies d[k] != 0 by {
                            assert(out@[k - p0] == d[p0 + (k - p0)]);
                        }
                        assert(d[pos(before) as int] == 0);
                    }
                    return Ok(out);
                }
                let ghost old_out = out@;
                out.push(c);
                proof {
                    assert(c == d[pos(before) as int]);
                    assert forall|k| 0 <= k < out@.len() implies out@[k] == d[p0 + k] && d[p0
                        + k] != 0 by {
                        if k < old_out.len() {
                            assert(out@[k] == old_out[k]);
                        }
                    }
                }
            },
            None => {
                proof {
                    assert forall|k| p0 <= k < pos(before) implies d[k] != 0 by {
                        assert(out@[k - p0] == d[p0 + (k - p0)]);
                    }
                }
                return Err(ReadError::Incomplete);
            },
        }
    }
}

/// Reading a string without a length from `d`, as a function of the position.
pub open spec fn cstr_fn(d: Seq<u8>) -> spec_fn(nat) -> Option<(Seq<u8>, nat)> {
    |p: nat| sp_cstr(d, p)
}

/// Reading an `i8` from `d`, as a function of the position.
pub open spec fn i8_fn(d: Seq<u8>) -> spec_fn(nat) -> Option<(i8, nat)> {
    |p: nat| sp_i8(d, p)
}

/// Reading an `i16` from `d`, as a function of the position.
pub open spec fn i16_fn(d: Seq<u8>, le: bool) -> spec_fn(nat) -> Option<(i16, nat)> {
    |p: nat| sp_i16(d, p, le)
}

/// Reading an `i32` from `d`, as a function of the position.
pub open spec fn i32_fn(d: Seq<u8>, le: bool) -> spec_fn(nat) -> Option<(i32, nat)> {
    |p: nat| sp_i32(d, p, le)
}

/// Reading the bits of a 32-bit float from `d`, as a function of the position.
pub open spec fn u32_fn(d: Seq<u8>, le: bool) -> spec_fn(nat) -> Option<(u32, nat)> {
    |p: nat| sp_u32(d, p, le)
}

/// Reads `n` strings written without a length, one after the other.
pub fn read_cstrs(b: &mut ByteBuffer, n: usize) -> (r: Result<Vec<Vec<u8>>, ReadError>)
    ensures
        same_bytes(*old(b), *final(b)),
        match sp_many(n as nat, pos(*old(b)), cstr_fn(dat(*old(b)))) {
            Some((v, q)) => r matches Ok(x) && x.deep_view() == v && pos(*final(b)) == q && bits_after(
                *old(b),
                *final(b),
            ),
            None => r == Err::<Vec<Vec<u8>>, ReadError>(ReadError::Incomplete),
        },
{
    let ghost d = dat(*b);
    let ghost p0 = pos(*b);
    let mut out: Vec<Vec<u8>> = Vec::new();
    let mut i: usize = 0;
    while i < n
        invariant
            same_bytes(*old(b), *b),
            d == dat(*old(b)),
            p0 == pos(*old(b)),
            i <= n,
            sp_many(i as nat, p0, cstr_fn(d)) == Some((out.deep_view(), pos(*b))),
            bits_after(*old(b), *b),
        decreases n - i,
    {
        let ghost before = out.deep_view();
        match read_cstr(b) {
            Ok(s) => {
                proof {
                    assert(s.deep_view() =~= s@);
                }
                out.push(s);
                proof {
                    assert(out.deep_view() =~= before.push(s@));
                }
            },
            Err(e) => {
                proof {
                    lemma_many_fails((i + 1) as nat, n as nat, p0, cstr_fn(d));
                }
                return Err(e);
            },
        }
        i = i + 1;
    }
    Ok(out)
}

/// Reads `n` values of `i8`, one after the other.
pub fn read_i8s(b: &mut ByteBuffer, n: usize) -> (r: Result<Vec<i8>, ReadError>)
    ensures
        same_bytes(*old(b), *final(b)),
        match sp_many(n as nat, pos(*old(b)), i8_fn(dat(*old(b)))) {
            Some((v, q)) => r matches Ok(x) && x@ == v && pos(*final(b)) == q && bits_after(
                *old(b),
                *final(b),
            ),
            None => r == Err::<Vec<i8>, ReadError>(ReadError::Incomplete),
        },
{
    let ghost d = dat(*b);
    let ghost p0 = pos(*b);
    let mut out: Vec<i8> = Vec::new();
    let mut i: usize = 0;
    while i < n
        invariant
            same_bytes(*old(b), *b),
            d == dat(*old(b)),
            p0 == pos(*old(b)),
            i <= n,
            sp_many(i as nat, p0, i8_fn(d)) == Some((out@, pos(*b))),
            bits_after(*old(b), *b),
        decreases n - i,
    {
        match read_i8(b) {
            Ok(v) => {
                out.push(v);
            },
            Err(e) => {
                proof {
                    lemma_many_fails((i + 1) as nat, n as nat, p0, i8_fn(d));
                }
                return Err(e);
            },
        }
        i = i + 1;
    }
    Ok(out)
}

/// Two `i16` values one after the other.
pub open spec fn sp_i16x2(d: Seq<u8>, p: nat, le: bool) -> Option<((i16, i16), nat)> {
    match sp_i16(d, p, le) {
        Some((a, q)) => match sp_i16(d, q, le) {
            Some((b, q2)) => Some(((a, b), q2)),
            None => None,
        },
        None => None,
    }
}

/// Four `i16` values one after the other.
pub open spec fn sp_i16x4(d: Seq<u8>, p: nat, le: bool) -> Option<((i16, i16, i16, i16), nat)> {
    match sp_i16x2(d, p, le) {
        Some(((a, b), q)) => match sp_i16x2(d, q, le) {
            Some(((c, e), q2)) => Some(((a, b, c, e), q2)),
            None => None,
        },
        None => None,
    }
}

/// Two `i8` values one after the other.
pub open spec fn sp_i8x2(d: Seq<u8>, p: nat) -> Option<((i8, i8), nat)> {
    match sp_i8(d, p) {
        Some((a, q)) => match sp_i8(d, q) {
            Some((b, q2)) => Some(((a, b), q2)),
            None => None,
        },
        None => None,
    }
}

/// Four `i8` values one after the other.
pub open spec fn sp_i8x4(d: Seq<u8>, p: nat) -> Option<((i8, i8, i8, i8), nat)> {
    match sp_i8x2(d, p) {
        Some(((a, b), q)) => match sp_i8x2(d, q) {
            Some(((c, e), q2)) => Some(((a, b, c, e), q2)),
            None => None,
        },
        None => None,
    }
}

/// Reads two `i16` values.
pub fn read_i16x2(b: &mut ByteBuffer) -> (r: Result<(i16, i16), ReadError>)
    ensures
        reads_as(*old(b), *final(b), r, sp_i16x2(dat(*old(b)), pos(*old(b)), le(*old(b)))),
{
    let x = read_i16(b)?;
    let y = read_i16(b)?;
    Ok((x, y))
}

/// Reads four `i16` values.
pub fn read_i16x4(b: &mut ByteBuffer) -> (r: Result<(i16, i16, i16, i16), ReadError>)
    ensures
        reads_as(*old(b), *final(b), r, sp_i16x4(dat(*old(b)), pos(*old(b)), le(*old(b)))),
{
    let (x, y) = read_i16x2(b)?;
    let (z, w) = read_i16x2(b)?;
    Ok((x, y, z, w))
}

/// Reads two `i8` values.
pub fn read_i8x2(b: &mut ByteBuffer) -> (r: Result<(i8, i8), ReadError>)
    ensures
        reads_as(*old(b), *final(b), r, sp_i8x2(dat(*old(b)), pos(*old(b)))),
{
    let x = read_i8(b)?;
    let y = read_i8(b)?;
    Ok((x, y))
}

/// Reads four `i8` values.
pub fn read_i8x4(b: &mut ByteBuffer) -> (r: Result<(i8, i8, i8, i8), ReadError>)
    ensures
        reads_as(*old(b), *final(b), r, sp_i8x4(dat(*old(b)), pos(*old(b)))),
{
    let (x, y) = read_i8x2(b)?;
    let (z, w) = read_i8x2(b)?;
    Ok((x, y, z, w))
}

/// Reads `n` values of `i16`, one after the other.
pub fn read_i16s(b: &mut ByteBuffer, n: usize) -> (r: Result<Vec<i16>, ReadError>)
    ensures
        same_bytes(*old(b), *final(b)),
        match sp_many(n as nat, pos(*old(b)), i16_fn(dat(*old(b)), le(*old(b)))) {
            Some((v, q)) => r matches Ok(x) && x@ == v && pos(*final(b)) == q && bits_after(
                *old(b),
                *final(b),
            ),
            None => r == Err::<Vec<i16>, ReadError>(ReadError::Incomplete),
        },
{
    let ghost d = dat(*b);
    let ghost l = le(*b);
    let ghost p0 = pos(*b);
    let mut out: Vec<i16> = Vec::new();
    let mut i: usize = 0;
    while i < n
        invariant
            same_bytes(*old(b), *b),
            d == dat(*old(b)),
            l == le(*old(b)),
            p0 == pos(*old(b)),
            i <= n,
            sp_many(i as nat, p0, i16_fn(d, l)) == Some((out@, pos(*b))),
            bits_after(*old(b), *b),
        decreases n - i,
    {
        match read_i16(b) {
            Ok(v) => {
                out.push(v);
            },
            Err(e) => {
                proof {
                    lemma_many_fails((i + 1) as nat, n as nat, p0, i16_fn(d, l));
                }
                return Err(e);
            },
        }
        i = i + 1;
    }
    Ok(out)
}

/// Reads `n` values of `i32`, one after the other.
pub fn read_i32s(b: &mut ByteBuffer, n: usize) -> (r: Result<Vec<i32>, ReadError>)
    ensures
        same_bytes(*old(b), *final(b)),
        match sp_many(n as nat, pos(*old(b)), i32_fn(dat(*old(b)), le(*old(b)))) {
            Some((v, q)) => r matches Ok(x) && x@ == v && pos(*final(b)) == q && bits_after(
                *old(b),
                *final(b),
            ),
            None => r == Err::<Vec<i32>, ReadError>(ReadError::Incomplete),
        },
{
    let ghost d = dat(*b);
    let ghost l = le(*b);
    let ghost p0 = pos(*b);
    let mut out: Vec<i32> = Vec::new();
    let mut i: usize = 0;
    while i < n
        invariant
            same_bytes(*old(b), *b),
            d == dat(*old(b)),
            l == le(*old(b)),
            p0 == pos(*old(b)),
            i <= n,
            sp_many(i as nat, p0, i32_fn(d, l)) == Some((out@, pos(*b))),
            bits_after(*old(b), *b),
        decreases n - i,
    {
        match read_i32(b) {
            Ok(v) => {
                out.push(v);
            },
            Err(e) => {
                proof {
                    lemma_many_fails((i + 1) as nat, n as nat, p0, i32_fn(d, l));
                }
                return Err(e);
            },
        }
        i = i + 1;
    }
    Ok(out)
}

/// Reads `n` values of `u32`, one after the other.
pub fn read_u32s(b: &mut ByteBuffer, n: usize) -> (r: Result<Vec<u32>, ReadError>)
    ensures
        same_bytes(*old(b), *final(b)),
        match sp_many(n as nat, pos(*old(b)), u32_fn(dat(*old(b)), le(*old(b)))) {
            Some((v, q)) => r matches Ok(x) && x@ == v && pos(*final(b)) == q && bits_after(
                *old(b),
                *final(b),
            ),
            None => r == Err::<Vec<u32>, ReadError>(ReadError::Incomplete),
        },
{
    let ghost d = dat(*b);
    let ghost l = le(*b);
    let ghost p0 = pos(*b);
    let mut out: Vec<u32> = Vec::new();
    let mut i: usize = 0;
    while i < n
        invariant
            same_bytes(*old(b), *b),
            d == dat(*old(b)),
            l == le(*old(b)),
            p0 == pos(*old(b)),
            i <= n,
            sp_many(i as nat, p0, u32_fn(d, l)) == Some((out@, pos(*b))),
            bits_after(*old(b), *b),
        decreases n - i,
    {
        match read_f32_bits(b) {
            Ok(v) => {
                out.push(v);
            },
            Err(e) => {
                proof {
                    lemma_many_fails((i + 1) as nat, n as nat, p0, u32_fn(d, l));
                }
                return Err(e);
            },
        }
        i = i + 1;
    }
    Ok(out)
}

proof fn lemma_uint_at_1(d: Seq<u8>, p: int, le: bool)
    requires
        0 <= p < d.len(),
    ensures
        uint_at(d, p, 1, le) == d[p] as nat,
{
    let s = d.subrange(p, p + 1);
    assert(s.drop_first().len() == 0);
    assert(uint_le(s.drop_first()) == 0);
    assert(s.drop_last().len() == 0);
    assert(uint_be(s.drop_last()) == 0);
}

} // verus!
